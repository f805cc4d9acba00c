//! The symbol table of the code generator: scopes, temporaries, labels,
//! return ids and the cells of the frame.

use vstd::prelude::*;
use vstd::string::*;
use crate::error::CompileError;
use crate::ir::{IRVar, IRVarView, IR};
use crate::names::NameMap;
use crate::options::Options;
use crate::text::{chars_of, decimal, push_decimal, push_text, text_is};
use crate::zpaqcfg::ZPAQCfgFile;

verus! {

/// The operands of a scope as values.
pub open spec fn var_map(m: Map<Seq<char>, IRVar>) -> Map<Seq<char>, IRVarView> {
    Map::new(|k: Seq<char>| m.contains_key(k), |k: Seq<char>| m[k].deep_view())
}

/// What the compiler knows while it walks through a section: the names of
/// the scope and of the scopes around it, the temporaries in use, the next
/// free cell of the frame, the loops it is in, and counters for labels and
/// return ids.
pub struct SymbolTable {
    pub symbols: NameMap<IRVar>,
    pub previous: Vec<NameMap<IRVar>>,
    /// The slots of R that hold a temporary.
    pub live_ids: Vec<u8>,
    pub previous_ids: Vec<Vec<u8>>,
    /// The last cell of the frame that is in use, as an offset from its base.
    pub stack_pos: u32,
    pub previous_stack_pos: Vec<u32>,
    pub while_begins: Vec<String>,
    pub while_ends: Vec<String>,
    pub hh: u8,
    pub hm: u8,
    pub ph: u8,
    pub pm: u8,
    pub n: u8,
    /// The first cell of the stack in H.
    pub bsp: u32,
    pub label_id: u32,
    pub return_id: u32,
    pub last_line_printed: usize,
    /// The lines of the source text.
    pub source: Vec<String>,
}

/// A symbol table as a value.
pub struct TableView {
    pub symbols: Map<Seq<char>, IRVarView>,
    pub previous: Seq<Map<Seq<char>, IRVarView>>,
    pub live_ids: Seq<u8>,
    pub previous_ids: Seq<Seq<u8>>,
    pub stack_pos: u32,
    pub previous_stack_pos: Seq<u32>,
    pub while_begins: Seq<Seq<char>>,
    pub while_ends: Seq<Seq<char>>,
    pub hh: u8,
    pub hm: u8,
    pub ph: u8,
    pub pm: u8,
    pub n: u8,
    pub bsp: u32,
    pub label_id: u32,
    pub return_id: u32,
    pub last_line_printed: nat,
    pub source: Seq<Seq<char>>,
}

/// The texts of a list as values.
pub open spec fn texts(v: Seq<String>) -> Seq<Seq<char>> {
    Seq::new(v.len(), |i: int| v[i]@)
}

impl DeepView for SymbolTable {
    type V = TableView;

    open spec fn deep_view(&self) -> TableView {
        TableView {
            symbols: var_map(self.symbols@),
            previous: Seq::new(self.previous@.len(), |i: int| var_map(self.previous@[i]@)),
            live_ids: self.live_ids@,
            previous_ids: Seq::new(self.previous_ids@.len(), |i: int| self.previous_ids@[i]@),
            stack_pos: self.stack_pos,
            previous_stack_pos: self.previous_stack_pos@,
            while_begins: texts(self.while_begins@),
            while_ends: texts(self.while_ends@),
            hh: self.hh,
            hm: self.hm,
            ph: self.ph,
            pm: self.pm,
            n: self.n,
            bsp: self.bsp,
            label_id: self.label_id,
            return_id: self.return_id,
            last_line_printed: self.last_line_printed as nat,
            source: texts(self.source@),
        }
    }
}

/// The least slot from `from` to 251 that is not in use.
pub open spec fn first_free(live: Seq<u8>, from: int) -> Option<u8>
    decreases 252 - from,
{
    if from < 1 || from > 251 {
        None
    } else if !live.contains(from as u8) {
        Some(from as u8)
    } else {
        first_free(live, from + 1)
    }
}

/// The list without the first occurrence of `v`.
pub open spec fn without_first(s: Seq<u8>, v: u8) -> Seq<u8>
    decreases s.len(),
{
    if s.len() == 0 {
        s
    } else if s[0] == v {
        s.drop_first()
    } else {
        seq![s[0]] + without_first(s.drop_first(), v)
    }
}

/// Whether no slot occurs twice.
pub open spec fn distinct(s: Seq<u8>) -> bool {
    forall|i: int, j: int| 0 <= i < j < s.len() ==> s[i] != s[j]
}

/// The digits at the start of a text as a number, where the text starts
/// with a digit and the number stays below 2^32.
pub open spec fn leading_number(s: Seq<char>, n: int) -> Option<nat>
    decreases n,
{
    if n <= 0 || n > s.len() {
        None
    } else if !is_digit(s[n - 1]) {
        None
    } else if n == 1 {
        Some(digit_value(s[0]))
    } else {
        match leading_number(s, n - 1) {
            None => None,
            Some(m) => if m * 10 + digit_value(s[n - 1]) > 0xffff_ffff {
                None
            } else {
                Some(m * 10 + digit_value(s[n - 1]))
            },
        }
    }
}

/// Whether the character is a decimal digit.
pub open spec fn is_digit(c: char) -> bool {
    '0' <= c <= '9'
}

/// The value of a decimal digit.
pub open spec fn digit_value(c: char) -> nat {
    (c as u32 - '0' as u32) as nat
}

/// The number of characters before the first comma, or of all characters
/// where there is no comma.
pub open spec fn before_comma(s: Seq<char>, n: int) -> int
    decreases s.len() - n,
{
    if n < 0 || n >= s.len() {
        s.len() as int
    } else if s[n] == ',' {
        n
    } else {
        before_comma(s, n + 1)
    }
}

/// The line of a location: the number before its first comma.
pub open spec fn line_of(location: Seq<char>) -> Option<nat> {
    leading_number(location, before_comma(location, 0))
}

impl TableView {
    /// The value of a constant of the header, or of `NONE`.
    pub open spec fn header_constant(self, id: Seq<char>) -> Result<IRVarView, CompileError> {
        if id == "hh"@ {
            Ok(IRVarView::Number { value: self.hh as u32 })
        } else if id == "hm"@ {
            Ok(IRVarView::Number { value: self.hm as u32 })
        } else if id == "ph"@ {
            Ok(IRVarView::Number { value: self.ph as u32 })
        } else if id == "pm"@ {
            Ok(IRVarView::Number { value: self.pm as u32 })
        } else if id == "n"@ {
            Ok(IRVarView::Number { value: self.n as u32 })
        } else if id == "NONE"@ {
            Ok(IRVarView::Number { value: 4294967295 })
        } else {
            Err(CompileError::UnknownVariable)
        }
    }

    /// How a function reaches the cell `stack_offset` of the outermost
    /// frame: from the global base pointer, or at its address.
    pub open spec fn global_cell(self, stack_offset: u32, id: Seq<char>, fixed: bool) -> Result<
        IRVarView,
        CompileError,
    > {
        if fixed {
            if self.bsp + stack_offset > u32::MAX {
                Err(CompileError::LimitExceeded)
            } else {
                Ok(IRVarView::Hx { addr: (self.bsp + stack_offset) as u32 })
            }
        } else {
            Ok(IRVarView::Ht { stack_offset, local: false, orig_name: id })
        }
    }

    /// A cell of the outermost frame as a function sees it; every other
    /// operand is seen as it is.
    pub open spec fn global_operand(self, held: IRVarView, id: Seq<char>, fixed: bool) -> Result<
        IRVarView,
        CompileError,
    > {
        match held {
            IRVarView::Ht { stack_offset, local, .. } => if local {
                self.global_cell(stack_offset, id, fixed)
            } else {
                Ok(held)
            },
            x => Ok(x),
        }
    }

    /// A variable of the outermost scope as a function sees it: the mark
    /// of an array stays around the cell.
    pub open spec fn global_value(self, held: IRVarView, id: Seq<char>, fixed: bool) -> Result<
        IRVarView,
        CompileError,
    > {
        match held {
            IRVarView::VH(b) => match self.global_operand(*b, id, fixed) {
                Ok(c) => Ok(IRVarView::VH(Box::new(c))),
                Err(e) => Err(e),
            },
            IRVarView::VM(b) => match self.global_operand(*b, id, fixed) {
                Ok(c) => Ok(IRVarView::VM(Box::new(c))),
                Err(e) => Err(e),
            },
            x => self.global_operand(x, id, fixed),
        }
    }

    /// What a name stands for: a variable of the scope, else a variable of
    /// the outermost scope, else a constant of the header.
    pub open spec fn value_of(self, id: Seq<char>, fixed: bool) -> Result<IRVarView, CompileError> {
        if self.symbols.contains_key(id) {
            Ok(self.symbols[id])
        } else if self.previous.len() > 0 && self.previous[0].contains_key(id) {
            self.global_value(self.previous[0][id], id, fixed)
        } else {
            self.header_constant(id)
        }
    }

    /// The comment for a location, and the table after it: the line of the
    /// source at which the location lies, once, when the line changes.
    pub open spec fn line_comment(self, location: Seq<char>) -> (Option<Seq<char>>, TableView) {
        match line_of(location) {
            Some(line) => if line != self.last_line_printed && 1 <= line <= self.source.len() && line
                <= usize::MAX {
                (
                    Some("                    "@ + decimal(line) + ": "@ + self.source[line - 1]),
                    TableView { last_line_printed: line, ..self },
                )
            } else {
                (None, self)
            },
            None => (None, self),
        }
    }

    /// The table after a slot stops to be in use.
    pub open spec fn released(self, varid: u8) -> TableView {
        TableView { live_ids: without_first(self.live_ids, varid), ..self }
    }

    /// The table after the slot of an operand stops to be in use.
    pub open spec fn freed(self, v: IRVarView) -> TableView {
        match v.tovar().slot() {
            Some(s) => self.released(s),
            None => self,
        }
    }

    /// The table inside a new scope.
    pub open spec fn pushed(self) -> TableView {
        TableView {
            symbols: Map::empty(),
            previous: self.previous.push(self.symbols),
            live_ids: Seq::empty(),
            previous_ids: self.previous_ids.push(self.live_ids),
            stack_pos: 0,
            previous_stack_pos: self.previous_stack_pos.push(self.stack_pos),
            ..self
        }
    }

    /// The table back in the scope around. Where no scope is open, or the
    /// stacks of scopes differ in height, there is no scope to go back to,
    /// and the table stays as it is.
    pub open spec fn popped(self) -> TableView {
        if self.previous.len() > 0 && self.wf() {
            TableView {
                symbols: self.previous.last(),
                previous: self.previous.drop_last(),
                live_ids: self.previous_ids.last(),
                previous_ids: self.previous_ids.drop_last(),
                stack_pos: self.previous_stack_pos.last(),
                previous_stack_pos: self.previous_stack_pos.drop_last(),
                ..self
            }
        } else {
            self
        }
    }

    /// Whether the three stacks of scopes have the same height.
    pub open spec fn wf(self) -> bool {
        self.previous.len() == self.previous_ids.len() && self.previous.len() == self.previous_stack_pos.len()
    }
}

/// Leaving a scope undoes entering it: whatever names, temporaries and
/// cells the inner scope took, the names, the temporaries and the frame of
/// the scope around are back as they were. The counters of labels and
/// return ids are not set back, so that both stay unique.
pub proof fn lemma_pop_undoes_push(outer: TableView, inner: TableView)
    requires
        outer.wf(),
        inner.previous == outer.pushed().previous,
        inner.previous_ids == outer.pushed().previous_ids,
        inner.previous_stack_pos == outer.pushed().previous_stack_pos,
    ensures
        inner.popped().symbols == outer.symbols,
        inner.popped().live_ids == outer.live_ids,
        inner.popped().stack_pos == outer.stack_pos,
        inner.popped().previous == outer.previous,
        inner.popped().previous_ids == outer.previous_ids,
        inner.popped().previous_stack_pos == outer.previous_stack_pos,
        inner.popped().label_id == inner.label_id,
        inner.popped().return_id == inner.return_id,
        inner.popped().wf(),
{
    assert(outer.previous.push(outer.symbols).drop_last() =~= outer.previous);
    assert(outer.previous_ids.push(outer.live_ids).drop_last() =~= outer.previous_ids);
    assert(outer.previous_stack_pos.push(outer.stack_pos).drop_last() =~= outer.previous_stack_pos);
}

/// A label: the name, an underscore and the number.
pub open spec fn label_text(name: Seq<char>, id: u32) -> Seq<char> {
    name + "_"@ + decimal(id as nat)
}

proof fn lemma_without_first_found(s: Seq<u8>, v: u8, i: int)
    requires
        0 <= i < s.len(),
        s[i] == v,
        forall|j: int| 0 <= j < i ==> s[j] != v,
    ensures
        without_first(s, v) == s.remove(i),
    decreases s.len(),
{
    if i == 0 {
        assert(s.remove(0) =~= s.drop_first());
    } else {
        let t = s.drop_first();
        assert forall|j: int| 0 <= j < i - 1 implies t[j] != v by {
            assert(t[j] == s[j + 1]);
        }
        lemma_without_first_found(t, v, i - 1);
        assert(s.remove(i) =~= seq![s[0]] + t.remove(i - 1));
    }
}

proof fn lemma_without_first_absent(s: Seq<u8>, v: u8)
    requires
        forall|j: int| 0 <= j < s.len() ==> s[j] != v,
    ensures
        without_first(s, v) == s,
    decreases s.len(),
{
    if s.len() > 0 {
        let t = s.drop_first();
        assert forall|j: int| 0 <= j < t.len() implies t[j] != v by {
            assert(t[j] == s[j + 1]);
        }
        lemma_without_first_absent(t, v);
        assert(s =~= seq![s[0]] + t);
    }
}

/// A slot that is released is no longer in use, where no slot was in use
/// twice; and the other slots stay in use.
pub proof fn lemma_released_gone(s: Seq<u8>, v: u8)
    requires
        distinct(s),
    ensures
        !without_first(s, v).contains(v),
        distinct(without_first(s, v)),
        forall|w: u8| w != v ==> without_first(s, v).contains(w) == s.contains(w),
    decreases s.len(),
{
    if s.len() > 0 {
        let t = s.drop_first();
        assert(distinct(t)) by {
            assert forall|i: int, j: int| 0 <= i < j < t.len() implies t[i] != t[j] by {
                assert(t[i] == s[i + 1] && t[j] == s[j + 1]);
            }
        }
        lemma_released_gone(t, v);
        let r = without_first(s, v);
        if s[0] == v {
            assert(r == t);
            if t.contains(v) {
                let j = choose|j: int| 0 <= j < t.len() && t[j] == v;
                assert(s[j + 1] == v);
            }
            assert forall|w: u8| w != v implies r.contains(w) == s.contains(w) by {
                if s.contains(w) {
                    let j = choose|j: int| 0 <= j < s.len() && s[j] == w;
                    assert(t[j - 1] == w);
                }
                if t.contains(w) {
                    let j = choose|j: int| 0 <= j < t.len() && t[j] == w;
                    assert(s[j + 1] == w);
                }
            }
        } else {
            let u = without_first(t, v);
            assert(r == seq![s[0]] + u);
            if r.contains(v) {
                let j = choose|j: int| 0 <= j < r.len() && r[j] == v;
                assert(u[j - 1] == v);
            }
            assert forall|w: u8| w != v implies r.contains(w) == s.contains(w) by {
                if r.contains(w) {
                    let j = choose|j: int| 0 <= j < r.len() && r[j] == w;
                    if j > 0 {
                        assert(u[j - 1] == w);
                        assert(t.contains(w));
                        let k = choose|k: int| 0 <= k < t.len() && t[k] == w;
                        assert(s[k + 1] == w);
                    } else {
                        assert(s[0] == w);
                    }
                }
                if s.contains(w) {
                    let j = choose|j: int| 0 <= j < s.len() && s[j] == w;
                    if j > 0 {
                        assert(t[j - 1] == w);
                        assert(t.contains(w));
                        assert(u.contains(w));
                        let k = choose|k: int| 0 <= k < u.len() && u[k] == w;
                        assert(r[k + 1] == w);
                    } else {
                        assert(r[0] == w);
                    }
                }
            }
            assert forall|i: int, j: int| 0 <= i < j < r.len() implies r[i] != r[j] by {
                if i == 0 {
                    if r[j] == s[0] {
                        assert(u[j - 1] == s[0]);
                        assert(u.contains(s[0]));
                        assert(t.contains(s[0]));
                        let k = choose|k: int| 0 <= k < t.len() && t[k] == s[0];
                        assert(s[k + 1] == s[0]);
                    }
                } else {
                    assert(r[i] == u[i - 1] && r[j] == u[j - 1]);
                }
            }
        }
    }
}

/// A temporary that is taken was not in use, is one of the slots 1 to 251,
/// and leaves no slot in use twice.
pub proof fn lemma_first_free(live: Seq<u8>, from: int)
    requires
        first_free(live, from) is Some,
        distinct(live),
    ensures
        1 <= first_free(live, from)->0 <= 251,
        from <= first_free(live, from)->0,
        !live.contains(first_free(live, from)->0),
        distinct(live.push(first_free(live, from)->0)),
    decreases 252 - from,
{
    if 1 <= from <= 251 && live.contains(from as u8) {
        lemma_first_free(live, from + 1);
    } else {
        let v = first_free(live, from)->0;
        let r = live.push(v);
        assert forall|i: int, j: int| 0 <= i < j < r.len() implies r[i] != r[j] by {
            if j == live.len() {
                assert(live[i] == r[i]);
            }
        }
    }
}

fn digit_of(c: char) -> (r: Option<u32>)
    ensures
        r is Some == is_digit(c),
        r matches Some(d) ==> d == digit_value(c) && d <= 9,
{
    if '0' <= c && c <= '9' {
        Some(c as u32 - '0' as u32)
    } else {
        None
    }
}

/// The line of a location: the number before its first comma.
pub fn line_number(location: &str) -> (r: Option<u32>)
    ensures
        match r {
            Some(n) => line_of(location@) == Some(n as nat),
            None => line_of(location@) is None,
        },
{
    let cs = chars_of(location);
    let mut end: usize = 0;
    while end < cs.len() && cs[end] != ','
        invariant
            end <= cs.len(),
            before_comma(cs@, 0) == before_comma(cs@, end as int),
        decreases cs.len() - end,
    {
        end += 1;
    }
    assert(before_comma(cs@, end as int) == end);
    let mut n: u32 = 0;
    let mut i: usize = 0;
    while i < end
        invariant
            i <= end <= cs.len(),
            cs@ == location@,
            before_comma(cs@, 0) == end,
            i > 0 ==> leading_number(cs@, i as int) == Some(n as nat),
        decreases end - i,
    {
        match digit_of(cs[i]) {
            None => {
                proof {
                    assert(leading_number(cs@, i + 1) is None);
                    lemma_leading_number_fails(cs@, i + 1, end as int);
                }
                return None;
            },
            Some(d) => {
                if i == 0 {
                    n = d;
                } else if n > (0xffff_ffff - d) / 10 {
                    proof {
                        assert(leading_number(cs@, i + 1) is None);
                        lemma_leading_number_fails(cs@, i + 1, end as int);
                    }
                    return None;
                } else {
                    n = n * 10 + d;
                }
            },
        }
        i += 1;
    }
    if end == 0 {
        None
    } else {
        Some(n)
    }
}

proof fn lemma_leading_number_fails(s: Seq<char>, k: int, n: int)
    requires
        1 <= k <= n <= s.len(),
        leading_number(s, k) is None,
    ensures
        leading_number(s, n) is None,
    decreases n - k,
{
    if k < n {
        lemma_leading_number_fails(s, k, n - 1);
    }
}

impl SymbolTable {
    /// The table before anything is known.
    pub fn new() -> (st: SymbolTable)
        ensures
            st.deep_view() == (TableView {
                symbols: Map::empty(),
                previous: Seq::empty(),
                live_ids: Seq::empty(),
                previous_ids: Seq::empty(),
                stack_pos: 0,
                previous_stack_pos: Seq::empty(),
                while_begins: Seq::empty(),
                while_ends: Seq::empty(),
                hh: 0,
                hm: 0,
                ph: 0,
                pm: 0,
                n: 0,
                bsp: 0,
                label_id: 0,
                return_id: 0,
                last_line_printed: 0,
                source: Seq::empty(),
            }),
    {
        let st = SymbolTable {
            symbols: NameMap::new(),
            previous: Vec::new(),
            live_ids: Vec::new(),
            previous_ids: Vec::new(),
            stack_pos: 0,
            previous_stack_pos: Vec::new(),
            while_begins: Vec::new(),
            while_ends: Vec::new(),
            hh: 0,
            hm: 0,
            ph: 0,
            pm: 0,
            n: 0,
            bsp: 0,
            label_id: 0,
            return_id: 0,
            last_line_printed: 0,
            source: Vec::new(),
        };
        let ghost v = st.deep_view();
        assert(v.symbols =~= Map::empty());
        assert(v.previous =~= Seq::empty());
        assert(v.live_ids =~= Seq::empty());
        assert(v.previous_ids =~= Seq::empty());
        assert(v.previous_stack_pos =~= Seq::empty());
        assert(v.while_begins =~= Seq::empty());
        assert(v.while_ends =~= Seq::empty());
        assert(v.source =~= Seq::empty());
        st
    }

    /// The table before anything is known, with the sizes of a
    /// configuration.
    pub fn new_from_model(zpaqcfgfile: &ZPAQCfgFile) -> (st: SymbolTable)
        ensures
            st.deep_view() == (TableView {
                hh: zpaqcfgfile.hh,
                hm: zpaqcfgfile.hm,
                ph: zpaqcfgfile.ph,
                pm: zpaqcfgfile.pm,
                n: zpaqcfgfile.n,
                ..SymbolTable::new_view()
            }),
    {
        let mut st = SymbolTable::new();
        st.hh = zpaqcfgfile.hh;
        st.hm = zpaqcfgfile.hm;
        st.ph = zpaqcfgfile.ph;
        st.pm = zpaqcfgfile.pm;
        st.n = zpaqcfgfile.n;
        st
    }

    /// The table before anything is known, as a value.
    pub open spec fn new_view() -> TableView {
        TableView {
            symbols: Map::empty(),
            previous: Seq::empty(),
            live_ids: Seq::empty(),
            previous_ids: Seq::empty(),
            stack_pos: 0,
            previous_stack_pos: Seq::empty(),
            while_begins: Seq::empty(),
            while_ends: Seq::empty(),
            hh: 0,
            hm: 0,
            ph: 0,
            pm: 0,
            n: 0,
            bsp: 0,
            label_id: 0,
            return_id: 0,
            last_line_printed: 0,
            source: Seq::empty(),
        }
    }

    /// A label that was not given out before: the name with a number.
    pub fn get_new_label(&mut self, name: &str) -> (r: Result<String, CompileError>)
        ensures
            match r {
                Ok(label) => old(self).label_id < u32::MAX && label@ == label_text(
                    name@,
                    (old(self).label_id + 1) as u32,
                ) && final(self).deep_view() == (TableView {
                    label_id: (old(self).label_id + 1) as u32,
                    ..old(self).deep_view()
                }),
                Err(e) => e == CompileError::LimitExceeded && old(self).label_id == u32::MAX && final(self).deep_view() == old(self).deep_view(),
            },
    {
        if self.label_id == u32::MAX {
            return Err(CompileError::LimitExceeded);
        }
        self.label_id = self.label_id + 1;
        let mut s = String::from_str(name);
        push_text(&mut s, "_");
        push_decimal(&mut s, self.label_id as u64);
        Ok(s)
    }

    /// A return id that was not given out before.
    pub fn make_new_return_id(&mut self) -> (r: Result<u32, CompileError>)
        ensures
            match r {
                Ok(id) => old(self).return_id < u32::MAX && id == old(self).return_id && final(self).deep_view() == (TableView { return_id: (id + 1) as u32, ..old(self).deep_view() }),
                Err(e) => e == CompileError::LimitExceeded && old(self).return_id == u32::MAX && final(self).deep_view() == old(self).deep_view(),
            },
    {
        if self.return_id == u32::MAX {
            return Err(CompileError::LimitExceeded);
        }
        let i = self.return_id;
        self.return_id = self.return_id + 1;
        Ok(i)
    }

    /// The next free cell of the frame.
    pub fn make_stack_var(&mut self) -> (r: Result<u32, CompileError>)
        ensures
            match r {
                Ok(pos) => old(self).stack_pos < u32::MAX && pos == old(self).stack_pos + 1 && final(self).deep_view() == (TableView { stack_pos: pos, ..old(self).deep_view() }),
                Err(e) => e == CompileError::LimitExceeded && old(self).stack_pos == u32::MAX && final(self).deep_view() == old(self).deep_view(),
            },
    {
        if self.stack_pos == u32::MAX {
            return Err(CompileError::LimitExceeded);
        }
        self.stack_pos = self.stack_pos + 1;
        Ok(self.stack_pos)
    }

    fn uses(&self, v: u8) -> (b: bool)
        ensures
            b == self.live_ids@.contains(v),
    {
        let mut i: usize = 0;
        while i < self.live_ids.len()
            invariant
                i <= self.live_ids.len(),
                forall|j: int| 0 <= j < i ==> self.live_ids@[j] != v,
            decreases self.live_ids.len() - i,
        {
            if self.live_ids[i] == v {
                return true;
            }
            i += 1;
        }
        false
    }

    /// Takes the least slot from 1 to 251 that is not in use as a
    /// temporary. The slots 252 to 255 are never taken.
    pub fn make_temp_var(&mut self) -> (r: Result<u8, CompileError>)
        ensures
            match r {
                Ok(v) => first_free(old(self).live_ids@, 1) == Some(v) && final(self).deep_view() == (TableView {
                    live_ids: old(self).live_ids@.push(v),
                    ..old(self).deep_view()
                }),
                Err(e) => e == CompileError::OutOfTemporaries && first_free(old(self).live_ids@, 1) is None
                    && final(self).deep_view() == old(self).deep_view(),
            },
    {
        let mut v: u8 = 1;
        while v < 252
            invariant
                1 <= v <= 252,
                *self == *old(self),
                first_free(self.live_ids@, 1) == first_free(self.live_ids@, v as int),
            decreases 252 - v,
        {
            if !self.uses(v) {
                self.live_ids.push(v);
                return Ok(v);
            }
            v += 1;
        }
        Err(CompileError::OutOfTemporaries)
    }

    /// Releases a slot, if it is in use.
    pub fn try_removing_varid(&mut self, varid: u8)
        ensures
            final(self).deep_view() == old(self).deep_view().released(varid),
    {
        let mut i: usize = 0;
        while i < self.live_ids.len()
            invariant
                i <= self.live_ids.len(),
                *self == *old(self),
                forall|j: int| 0 <= j < i ==> self.live_ids@[j] != varid,
            decreases self.live_ids.len() - i,
        {
            if self.live_ids[i] == varid {
                proof {
                    lemma_without_first_found(self.live_ids@, varid, i as int);
                }
                self.live_ids.remove(i);
                return;
            }
            i += 1;
        }
        proof {
            lemma_without_first_absent(self.live_ids@, varid);
        }
    }

    /// Releases the slot of an operand: the slot itself, or the slot that
    /// points to the operand's cell.
    pub fn try_freeing_varid(&mut self, irvar: &IRVar)
        ensures
            final(self).deep_view() == old(self).deep_view().freed(irvar.deep_view()),
    {
        match irvar.tovar() {
            IRVar::Var { varid } => {
                self.try_removing_varid(varid);
            },
            IRVar::M { index_varid } => {
                self.try_removing_varid(index_varid);
            },
            IRVar::H { index_varid, orig_name } => {
                self.try_removing_varid(index_varid);
            },
            _ => {},
        }
    }

    fn header_constant(&self, id: &str) -> (r: Result<IRVar, CompileError>)
        ensures
            match r {
                Ok(v) => self.deep_view().header_constant(id@) == Ok::<IRVarView, CompileError>(v.deep_view()),
                Err(e) => self.deep_view().header_constant(id@) == Err::<IRVarView, CompileError>(e),
            },
    {
        if text_is(id, "hh") {
            Ok(IRVar::Number { value: self.hh as u32 })
        } else if text_is(id, "hm") {
            Ok(IRVar::Number { value: self.hm as u32 })
        } else if text_is(id, "ph") {
            Ok(IRVar::Number { value: self.ph as u32 })
        } else if text_is(id, "pm") {
            Ok(IRVar::Number { value: self.pm as u32 })
        } else if text_is(id, "n") {
            Ok(IRVar::Number { value: self.n as u32 })
        } else if text_is(id, "NONE") {
            Ok(IRVar::Number { value: 4294967295 })
        } else {
            Err(CompileError::UnknownVariable)
        }
    }

    /// How a function reaches a cell of the outermost frame.
    pub fn global_cell(&self, stack_offset: u32, id: &str, fixed: bool) -> (r: Result<IRVar, CompileError>)
        ensures
            match r {
                Ok(v) => self.deep_view().global_cell(stack_offset, id@, fixed) == Ok::<IRVarView, CompileError>(
                    v.deep_view(),
                ),
                Err(e) => self.deep_view().global_cell(stack_offset, id@, fixed) == Err::<
                    IRVarView,
                    CompileError,
                >(e),
            },
    {
        if fixed {
            match self.bsp.checked_add(stack_offset) {
                Some(addr) => Ok(IRVar::Hx { addr }),
                None => Err(CompileError::LimitExceeded),
            }
        } else {
            Ok(IRVar::Ht { stack_offset, local: false, orig_name: String::from_str(id) })
        }
    }

    fn global_operand(&self, held: &IRVar, id: &str, fixed: bool) -> (r: Result<IRVar, CompileError>)
        ensures
            match r {
                Ok(v) => self.deep_view().global_operand(held.deep_view(), id@, fixed) == Ok::<
                    IRVarView,
                    CompileError,
                >(v.deep_view()),
                Err(e) => self.deep_view().global_operand(held.deep_view(), id@, fixed) == Err::<
                    IRVarView,
                    CompileError,
                >(e),
            },
    {
        match held {
            IRVar::Ht { stack_offset, local, orig_name } => {
                if *local {
                    self.global_cell(*stack_offset, id, fixed)
                } else {
                    Ok(held.clone())
                }
            },
            x => Ok(x.clone()),
        }
    }

    fn global_value(&self, held: &IRVar, id: &str, fixed: bool) -> (r: Result<IRVar, CompileError>)
        ensures
            match r {
                Ok(v) => self.deep_view().global_value(held.deep_view(), id@, fixed) == Ok::<
                    IRVarView,
                    CompileError,
                >(v.deep_view()),
                Err(e) => self.deep_view().global_value(held.deep_view(), id@, fixed) == Err::<
                    IRVarView,
                    CompileError,
                >(e),
            },
    {
        match held {
            IRVar::VH(boxed) => {
                match self.global_operand(&**boxed, id, fixed) {
                    Ok(c) => Ok(IRVar::VH(Box::new(c))),
                    Err(e) => Err(e),
                }
            },
            IRVar::VM(boxed) => {
                match self.global_operand(&**boxed, id, fixed) {
                    Ok(c) => Ok(IRVar::VM(Box::new(c))),
                    Err(e) => Err(e),
                }
            },
            x => self.global_operand(x, id, fixed),
        }
    }

    /// What a name stands for, and the instructions to reach it, of which
    /// there are none: a variable of the scope, else a variable of the
    /// outermost scope, else a constant of the header.
    pub fn get_value(&self, id: &str, optioncfg: &Options) -> (r: Result<(IRVar, Vec<IR>), CompileError>)
        ensures
            match r {
                Ok((v, code)) => self.deep_view().value_of(id@, optioncfg.fixed_global_access) == Ok::<
                    IRVarView,
                    CompileError,
                >(v.deep_view()) && code@.len() == 0,
                Err(e) => self.deep_view().value_of(id@, optioncfg.fixed_global_access) == Err::<
                    IRVarView,
                    CompileError,
                >(e),
            },
    {
        let v = match self.symbols.get(id) {
            Some(x) => x.clone(),
            None => {
                let outer = if self.previous.len() > 0 {
                    self.previous[0].get(id)
                } else {
                    None
                };
                match outer {
                    Some(held) => self.global_value(held, id, optioncfg.fixed_global_access)?,
                    None => self.header_constant(id)?,
                }
            },
        };
        Ok((v, Vec::new()))
    }

    /// Enters a new scope.
    pub fn push(&mut self)
        ensures
            final(self).deep_view() == old(self).deep_view().pushed(),
    {
        let mut symbols: NameMap<IRVar> = NameMap::new();
        core::mem::swap(&mut self.symbols, &mut symbols);
        self.previous.push(symbols);
        let mut ids: Vec<u8> = Vec::new();
        core::mem::swap(&mut self.live_ids, &mut ids);
        self.previous_ids.push(ids);
        self.previous_stack_pos.push(self.stack_pos);
        self.stack_pos = 0;
        let ghost v = final(self).deep_view();
        let ghost w = old(self).deep_view().pushed();
        assert(v.symbols =~= w.symbols);
        assert(v.previous =~= w.previous);
        assert(v.live_ids =~= w.live_ids);
        assert(v.previous_ids =~= w.previous_ids);
    }

    /// Returns to the scope around: the names, the temporaries and the
    /// frame of the scope that is left are dropped. A scope has to be open.
    pub fn pop(&mut self)
        requires
            old(self).deep_view().previous.len() > 0,
            old(self).deep_view().wf(),
        ensures
            final(self).deep_view() == old(self).deep_view().popped(),
            final(self).deep_view().wf(),
    {
        self.symbols = self.previous.pop().unwrap();
        self.live_ids = self.previous_ids.pop().unwrap();
        self.stack_pos = self.previous_stack_pos.pop().unwrap();
        let ghost v = final(self).deep_view();
        let ghost w = old(self).deep_view().popped();
        assert(v.previous =~= w.previous);
        assert(v.previous_ids =~= w.previous_ids);
        assert(v.previous_stack_pos =~= w.previous_stack_pos);
    }

    /// Whether a scope is open that `pop` can leave.
    pub fn in_scope(&self) -> (b: bool)
        ensures
            b == (self.deep_view().previous.len() > 0 && self.deep_view().wf()),
    {
        self.previous.len() > 0 && self.previous_ids.len() == self.previous.len() && self.previous_stack_pos.len()
            == self.previous.len()
    }

    /// The comment for a location: the line of the source at which it
    /// lies, with its number. Each line is given once, when the line
    /// changes.
    pub fn source_line(&mut self, location: String) -> (r: Option<String>)
        ensures
            final(self).deep_view() == old(self).deep_view().line_comment(location@).1,
            match r {
                Some(text) => old(self).deep_view().line_comment(location@).0 == Some(text@),
                None => old(self).deep_view().line_comment(location@).0 is None,
            },
    {
        let line = match line_number(location.as_str()) {
            Some(n) => n as usize,
            None => {
                return None;
            },
        };
        if line != self.last_line_printed && 1 <= line && line <= self.source.len() {
            self.last_line_printed = line;
            let mut s = String::from_str("                    ");
            push_decimal(&mut s, line as u64);
            push_text(&mut s, ": ");
            push_text(&mut s, self.source[line - 1].as_str());
            Some(s)
        } else {
            None
        }
    }
}

} // verus!
