//! From the statements of a program to the intermediate code of its two
//! sections: the header, the entry code and the jump code.

use vstd::prelude::*;
use vstd::string::*;
use crate::ast::{expr_views, stmt_views, Expr, ExprContext, ExprView, Stmt, StmtView};
use crate::error::CompileError;
use crate::ir::{ir_views, IRVar, IRVarView, IRView, IR};
use crate::options::Options;
use crate::post_ir::{optimise, optimised};
use crate::slots::SlotSet;
use crate::statements::{traverse, traversed};
use crate::symbols::{texts, SymbolTable, TableView};
use crate::text::{join, lemma_join_step, lines, lines_of, push_text, text_is};
use crate::zpaqcfg::{power_of_two, two_to, CfgView, ZPAQCfgFile};
use crate::zpaql::ZPAQLOp;

verus! {

/// A number as a byte: its low 8 bits.
pub open spec fn low_byte(n: int) -> u8 {
    (n % 256) as u8
}

/// The components of a model from the `n`-th key on: the keys as indices,
/// the values as definitions. What is no number counts as 0, what is no
/// text or missing as the empty text.
pub open spec fn components(keys: Seq<ExprView>, values: Seq<ExprView>, n: int) -> Seq<(u8, Seq<char>)>
    decreases keys.len() - n,
{
    if n < 0 || n >= keys.len() {
        Seq::empty()
    } else {
        seq![
            (
                match keys[n] {
                    ExprView::Num { n: i, .. } => low_byte(i as int),
                    _ => 0u8,
                },
                if n < values.len() {
                    match values[n] {
                        ExprView::Str { s, .. } => s,
                        _ => Seq::empty(),
                    }
                } else {
                    Seq::empty()
                },
            ),
        ] + components(keys, values, n + 1)
    }
}

/// The byte that a number of the source stands for.
pub open spec fn number_of(value: ExprView) -> Option<u8> {
    match value {
        ExprView::Num { n, .. } => Some(low_byte(n as int)),
        _ => None,
    }
}

/// The text that a string of the source holds.
pub open spec fn text_of(value: ExprView) -> Option<Seq<char>> {
    match value {
        ExprView::Str { s, .. } => Some(s),
        _ => None,
    }
}

/// The number of components and the components of `len({..})`.
pub open spec fn model_of(value: ExprView) -> Option<(u8, Seq<(u8, Seq<char>)>)> {
    match value {
        ExprView::Call { func, args, .. } => if func == "len"@ && args.len() > 0 {
            match args[0] {
                ExprView::Dict { keys, values, .. } => Some(
                    (low_byte(keys.len() as int), components(keys, values, 0)),
                ),
                _ => None,
            }
        } else {
            None
        },
        _ => None,
    }
}

/// The name that an assignment assigns to, and the value.
pub open spec fn assignment_of(s: StmtView) -> Option<(Seq<char>, ExprView)> {
    match s {
        StmtView::Assign { target, value, .. } => match *target {
            ExprView::Name { id, ctx: ExprContext::Store, .. } => Some((id, *value)),
            _ => None,
        },
        _ => None,
    }
}

/// The configuration after one statement of the header: an assignment of
/// a number to `hh`, `hm`, `ph` or `pm`, of a text to `pcomp_invocation`,
/// or of `len({..})` to `n` sets what it names; everything else is passed
/// over.
pub open spec fn header_step(cfg: CfgView, s: StmtView) -> CfgView {
    match assignment_of(s) {
        None => cfg,
        Some((id, value)) => {
            if id == "hh"@ {
                match number_of(value) {
                    Some(b) => CfgView { hh: b, ..cfg },
                    None => cfg,
                }
            } else if id == "hm"@ {
                match number_of(value) {
                    Some(b) => CfgView { hm: b, ..cfg },
                    None => cfg,
                }
            } else if id == "ph"@ {
                match number_of(value) {
                    Some(b) => CfgView { ph: b, ..cfg },
                    None => cfg,
                }
            } else if id == "pm"@ {
                match number_of(value) {
                    Some(b) => CfgView { pm: b, ..cfg },
                    None => cfg,
                }
            } else if id == "pcomp_invocation"@ {
                match text_of(value) {
                    Some(t) => CfgView { pcomp_invocation: t, ..cfg },
                    None => cfg,
                }
            } else if id == "n"@ {
                match model_of(value) {
                    Some((n, more)) => CfgView { n, model: cfg.model + more, ..cfg },
                    None => cfg,
                }
            } else {
                cfg
            }
        },
    }
}

/// The configuration after the first `n` statements of the header.
pub open spec fn header_read(stmts: Seq<StmtView>, n: int, cfg: CfgView) -> CfgView
    decreases n,
{
    if n <= 0 || n > stmts.len() {
        cfg
    } else {
        header_step(header_read(stmts, n - 1, cfg), stmts[n - 1])
    }
}

/// The configuration before the header is read: all sizes 0, no
/// component, no code.
pub open spec fn blank_cfg(stacksize: u32) -> CfgView {
    CfgView {
        hh: 0,
        hm: 0,
        ph: 0,
        pm: 0,
        n: 0,
        model: Seq::empty(),
        pcomp_invocation: Seq::empty(),
        stacksize,
        hcomp: Seq::empty(),
        pcomp: Seq::empty(),
        finalised: false,
    }
}

fn as_byte(n: usize) -> (b: u8)
    ensures
        b == low_byte(n as int),
{
    (n % 256) as u8
}

fn push_components(model: &mut Vec<(u8, String)>, keys: &Vec<Expr>, values: &Vec<Expr>)
    ensures
        model_view(final(model)@) == model_view(old(model)@) + components(expr_views(keys@), expr_views(values@), 0),
{
    let ghost ks = expr_views(keys@);
    let ghost vs = expr_views(values@);
    let ghost start = model_view(model@);
    let mut k: usize = 0;
    assert(model_view(model@) + components(ks, vs, 0) =~= start + components(ks, vs, 0));
    while k < keys.len()
        invariant
            k <= keys.len(),
            ks == expr_views(keys@),
            vs == expr_views(values@),
            model_view(model@) + components(ks, vs, k as int) == start + components(ks, vs, 0),
        decreases keys.len() - k,
    {
        assert(ks[k as int] == keys@[k as int].deep_view());
        let i = match &keys[k] {
            Expr::Num { n, location } => as_byte(*n as usize),
            _ => 0,
        };
        let c = if k < values.len() {
            assert(vs[k as int] == values@[k as int].deep_view());
            match &values[k] {
                Expr::Str { s, location } => s.clone(),
                _ => String::new(),
            }
        } else {
            String::new()
        };
        let ghost before = model_view(model@);
        model.push((i, c));
        assert(model_view(model@) =~= before.push((i, c@)));
        assert(before.push((i, c@)) + components(ks, vs, k + 1) =~= before + components(ks, vs, k as int));
        k += 1;
    }
    assert(model_view(model@) + components(ks, vs, keys.len() as int) =~= model_view(model@));
}

/// The components of a model as values.
pub open spec fn model_view(model: Seq<(u8, String)>) -> Seq<(u8, Seq<char>)> {
    Seq::new(model.len(), |i: int| (model[i].0, model[i].1@))
}

fn read_number(value: &Expr) -> (r: Option<u8>)
    ensures
        r == number_of(value.deep_view()),
{
    match value {
        Expr::Num { n, location } => Some(as_byte(*n as usize)),
        _ => None,
    }
}

fn read_text(value: &Expr) -> (r: Option<String>)
    ensures
        match r {
            Some(s) => text_of(value.deep_view()) == Some(s@),
            None => text_of(value.deep_view()) is None,
        },
{
    match value {
        Expr::Str { s, location } => Some(s.clone()),
        _ => None,
    }
}

fn read_model(value: &Expr) -> (r: Option<(u8, Vec<(u8, String)>)>)
    ensures
        match r {
            Some((n, more)) => model_of(value.deep_view()) == Some((n, model_view(more@))),
            None => model_of(value.deep_view()) is None,
        },
{
    match value {
        Expr::Call { func, args, keywords, location } => {
            assert(value.deep_view() == (ExprView::Call {
                func: func@,
                args: expr_views(args@),
                keywords: crate::ast::keyword_views(keywords@),
                location: location@,
            }));
            if text_is(func.as_str(), "len") && args.len() > 0 {
                assert(expr_views(args@)[0] == args@[0].deep_view());
                match &args[0] {
                    Expr::Dict { keys, values, location: _ } => {
                        let mut more: Vec<(u8, String)> = Vec::new();
                        assert(model_view(more@) =~= Seq::<(u8, Seq<char>)>::empty());
                        push_components(&mut more, keys, values);
                        assert(model_view(more@) =~= components(expr_views(keys@), expr_views(values@), 0));
                        Some((as_byte(keys.len()), more))
                    },
                    _ => None,
                }
            } else {
                None
            }
        },
        _ => None,
    }
}

fn read_header_step(cfg: &mut ZPAQCfgFile, node: &Stmt)
    ensures
        final(cfg).deep_view() == header_step(old(cfg).deep_view(), node.deep_view()),
{
    let (id, value) = match node {
        Stmt::Assign { target, value, location } => {
            match &**target {
                Expr::Name { id, ctx: ExprContext::Store, location: _ } => (id, &**value),
                _ => {
                    return;
                },
            }
        },
        _ => {
            return;
        },
    };
    assert(assignment_of(node.deep_view()) == Some((id@, value.deep_view())));
    let name = id.as_str();
    if text_is(name, "hh") {
        match read_number(value) {
            Some(b) => {
                cfg.hh = b;
            },
            None => {},
        }
    } else if text_is(name, "hm") {
        match read_number(value) {
            Some(b) => {
                cfg.hm = b;
            },
            None => {},
        }
    } else if text_is(name, "ph") {
        match read_number(value) {
            Some(b) => {
                cfg.ph = b;
            },
            None => {},
        }
    } else if text_is(name, "pm") {
        match read_number(value) {
            Some(b) => {
                cfg.pm = b;
            },
            None => {},
        }
    } else if text_is(name, "pcomp_invocation") {
        match read_text(value) {
            Some(t) => {
                cfg.pcomp_invocation = t;
            },
            None => {},
        }
    } else if text_is(name, "n") {
        match read_model(value) {
            Some((n, more)) => {
                cfg.n = n;
                let ghost added = model_view(more@);
                let mut rest = more;
                cfg.model.append(&mut rest);
                assert(final(cfg).deep_view().model =~= old(cfg).deep_view().model + added);
            },
            None => {},
        }
    }
}

/// Reads the sizes of the arrays, the components of the model and the
/// invocation of the preprocessor from the statements of the header.
pub fn read_context_model(parsed_stmts: &[Stmt], optioncfg: &Options) -> (cfg: ZPAQCfgFile)
    ensures
        cfg.deep_view() == header_read(
            stmt_views(parsed_stmts@),
            parsed_stmts@.len() as int,
            blank_cfg(optioncfg.stacksize),
        ),
{
    let mut cfg = ZPAQCfgFile {
        finalised: false,
        stacksize: optioncfg.stacksize,
        hh: 0,
        hm: 0,
        ph: 0,
        pm: 0,
        n: 0,
        model: Vec::new(),
        hcomp: Vec::new(),
        pcomp: Vec::new(),
        pcomp_invocation: String::new(),
    };
    let ghost all = stmt_views(parsed_stmts@);
    let ghost blank = blank_cfg(optioncfg.stacksize);
    proof {
        let v = cfg.deep_view();
        assert(v.model =~= blank.model);
        assert(v.pcomp_invocation =~= blank.pcomp_invocation);
        assert(v.hcomp =~= blank.hcomp);
        assert(v.pcomp =~= blank.pcomp);
    }
    let mut i: usize = 0;
    while i < parsed_stmts.len()
        invariant
            i <= parsed_stmts.len(),
            all == stmt_views(parsed_stmts@),
            cfg.deep_view() == header_read(all, i as int, blank),
        decreases parsed_stmts.len() - i,
    {
        assert(all[i as int] == parsed_stmts@[i as int].deep_view());
        read_header_step(&mut cfg, &parsed_stmts[i]);
        i += 1;
    }
    cfg
}

/// The return ids from 0 up to `last`.
pub open spec fn ids_upto(last: u32) -> Seq<u32> {
    Seq::new((last + 1) as nat, |i: int| i as u32)
}

/// The table at the start of a section.
pub open spec fn section_table(is_hcomp: bool, cfg: CfgView, source: Seq<char>) -> TableView {
    TableView {
        hh: cfg.hh,
        hm: cfg.hm,
        ph: cfg.ph,
        pm: cfg.pm,
        n: cfg.n,
        source: lines_of(source),
        bsp: two_to(
            if is_hcomp {
                cfg.hh as nat
            } else {
                cfg.ph as nat
            },
        ) as u32,
        ..SymbolTable::new_view()
    }
}

/// The name of the function of a section.
pub open spec fn section_name(is_hcomp: bool) -> Seq<char> {
    if is_hcomp {
        "hcomp"@
    } else {
        "pcomp"@
    }
}

/// What follows the code of the statements of a section: the function of
/// the section is called for each byte with an empty push-back slot, and
/// the jump code for all return ids comes last.
pub open spec fn section_tail(is_hcomp: bool, stack_pos: u32, ret_id: u32, stackend: u32) -> Seq<IRView> {
    seq![
        IRView::Label { label: "call_next"@ },
        IRView::Assign {
            target: IRVarView::Var { varid: 253 },
            source: IRVarView::Number { value: 4294967294 },
        },
        IRView::Call {
            label: section_name(is_hcomp),
            args: seq![IRVarView::Var { varid: 255 }],
            stack_pos,
            ret_id,
        },
        IRView::JumpCode { ret_ids: ids_upto(ret_id), stackend },
    ]
}

/// The code of a section: the entry code, the code of the statements, the
/// call of the function of the section for the next byte, and the jump
/// code for all return ids. A section whose statements have no code, or
/// whose function has `pass` as its body, has no code at all. The stack
/// begins behind the array in H, which has to end below 2^32.
pub open spec fn section_code(is_hcomp: bool, stmts: Seq<StmtView>, cfg: CfgView, source: Seq<char>, opts: Options) -> Result<
    Seq<IRView>,
    CompileError,
> {
    let log = if is_hcomp {
        cfg.hh
    } else {
        cfg.ph
    };
    if log >= 32 {
        Err(CompileError::OversizeArray)
    } else {
        let st = section_table(is_hcomp, cfg, source);
        match traversed(stmts, st, opts) {
            Err(e) => Err(e),
            Ok((code, st1)) => if code.len() == 0 {
                Ok(Seq::empty())
            } else if st1.return_id >= u32::MAX - 1 {
                Err(CompileError::LimitExceeded)
            } else if st.bsp + cfg.stacksize > u32::MAX {
                Err(CompileError::OversizeArray)
            } else {
                Ok(
                    seq![IRView::InitialCode { bsp: st.bsp }] + code + section_tail(
                        is_hcomp,
                        st1.stack_pos,
                        st1.return_id,
                        (st.bsp + cfg.stacksize) as u32,
                    ),
                )
            },
        }
    }
}

fn ids(last: u32) -> (v: Vec<u32>)
    requires
        last < u32::MAX,
    ensures
        v@ == ids_upto(last),
{
    let mut v: Vec<u32> = Vec::new();
    let mut i: u32 = 0;
    while i <= last
        invariant
            i <= last + 1,
            last < u32::MAX,
            v@ == Seq::new(i as nat, |j: int| j as u32),
        decreases last + 1 - i,
    {
        v.push(i);
        assert(v@ =~= Seq::new((i + 1) as nat, |j: int| j as u32));
        i += 1;
    }
    v
}

/// Compiles the statements of a section to intermediate code.
pub fn gen_code(is_hcomp: bool, code: &[Stmt], zpaqcfgfile: &ZPAQCfgFile, source: String, optioncfg: &Options) -> (r:
    Result<Vec<IR>, CompileError>)
    ensures
        match r {
            Ok(irc) => section_code(is_hcomp, stmt_views(code@), zpaqcfgfile.deep_view(), source@, *optioncfg)
                == Ok::<Seq<IRView>, CompileError>(ir_views(irc@)),
            Err(e) => section_code(is_hcomp, stmt_views(code@), zpaqcfgfile.deep_view(), source@, *optioncfg)
                == Err::<Seq<IRView>, CompileError>(e),
        },
{
    let log = if is_hcomp {
        zpaqcfgfile.hh
    } else {
        zpaqcfgfile.ph
    };
    if log >= 32 {
        return Err(CompileError::OversizeArray);
    }
    proof {
        crate::zpaqcfg::lemma_two_to_32();
        crate::zpaqcfg::lemma_two_to_grows(log as nat, 31);
    }
    let mut st = SymbolTable::new_from_model(zpaqcfgfile);
    st.source = lines(source.as_str());
    st.bsp = power_of_two(log) as u32;
    let bsp = st.bsp;
    assert(st.deep_view().source =~= lines_of(source@));
    assert(st.deep_view() == section_table(is_hcomp, zpaqcfgfile.deep_view(), source@));
    let body = traverse(code, &mut st, optioncfg)?;
    if body.len() == 0 {
        let empty: Vec<IR> = Vec::new();
        assert(ir_views(empty@) =~= Seq::<IRView>::empty());
        return Ok(empty);
    }
    let stack_pos = st.stack_pos;
    let ret_id = st.make_new_return_id()?;
    let last = st.make_new_return_id()?;
    let stackend = match bsp.checked_add(zpaqcfgfile.stacksize) {
        Some(e) => e,
        None => {
            return Err(CompileError::OversizeArray);
        },
    };
    let mut irc: Vec<IR> = vec![IR::InitialCode { bsp }];
    let ghost head = ir_views(irc@);
    assert(head =~= seq![IRView::InitialCode { bsp }]);
    let ghost middle = ir_views(body@);
    let mut rest = body;
    irc.append(&mut rest);
    assert(ir_views(irc@) =~= head + middle);
    let mut tail = tail_code(is_hcomp, stack_pos, ret_id, stackend);
    let ghost end = ir_views(tail@);
    irc.append(&mut tail);
    assert(ir_views(irc@) =~= head + middle + end);
    Ok(irc)
}

fn tail_code(is_hcomp: bool, stack_pos: u32, ret_id: u32, stackend: u32) -> (code: Vec<IR>)
    requires
        ret_id < u32::MAX - 1,
    ensures
        ir_views(code@) == section_tail(is_hcomp, stack_pos, ret_id, stackend),
{
    let args = vec![IRVar::Var { varid: 255 }];
    assert(crate::ir::var_views(args@) =~= seq![IRVarView::Var { varid: 255 }]);
    let name = if is_hcomp {
        String::from_str("hcomp")
    } else {
        String::from_str("pcomp")
    };
    let code = vec![
        IR::Label { label: String::from_str("call_next") },
        IR::Assign { target: IRVar::Var { varid: 253 }, source: IRVar::Number { value: 4294967294 } },
        IR::Call { label: name, args, stack_pos, ret_id },
        IR::JumpCode { ret_ids: ids(ret_id), stackend },
    ];
    assert(ir_views(code@) =~= section_tail(is_hcomp, stack_pos, ret_id, stackend));
    code
}

/// Which of the six names of the header a statement sets with a
/// constant: 0 to 3 for a number assigned to `hh`, `hm`, `ph` or `pm`, 4
/// for `len({..})` assigned to `n`, 5 for a text assigned to
/// `pcomp_invocation`. Any other statement sets none.
pub open spec fn header_slot(s: StmtView) -> Option<u8> {
    match assignment_of(s) {
        None => None,
        Some((id, value)) => {
            if id == "hh"@ && number_of(value) is Some {
                Some(0u8)
            } else if id == "hm"@ && number_of(value) is Some {
                Some(1u8)
            } else if id == "ph"@ && number_of(value) is Some {
                Some(2u8)
            } else if id == "pm"@ && number_of(value) is Some {
                Some(3u8)
            } else if id == "n"@ && model_of(value) is Some {
                Some(4u8)
            } else if id == "pcomp_invocation"@ && text_of(value) is Some {
                Some(5u8)
            } else {
                None
            }
        },
    }
}

/// The names that the first `n` statements set, where each of them sets
/// one of the six names of the header and none is set twice.
pub open spec fn header_names(stmts: Seq<StmtView>, n: int) -> Option<Set<u8>>
    decreases n,
{
    if n <= 0 || n > stmts.len() {
        Some(Set::empty())
    } else {
        match header_names(stmts, n - 1) {
            None => None,
            Some(seen) => match header_slot(stmts[n - 1]) {
                None => None,
                Some(k) => if seen.contains(k) {
                    None
                } else {
                    Some(seen.insert(k))
                },
            },
        }
    }
}

/// Whether the statements begin with a header: six statements that each
/// assign a constant to one of `hh`, `hm`, `ph`, `pm`, `n` and
/// `pcomp_invocation`, in some order and none of them twice.
pub open spec fn header_valid(stmts: Seq<StmtView>) -> bool {
    stmts.len() >= 6 && header_names(stmts, 6) is Some
}

/// Why a program cannot be compiled before its statements are looked at:
/// the second section does not begin with a header, or the first has
/// fewer than six statements.
pub open spec fn header_missing(hcomp: Seq<StmtView>, pcomp: Seq<StmtView>) -> bool {
    hcomp.len() < 6 || !header_valid(pcomp)
}

fn read_header_slot(node: &Stmt) -> (r: Option<u8>)
    ensures
        r == header_slot(node.deep_view()),
{
    let (id, value) = match node {
        Stmt::Assign { target, value, location } => {
            match &**target {
                Expr::Name { id, ctx: ExprContext::Store, location: _ } => (id, &**value),
                _ => {
                    return None;
                },
            }
        },
        _ => {
            return None;
        },
    };
    assert(assignment_of(node.deep_view()) == Some((id@, value.deep_view())));
    let name = id.as_str();
    if text_is(name, "hh") && read_number(value).is_some() {
        Some(0)
    } else if text_is(name, "hm") && read_number(value).is_some() {
        Some(1)
    } else if text_is(name, "ph") && read_number(value).is_some() {
        Some(2)
    } else if text_is(name, "pm") && read_number(value).is_some() {
        Some(3)
    } else if text_is(name, "n") && read_model(value).is_some() {
        Some(4)
    } else if text_is(name, "pcomp_invocation") && read_text(value).is_some() {
        Some(5)
    } else {
        None
    }
}

/// Whether the statements begin with a header.
pub fn has_header(stmts: &[Stmt]) -> (b: bool)
    ensures
        b == header_valid(stmt_views(stmts@)),
{
    if stmts.len() < 6 {
        return false;
    }
    let ghost all = stmt_views(stmts@);
    let mut seen = SlotSet::new();
    let mut i: usize = 0;
    while i < 6
        invariant
            i <= 6,
            stmts.len() >= 6,
            all == stmt_views(stmts@),
            seen.wf(),
            header_names(all, i as int) == Some(seen@),
        decreases 6 - i,
    {
        assert(all[i as int] == stmts@[i as int].deep_view());
        match read_header_slot(&stmts[i]) {
            None => {
                assert(header_names(all, i + 1) is None);
                proof {
                    lemma_header_names_stay_none(all, i + 1, 6);
                }
                return false;
            },
            Some(k) => {
                if seen.contains(k) {
                    assert(header_names(all, i + 1) is None);
                    proof {
                        lemma_header_names_stay_none(all, i + 1, 6);
                    }
                    return false;
                }
                seen.insert(k);
            },
        }
        i += 1;
    }
    true
}

proof fn lemma_header_names_stay_none(stmts: Seq<StmtView>, n: int, m: int)
    requires
        0 < n <= m <= stmts.len(),
        header_names(stmts, n) is None,
    ensures
        header_names(stmts, m) is None,
    decreases m - n,
{
    if n < m {
        lemma_header_names_stay_none(stmts, n, m - 1);
    }
}

/// The configuration and the optimised code of both sections of a program
/// whose sections both begin with the six statements of the header.
pub open spec fn built_ir(hcomp: Seq<StmtView>, pcomp: Seq<StmtView>, source: Seq<char>, opts: Options) -> Result<
    (CfgView, Seq<IRView>, Seq<IRView>),
    CompileError,
> {
    if header_missing(hcomp, pcomp) {
        Err(CompileError::MissingHeader)
    } else {
        let cfg = header_read(pcomp.take(6), 6, blank_cfg(opts.stacksize));
        match section_code(true, hcomp.skip(6), cfg, source, opts) {
            Err(e) => Err(e),
            Ok(hir) => match optimised(hir, opts.disable_optim, opts.ignore_errors) {
                Err(e) => Err(e),
                Ok(hopt) => match section_code(false, pcomp.skip(6), cfg, source, opts) {
                    Err(e) => Err(e),
                    Ok(pir) => match optimised(pir, opts.disable_optim, opts.ignore_errors) {
                        Err(e) => Err(e),
                        Ok(popt) => Ok((cfg, hopt, popt)),
                    },
                },
            },
        }
    }
}

/// Reads the header and compiles both sections to optimised intermediate
/// code.
pub fn build_ir(optioncfg: &Options, parsed_hcomp: Vec<Stmt>, parsed_pcomp: Vec<Stmt>, input: String) -> (r: Result<
    (ZPAQCfgFile, Vec<IR>, Vec<IR>),
    CompileError,
>)
    ensures
        match r {
            Ok((cfg, hir, pir)) => built_ir(stmt_views(parsed_hcomp@), stmt_views(parsed_pcomp@), input@, *optioncfg)
                == Ok::<(CfgView, Seq<IRView>, Seq<IRView>), CompileError>(
                (cfg.deep_view(), ir_views(hir@), ir_views(pir@)),
            ),
            Err(e) => built_ir(stmt_views(parsed_hcomp@), stmt_views(parsed_pcomp@), input@, *optioncfg) == Err::<
                (CfgView, Seq<IRView>, Seq<IRView>),
                CompileError,
            >(e),
        },
{
    if parsed_hcomp.len() < 6 || !has_header(parsed_pcomp.as_slice()) {
        return Err(CompileError::MissingHeader);
    }
    let header = vstd::slice::slice_subrange(parsed_pcomp.as_slice(), 0, 6);
    assert(stmt_views(header@) =~= stmt_views(parsed_pcomp@).take(6));
    let cfg = read_context_model(header, optioncfg);
    let hbody = vstd::slice::slice_subrange(parsed_hcomp.as_slice(), 6, parsed_hcomp.len());
    assert(stmt_views(hbody@) =~= stmt_views(parsed_hcomp@).skip(6));
    let hir = gen_code(true, hbody, &cfg, input.clone(), optioncfg)?;
    let hopt = optimise(hir, optioncfg)?;
    let pbody = vstd::slice::slice_subrange(parsed_pcomp.as_slice(), 6, parsed_pcomp.len());
    assert(stmt_views(pbody@) =~= stmt_views(parsed_pcomp@).skip(6));
    let pir = gen_code(false, pbody, &cfg, input, optioncfg)?;
    let popt = optimise(pir, optioncfg)?;
    Ok((cfg, hopt, popt))
}

/// The instructions of a listing as lines: expanded where that is asked
/// for.
pub open spec fn listing_lines(convert: bool, code: Seq<IRView>) -> Seq<Seq<char>> {
    Seq::new(
        code.len(),
        |i: int|
            if convert {
                code[i].convert().text()
            } else {
                code[i].text()
            },
    )
}

/// Whether every instruction can be expanded within 32 bits.
pub open spec fn all_expandable(code: Seq<IRView>, n: int) -> bool
    decreases n,
{
    if n <= 0 || n > code.len() {
        true
    } else {
        all_expandable(code, n - 1) && code[n - 1].expandable()
    }
}

/// The listing of a piece of intermediate code, one instruction to a line.
/// Where the instructions are to be expanded, each has to be expandable
/// within 32 bits.
pub fn xcomp_ir_string(convert: bool, xcomp_ir: &[IR]) -> (r: Result<String, CompileError>)
    ensures
        match r {
            Ok(s) => (!convert || all_expandable(ir_views(xcomp_ir@), xcomp_ir@.len() as int)) && s@ == join(
                listing_lines(convert, ir_views(xcomp_ir@)),
                "\n"@,
            ),
            Err(e) => e == CompileError::LimitExceeded && convert && !all_expandable(
                ir_views(xcomp_ir@),
                xcomp_ir@.len() as int,
            ),
        },
{
    let ghost all = ir_views(xcomp_ir@);
    let ghost parts = listing_lines(convert, all);
    let mut s = String::new();
    let mut i: usize = 0;
    assert(parts.take(0) =~= Seq::<Seq<char>>::empty());
    assert(s@ =~= join(parts.take(0), "\n"@));
    while i < xcomp_ir.len()
        invariant
            i <= xcomp_ir.len(),
            all == ir_views(xcomp_ir@),
            parts == listing_lines(convert, all),
            s@ == join(parts.take(i as int), "\n"@),
            !convert || all_expandable(all, i as int),
        decreases xcomp_ir.len() - i,
    {
        proof {
            lemma_join_step(parts, "\n"@, i as int);
        }
        assert(all[i as int] == xcomp_ir@[i as int].deep_view());
        let line = if convert {
            if !xcomp_ir[i].fits() {
                proof {
                    lemma_not_expandable(all, i + 1, all.len() as int);
                }
                return Err(CompileError::LimitExceeded);
            }
            xcomp_ir[i].convert().to_string()
        } else {
            xcomp_ir[i].to_string()
        };
        if i > 0 {
            push_text(&mut s, "\n");
        }
        push_text(&mut s, line.as_str());
        assert(i == 0 ==> s@ =~= parts[0]);
        i += 1;
    }
    assert(parts.take(xcomp_ir.len() as int) =~= parts);
    Ok(s)
}

proof fn lemma_not_expandable(code: Seq<IRView>, k: int, n: int)
    requires
        0 <= k <= n <= code.len(),
        !all_expandable(code, k),
    ensures
        !all_expandable(code, n),
    decreases n - k,
{
    if k < n {
        lemma_not_expandable(code, k, n - 1);
    }
}

} // verus!
