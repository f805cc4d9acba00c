//! The passes over intermediate code: blocks are flattened, functions
//! that are never called are dropped, and saves and restores of slots are
//! reduced to the slots that are live.

use vstd::prelude::*;
use crate::error::CompileError;
use crate::ir::{clone_irs, ir_views, lemma_block_view, var_views, IRVar, IRVarView, IRView, IR};
use crate::options::Options;
use crate::slots::SlotSet;
use crate::text::{chars_eq, chars_of, ends_with, text_ends_with};

verus! {

/// The first `n` instructions of `code`, with the statements of every block
/// in place of the block, to any depth.
pub open spec fn flat(code: Seq<IRView>, n: int) -> Seq<IRView>
    decreases code, n,
{
    if n <= 0 || n > code.len() {
        Seq::empty()
    } else {
        flat(code, n - 1) + (match code[n - 1] {
            IRView::Block { stmts } => flat(stmts, stmts.len() as int),
            c => seq![c],
        })
    }
}

/// The code without blocks: the statements of every block stand in its place.
pub open spec fn deblocked(code: Seq<IRView>) -> Seq<IRView> {
    flat(code, code.len() as int)
}

/// Whether the instruction copies a slot of R to itself.
pub open spec fn is_self_move(c: IRView) -> bool {
    match c {
        IRView::Assign { target: IRVarView::Var { varid: a }, source: IRVarView::Var { varid: b } } => a
            == b,
        _ => false,
    }
}

/// The first `n` instructions without the copies of a slot to itself.
pub open spec fn without_self_moves_upto(code: Seq<IRView>, n: int) -> Seq<IRView>
    decreases n,
{
    if n <= 0 || n > code.len() {
        Seq::empty()
    } else if is_self_move(code[n - 1]) {
        without_self_moves_upto(code, n - 1)
    } else {
        without_self_moves_upto(code, n - 1).push(code[n - 1])
    }
}

/// The code without the copies of a slot to itself.
pub open spec fn without_self_moves(code: Seq<IRView>) -> Seq<IRView> {
    without_self_moves_upto(code, code.len() as int)
}

/// Whether the first `n` instructions hold a call of `name`.
pub open spec fn called_upto(code: Seq<IRView>, n: int, name: Seq<char>) -> bool
    decreases n,
{
    if n <= 0 || n > code.len() {
        false
    } else {
        (match code[n - 1] {
            IRView::Call { label, .. } => label == name,
            _ => false,
        }) || called_upto(code, n - 1, name)
    }
}

/// Whether the code holds a call of `name`.
pub open spec fn called(code: Seq<IRView>, name: Seq<char>) -> bool {
    called_upto(code, code.len() as int, name)
}

/// The ending of the label that closes a function.
pub open spec fn end_mark() -> Seq<char> {
    "_end~"@
}

/// The function that an end label closes: the label without its ending.
pub open spec fn function_of(end_label: Seq<char>) -> Seq<char> {
    end_label.take(end_label.len() - 5)
}

/// Where a pass over the code stands.
pub struct Sweep {
    /// The end label of the function that is being dropped; empty outside.
    pub in_func: Seq<char>,
    /// The return ids of the calls that were dropped.
    pub removed: Seq<u32>,
    /// The number of functions that were dropped.
    pub deleted: nat,
    /// The instructions that were kept.
    pub out: Seq<IRView>,
}

/// The first `n` ids that are not among `removed`.
pub open spec fn ids_kept(ids: Seq<u32>, n: int, removed: Seq<u32>) -> Seq<u32>
    decreases n,
{
    if n <= 0 || n > ids.len() {
        Seq::empty()
    } else if removed.contains(ids[n - 1]) {
        ids_kept(ids, n - 1, removed)
    } else {
        ids_kept(ids, n - 1, removed).push(ids[n - 1])
    }
}

/// One step of the pass: outside a dropped function every instruction is
/// kept, but a jump over a function that nothing in `all` calls starts to
/// drop, up to and including the label that the jump names. The return ids
/// of dropped calls leave the jump code.
pub open spec fn sweep_step(s: Sweep, c: IRView, all: Seq<IRView>) -> Sweep {
    let outside = s.in_func.len() == 0;
    match c {
        IRView::GoTo { label } => if outside && ends_with(label, end_mark()) && !called(
            all,
            function_of(label),
        ) {
            Sweep { in_func: label, ..s }
        } else if outside {
            Sweep { out: s.out.push(c), ..s }
        } else {
            s
        },
        IRView::Label { label } => if outside {
            Sweep { out: s.out.push(c), ..s }
        } else if label == s.in_func {
            Sweep { in_func: Seq::empty(), deleted: s.deleted + 1, ..s }
        } else {
            s
        },
        IRView::Call { ret_id, .. } => if outside {
            Sweep { out: s.out.push(c), ..s }
        } else {
            Sweep { removed: s.removed.push(ret_id), ..s }
        },
        IRView::JumpCode { ret_ids, stackend } => if outside {
            Sweep {
                out: s.out.push(
                    IRView::JumpCode { ret_ids: ids_kept(ret_ids, ret_ids.len() as int, s.removed), stackend },
                ),
                ..s
            }
        } else {
            s
        },
        _ => if outside {
            Sweep { out: s.out.push(c), ..s }
        } else {
            s
        },
    }
}

/// The pass after the first `n` instructions.
pub open spec fn sweep(code: Seq<IRView>, n: int) -> Sweep
    decreases n,
{
    if n <= 0 || n > code.len() {
        Sweep { in_func: Seq::empty(), removed: Seq::empty(), deleted: 0, out: Seq::empty() }
    } else {
        sweep_step(sweep(code, n - 1), code[n - 1], code)
    }
}

/// A pass keeps no more than it has seen, and less once it has dropped a
/// function.
pub proof fn lemma_sweep_shrinks(code: Seq<IRView>, n: int)
    requires
        0 <= n <= code.len(),
    ensures
        sweep(code, n).out.len() <= n,
        sweep(code, n).deleted > 0 ==> sweep(code, n).out.len() < n,
    decreases n,
{
    if n > 0 {
        lemma_sweep_shrinks(code, n - 1);
    }
}

/// The code without the functions that are never called: passes are made
/// until one drops nothing.
pub open spec fn without_unused_functions(code: Seq<IRView>) -> Seq<IRView>
    decreases code.len(),
{
    if sweep(code, code.len() as int).deleted == 0 {
        sweep(code, code.len() as int).out
    } else {
        proof {
            lemma_sweep_shrinks(code, code.len() as int);
        }
        without_unused_functions(sweep(code, code.len() as int).out)
    }
}

/// What the lifetime pass knows when it reaches an instruction from behind.
pub struct Liveness {
    /// The slots that are read further on before they are written.
    pub live: Set<u8>,
    /// The slots that calls between a restore and its save take as arguments.
    pub pending: Set<u8>,
    /// Whether reads and writes count here: inside a function body, and not
    /// between a save and its restore.
    pub in_scope: bool,
    /// Whether a restore was passed and its save is still to come.
    pub left_scope: bool,
}

/// The set with the slot that the operand reads.
pub open spec fn with_read(set: Set<u8>, v: IRVarView) -> Set<u8> {
    match v.slot() {
        Some(s) => set.insert(s),
        None => set,
    }
}

/// The set after a write to the operand: a slot that is written is no
/// longer awaited, a slot that points to the cell that is written is read.
pub open spec fn with_write(set: Set<u8>, target: IRVarView) -> Set<u8> {
    match target {
        IRVarView::Var { varid } => set.remove(varid),
        _ => with_read(set, target),
    }
}

/// The set with the slots that the first `n` operands read.
pub open spec fn with_reads(set: Set<u8>, vars: Seq<IRVarView>, n: int) -> Set<u8>
    decreases n,
{
    if n <= 0 || n > vars.len() {
        set
    } else {
        with_read(with_reads(set, vars, n - 1), vars[n - 1])
    }
}

/// The slots that are live before the instruction, from those that are live
/// behind it.
pub open spec fn live_before(live: Set<u8>, c: IRView) -> Set<u8> {
    match c {
        IRView::Assign { target, source } => with_read(with_write(live, target), source),
        IRView::Assign2Op { target, val1, op, val2 } => with_read(
            with_read(with_write(live, target), val1),
            val2,
        ),
        IRView::Assign1Op { target, uop, source } => with_read(with_write(live, target), source),
        IRView::Out { var } => with_read(live, var),
        IRView::If { cond_var, .. } => with_read(live, cond_var),
        IRView::IfN { cond_var, .. } => with_read(live, cond_var),
        IRView::IfEq { val1, val2, .. } => with_read(with_read(live, val1), val2),
        IRView::IfNeq { val1, val2, .. } => with_read(with_read(live, val1), val2),
        IRView::Return { var: Some(v) } => with_read(live, v),
        IRView::Call { args, .. } => with_reads(live, args, args.len() as int),
        _ => live,
    }
}

/// What the pass knows before an instruction, from what it knows behind it.
pub open spec fn liveness_step(s: Liveness, c: IRView) -> Liveness {
    match c {
        IRView::MarkTempVarEnd => if s.in_scope {
            s
        } else {
            Liveness { live: Set::empty(), pending: Set::empty(), in_scope: true, left_scope: s.left_scope }
        },
        IRView::MarkTempVarStart => if s.in_scope {
            Liveness { live: Set::empty(), pending: Set::empty(), in_scope: false, left_scope: s.left_scope }
        } else {
            s
        },
        IRView::StoreTempVars { .. } => if !s.in_scope && s.left_scope {
            Liveness { live: s.live.union(s.pending), pending: Set::empty(), in_scope: true, left_scope: false }
        } else {
            s
        },
        IRView::LoadTempVars { .. } => if s.in_scope {
            Liveness { live: s.live, pending: Set::empty(), in_scope: false, left_scope: true }
        } else {
            s
        },
        IRView::Call { args, .. } => if s.in_scope {
            Liveness { live: live_before(s.live, c), ..s }
        } else {
            Liveness { pending: with_reads(s.pending, args, args.len() as int), ..s }
        },
        _ => if s.in_scope {
            Liveness { live: live_before(s.live, c), ..s }
        } else {
            s
        },
    }
}

/// What the pass knows when it has gone through the code from its end to
/// its start.
pub open spec fn liveness(code: Seq<IRView>) -> Liveness
    decreases code.len(),
{
    if code.len() == 0 {
        Liveness { live: Set::empty(), pending: Set::empty(), in_scope: false, left_scope: false }
    } else {
        liveness_step(liveness(code.drop_first()), code.first())
    }
}

/// The first `n` slots of `ti` that are live.
pub open spec fn live_of(ti: Seq<u8>, n: int, live: Set<u8>) -> Seq<u8>
    decreases n,
{
    if n <= 0 || n > ti.len() {
        Seq::empty()
    } else if live.contains(ti[n - 1]) {
        live_of(ti, n - 1, live).push(ti[n - 1])
    } else {
        live_of(ti, n - 1, live)
    }
}

/// Whether the instruction is the end of a function body inside a function
/// body.
pub open spec fn nested(s: Liveness, c: IRView) -> bool {
    c is MarkTempVarEnd && s.in_scope
}

/// What the pass leaves of an instruction: a restore inside a function body,
/// and the save that belongs to it, keep their live slots only; the end of a
/// nested function body is dropped; every other instruction stays.
pub open spec fn lightened_one(s: Liveness, c: IRView) -> Seq<IRView> {
    match c {
        IRView::MarkTempVarEnd => if s.in_scope {
            Seq::empty()
        } else {
            seq![c]
        },
        IRView::StoreTempVars { ti, stack_pos } => if !s.in_scope && s.left_scope {
            seq![IRView::StoreTempVars { ti: live_of(ti, ti.len() as int, s.live), stack_pos }]
        } else {
            seq![c]
        },
        IRView::LoadTempVars { ti, stack_pos } => if s.in_scope {
            seq![IRView::LoadTempVars { ti: live_of(ti, ti.len() as int, s.live), stack_pos }]
        } else {
            seq![c]
        },
        _ => seq![c],
    }
}

/// What the pass leaves of the code: of each instruction what is left of
/// it, given what the pass knows from the code behind it.
pub open spec fn lightened_code(code: Seq<IRView>) -> Seq<IRView>
    decreases code.len(),
{
    if code.len() == 0 {
        Seq::empty()
    } else {
        lightened_one(liveness(code.drop_first()), code.first()) + lightened_code(code.drop_first())
    }
}

/// Whether a function body ends inside a function body.
pub open spec fn has_nested(code: Seq<IRView>) -> bool
    decreases code.len(),
{
    if code.len() == 0 {
        false
    } else {
        nested(liveness(code.drop_first()), code.first()) || has_nested(code.drop_first())
    }
}

/// The code with its saves and restores reduced to the live slots. Code
/// with a function body inside a function body is refused, unless errors
/// are to be ignored.
pub open spec fn lightened(code: Seq<IRView>, ignore_errors: bool) -> Result<Seq<IRView>, CompileError> {
    if has_nested(code) && !ignore_errors {
        Err(CompileError::NestedFunction)
    } else {
        Ok(lightened_code(code))
    }
}

/// The optimised code: blocks are flattened and unused functions dropped;
/// unless the lifetime passes are disabled, copies of a slot to itself are
/// dropped and the saves and restores reduced.
pub open spec fn optimised(code: Seq<IRView>, disable_optim: bool, ignore_errors: bool) -> Result<
    Seq<IRView>,
    CompileError,
> {
    let base = without_unused_functions(deblocked(code));
    if disable_optim {
        Ok(base)
    } else {
        lightened(without_self_moves(base), ignore_errors)
    }
}

fn flatten_into(code: &Vec<IR>, out: &mut Vec<IR>)
    ensures
        ir_views(final(out)@) == ir_views(old(out)@) + deblocked(ir_views(code@)),
    decreases code,
{
    let ghost all = ir_views(code@);
    let ghost start = ir_views(out@);
    let mut i: usize = 0;
    assert(ir_views(out@) =~= start + flat(all, 0));
    while i < code.len()
        invariant
            i <= code.len(),
            all == ir_views(code@),
            ir_views(out@) == start + flat(all, i as int),
        decreases code.len() - i,
    {
        let ghost before = ir_views(out@);
        match &code[i] {
            IR::Block { stmts } => {
                proof {
                    lemma_block_view(*stmts);
                }
                flatten_into(stmts, out);
                assert(ir_views(out@) =~= start + flat(all, i + 1));
            },
            c => {
                out.push(c.clone());
                assert(ir_views(out@) =~= before.push(c.deep_view()));
                assert(ir_views(out@) =~= start + flat(all, i + 1));
            },
        }
        i += 1;
    }
}

/// Flattens the blocks of the code.
pub fn deblock(ir_code: Vec<IR>) -> (r: Vec<IR>)
    ensures
        ir_views(r@) == deblocked(ir_views(ir_code@)),
{
    let mut out: Vec<IR> = Vec::new();
    flatten_into(&ir_code, &mut out);
    assert(ir_views(out@) =~= deblocked(ir_views(ir_code@)));
    out
}

/// Drops the copies of a slot of R to itself.
pub fn remove_unused_assignments(ir_code: Vec<IR>) -> (r: Vec<IR>)
    ensures
        ir_views(r@) == without_self_moves(ir_views(ir_code@)),
{
    let ghost all = ir_views(ir_code@);
    let mut out: Vec<IR> = Vec::new();
    let mut i: usize = 0;
    assert(ir_views(out@) =~= without_self_moves_upto(all, 0));
    while i < ir_code.len()
        invariant
            i <= ir_code.len(),
            all == ir_views(ir_code@),
            ir_views(out@) == without_self_moves_upto(all, i as int),
        decreases ir_code.len() - i,
    {
        let ghost before = ir_views(out@);
        let keep = match &ir_code[i] {
            IR::Assign { target: IRVar::Var { varid: a }, source: IRVar::Var { varid: b } } => *a != *b,
            _ => true,
        };
        if keep {
            out.push(ir_code[i].clone());
            assert(ir_views(out@) =~= before.push(all[i as int]));
        }
        i += 1;
    }
    out
}

fn is_called(code: &Vec<IR>, name: &[char]) -> (b: bool)
    ensures
        b == called(ir_views(code@), name@),
{
    let ghost all = ir_views(code@);
    let mut i: usize = 0;
    while i < code.len()
        invariant
            i <= code.len(),
            all == ir_views(code@),
            !called_upto(all, i as int, name@),
        decreases code.len() - i,
    {
        match &code[i] {
            IR::Call { label, .. } => {
                let l = chars_of(label.as_str());
                if chars_eq(l.as_slice(), name) {
                    proof {
                        lemma_called_later(all, i + 1, name@);
                    }
                    return true;
                }
            },
            _ => {},
        }
        i += 1;
    }
    false
}

proof fn lemma_called_later(code: Seq<IRView>, n: int, name: Seq<char>)
    requires
        0 <= n <= code.len(),
        called_upto(code, n, name),
    ensures
        called(code, name),
    decreases code.len() - n,
{
    if n < code.len() {
        lemma_called_later(code, n + 1, name);
    }
}

fn holds_id(list: &Vec<u32>, id: u32) -> (b: bool)
    ensures
        b == list@.contains(id),
{
    let mut k: usize = 0;
    while k < list.len()
        invariant
            k <= list.len(),
            forall|j: int| 0 <= j < k ==> list@[j] != id,
        decreases list.len() - k,
    {
        if list[k] == id {
            return true;
        }
        k += 1;
    }
    false
}

fn keep_ids(ids: &Vec<u32>, removed: &Vec<u32>) -> (r: Vec<u32>)
    ensures
        r@ == ids_kept(ids@, ids@.len() as int, removed@),
{
    let mut out: Vec<u32> = Vec::new();
    let mut i: usize = 0;
    while i < ids.len()
        invariant
            i <= ids.len(),
            out@ == ids_kept(ids@, i as int, removed@),
        decreases ids.len() - i,
    {
        if !holds_id(removed, ids[i]) {
            out.push(ids[i]);
        }
        i += 1;
    }
    out
}

/// Drops the functions that nothing calls, with the return ids of the
/// calls in them, until no such function is left.
pub fn remove_unused_functions(ir_code: Vec<IR>) -> (r: Vec<IR>)
    ensures
        ir_views(r@) == without_unused_functions(ir_views(ir_code@)),
{
    let mut code = ir_code;
    loop
        invariant
            without_unused_functions(ir_views(code@)) == without_unused_functions(ir_views(ir_code@)),
        decreases code.len(),
    {
        let ghost all = ir_views(code@);
        let mut out: Vec<IR> = Vec::new();
        let mut deleted: usize = 0;
        let mut in_func: Vec<char> = Vec::new();
        let mut removed: Vec<u32> = Vec::new();
        let mut i: usize = 0;
        assert(ir_views(out@) =~= sweep(all, 0).out);
        while i < code.len()
            invariant
                i <= code.len(),
                all == ir_views(code@),
                ir_views(out@) == sweep(all, i as int).out,
                in_func@ == sweep(all, i as int).in_func,
                removed@ == sweep(all, i as int).removed,
                deleted == sweep(all, i as int).deleted,
                deleted <= i,
            decreases code.len() - i,
        {
            let ghost before = ir_views(out@);
            let ghost s = sweep(all, i as int);
            let outside = in_func.len() == 0;
            match &code[i] {
                IR::GoTo { label } => {
                    let l = chars_of(label.as_str());
                    let mut starts = false;
                    if outside && text_ends_with(label.as_str(), "_end~") {
                        proof {
                            reveal_strlit("_end~");
                        }
                        let name = crate::text::prefix_of(l.as_slice(), l.len() - 5);
                        if !is_called(&code, name.as_slice()) {
                            starts = true;
                        }
                    }
                    if starts {
                        in_func = l;
                    } else if outside {
                        out.push(code[i].clone());
                        assert(ir_views(out@) =~= before.push(all[i as int]));
                    }
                },
                IR::Label { label } => {
                    if outside {
                        out.push(code[i].clone());
                        assert(ir_views(out@) =~= before.push(all[i as int]));
                    } else {
                        let l = chars_of(label.as_str());
                        if chars_eq(l.as_slice(), in_func.as_slice()) {
                            in_func = Vec::new();
                            deleted += 1;
                        }
                    }
                },
                IR::Call { label, args, stack_pos, ret_id } => {
                    if outside {
                        out.push(code[i].clone());
                        assert(ir_views(out@) =~= before.push(all[i as int]));
                    } else {
                        removed.push(*ret_id);
                    }
                },
                IR::JumpCode { ret_ids, stackend } => {
                    if outside {
                        let kept = keep_ids(ret_ids, &removed);
                        out.push(IR::JumpCode { ret_ids: kept, stackend: *stackend });
                        assert(ir_views(out@) =~= before.push(
                            IRView::JumpCode {
                                ret_ids: ids_kept(ret_ids@, ret_ids@.len() as int, s.removed),
                                stackend: *stackend,
                            },
                        ));
                    }
                },
                c => {
                    if outside {
                        out.push(c.clone());
                        assert(ir_views(out@) =~= before.push(all[i as int]));
                    }
                },
            }
            i += 1;
        }
        proof {
            lemma_sweep_shrinks(all, all.len() as int);
        }
        if deleted == 0 {
            return out;
        }
        code = out;
    }
}

fn note_read(set: &mut SlotSet, v: &IRVar)
    requires
        old(set).wf(),
    ensures
        final(set).wf(),
        final(set)@ == with_read(old(set)@, v.deep_view()),
{
    match v {
        IRVar::Var { varid } => {
            set.insert(*varid);
        },
        IRVar::M { index_varid } => {
            set.insert(*index_varid);
        },
        IRVar::H { index_varid, orig_name } => {
            set.insert(*index_varid);
        },
        _ => {},
    }
}

fn note_write(set: &mut SlotSet, target: &IRVar)
    requires
        old(set).wf(),
    ensures
        final(set).wf(),
        final(set)@ == with_write(old(set)@, target.deep_view()),
{
    match target {
        IRVar::Var { varid } => {
            set.remove(*varid);
        },
        _ => {
            note_read(set, target);
        },
    }
}

fn note_reads(set: &mut SlotSet, vars: &Vec<IRVar>)
    requires
        old(set).wf(),
    ensures
        final(set).wf(),
        final(set)@ == with_reads(old(set)@, var_views(vars@), vars@.len() as int),
{
    let ghost start = set@;
    let mut i: usize = 0;
    while i < vars.len()
        invariant
            i <= vars.len(),
            set.wf(),
            set@ == with_reads(start, var_views(vars@), i as int),
        decreases vars.len() - i,
    {
        note_read(set, &vars[i]);
        i += 1;
    }
}

fn note_instruction(live: &mut SlotSet, c: &IR)
    requires
        old(live).wf(),
    ensures
        final(live).wf(),
        final(live)@ == live_before(old(live)@, c.deep_view()),
{
    match c {
        IR::Assign { target, source } => {
            note_write(live, target);
            note_read(live, source);
        },
        IR::Assign2Op { target, val1, op, val2 } => {
            note_write(live, target);
            note_read(live, val1);
            note_read(live, val2);
        },
        IR::Assign1Op { target, uop, source } => {
            note_write(live, target);
            note_read(live, source);
        },
        IR::Out { var } => {
            note_read(live, var);
        },
        IR::If { cond_var, goto_label } => {
            note_read(live, cond_var);
        },
        IR::IfN { cond_var, goto_label } => {
            note_read(live, cond_var);
        },
        IR::IfEq { val1, val2, goto_label } => {
            note_read(live, val1);
            note_read(live, val2);
        },
        IR::IfNeq { val1, val2, goto_label } => {
            note_read(live, val1);
            note_read(live, val2);
        },
        IR::Return { var } => {
            match var {
                Some(v) => {
                    note_read(live, v);
                },
                None => {},
            }
        },
        IR::Call { label, args, stack_pos, ret_id } => {
            note_reads(live, args);
        },
        _ => {},
    }
}

fn live_slots(ti: &Vec<u8>, live: &SlotSet) -> (r: Vec<u8>)
    requires
        live.wf(),
    ensures
        r@ == live_of(ti@, ti@.len() as int, live@),
{
    let mut out: Vec<u8> = Vec::new();
    let mut i: usize = 0;
    while i < ti.len()
        invariant
            i <= ti.len(),
            live.wf(),
            out@ == live_of(ti@, i as int, live@),
        decreases ti.len() - i,
    {
        if live.contains(ti[i]) {
            out.push(ti[i]);
        }
        i += 1;
    }
    out
}

fn turned(mut v: Vec<IR>) -> (r: Vec<IR>)
    ensures
        ir_views(r@) == crate::post_zpaql::backwards(ir_views(v@)),
{
    let ghost all = ir_views(v@);
    let ghost goal = crate::post_zpaql::backwards(all);
    let mut r: Vec<IR> = Vec::new();
    assert(ir_views(r@) =~= goal.take(0));
    while v.len() > 0
        invariant
            v.len() <= all.len(),
            goal == crate::post_zpaql::backwards(all),
            ir_views(v@) == all.take(v.len() as int),
            ir_views(r@) == goal.take(all.len() - v.len()),
        decreases v.len(),
    {
        let ghost before = ir_views(r@);
        let ghost n = v.len();
        let ghost old_v = v@;
        let x = v.pop().unwrap();
        r.push(x);
        assert(ir_views(old_v)[n - 1] == all.take(n as int)[n - 1]);
        assert(ir_views(v@) =~= all.take(v.len() as int)) by {
            assert forall|j: int| 0 <= j < v.len() implies ir_views(v@)[j] == all.take(v.len() as int)[j] by {
                assert(ir_views(old_v)[j] == all.take(n as int)[j]);
            }
        }
        assert(ir_views(r@) =~= before.push(x.deep_view()));
        assert(ir_views(r@) =~= goal.take(all.len() - v.len()));
    }
    assert(goal.take(all.len() as int) =~= goal);
    r
}

/// Reduces the saves before calls and the restores behind them to the slots
/// that are read further on before they are written. Expects code without
/// blocks.
pub fn lighten_save_load(ir_code: Vec<IR>, optioncfg: &Options) -> (r: Result<Vec<IR>, CompileError>)
    ensures
        match r {
            Ok(code) => lightened(ir_views(ir_code@), optioncfg.ignore_errors) == Ok::<
                Seq<IRView>,
                CompileError,
            >(ir_views(code@)),
            Err(e) => lightened(ir_views(ir_code@), optioncfg.ignore_errors) == Err::<
                Seq<IRView>,
                CompileError,
            >(e),
        },
{
    let ghost all = ir_views(ir_code@);
    let mut live = SlotSet::new();
    let mut pending = SlotSet::new();
    let mut in_scope = false;
    let mut left_scope = false;
    let mut out: Vec<IR> = Vec::new();
    let mut n: usize = ir_code.len();
    assert(crate::post_zpaql::backwards(ir_views(out@)) =~= lightened_code(all.skip(n as int)));
    while n > 0
        invariant
            n <= ir_code.len(),
            all == ir_views(ir_code@),
            live.wf(),
            pending.wf(),
            liveness(all.skip(n as int)) == (Liveness { live: live@, pending: pending@, in_scope, left_scope }),
            crate::post_zpaql::backwards(ir_views(out@)) == lightened_code(all.skip(n as int)),
            optioncfg.ignore_errors || !has_nested(all.skip(n as int)),
        decreases n,
    {
        let i: usize = n - 1;
        let ghost s = liveness(all.skip(n as int));
        let ghost done = crate::post_zpaql::backwards(ir_views(out@));
        let ghost before = ir_views(out@);
        assert(all.skip(i as int).drop_first() =~= all.skip(n as int));
        assert(all.skip(i as int).first() == all[i as int]);
        let c = &ir_code[i];
        match c {
            IR::MarkTempVarEnd => {
                if in_scope {
                    if !optioncfg.ignore_errors {
                        proof {
                            lemma_nested_earlier(all, i as int);
                        }
                        return Err(CompileError::NestedFunction);
                    }
                } else {
                    in_scope = true;
                    live.clear();
                    pending.clear();
                    out.push(IR::MarkTempVarEnd);
                }
            },
            IR::MarkTempVarStart => {
                if in_scope {
                    in_scope = false;
                    live.clear();
                    pending.clear();
                }
                out.push(IR::MarkTempVarStart);
            },
            IR::StoreTempVars { ti, stack_pos } => {
                if !in_scope && left_scope {
                    let tn = live_slots(ti, &live);
                    out.push(IR::StoreTempVars { ti: tn, stack_pos: *stack_pos });
                    in_scope = true;
                    left_scope = false;
                    live.add_all(&pending);
                    pending.clear();
                } else {
                    out.push(c.clone());
                }
            },
            IR::LoadTempVars { ti, stack_pos } => {
                if in_scope {
                    let tn = live_slots(ti, &live);
                    out.push(IR::LoadTempVars { ti: tn, stack_pos: *stack_pos });
                    in_scope = false;
                    left_scope = true;
                    pending.clear();
                } else {
                    out.push(c.clone());
                }
            },
            IR::Call { label, args, stack_pos, ret_id } => {
                if in_scope {
                    note_instruction(&mut live, c);
                } else {
                    note_reads(&mut pending, args);
                }
                out.push(c.clone());
            },
            _ => {
                if in_scope {
                    note_instruction(&mut live, c);
                }
                out.push(c.clone());
            },
        }
        assert(crate::post_zpaql::backwards(ir_views(out@)) =~= lightened_one(s, all[i as int]) + done);
        n = i;
    }
    assert(all.skip(0) =~= all);
    let r = turned(out);
    assert(crate::post_zpaql::backwards(crate::post_zpaql::backwards(ir_views(out@))) =~= ir_views(out@));
    Ok(r)
}

proof fn lemma_nested_earlier(code: Seq<IRView>, i: int)
    requires
        0 <= i < code.len(),
        nested(liveness(code.skip(i + 1)), code[i]),
    ensures
        has_nested(code),
    decreases i,
{
    assert(code.skip(i).drop_first() =~= code.skip(i + 1));
    assert(has_nested(code.skip(i)));
    lemma_nested_prefix(code, i);
}

proof fn lemma_nested_prefix(code: Seq<IRView>, i: int)
    requires
        0 <= i <= code.len(),
        has_nested(code.skip(i)),
    ensures
        has_nested(code),
    decreases i,
{
    if i > 0 {
        assert(code.skip(i - 1).drop_first() =~= code.skip(i));
        lemma_nested_prefix(code, i - 1);
    } else {
        assert(code.skip(0) =~= code);
    }
}

/// Optimises the code: flattens its blocks and drops the functions that are
/// never called; unless that is disabled, also drops the copies of a slot
/// to itself and reduces the saves and restores around calls.
pub fn optimise(ir_code: Vec<IR>, optioncfg: &Options) -> (r: Result<Vec<IR>, CompileError>)
    ensures
        match r {
            Ok(code) => optimised(ir_views(ir_code@), optioncfg.disable_optim, optioncfg.ignore_errors)
                == Ok::<Seq<IRView>, CompileError>(ir_views(code@)),
            Err(e) => optimised(ir_views(ir_code@), optioncfg.disable_optim, optioncfg.ignore_errors)
                == Err::<Seq<IRView>, CompileError>(e),
        },
{
    let base = remove_unused_functions(deblock(ir_code));
    if !optioncfg.disable_optim {
        lighten_save_load(remove_unused_assignments(base), optioncfg)
    } else {
        Ok(base)
    }
}

} // verus!
