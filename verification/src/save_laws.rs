//! What holds of the saves and restores that the lifetime pass leaves.

use vstd::prelude::*;
use crate::ir::{IRVarView, IRView};
use crate::post_ir::{
    lightened_code, lightened_one, live_before, live_of, liveness, liveness_step, with_read, with_reads, with_write,
    Liveness,
};

verus! {

/// Whether the instruction is none of those that the lifetime pass
/// treats apart: a save, a restore, the start or the end of a function
/// body.
pub open spec fn is_plain(c: IRView) -> bool {
    !(c is StoreTempVars || c is LoadTempVars || c is MarkTempVarStart || c is MarkTempVarEnd)
}

/// Whether all instructions are plain.
pub open spec fn all_plain(code: Seq<IRView>) -> bool {
    forall|i: int| 0 <= i < code.len() ==> is_plain(#[trigger] code[i])
}

/// The slots of `ti` that are live, in their order.
pub open spec fn kept(ti: Seq<u8>, live: Set<u8>) -> Seq<u8> {
    live_of(ti, ti.len() as int, live)
}

proof fn lemma_first_rest(c: IRView, rest: Seq<IRView>)
    ensures
        (seq![c] + rest).first() == c,
        (seq![c] + rest).drop_first() == rest,
        (seq![c] + rest).len() == rest.len() + 1,
{
    assert((seq![c] + rest).drop_first() =~= rest);
}

/// The slots that are kept are among those that were there, and live.
pub proof fn lemma_kept_within(ti: Seq<u8>, n: int, live: Set<u8>)
    requires
        0 <= n <= ti.len(),
    ensures
        forall|j: int|
            0 <= j < live_of(ti, n, live).len() ==> ti.contains(#[trigger] live_of(ti, n, live)[j]) && live.contains(
                live_of(ti, n, live)[j],
            ),
    decreases n,
{
    if n > 0 {
        lemma_kept_within(ti, n - 1, live);
        let before = live_of(ti, n - 1, live);
        let now = live_of(ti, n, live);
        assert forall|j: int| 0 <= j < now.len() implies ti.contains(#[trigger] now[j]) && live.contains(now[j]) by {
            if j < before.len() {
                assert(now[j] == before[j]);
            } else {
                assert(now[j] == ti[n - 1]);
            }
        }
    }
}

/// Plain instructions between a restore and the save before it stay as
/// they are, and behind them the pass knows the same live slots.
proof fn lemma_plain_between(mid: Seq<IRView>, rest: Seq<IRView>)
    requires
        all_plain(mid),
        !liveness(rest).in_scope,
        liveness(rest).left_scope,
    ensures
        lightened_code(mid + rest) == mid + lightened_code(rest),
        liveness(mid + rest).live == liveness(rest).live,
        !liveness(mid + rest).in_scope,
        liveness(mid + rest).left_scope,
    decreases mid.len(),
{
    if mid.len() == 0 {
        assert(mid + rest =~= rest);
        assert(mid + lightened_code(rest) =~= lightened_code(rest));
    } else {
        let c = mid.first();
        let tail = mid.drop_first();
        assert(is_plain(mid[0]));
        assert forall|i: int| 0 <= i < tail.len() implies is_plain(#[trigger] tail[i]) by {
            assert(tail[i] == mid[i + 1]);
        }
        lemma_plain_between(tail, rest);
        assert(mid + rest =~= seq![c] + (tail + rest));
        lemma_first_rest(c, tail + rest);
        let s = liveness(tail + rest);
        assert(lightened_one(s, c) == seq![c]);
        assert(seq![c] + (tail + lightened_code(rest)) =~= mid + lightened_code(rest));
    }
}

/// Of a restore inside a function body and the save before it, with plain
/// instructions between them, the pass leaves the same slots in both:
/// those of the saved slots that are read behind the restore before they
/// are written. What was not saved is not restored.
pub proof fn lemma_save_and_restore_agree(ti: Seq<u8>, stack_pos: u32, mid: Seq<IRView>, post: Seq<IRView>)
    requires
        all_plain(mid),
        liveness(post).in_scope,
    ensures
        ({
            let live = liveness(post).live;
            let slots = kept(ti, live);
            &&& lightened_code(
                seq![IRView::StoreTempVars { ti, stack_pos }] + mid + seq![IRView::LoadTempVars { ti, stack_pos }] + post,
            ) == seq![IRView::StoreTempVars { ti: slots, stack_pos }] + mid + seq![
                IRView::LoadTempVars { ti: slots, stack_pos },
            ] + lightened_code(post)
            &&& forall|j: int| 0 <= j < slots.len() ==> ti.contains(#[trigger] slots[j]) && live.contains(slots[j])
        }),
{
    let live = liveness(post).live;
    let slots = kept(ti, live);
    let save = IRView::StoreTempVars { ti, stack_pos };
    let restore = IRView::LoadTempVars { ti, stack_pos };
    let from_restore = seq![restore] + post;
    lemma_first_rest(restore, post);
    assert(lightened_code(from_restore) == seq![IRView::LoadTempVars { ti: slots, stack_pos }] + lightened_code(post));
    assert(liveness(from_restore) == liveness_step(liveness(post), restore));
    lemma_plain_between(mid, from_restore);
    let from_mid = mid + from_restore;
    lemma_first_rest(save, from_mid);
    let all = seq![save] + from_mid;
    assert(lightened_one(liveness(from_mid), save) == seq![IRView::StoreTempVars { ti: slots, stack_pos }]);
    assert(all =~= seq![save] + mid + seq![restore] + post);
    assert(seq![IRView::StoreTempVars { ti: slots, stack_pos }] + (mid + (seq![
        IRView::LoadTempVars { ti: slots, stack_pos },
    ] + lightened_code(post))) =~= seq![IRView::StoreTempVars { ti: slots, stack_pos }] + mid + seq![
        IRView::LoadTempVars { ti: slots, stack_pos },
    ] + lightened_code(post));
    lemma_kept_within(ti, ti.len() as int, live);
}

/// What the pass leaves of the end of some code does not depend on what
/// stands before it.
pub proof fn lemma_lightened_end(pre: Seq<IRView>, tail: Seq<IRView>)
    ensures
        lightened_code(pre + tail).len() >= lightened_code(tail).len(),
        lightened_code(pre + tail).skip(lightened_code(pre + tail).len() - lightened_code(tail).len())
            == lightened_code(tail),
    decreases pre.len(),
{
    if pre.len() == 0 {
        assert(pre + tail =~= tail);
        assert(lightened_code(tail).skip(0) =~= lightened_code(tail));
    } else {
        let c = pre.first();
        let rest = pre.drop_first() + tail;
        assert(pre + tail =~= seq![c] + rest);
        lemma_first_rest(c, rest);
        lemma_lightened_end(pre.drop_first(), tail);
        let one = lightened_one(liveness(rest), c);
        let whole = one + lightened_code(rest);
        assert(whole.skip(whole.len() - lightened_code(tail).len()) =~= lightened_code(rest).skip(
            lightened_code(rest).len() - lightened_code(tail).len(),
        ));
    }
}

/// Wherever a save, plain instructions and the restore of the same slots
/// inside a function body stand in a piece of code, what the pass leaves
/// of the code ends with the save and the restore of the same slots, those
/// of the saved slots that are live behind the restore, and with what it
/// leaves of the code behind them.
pub proof fn lemma_saves_in_code(
    pre: Seq<IRView>,
    ti: Seq<u8>,
    stack_pos: u32,
    mid: Seq<IRView>,
    post: Seq<IRView>,
)
    requires
        all_plain(mid),
        liveness(post).in_scope,
    ensures
        ({
            let slots = kept(ti, liveness(post).live);
            let tail = seq![IRView::StoreTempVars { ti: slots, stack_pos }] + mid + seq![
                IRView::LoadTempVars { ti: slots, stack_pos },
            ] + lightened_code(post);
            let all = lightened_code(
                pre + (seq![IRView::StoreTempVars { ti, stack_pos }] + mid + seq![
                    IRView::LoadTempVars { ti, stack_pos },
                ] + post),
            );
            &&& all.len() >= tail.len()
            &&& all.skip(all.len() - tail.len()) == tail
            &&& forall|j: int|
                0 <= j < slots.len() ==> ti.contains(#[trigger] slots[j]) && liveness(post).live.contains(slots[j])
        }),
{
    lemma_save_and_restore_agree(ti, stack_pos, mid, post);
    lemma_lightened_end(
        pre,
        seq![IRView::StoreTempVars { ti, stack_pos }] + mid + seq![IRView::LoadTempVars { ti, stack_pos }] + post,
    );
}

/// Whether the operand names the slot: as the slot itself, or as the
/// slot that points into H or M.
pub open spec fn names_slot(x: IRVarView, v: u8) -> bool {
    x.slot() == Some(v)
}

/// Whether a write to the operand reads the slot, to find the cell that
/// is written.
pub open spec fn points_through(target: IRVarView, v: u8) -> bool {
    !(target is Var) && names_slot(target, v)
}

/// Whether the instruction reads the slot.
pub open spec fn reads_slot(c: IRView, v: u8) -> bool {
    match c {
        IRView::Assign { target, source } => names_slot(source, v) || points_through(target, v),
        IRView::Assign2Op { target, val1, op, val2 } => names_slot(val1, v) || names_slot(val2, v) || points_through(
            target,
            v,
        ),
        IRView::Assign1Op { target, uop, source } => names_slot(source, v) || points_through(target, v),
        IRView::Out { var } => names_slot(var, v),
        IRView::If { cond_var, .. } => names_slot(cond_var, v),
        IRView::IfN { cond_var, .. } => names_slot(cond_var, v),
        IRView::IfEq { val1, val2, .. } => names_slot(val1, v) || names_slot(val2, v),
        IRView::IfNeq { val1, val2, .. } => names_slot(val1, v) || names_slot(val2, v),
        IRView::Return { var: Some(x) } => names_slot(x, v),
        IRView::Call { args, .. } => exists|i: int| 0 <= i < args.len() && names_slot(#[trigger] args[i], v),
        _ => false,
    }
}

/// Whether the instruction writes the slot.
pub open spec fn writes_slot(c: IRView, v: u8) -> bool {
    match c {
        IRView::Assign { target: IRVarView::Var { varid }, .. } => varid == v,
        IRView::Assign2Op { target: IRVarView::Var { varid }, .. } => varid == v,
        IRView::Assign1Op { target: IRVarView::Var { varid }, .. } => varid == v,
        _ => false,
    }
}

/// Whether some instruction of the code reads the slot and none before it
/// writes the slot.
pub open spec fn read_first(code: Seq<IRView>, v: u8) -> bool {
    exists|j: int| 0 <= j < code.len() && read_at(code, j, v)
}

/// Whether the instruction at `j` reads the slot and none before it
/// writes the slot.
pub open spec fn read_at(code: Seq<IRView>, j: int, v: u8) -> bool {
    reads_slot(code[j], v) && forall|k: int| 0 <= k < j ==> !writes_slot(#[trigger] code[k], v)
}

/// Whether no instruction of the code writes the slot.
pub open spec fn never_written(code: Seq<IRView>, v: u8) -> bool {
    forall|k: int| 0 <= k < code.len() ==> !writes_slot(#[trigger] code[k], v)
}

proof fn lemma_with_reads(set: Set<u8>, vars: Seq<IRVarView>, n: int, v: u8)
    requires
        0 <= n <= vars.len(),
    ensures
        with_reads(set, vars, n).contains(v) <==> set.contains(v) || exists|i: int|
            0 <= i < n && names_slot(#[trigger] vars[i], v),
    decreases n,
{
    if n > 0 {
        lemma_with_reads(set, vars, n - 1, v);
        if names_slot(vars[n - 1], v) {
            assert(0 <= n - 1 < n && names_slot(vars[n - 1], v));
        }
    }
}

/// A slot is live before a plain instruction where the instruction reads
/// it, or does not write it and the slot is live behind the instruction.
pub proof fn lemma_live_before(live: Set<u8>, c: IRView, v: u8)
    requires
        is_plain(c),
    ensures
        live_before(live, c).contains(v) <==> reads_slot(c, v) || (!writes_slot(c, v) && live.contains(v)),
{
    match c {
        IRView::Call { args, .. } => {
            lemma_with_reads(live, args, args.len() as int, v);
        },
        _ => {},
    }
}

proof fn lemma_read_first_step(c: IRView, tail: Seq<IRView>, v: u8)
    ensures
        read_first(seq![c] + tail, v) <==> reads_slot(c, v) || (!writes_slot(c, v) && read_first(tail, v)),
        never_written(seq![c] + tail, v) <==> !writes_slot(c, v) && never_written(tail, v),
{
    let code = seq![c] + tail;
    assert(code[0] == c);
    assert forall|k: int| 0 <= k < tail.len() implies #[trigger] tail[k] == code[k + 1] by {}
    if reads_slot(c, v) {
        assert(read_at(code, 0, v));
    }
    if !writes_slot(c, v) && read_first(tail, v) {
        let j = choose|j: int| 0 <= j < tail.len() && read_at(tail, j, v);
        assert forall|k: int| 0 <= k < j + 1 implies !writes_slot(#[trigger] code[k], v) by {
            if k > 0 {
                assert(code[k] == tail[k - 1]);
            }
        }
        assert(read_at(code, j + 1, v));
    }
    if read_first(code, v) && !reads_slot(c, v) {
        let j = choose|j: int| 0 <= j < code.len() && read_at(code, j, v);
        assert(j > 0);
        assert(!writes_slot(code[0], v));
        assert forall|k: int| 0 <= k < j - 1 implies !writes_slot(#[trigger] tail[k], v) by {
            assert(tail[k] == code[k + 1]);
        }
        assert(tail[j - 1] == code[j]);
        assert(read_at(tail, j - 1, v));
    }
    if never_written(code, v) {
        assert(!writes_slot(code[0], v));
        assert forall|k: int| 0 <= k < tail.len() implies !writes_slot(#[trigger] tail[k], v) by {
            assert(tail[k] == code[k + 1]);
        }
    }
    if !writes_slot(c, v) && never_written(tail, v) {
        assert forall|k: int| 0 <= k < code.len() implies !writes_slot(#[trigger] code[k], v) by {
            if k > 0 {
                assert(code[k] == tail[k - 1]);
            }
        }
    }
}

/// Before plain instructions inside a function body a slot is live where
/// one of them reads it and none before that one writes it, or where none
/// of them writes it and the slot is live behind them.
pub proof fn lemma_live_is_read_first(code: Seq<IRView>, rest: Seq<IRView>, v: u8)
    requires
        all_plain(code),
        liveness(rest).in_scope,
    ensures
        liveness(code + rest).in_scope,
        liveness(code + rest).live.contains(v) <==> read_first(code, v) || (never_written(code, v) && liveness(
            rest,
        ).live.contains(v)),
    decreases code.len(),
{
    if code.len() == 0 {
        assert(code + rest =~= rest);
    } else {
        let c = code.first();
        let tail = code.drop_first();
        assert(is_plain(code[0]));
        assert forall|i: int| 0 <= i < tail.len() implies is_plain(#[trigger] tail[i]) by {
            assert(tail[i] == code[i + 1]);
        }
        lemma_live_is_read_first(tail, rest, v);
        assert(code + rest =~= seq![c] + (tail + rest));
        lemma_first_rest(c, tail + rest);
        let s = liveness(tail + rest);
        assert(liveness(code + rest) == liveness_step(s, c));
        assert(liveness_step(s, c).live == live_before(s.live, c));
        lemma_live_before(s.live, c, v);
        assert(code =~= seq![c] + tail);
        lemma_read_first_step(c, tail, v);
    }
}

/// Between a place inside a function body and the end of the body, with
/// plain instructions between them, the slots that are live are those
/// that are read before they are written.
pub proof fn lemma_live_in_body(code: Seq<IRView>, more: Seq<IRView>, v: u8)
    requires
        all_plain(code),
        !liveness(more).in_scope,
    ensures
        liveness(code + (seq![IRView::MarkTempVarEnd] + more)).in_scope,
        liveness(code + (seq![IRView::MarkTempVarEnd] + more)).live.contains(v) <==> read_first(code, v),
{
    let rest = seq![IRView::MarkTempVarEnd] + more;
    lemma_first_rest(IRView::MarkTempVarEnd, more);
    assert(liveness(rest) == liveness_step(liveness(more), IRView::MarkTempVarEnd));
    lemma_live_is_read_first(code, rest, v);
}

} // verus!
