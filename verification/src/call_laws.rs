//! What holds of the labels at which calls return.

use vstd::prelude::*;
use crate::ir::{call_code, lemma_call_label, lemma_return_labels_differ, return_label, IRVarView, IRView};
use crate::sections::{ids_upto, section_tail};

verus! {

/// The number of labels with the given name among the first `n`
/// instructions.
pub open spec fn labels_named(code: Seq<IRView>, n: int, name: Seq<char>) -> nat
    decreases n,
{
    if n <= 0 || n > code.len() {
        0
    } else {
        labels_named(code, n - 1, name) + (if code[n - 1] == (IRView::Label { label: name }) {
            1nat
        } else {
            0nat
        })
    }
}

proof fn lemma_no_label_before(code: Seq<IRView>, n: int, name: Seq<char>)
    requires
        0 <= n <= code.len(),
        forall|i: int| 0 <= i < n ==> !(#[trigger] code[i] is Label),
    ensures
        labels_named(code, n, name) == 0,
    decreases n,
{
    if n > 0 {
        lemma_no_label_before(code, n - 1, name);
    }
}

/// The expansion of a call holds the label of its own return id once, and
/// the label of no other return id.
pub proof fn lemma_one_return_label(label: Seq<char>, args: Seq<IRVarView>, stack_pos: u32, ret_id: u32, other: u32)
    ensures
        labels_named(
            call_code(label, args, stack_pos, ret_id),
            call_code(label, args, stack_pos, ret_id).len() as int,
            return_label(other),
        ) == if other == ret_id {
            1nat
        } else {
            0nat
        },
{
    let code = call_code(label, args, stack_pos, ret_id);
    let n = code.len() as int;
    assert(n >= 1);
    lemma_call_label(label, args, stack_pos, ret_id, n - 1);
    assert forall|i: int| 0 <= i < n - 1 implies !(#[trigger] code[i] is Label) by {
        lemma_call_label(label, args, stack_pos, ret_id, i);
    }
    lemma_no_label_before(code, n - 1, return_label(other));
    if other != ret_id {
        lemma_return_labels_differ(other, ret_id);
    }
}

/// The jump code at the end of a section lists the return ids from 0 up
/// to the id of the call of the section's function, each once and in
/// rising order.
pub proof fn lemma_jump_code_ids(is_hcomp: bool, stack_pos: u32, ret_id: u32, stackend: u32)
    requires
        ret_id < u32::MAX,
    ensures
        section_tail(is_hcomp, stack_pos, ret_id, stackend).len() == 4,
        section_tail(is_hcomp, stack_pos, ret_id, stackend)[2] is Call,
        section_tail(is_hcomp, stack_pos, ret_id, stackend)[2]->Call_ret_id == ret_id,
        section_tail(is_hcomp, stack_pos, ret_id, stackend)[3] == (IRView::JumpCode {
            ret_ids: ids_upto(ret_id),
            stackend,
        }),
        ids_upto(ret_id).len() == ret_id + 1,
        forall|i: int| 0 <= i <= ret_id ==> #[trigger] ids_upto(ret_id)[i] == i,
        forall|i: int, j: int| 0 <= i < j <= ret_id ==> ids_upto(ret_id)[i] < ids_upto(ret_id)[j],
{
}

} // verus!
