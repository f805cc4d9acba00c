//! What holds of runs of the machine.

use vstd::prelude::*;
use crate::zpaql::{OpView, ZPAQLOp};
use crate::zpaqlvm::{run_to_halt, stepped, Machine, VmError};

verus! {

/// A run that reaches `halt` within some number of steps reaches it in the
/// same state within any greater number: the state of the machine at
/// `halt` depends on the code and on the state at the start alone.
pub proof fn lemma_more_steps_agree(code: Seq<Option<OpView>>, s: Machine, fuel: nat, more: nat)
    requires
        run_to_halt(code, s, fuel) is Ok,
        more >= fuel,
    ensures
        run_to_halt(code, s, more) == run_to_halt(code, s, fuel),
    decreases fuel,
{
    if s.pc < code.len() && code[s.pc as int] != Some(OpView::Plain(ZPAQLOp::Halt)) && fuel > 0 {
        match stepped(code, s) {
            Ok(t) => {
                lemma_more_steps_agree(code, t, (fuel - 1) as nat, (more - 1) as nat);
            },
            Err(_) => {},
        }
    }
}

/// A run that fails for another reason than the number of steps fails in
/// the same way within any greater number of steps.
pub proof fn lemma_failures_stay(code: Seq<Option<OpView>>, s: Machine, fuel: nat, more: nat)
    requires
        run_to_halt(code, s, fuel) is Err,
        run_to_halt(code, s, fuel) != Err::<Machine, VmError>(VmError::OutOfSteps),
        more >= fuel,
    ensures
        run_to_halt(code, s, more) == run_to_halt(code, s, fuel),
    decreases fuel,
{
    if s.pc < code.len() && code[s.pc as int] != Some(OpView::Plain(ZPAQLOp::Halt)) && fuel > 0 {
        match stepped(code, s) {
            Ok(t) => {
                lemma_failures_stay(code, t, (fuel - 1) as nat, (more - 1) as nat);
            },
            Err(_) => {},
        }
    }
}

} // verus!
