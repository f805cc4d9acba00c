//! The pass over ZPAQL code that fuses successive stores of constants
//! to an array in M.

use vstd::prelude::*;
use crate::options::Options;
use crate::zpaql::{op_views, Loc, OpView, OtherReg, Reg, ZPAQLOp};

verus! {

/// `a++`
pub open spec fn inc_a() -> OpView {
    OpView::Plain(ZPAQLOp::Inc(Loc::Reg(Reg::A)))
}

/// `r=a 1`
pub open spec fn save_pointer() -> OpView {
    OpView::Plain(ZPAQLOp::RsetA { n: 1 })
}

/// `c=a`
pub open spec fn c_from_a() -> OpView {
    OpView::Plain(ZPAQLOp::Mov { target: Loc::Reg(Reg::OtherReg(OtherReg::C)), source: Loc::Reg(Reg::A) })
}

/// `a=c`
pub open spec fn a_from_c() -> OpView {
    OpView::Plain(ZPAQLOp::Mov { target: Loc::Reg(Reg::A), source: Loc::Reg(Reg::OtherReg(OtherReg::C)) })
}

/// `c++`
pub open spec fn inc_c() -> OpView {
    OpView::Plain(ZPAQLOp::Inc(Loc::Reg(Reg::OtherReg(OtherReg::C))))
}

/// Whether the instruction stores a constant at the byte that C points to:
/// `*c= n` or `*c=0`.
pub open spec fn is_store(op: OpView) -> bool {
    match op {
        OpView::Plain(ZPAQLOp::SetN { target: Loc::MC, n }) => true,
        OpView::Plain(ZPAQLOp::Zero(Loc::MC)) => true,
        _ => false,
    }
}

/// Whether the four instructions that end at `i` advance the pointer, save it
/// in slot 1, copy it to C and store a constant there.
pub open spec fn short_window(code: Seq<OpView>, i: int) -> bool {
    &&& 3 <= i < code.len()
    &&& code[i - 3] == inc_a()
    &&& code[i - 2] == save_pointer()
    &&& code[i - 1] == c_from_a()
    &&& is_store(code[i])
}

/// Whether the seven instructions that end at `i` are those of a short
/// window with two comments before them and one before the copy to C.
pub open spec fn long_window(code: Seq<OpView>, i: int) -> bool {
    &&& 6 <= i < code.len()
    &&& code[i - 6] is Comment
    &&& code[i - 5] is Comment
    &&& code[i - 4] == inc_a()
    &&& code[i - 3] == save_pointer()
    &&& code[i - 2] is Comment
    &&& code[i - 1] == c_from_a()
    &&& is_store(code[i])
}

/// What follows the last store of a run of fused windows: the pointer goes
/// back to A and is saved in slot 1. Within the run nothing follows.
pub open spec fn run_end(within_run: bool) -> Seq<OpView> {
    if within_run {
        Seq::empty()
    } else {
        seq![a_from_c(), save_pointer()]
    }
}

/// The first `n` instructions of `code` with each window fused to `c++` and
/// the store. The windows are found from the end of the code backwards;
/// `within_run` says that the instruction after the first `n` began a fused
/// window. Of a long window the first comment stays.
pub open spec fn fuse_stores(code: Seq<OpView>, n: int, within_run: bool) -> Seq<OpView>
    decreases n,
{
    if n <= 0 {
        Seq::empty()
    } else if long_window(code, n - 1) {
        fuse_stores(code, n - 7, true) + seq![code[n - 7], inc_c(), code[n - 1]] + run_end(within_run)
    } else if short_window(code, n - 1) {
        fuse_stores(code, n - 4, true) + seq![inc_c(), code[n - 1]] + run_end(within_run)
    } else {
        fuse_stores(code, n - 1, false).push(code[n - 1])
    }
}

/// The code after the pass over successive stores to an array in M, which
/// an option switches off.
pub open spec fn array_assignment_replaced(code: Seq<OpView>, no_post_zpaql: bool) -> Seq<OpView> {
    if no_post_zpaql {
        code
    } else {
        fuse_stores(code, code.len() as int, false)
    }
}

/// A sequence from its end to its start.
pub open spec fn backwards<A>(s: Seq<A>) -> Seq<A> {
    Seq::new(s.len(), |i: int| s[s.len() - 1 - i])
}

fn is_inc_a(op: &ZPAQLOp) -> (b: bool)
    ensures
        b == (op.deep_view() == inc_a()),
{
    match op {
        ZPAQLOp::Inc(Loc::Reg(Reg::A)) => true,
        _ => false,
    }
}

fn is_save_pointer(op: &ZPAQLOp) -> (b: bool)
    ensures
        b == (op.deep_view() == save_pointer()),
{
    match op {
        ZPAQLOp::RsetA { n } => *n == 1,
        _ => false,
    }
}

fn is_c_from_a(op: &ZPAQLOp) -> (b: bool)
    ensures
        b == (op.deep_view() == c_from_a()),
{
    match op {
        ZPAQLOp::Mov { target: Loc::Reg(Reg::OtherReg(OtherReg::C)), source: Loc::Reg(Reg::A) } => true,
        _ => false,
    }
}

fn is_comment(op: &ZPAQLOp) -> (b: bool)
    ensures
        b == (op.deep_view() is Comment),
{
    match op {
        ZPAQLOp::Comment { .. } => true,
        _ => false,
    }
}

fn stores(op: &ZPAQLOp) -> (b: bool)
    ensures
        b == is_store(op.deep_view()),
{
    match op {
        ZPAQLOp::SetN { target: Loc::MC, n } => true,
        ZPAQLOp::Zero(Loc::MC) => true,
        _ => false,
    }
}

fn ends_short_window(code: &Vec<ZPAQLOp>, i: usize) -> (b: bool)
    requires
        i < code.len(),
    ensures
        b == short_window(op_views(code@), i as int),
{
    i >= 3 && is_inc_a(&code[i - 3]) && is_save_pointer(&code[i - 2]) && is_c_from_a(&code[i - 1])
        && stores(&code[i])
}

fn ends_long_window(code: &Vec<ZPAQLOp>, i: usize) -> (b: bool)
    requires
        i < code.len(),
    ensures
        b == long_window(op_views(code@), i as int),
{
    i >= 6 && is_comment(&code[i - 6]) && is_comment(&code[i - 5]) && is_inc_a(&code[i - 4])
        && is_save_pointer(&code[i - 3]) && is_comment(&code[i - 2]) && is_c_from_a(&code[i - 1])
        && stores(&code[i])
}

fn turned(mut v: Vec<ZPAQLOp>) -> (r: Vec<ZPAQLOp>)
    ensures
        op_views(r@) == backwards(op_views(v@)),
{
    let ghost all = op_views(v@);
    let mut r: Vec<ZPAQLOp> = Vec::new();
    assert(op_views(r@) =~= backwards(all).take(0));
    while v.len() > 0
        invariant
            v.len() <= all.len(),
            op_views(v@) == all.take(v.len() as int),
            op_views(r@) == backwards(all).take(all.len() - v.len()),
        decreases v.len(),
    {
        let ghost before = op_views(r@);
        let ghost n = v.len();
        let ghost old_v = v@;
        let x = v.pop().unwrap();
        r.push(x);
        assert(op_views(old_v)[n - 1] == all.take(n as int)[n - 1]);
        assert(op_views(v@) =~= all.take(v.len() as int)) by {
            assert forall|j: int| 0 <= j < v.len() implies op_views(v@)[j] == all.take(v.len() as int)[j] by {
                assert(op_views(old_v)[j] == all.take(n as int)[j]);
            }
        }
        assert(x.deep_view() == all[n - 1]);
        assert(op_views(r@) =~= before.push(x.deep_view()));
        assert(op_views(r@) =~= backwards(all).take(all.len() - v.len()));
    }
    assert(backwards(all).take(all.len() as int) =~= backwards(all));
    r
}

/// Fuses successive stores of constants to an array in M: each window
/// "advance the pointer, save it, copy it to C, store" becomes "advance C,
/// store", and the pointer is saved once, behind the last store of a run.
pub fn replace_array_assignment(zcode: Vec<ZPAQLOp>, optioncfg: &Options) -> (r: Vec<ZPAQLOp>)
    ensures
        op_views(r@) == array_assignment_replaced(op_views(zcode@), optioncfg.no_post_zpaql),
{
    if optioncfg.no_post_zpaql {
        return zcode;
    }
    let ghost all = op_views(zcode@);
    let ghost goal = fuse_stores(all, all.len() as int, false);
    let mut code: Vec<ZPAQLOp> = Vec::new();
    let mut n: usize = zcode.len();
    let mut within_run = false;
    assert(goal =~= fuse_stores(all, n as int, within_run) + backwards(op_views(code@)));
    while n > 0
        invariant
            n <= zcode.len(),
            all == op_views(zcode@),
            goal == fuse_stores(all, n as int, within_run) + backwards(op_views(code@)),
        decreases n,
    {
        let i: usize = n - 1;
        let ghost done = backwards(op_views(code@));
        let ghost before = op_views(code@);
        if ends_long_window(&zcode, i) {
            if !within_run {
                code.push(ZPAQLOp::RsetA { n: 1 });
                code.push(
                    ZPAQLOp::Mov { target: Loc::Reg(Reg::A), source: Loc::Reg(Reg::OtherReg(OtherReg::C)) },
                );
            }
            let ghost mid = op_views(code@);
            assert(backwards(mid) =~= run_end(within_run) + done);
            code.push(zcode[i].clone());
            code.push(ZPAQLOp::Inc(Loc::Reg(Reg::OtherReg(OtherReg::C))));
            code.push(zcode[i - 6].clone());
            assert(backwards(op_views(code@)) =~= seq![all[n - 7], inc_c(), all[n - 1]] + run_end(
                within_run,
            ) + done);
            n = n - 7;
            within_run = true;
        } else if ends_short_window(&zcode, i) {
            if !within_run {
                code.push(ZPAQLOp::RsetA { n: 1 });
                code.push(
                    ZPAQLOp::Mov { target: Loc::Reg(Reg::A), source: Loc::Reg(Reg::OtherReg(OtherReg::C)) },
                );
            }
            let ghost mid = op_views(code@);
            assert(backwards(mid) =~= run_end(within_run) + done);
            code.push(zcode[i].clone());
            code.push(ZPAQLOp::Inc(Loc::Reg(Reg::OtherReg(OtherReg::C))));
            assert(backwards(op_views(code@)) =~= seq![inc_c(), all[n - 1]] + run_end(within_run) + done);
            n = n - 4;
            within_run = true;
        } else {
            code.push(zcode[i].clone());
            assert(backwards(op_views(code@)) =~= seq![all[n - 1]] + done);
            n = n - 1;
            within_run = false;
        }
    }
    let r = turned(code);
    assert(backwards(backwards(op_views(code@))) =~= op_views(code@));
    assert(op_views(r@) =~= goal);
    r
}

} // verus!
