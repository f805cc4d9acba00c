//! What holds of the passes over intermediate code: optimising twice
//! gives what optimising once gives.

use vstd::prelude::*;
use crate::ir::IRView;
use crate::post_ir::{
    called, called_upto, deblocked, end_mark, flat, function_of, has_nested, ids_kept, is_self_move,
    lemma_sweep_shrinks, lightened_code, lightened_one, live_of, liveness, optimised, sweep,
    without_self_moves, without_self_moves_upto, without_unused_functions,
};
use crate::text::ends_with;

verus! {

/// Whether the code holds no block.
pub open spec fn no_blocks(x: Seq<IRView>) -> bool {
    forall|i: int| 0 <= i < x.len() ==> !(#[trigger] x[i] is Block)
}

/// Whether the code holds no copy of a slot to itself.
pub open spec fn no_self_moves(x: Seq<IRView>) -> bool {
    forall|i: int| 0 <= i < x.len() ==> !is_self_move(#[trigger] x[i])
}

/// Whether the instruction, if it is a jump over a function, jumps over a
/// function that `x` calls.
pub open spec fn jump_covered(x: Seq<IRView>, c: IRView) -> bool {
    match c {
        IRView::GoTo { label } => ends_with(label, end_mark()) ==> called(x, function_of(label)),
        _ => true,
    }
}

/// Whether every function that the code jumps over is called in it.
pub open spec fn calls_cover(x: Seq<IRView>) -> bool {
    forall|i: int| 0 <= i < x.len() ==> jump_covered(x, #[trigger] x[i])
}

/// Whether the passes that drop unused functions end outside a function:
/// every function that they start to drop is closed by its end label.
pub open spec fn settled(x: Seq<IRView>) -> bool
    decreases x.len(),
{
    if sweep(x, x.len() as int).deleted == 0 {
        sweep(x, x.len() as int).in_func.len() == 0
    } else {
        proof {
            lemma_sweep_shrinks(x, x.len() as int);
        }
        settled(sweep(x, x.len() as int).out)
    }
}

/// Whether two instructions are the same, or both a save, or both a restore.
pub open spec fn alike(a: IRView, b: IRView) -> bool {
    a == b || (a is StoreTempVars && b is StoreTempVars) || (a is LoadTempVars && b is LoadTempVars)
}

proof fn lemma_flat_no_blocks(code: Seq<IRView>, n: int)
    ensures
        no_blocks(flat(code, n)),
    decreases code, n,
{
    if n <= 0 || n > code.len() {
    } else {
        lemma_flat_no_blocks(code, n - 1);
        match code[n - 1] {
            IRView::Block { stmts } => {
                lemma_flat_no_blocks(stmts, stmts.len() as int);
            },
            c => {},
        }
    }
}

proof fn lemma_flat_identity(x: Seq<IRView>, n: int)
    requires
        no_blocks(x),
        0 <= n <= x.len(),
    ensures
        flat(x, n) == x.take(n),
    decreases n,
{
    if n > 0 {
        lemma_flat_identity(x, n - 1);
        assert(!(x[n - 1] is Block));
        assert(x.take(n) =~= x.take(n - 1) + seq![x[n - 1]]);
    } else {
        assert(x.take(0) =~= Seq::<IRView>::empty());
    }
}

proof fn lemma_sweep_no_blocks(x: Seq<IRView>, n: int)
    requires
        no_blocks(x),
        0 <= n <= x.len(),
    ensures
        no_blocks(sweep(x, n).out),
    decreases n,
{
    if n > 0 {
        lemma_sweep_no_blocks(x, n - 1);
        assert(!(x[n - 1] is Block));
    }
}

proof fn lemma_unused_no_blocks(x: Seq<IRView>)
    requires
        no_blocks(x),
    ensures
        no_blocks(without_unused_functions(x)),
    decreases x.len(),
{
    lemma_sweep_no_blocks(x, x.len() as int);
    if sweep(x, x.len() as int).deleted != 0 {
        lemma_sweep_shrinks(x, x.len() as int);
        lemma_unused_no_blocks(sweep(x, x.len() as int).out);
    }
}

proof fn lemma_ids_kept_all(ids: Seq<u32>, n: int)
    requires
        0 <= n <= ids.len(),
    ensures
        ids_kept(ids, n, Seq::empty()) == ids.take(n),
    decreases n,
{
    if n > 0 {
        lemma_ids_kept_all(ids, n - 1);
        assert(!Seq::<u32>::empty().contains(ids[n - 1]));
        assert(ids.take(n) =~= ids.take(n - 1).push(ids[n - 1]));
    } else {
        assert(ids.take(0) =~= Seq::<u32>::empty());
    }
}

proof fn lemma_sweep_covered(x: Seq<IRView>, n: int)
    requires
        calls_cover(x),
        0 <= n <= x.len(),
    ensures
        sweep(x, n).in_func.len() == 0,
        sweep(x, n).removed =~= Seq::<u32>::empty(),
        sweep(x, n).deleted == 0,
        sweep(x, n).out == x.take(n),
    decreases n,
{
    if n > 0 {
        lemma_sweep_covered(x, n - 1);
        let s = sweep(x, n - 1);
        let c = x[n - 1];
        assert(jump_covered(x, c));
        assert(x.take(n) =~= x.take(n - 1).push(c));
        match c {
            IRView::JumpCode { ret_ids, stackend } => {
                lemma_ids_kept_all(ret_ids, ret_ids.len() as int);
                assert(ret_ids.take(ret_ids.len() as int) =~= ret_ids);
                assert(s.removed =~= Seq::<u32>::empty());
            },
            _ => {},
        }
    } else {
        assert(x.take(0) =~= Seq::<IRView>::empty());
    }
}

proof fn lemma_sweep_counts(x: Seq<IRView>, n: int, m: int)
    requires
        0 <= m <= n <= x.len(),
    ensures
        sweep(x, m).deleted <= sweep(x, n).deleted,
    decreases n - m,
{
    if m < n {
        lemma_sweep_counts(x, n - 1, m);
    }
}

proof fn lemma_end_mark_len()
    ensures
        end_mark().len() == 5,
{
    reveal_strlit("_end~");
}

proof fn lemma_sweep_quiet(x: Seq<IRView>, n: int)
    requires
        0 <= n <= x.len(),
        sweep(x, n).deleted == 0,
        sweep(x, n).in_func.len() == 0,
    ensures
        sweep(x, n).removed =~= Seq::<u32>::empty(),
        sweep(x, n).out == x.take(n),
        forall|i: int| 0 <= i < n ==> jump_covered(x, #[trigger] x[i]),
    decreases n,
{
    if n > 0 {
        let s = sweep(x, n - 1);
        let c = x[n - 1];
        lemma_sweep_counts(x, n, n - 1);
        lemma_end_mark_len();
        assert(s.in_func.len() == 0);
        lemma_sweep_quiet(x, n - 1);
        assert(x.take(n) =~= x.take(n - 1).push(c));
        match c {
            IRView::JumpCode { ret_ids, stackend } => {
                lemma_ids_kept_all(ret_ids, ret_ids.len() as int);
                assert(ret_ids.take(ret_ids.len() as int) =~= ret_ids);
                assert(s.removed =~= Seq::<u32>::empty());
            },
            _ => {},
        }
        assert(jump_covered(x, c));
    } else {
        assert(x.take(0) =~= Seq::<IRView>::empty());
    }
}

/// What is left when the unused functions are dropped calls every
/// function that it still jumps over, where every function that the
/// passes start to drop is closed by its end label.
pub proof fn lemma_settled_result(x: Seq<IRView>)
    requires
        settled(x),
    ensures
        calls_cover(without_unused_functions(x)),
    decreases x.len(),
{
    let s = sweep(x, x.len() as int);
    if s.deleted == 0 {
        lemma_sweep_quiet(x, x.len() as int);
        assert(x.take(x.len() as int) =~= x);
    } else {
        lemma_sweep_shrinks(x, x.len() as int);
        lemma_settled_result(s.out);
    }
}

/// Code that calls every function that it jumps over has no unused
/// function: the pass leaves it as it is.
pub proof fn lemma_covered_fixed(x: Seq<IRView>)
    requires
        calls_cover(x),
    ensures
        without_unused_functions(x) == x,
{
    lemma_sweep_covered(x, x.len() as int);
    assert(x.take(x.len() as int) =~= x);
}

proof fn lemma_called_witness(x: Seq<IRView>, n: int, name: Seq<char>) -> (i: int)
    requires
        0 <= n <= x.len(),
        called_upto(x, n, name),
    ensures
        0 <= i < n,
        x[i] is Call,
        x[i]->Call_label == name,
    decreases n,
{
    match x[n - 1] {
        IRView::Call { label, .. } => {
            if label == name {
                n - 1
            } else {
                lemma_called_witness(x, n - 1, name)
            }
        },
        _ => lemma_called_witness(x, n - 1, name),
    }
}

proof fn lemma_called_from(x: Seq<IRView>, i: int, n: int, name: Seq<char>)
    requires
        0 <= i < n <= x.len(),
        x[i] is Call,
        x[i]->Call_label == name,
    ensures
        called_upto(x, n, name),
    decreases n,
{
    if i < n - 1 {
        lemma_called_from(x, i, n - 1, name);
    }
}

proof fn lemma_self_moves_source(x: Seq<IRView>, n: int, j: int) -> (i: int)
    requires
        0 <= n <= x.len(),
        0 <= j < without_self_moves_upto(x, n).len(),
    ensures
        0 <= i < n,
        x[i] == without_self_moves_upto(x, n)[j],
        !is_self_move(x[i]),
    decreases n,
{
    if is_self_move(x[n - 1]) {
        lemma_self_moves_source(x, n - 1, j)
    } else if j < without_self_moves_upto(x, n - 1).len() {
        lemma_self_moves_source(x, n - 1, j)
    } else {
        n - 1
    }
}

proof fn lemma_self_moves_keep(x: Seq<IRView>, n: int, i: int) -> (j: int)
    requires
        0 <= i < n <= x.len(),
        !is_self_move(x[i]),
    ensures
        0 <= j < without_self_moves_upto(x, n).len(),
        x[i] == without_self_moves_upto(x, n)[j],
    decreases n,
{
    if i == n - 1 {
        without_self_moves_upto(x, n - 1).len() as int
    } else {
        lemma_self_moves_keep(x, n - 1, i)
    }
}

proof fn lemma_self_moves_fixed(x: Seq<IRView>, n: int)
    requires
        no_self_moves(x),
        0 <= n <= x.len(),
    ensures
        without_self_moves_upto(x, n) == x.take(n),
    decreases n,
{
    if n > 0 {
        lemma_self_moves_fixed(x, n - 1);
        assert(!is_self_move(x[n - 1]));
        assert(x.take(n) =~= x.take(n - 1).push(x[n - 1]));
    } else {
        assert(x.take(0) =~= Seq::<IRView>::empty());
    }
}

proof fn lemma_lightened_source(z: Seq<IRView>, j: int) -> (i: int)
    requires
        0 <= j < lightened_code(z).len(),
    ensures
        0 <= i < z.len(),
        alike(z[i], lightened_code(z)[j]),
    decreases z.len(),
{
    let one = lightened_one(liveness(z.drop_first()), z.first());
    if j < one.len() {
        0
    } else {
        let i = lemma_lightened_source(z.drop_first(), j - one.len());
        i + 1
    }
}

proof fn lemma_lightened_keep(z: Seq<IRView>, i: int) -> (j: int)
    requires
        0 <= i < z.len(),
        !(z[i] is MarkTempVarEnd),
    ensures
        0 <= j < lightened_code(z).len(),
        alike(z[i], lightened_code(z)[j]),
    decreases z.len(),
{
    let one = lightened_one(liveness(z.drop_first()), z.first());
    if i == 0 {
        0
    } else {
        let j = lemma_lightened_keep(z.drop_first(), i - 1);
        j + one.len()
    }
}

proof fn lemma_live_of_prefix(a: Seq<u8>, b: Seq<u8>, n: int, live: Set<u8>)
    requires
        0 <= n <= a.len(),
        n <= b.len(),
        a.take(n) == b.take(n),
    ensures
        live_of(a, n, live) == live_of(b, n, live),
    decreases n,
{
    if n > 0 {
        assert(a.take(n - 1) =~= a.take(n).take(n - 1));
        assert(b.take(n - 1) =~= b.take(n).take(n - 1));
        assert(a[n - 1] == a.take(n)[n - 1]);
        assert(b[n - 1] == b.take(n)[n - 1]);
        lemma_live_of_prefix(a, b, n - 1, live);
    }
}

proof fn lemma_live_of_again(ti: Seq<u8>, n: int, live: Set<u8>)
    requires
        0 <= n <= ti.len(),
    ensures
        live_of(live_of(ti, n, live), live_of(ti, n, live).len() as int, live) == live_of(ti, n, live),
    decreases n,
{
    if n > 0 {
        lemma_live_of_again(ti, n - 1, live);
        let r0 = live_of(ti, n - 1, live);
        if live.contains(ti[n - 1]) {
            let r = r0.push(ti[n - 1]);
            assert(r.take(r0.len() as int) =~= r0);
            assert(r0.take(r0.len() as int) =~= r0);
            lemma_live_of_prefix(r, r0, r0.len() as int, live);
        }
    }
}

proof fn lemma_lightened_liveness(z: Seq<IRView>)
    ensures
        liveness(lightened_code(z)) == liveness(z),
    decreases z.len(),
{
    if z.len() > 0 {
        let rest = z.drop_first();
        lemma_lightened_liveness(rest);
        let s = liveness(rest);
        let one = lightened_one(s, z.first());
        let out = lightened_code(z);
        if one.len() == 0 {
            assert(out =~= lightened_code(rest));
        } else {
            assert(out.drop_first() =~= lightened_code(rest));
            assert(out.first() == one[0]);
        }
    }
}

proof fn lemma_lightened_again(z: Seq<IRView>)
    ensures
        lightened_code(lightened_code(z)) == lightened_code(z),
        !has_nested(lightened_code(z)),
    decreases z.len(),
{
    if z.len() > 0 {
        let rest = z.drop_first();
        lemma_lightened_again(rest);
        lemma_lightened_liveness(rest);
        let s = liveness(rest);
        let one = lightened_one(s, z.first());
        let out = lightened_code(z);
        if one.len() == 0 {
            assert(out =~= lightened_code(rest));
        } else {
            assert(out.drop_first() =~= lightened_code(rest));
            assert(out.first() == one[0]);
            match z.first() {
                IRView::StoreTempVars { ti, stack_pos } => {
                    lemma_live_of_again(ti, ti.len() as int, s.live);
                },
                IRView::LoadTempVars { ti, stack_pos } => {
                    lemma_live_of_again(ti, ti.len() as int, s.live);
                },
                _ => {},
            }
            assert(lightened_one(s, one[0]) =~= one);
        }
    }
}

proof fn lemma_lightened_keeps_shape(a: Seq<IRView>)
    requires
        no_blocks(a),
        no_self_moves(a),
        calls_cover(a),
    ensures
        no_blocks(lightened_code(a)),
        no_self_moves(lightened_code(a)),
        calls_cover(lightened_code(a)),
{
    let o = lightened_code(a);
    assert forall|j: int| 0 <= j < o.len() implies !(#[trigger] o[j] is Block) && !is_self_move(o[j])
        && jump_covered(o, o[j]) by {
        let i = lemma_lightened_source(a, j);
        assert(!(a[i] is Block));
        assert(!is_self_move(a[i]));
        assert(jump_covered(a, a[i]));
        match o[j] {
            IRView::GoTo { label } => {
                if ends_with(label, end_mark()) {
                    let name = function_of(label);
                    let k = lemma_called_witness(a, a.len() as int, name);
                    let j2 = lemma_lightened_keep(a, k);
                    lemma_called_from(o, j2, o.len() as int, name);
                }
            },
            _ => {},
        }
    }
}

proof fn lemma_self_moves_keeps_shape(f: Seq<IRView>)
    requires
        no_blocks(f),
        calls_cover(f),
    ensures
        no_blocks(without_self_moves(f)),
        no_self_moves(without_self_moves(f)),
        calls_cover(without_self_moves(f)),
{
    let a = without_self_moves(f);
    let n = f.len() as int;
    assert forall|j: int| 0 <= j < a.len() implies !(#[trigger] a[j] is Block) && !is_self_move(a[j])
        && jump_covered(a, a[j]) by {
        let i = lemma_self_moves_source(f, n, j);
        assert(!(f[i] is Block));
        assert(jump_covered(f, f[i]));
        match a[j] {
            IRView::GoTo { label } => {
                if ends_with(label, end_mark()) {
                    let name = function_of(label);
                    let k = lemma_called_witness(f, n, name);
                    let j2 = lemma_self_moves_keep(f, n, k);
                    lemma_called_from(a, j2, a.len() as int, name);
                }
            },
            _ => {},
        }
    }
}

/// Optimising optimised code changes nothing, for code in which every
/// function that is dropped as unused is closed by its end label.
pub proof fn lemma_optimise_idempotent(code: Seq<IRView>, disable_optim: bool, ignore_errors: bool)
    requires
        optimised(code, disable_optim, ignore_errors) is Ok,
        settled(deblocked(code)),
    ensures
        optimised(optimised(code, disable_optim, ignore_errors)->Ok_0, disable_optim, ignore_errors)
            == optimised(code, disable_optim, ignore_errors),
{
    let b = deblocked(code);
    let f = without_unused_functions(b);
    lemma_flat_no_blocks(code, code.len() as int);
    lemma_unused_no_blocks(b);
    lemma_settled_result(b);
    if disable_optim {
        lemma_flat_identity(f, f.len() as int);
        assert(f.take(f.len() as int) =~= f);
        lemma_covered_fixed(f);
    } else {
        let a = without_self_moves(f);
        let o = lightened_code(a);
        lemma_self_moves_keeps_shape(f);
        lemma_lightened_keeps_shape(a);
        lemma_flat_identity(o, o.len() as int);
        assert(o.take(o.len() as int) =~= o);
        lemma_covered_fixed(o);
        lemma_self_moves_fixed(o, o.len() as int);
        lemma_lightened_again(a);
    }
}

} // verus!
