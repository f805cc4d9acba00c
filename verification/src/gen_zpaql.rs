//! The emitter: from intermediate code to ZPAQL, through the registers
//! A to D and with the cache of what they hold.

use vstd::prelude::*;
use vstd::string::*;
use crate::cache::{
    is_held, reg_a, reg_b, reg_c, reg_d, without_reg, without_references, without_var, Cache, CacheView,
};
use crate::error::CompileError;
use crate::ir::{ir_views, lemma_block_view, IROp, IRUOp, IRVar, IRVarView, IRView, IR};
use crate::options::Options;
use crate::text::push_text;
use crate::zpaql::{op_views, Loc, OpView, OtherReg, Reg, SwapLoc, ZPAQLOp};

verus! {

/// Instructions, and what the cache knows after them.
pub struct Emitted {
    pub code: Seq<ZPAQLOp>,
    pub cache: CacheView,
}

/// `target = source`
pub open spec fn mov(target: Loc, source: Loc) -> ZPAQLOp {
    ZPAQLOp::Mov { target, source }
}

/// The instructions, and a copy from A to the place unless the place is A.
pub open spec fn via_a(ops: Seq<ZPAQLOp>, loc: Loc) -> Seq<ZPAQLOp> {
    if loc == reg_a() {
        ops
    } else {
        ops.push(mov(loc, reg_a()))
    }
}

/// Adding a byte to A, which takes no instruction for 0.
pub open spec fn add_byte(b: u8) -> Seq<ZPAQLOp> {
    if b == 0 {
        Seq::empty()
    } else {
        seq![ZPAQLOp::AaddN { n: b }]
    }
}

/// `a<<= 8`
pub open spec fn shift_byte() -> Seq<ZPAQLOp> {
    seq![ZPAQLOp::AlshiftN { n: 8 }]
}

/// The instructions that make a constant in a place, from nothing: 0 by
/// clearing, the two largest numbers by counting down from 0, 2^31 and
/// 2^31 - 1 by a shift, a byte by itself, and larger numbers byte by byte in
/// A.
pub open spec fn constant_ops(value: u32, loc: Loc) -> Seq<ZPAQLOp> {
    if value == 4294967295 {
        seq![ZPAQLOp::Zero(loc), ZPAQLOp::Dec(loc)]
    } else if value == 4294967294 {
        seq![ZPAQLOp::Zero(loc), ZPAQLOp::Dec(loc), ZPAQLOp::Dec(loc)]
    } else if value == 2147483648 {
        via_a(seq![ZPAQLOp::SetN { target: reg_a(), n: 1 }, ZPAQLOp::AlshiftN { n: 31 }], loc)
    } else if value == 2147483647 {
        via_a(seq![ZPAQLOp::Zero(reg_a()), ZPAQLOp::Dec(reg_a()), ZPAQLOp::ArshiftN { n: 1 }], loc)
    } else if value == 0 {
        seq![ZPAQLOp::Zero(loc)]
    } else if value < 256 {
        seq![ZPAQLOp::SetN { target: loc, n: value as u8 }]
    } else if value < 65536 {
        via_a(
            seq![ZPAQLOp::SetN { target: reg_a(), n: (value / 256) as u8 }] + shift_byte() + add_byte(
                (value % 256) as u8,
            ),
            loc,
        )
    } else if value < 16777216 {
        via_a(
            seq![ZPAQLOp::SetN { target: reg_a(), n: (value / 65536) as u8 }] + shift_byte() + add_byte(
                ((value % 65536) / 256) as u8,
            ) + shift_byte() + add_byte((value % 256) as u8),
            loc,
        )
    } else {
        via_a(
            seq![ZPAQLOp::SetN { target: reg_a(), n: (value / 16777216) as u8 }] + shift_byte() + add_byte(
                ((value % 16777216) / 65536) as u8,
            ) + shift_byte() + add_byte(((value % 65536) / 256) as u8) + shift_byte() + add_byte(
                (value % 256) as u8,
            ),
            loc,
        )
    }
}

/// Whether the constant is made in A.
pub open spec fn made_in_a(value: u32) -> bool {
    256 <= value < 4294967294
}

/// The instructions that bring a constant to a place: none where the place
/// holds it, one step up or down where it holds a neighbour.
pub open spec fn number_code(value: u32, loc: Loc, ch: CacheView) -> Emitted {
    if ch.contains_key(loc) && ch[loc] == (IRVarView::Number { value }) {
        Emitted { code: Seq::empty(), cache: ch }
    } else if value > 0 && ch.contains_key(loc) && ch[loc] == (IRVarView::Number { value: (value - 1) as u32 }) {
        Emitted {
            code: seq![ZPAQLOp::Inc(loc)],
            cache: without_reg(ch, loc).insert(loc, IRVarView::Number { value }),
        }
    } else if value < 4294967295 && ch.contains_key(loc) && ch[loc] == (IRVarView::Number {
        value: (value + 1) as u32,
    }) {
        Emitted {
            code: seq![ZPAQLOp::Dec(loc)],
            cache: without_reg(ch, loc).insert(loc, IRVarView::Number { value }),
        }
    } else {
        Emitted {
            code: constant_ops(value, loc),
            cache: without_reg(
                if made_in_a(value) {
                    without_reg(ch, reg_a())
                } else {
                    ch
                },
                loc,
            ).insert(loc, IRVarView::Number { value }),
        }
    }
}

/// The slot of R that holds the base pointer of the frame.
pub open spec fn base_slot(local: bool) -> u8 {
    if local {
        0
    } else {
        252
    }
}

/// The operand for the slot `varid` of R.
pub open spec fn slot_var(varid: u8) -> IRVarView {
    IRVarView::Var { varid }
}

/// The cell at `offset` in a frame.
pub open spec fn frame_var(offset: int, local: bool, name: Seq<char>) -> IRVarView {
    IRVarView::Ht { stack_offset: offset as u32, local, orig_name: name }
}

/// The instructions that leave the address of a cell of a frame in A: the
/// base pointer, unless A holds it, and the offset added, which has to be
/// below 256.
pub open spec fn frame_address_ops(offset: u32, local: bool, ch: CacheView) -> Result<
    Seq<ZPAQLOp>,
    CompileError,
> {
    if offset >= 256 {
        Err(CompileError::OffsetTooLarge)
    } else {
        Ok(
            (if is_held(ch, reg_a(), slot_var(base_slot(local))) {
                Seq::<ZPAQLOp>::empty()
            } else {
                seq![ZPAQLOp::SetR { target: Reg::A, r: base_slot(local) }]
            }) + (if offset == 1 {
                seq![ZPAQLOp::Inc(reg_a())]
            } else {
                seq![ZPAQLOp::AaddN { n: offset as u8 }]
            }),
        )
    }
}

/// The instructions that point D at a cell of a frame, and the cache after
/// them: one step where D points at a neighbour, nothing where it points at
/// the cell.
pub open spec fn frame_pointer_code(offset: u32, local: bool, name: Seq<char>, ch: CacheView) -> Result<
    Emitted,
    CompileError,
> {
    if offset > 0 && is_held(ch, Loc::HD, frame_var(offset - 1, local, name)) {
        Ok(Emitted { code: seq![ZPAQLOp::Inc(reg_d())], cache: without_reg(ch, reg_d()) })
    } else if offset < 4294967295 && is_held(ch, Loc::HD, frame_var(offset + 1, local, name)) {
        Ok(Emitted { code: seq![ZPAQLOp::Dec(reg_d())], cache: without_reg(ch, reg_d()) })
    } else if !is_held(ch, Loc::HD, frame_var(offset as int, local, name)) {
        match frame_address_ops(offset, local, ch) {
            Err(e) => Err(e),
            Ok(ops) => Ok(
                Emitted {
                    code: ops.push(mov(reg_d(), reg_a())),
                    cache: without_reg(without_reg(ch, reg_a()), reg_d()),
                },
            ),
        }
    } else {
        Ok(Emitted { code: Seq::empty(), cache: ch })
    }
}

/// The instructions that point the register `pointer` at the cell that the
/// slot `index` of R points to, unless the register or the cell it points
/// to is known to be right: a copy from A where A holds the slot.
pub open spec fn slot_pointer_code(index: u8, pointer: OtherReg, cell: Loc, v: IRVarView, ch: CacheView) -> Emitted {
    if is_held(ch, Loc::Reg(Reg::OtherReg(pointer)), slot_var(index)) || is_held(ch, cell, v) {
        Emitted { code: Seq::empty(), cache: ch }
    } else {
        Emitted {
            code: seq![
                if is_held(ch, reg_a(), slot_var(index)) {
                    mov(Loc::Reg(Reg::OtherReg(pointer)), reg_a())
                } else {
                    ZPAQLOp::SetR { target: Reg::OtherReg(pointer), r: index }
                },
            ],
            cache: ch.insert(Loc::Reg(Reg::OtherReg(pointer)), slot_var(index)).insert(cell, v),
        }
    }
}

/// The instruction that loads the slot `index` of R into the register
/// `pointer`, unless the register is known to hold it.
pub open spec fn slot_load_code(index: u8, pointer: OtherReg, ch: CacheView) -> Emitted {
    if is_held(ch, Loc::Reg(Reg::OtherReg(pointer)), slot_var(index)) {
        Emitted { code: Seq::empty(), cache: ch }
    } else {
        Emitted {
            code: seq![ZPAQLOp::SetR { target: Reg::OtherReg(pointer), r: index }],
            cache: ch.insert(Loc::Reg(Reg::OtherReg(pointer)), slot_var(index)),
        }
    }
}

/// The instructions that point the register `pointer` at the address
/// `addr`, unless the register or the cell it points to is known to be
/// right.
pub open spec fn address_pointer_code(addr: u32, pointer: OtherReg, cell: Loc, v: IRVarView, ch: CacheView) -> Emitted {
    if is_held(ch, cell, v) || is_held(ch, Loc::Reg(Reg::OtherReg(pointer)), IRVarView::Number { value: addr }) {
        Emitted { code: Seq::empty(), cache: ch }
    } else {
        number_code(addr, Loc::Reg(Reg::OtherReg(pointer)), ch)
    }
}

/// The place through which a cell of memory is written: `*d` for H, `*c`
/// for M.
pub open spec fn home(v: IRVarView) -> Loc {
    match v {
        IRVarView::M { .. } | IRVarView::Mx { .. } => Loc::MC,
        _ => Loc::HD,
    }
}

/// The instructions that make the place of a cell of memory ready to be
/// written, which is `home` of the cell, and the cache after them.
pub open spec fn loc_code(var: IRVarView, ch: CacheView) -> Result<Emitted, CompileError> {
    let v = var.tovar();
    match v {
        IRVarView::H { index_varid, .. } => {
            let p = slot_pointer_code(index_varid, OtherReg::D, Loc::HD, v, ch);
            Ok(p)
        },
        IRVarView::Ht { stack_offset, local, orig_name } => match frame_pointer_code(
            stack_offset,
            local,
            orig_name,
            ch,
        ) {
            Err(e) => Err(e),
            Ok(p) => Ok(
                Emitted {
                    code: p.code,
                    cache: if p.code.len() == 0 {
                        p.cache
                    } else {
                        p.cache.insert(Loc::HD, v)
                    },
                },
            ),
        },
        IRVarView::Hx { addr } => {
            let p = address_pointer_code(addr, OtherReg::D, Loc::HD, v, ch);
            Ok(
                Emitted {
                    code: p.code,
                    cache: if is_held(ch, Loc::HD, v) || is_held(ch, reg_d(), IRVarView::Number { value: addr }) {
                        ch
                    } else {
                        p.cache.insert(Loc::HD, v)
                    },
                },
            )
        },
        IRVarView::Mx { addr } => {
            let p = address_pointer_code(addr, OtherReg::C, Loc::MC, v, ch);
            Ok(
                Emitted {
                    code: p.code,
                    cache: if is_held(ch, Loc::MC, v) || is_held(ch, reg_c(), IRVarView::Number { value: addr }) {
                        ch
                    } else {
                        p.cache.insert(Loc::MC, v)
                    },
                },
            )
        },
        IRVarView::M { index_varid } => {
            let p = slot_pointer_code(index_varid, OtherReg::C, Loc::MC, v, ch);
            Ok(p)
        },
        _ => Err(CompileError::BadOperand),
    }
}

/// The instructions that fetch an operand to a place that does not hold
/// it, and the cache before the place is noted to hold it. A cell of H
/// cannot be fetched to `*d`, nor a byte of M to `*b`: the registers D and B
/// are needed to point at them.
pub open spec fn fetch_code(v: IRVarView, loc: Loc, ch: CacheView) -> Result<Emitted, CompileError> {
    match v {
        IRVarView::Number { value } => Ok(number_code(value, loc, ch)),
        IRVarView::Var { varid } => match loc {
            Loc::Reg(reg) => Ok(
                Emitted { code: seq![ZPAQLOp::SetR { target: reg, r: varid }], cache: ch.insert(loc, v) },
            ),
            _ => Ok(
                Emitted {
                    code: seq![ZPAQLOp::SetR { target: Reg::A, r: varid }, mov(loc, reg_a())],
                    cache: ch.insert(reg_a(), v),
                },
            ),
        },
        IRVarView::H { index_varid, .. } => if loc == Loc::HD {
            Err(CompileError::RegisterClash)
        } else {
            let p = slot_pointer_code(index_varid, OtherReg::D, Loc::HD, v, ch);
            Ok(Emitted { code: p.code.push(mov(loc, Loc::HD)), cache: p.cache })
        },
        IRVarView::Ht { stack_offset, local, orig_name } => if loc == Loc::HD {
            Err(CompileError::RegisterClash)
        } else {
            match frame_pointer_code(stack_offset, local, orig_name, ch) {
                Err(e) => Err(e),
                Ok(p) => Ok(
                    Emitted {
                        code: p.code.push(mov(loc, Loc::HD)),
                        cache: if p.code.len() == 0 {
                            p.cache
                        } else {
                            p.cache.insert(Loc::HD, v)
                        },
                    },
                ),
            }
        },
        IRVarView::Hx { addr } => if loc == Loc::HD {
            Err(CompileError::RegisterClash)
        } else {
            let p = address_pointer_code(addr, OtherReg::D, Loc::HD, v, ch);
            Ok(Emitted { code: p.code.push(mov(loc, Loc::HD)), cache: p.cache.insert(Loc::HD, v) })
        },
        IRVarView::Mx { addr } => if loc == Loc::MB {
            Err(CompileError::RegisterClash)
        } else {
            let p = address_pointer_code(addr, OtherReg::B, Loc::MB, v, ch);
            Ok(Emitted { code: p.code.push(mov(loc, Loc::MB)), cache: p.cache.insert(Loc::MB, v) })
        },
        IRVarView::M { index_varid } => if loc == Loc::MB {
            Err(CompileError::RegisterClash)
        } else {
            let p = slot_pointer_code(index_varid, OtherReg::B, Loc::MB, v, ch);
            Ok(Emitted { code: p.code.push(mov(loc, Loc::MB)), cache: p.cache })
        },
        _ => Err(CompileError::BadOperand),
    }
}

/// The instructions that copy the value of an operand to a place, and the
/// cache after them: nothing where the place holds it, a copy from A where
/// A holds it.
pub open spec fn var_to_loc(var: IRVarView, loc: Loc, ch: CacheView) -> Result<Emitted, CompileError> {
    let v = var.tovar();
    if is_held(ch, loc, v) {
        Ok(Emitted { code: Seq::empty(), cache: ch })
    } else if is_held(ch, reg_a(), v) {
        Ok(Emitted { code: seq![mov(loc, reg_a())], cache: without_reg(ch, loc).insert(loc, v) })
    } else {
        match fetch_code(v, loc, ch) {
            Err(e) => Err(e),
            Ok(f) => Ok(Emitted { code: f.code, cache: without_reg(f.cache, loc).insert(loc, v) }),
        }
    }
}

/// The place from which a cell of H is written when the value is in
/// `loc`: the value moves from A to C first, as A is needed for addresses.
pub open spec fn h_source(loc: Loc) -> Loc {
    if loc == reg_a() {
        reg_c()
    } else {
        loc
    }
}

/// The place from which a byte of M at an address is written when the
/// value is in `loc`: the value moves from A to D first.
pub open spec fn m_source(loc: Loc) -> Loc {
    if loc == reg_a() {
        reg_d()
    } else {
        loc
    }
}

/// The instructions that store the value of a place in an operand, and the
/// cache after them. A slot of R is written from A. A cell of H is written
/// through D, so not from D or `*d`; a byte of M through C, so not from C or
/// `*c`.
pub open spec fn loc_to_var(var: IRVarView, loc: Loc, ch: CacheView) -> Result<Emitted, CompileError> {
    let v = var.tovar();
    if ch.contains_key(loc) && ch[loc] == var {
        Ok(Emitted { code: Seq::empty(), cache: ch })
    } else {
        match v {
            IRVarView::Number { .. } => Err(CompileError::BadOperand),
            IRVarView::Var { varid } => Ok(
                Emitted {
                    code: (if loc != reg_a() && !(ch.contains_key(reg_a()) && ch.contains_key(loc)
                        && ch[reg_a()] == ch[loc]) {
                        seq![mov(reg_a(), loc)]
                    } else {
                        Seq::<ZPAQLOp>::empty()
                    }).push(ZPAQLOp::RsetA { n: varid }),
                    cache: without_references(without_var(ch, var, None), varid).insert(loc, v).insert(
                        reg_a(),
                        v,
                    ),
                },
            ),
            IRVarView::H { index_varid, .. } => if loc == reg_d() || loc == Loc::HD {
                Err(CompileError::RegisterClash)
            } else {
                let p = slot_load_code(index_varid, OtherReg::D, ch);
                Ok(
                    Emitted {
                        code: p.code.push(mov(Loc::HD, loc)),
                        cache: without_var(p.cache, var, None).insert(loc, v).insert(Loc::HD, v),
                    },
                )
            },
            IRVarView::Ht { stack_offset, local, orig_name } => if loc == reg_d() || loc == Loc::HD {
                Err(CompileError::RegisterClash)
            } else {
                let first = if loc == reg_a() {
                    Emitted { code: seq![mov(reg_c(), reg_a())], cache: without_reg(ch, reg_c()) }
                } else {
                    Emitted { code: Seq::empty(), cache: ch }
                };
                match frame_pointer_code(stack_offset, local, orig_name, first.cache) {
                    Err(e) => Err(e),
                    Ok(p) => Ok(
                        Emitted {
                            code: (first.code + p.code).push(mov(Loc::HD, h_source(loc))),
                            cache: without_var(p.cache, var, None).insert(h_source(loc), v).insert(
                                Loc::HD,
                                v,
                            ),
                        },
                    ),
                }
            },
            IRVarView::Hx { addr } => if loc == reg_d() || loc == Loc::HD {
                Err(CompileError::RegisterClash)
            } else {
                let first = if loc == reg_a() {
                    Emitted { code: seq![mov(reg_c(), reg_a())], cache: without_reg(ch, reg_c()) }
                } else {
                    Emitted { code: Seq::empty(), cache: ch }
                };
                let p = address_pointer_code(addr, OtherReg::D, Loc::HD, v, first.cache);
                Ok(
                    Emitted {
                        code: (first.code + p.code).push(mov(Loc::HD, h_source(loc))),
                        cache: without_var(p.cache, var, None).insert(h_source(loc), v).insert(Loc::HD, v),
                    },
                )
            },
            IRVarView::Mx { addr } => if loc == reg_c() || loc == Loc::MC {
                Err(CompileError::RegisterClash)
            } else {
                let first = if loc == reg_a() {
                    Emitted { code: seq![mov(reg_d(), reg_a())], cache: without_reg(ch, reg_d()) }
                } else {
                    Emitted { code: Seq::empty(), cache: ch }
                };
                let p = address_pointer_code(addr, OtherReg::C, Loc::MC, v, first.cache);
                Ok(
                    Emitted {
                        code: (first.code + p.code).push(mov(Loc::MC, m_source(loc))),
                        cache: without_var(p.cache, var, None).insert(m_source(loc), v).insert(Loc::MC, v),
                    },
                )
            },
            IRVarView::M { index_varid } => if loc == reg_c() || loc == Loc::MC {
                Err(CompileError::RegisterClash)
            } else {
                let p = slot_load_code(index_varid, OtherReg::C, ch);
                Ok(
                    Emitted {
                        code: p.code.push(mov(Loc::MC, loc)),
                        cache: without_var(p.cache, var, None).insert(loc, v).insert(Loc::MC, v),
                    },
                )
            },
            _ => Err(CompileError::BadOperand),
        }
    }
}

fn mov_op(target: Loc, source: Loc) -> (op: ZPAQLOp)
    ensures
        op == mov(target, source),
{
    ZPAQLOp::Mov { target, source }
}

fn one(op: ZPAQLOp) -> (v: Vec<ZPAQLOp>)
    ensures
        v@ == seq![op],
{
    let v = vec![op];
    assert(v@ =~= seq![op]);
    v
}

fn two(a: ZPAQLOp, b: ZPAQLOp) -> (v: Vec<ZPAQLOp>)
    ensures
        v@ == seq![a, b],
{
    let v = vec![a, b];
    assert(v@ =~= seq![a, b]);
    v
}

fn none() -> (v: Vec<ZPAQLOp>)
    ensures
        v@ == Seq::<ZPAQLOp>::empty(),
{
    let v = Vec::new();
    assert(v@ =~= Seq::<ZPAQLOp>::empty());
    v
}

fn slot_operand(varid: u8) -> (v: IRVar)
    ensures
        v.deep_view() == slot_var(varid),
{
    IRVar::Var { varid }
}

fn number_operand(value: u32) -> (v: IRVar)
    ensures
        v.deep_view() == (IRVarView::Number { value }),
{
    IRVar::Number { value }
}

fn push_via_a(ops: &mut Vec<ZPAQLOp>, loc: &Loc)
    ensures
        final(ops)@ == via_a(old(ops)@, *loc),
{
    match loc {
        Loc::Reg(Reg::A) => {},
        _ => {
            ops.push(mov_op(*loc, Loc::Reg(Reg::A)));
        },
    }
}

fn push_add_byte(ops: &mut Vec<ZPAQLOp>, b: u8)
    ensures
        final(ops)@ == old(ops)@ + add_byte(b),
{
    if b != 0 {
        ops.push(ZPAQLOp::AaddN { n: b });
    }
    assert(final(ops)@ =~= old(ops)@ + add_byte(b));
}

fn push_shift_byte(ops: &mut Vec<ZPAQLOp>)
    ensures
        final(ops)@ == old(ops)@ + shift_byte(),
{
    ops.push(ZPAQLOp::AlshiftN { n: 8 });
    assert(final(ops)@ =~= old(ops)@ + shift_byte());
}

fn constant(value: u32, loc: &Loc) -> (ops: Vec<ZPAQLOp>)
    ensures
        ops@ == constant_ops(value, *loc),
{
    let a = Loc::Reg(Reg::A);
    if value == 4294967295 {
        vec![ZPAQLOp::Zero(*loc), ZPAQLOp::Dec(*loc)]
    } else if value == 4294967294 {
        vec![ZPAQLOp::Zero(*loc), ZPAQLOp::Dec(*loc), ZPAQLOp::Dec(*loc)]
    } else if value == 2147483648 {
        let mut ops = vec![ZPAQLOp::SetN { target: a, n: 1 }, ZPAQLOp::AlshiftN { n: 31 }];
        push_via_a(&mut ops, loc);
        ops
    } else if value == 2147483647 {
        let mut ops = vec![ZPAQLOp::Zero(a), ZPAQLOp::Dec(a), ZPAQLOp::ArshiftN { n: 1 }];
        push_via_a(&mut ops, loc);
        ops
    } else if value == 0 {
        vec![ZPAQLOp::Zero(*loc)]
    } else if value < 256 {
        vec![ZPAQLOp::SetN { target: *loc, n: value as u8 }]
    } else if value < 65536 {
        let mut ops = vec![ZPAQLOp::SetN { target: a, n: (value / 256) as u8 }];
        push_shift_byte(&mut ops);
        push_add_byte(&mut ops, (value % 256) as u8);
        push_via_a(&mut ops, loc);
        ops
    } else if value < 16777216 {
        let mut ops = vec![ZPAQLOp::SetN { target: a, n: (value / 65536) as u8 }];
        push_shift_byte(&mut ops);
        push_add_byte(&mut ops, ((value % 65536) / 256) as u8);
        push_shift_byte(&mut ops);
        push_add_byte(&mut ops, (value % 256) as u8);
        push_via_a(&mut ops, loc);
        ops
    } else {
        let mut ops = vec![ZPAQLOp::SetN { target: a, n: (value / 16777216) as u8 }];
        push_shift_byte(&mut ops);
        push_add_byte(&mut ops, ((value % 16777216) / 65536) as u8);
        push_shift_byte(&mut ops);
        push_add_byte(&mut ops, ((value % 65536) / 256) as u8);
        push_shift_byte(&mut ops);
        push_add_byte(&mut ops, (value % 256) as u8);
        push_via_a(&mut ops, loc);
        ops
    }
}

fn holds_number(ch: &Cache, loc: &Loc, value: u32) -> (b: bool)
    ensures
        b == (ch@.contains_key(*loc) && ch@[*loc] == (IRVarView::Number { value })),
{
    match ch.last_hold.get(loc) {
        Some(IRVar::Number { value: v }) => *v == value,
        _ => false,
    }
}

/// The instructions that bring a constant to a place. Numbers of more than
/// a byte are made in A.
pub fn calc_number(value: u32, loc: &Loc, ch: &mut Cache) -> (ops: Vec<ZPAQLOp>)
    ensures
        (Emitted { code: ops@, cache: final(ch)@ }) =~~= number_code(value, *loc, old(ch)@),
{
    if holds_number(ch, loc, value) {
        return none();
    }
    if value > 0 && holds_number(ch, loc, value - 1) {
        ch.remove_reg(loc);
        ch.last_hold.insert(*loc, number_operand(value));
        return one(ZPAQLOp::Inc(*loc));
    }
    if value < 4294967295 && holds_number(ch, loc, value + 1) {
        ch.remove_reg(loc);
        ch.last_hold.insert(*loc, number_operand(value));
        return one(ZPAQLOp::Dec(*loc));
    }
    if 256 <= value && value < 4294967294 {
        ch.remove_reg(&Loc::Reg(Reg::A));
    }
    let ops = constant(value, loc);
    ch.remove_reg(loc);
    ch.last_hold.insert(*loc, number_operand(value));
    ops
}

fn frame_address(offset: u32, local: bool, ch: &Cache) -> (r: Result<Vec<ZPAQLOp>, CompileError>)
    ensures
        match r {
            Ok(ops) => frame_address_ops(offset, local, ch@) =~~= Ok::<Seq<ZPAQLOp>, CompileError>(ops@),
            Err(e) => frame_address_ops(offset, local, ch@) == Err::<Seq<ZPAQLOp>, CompileError>(e),
        },
{
    if offset >= 256 {
        return Err(CompileError::OffsetTooLarge);
    }
    let base: u8 = if local {
        0
    } else {
        252
    };
    let mut ops = none();
    if !ch.is_loc(&Loc::Reg(Reg::A), &slot_operand(base)) {
        ops.push(ZPAQLOp::SetR { target: Reg::A, r: base });
    }
    if offset == 1 {
        ops.push(ZPAQLOp::Inc(Loc::Reg(Reg::A)));
    } else {
        ops.push(ZPAQLOp::AaddN { n: offset as u8 });
    }
    assert(ops@ =~= frame_address_ops(offset, local, ch@)->Ok_0);
    Ok(ops)
}

fn frame_operand(offset: u32, local: bool, name: &String) -> (v: IRVar)
    ensures
        v.deep_view() == frame_var(offset as int, local, name@),
{
    IRVar::Ht { stack_offset: offset, local, orig_name: name.clone() }
}

fn frame_pointer(offset: u32, local: bool, name: &String, ch: &mut Cache) -> (r: Result<
    Vec<ZPAQLOp>,
    CompileError,
>)
    ensures
        match r {
            Ok(ops) => frame_pointer_code(offset, local, name@, old(ch)@) =~~= Ok::<Emitted, CompileError>(
                Emitted { code: ops@, cache: final(ch)@ },
            ),
            Err(e) => frame_pointer_code(offset, local, name@, old(ch)@) == Err::<Emitted, CompileError>(e),
        },
{
    let d = Loc::Reg(Reg::OtherReg(OtherReg::D));
    if offset > 0 && ch.is_loc(&Loc::HD, &frame_operand(offset - 1, local, name)) {
        ch.remove_reg(&d);
        Ok(one(ZPAQLOp::Inc(d)))
    } else if offset < 4294967295 && ch.is_loc(&Loc::HD, &frame_operand(offset + 1, local, name)) {
        ch.remove_reg(&d);
        Ok(one(ZPAQLOp::Dec(d)))
    } else if !ch.is_loc(&Loc::HD, &frame_operand(offset, local, name)) {
        let mut ops = frame_address(offset, local, ch)?;
        ops.push(mov_op(d, Loc::Reg(Reg::A)));
        ch.remove_reg(&Loc::Reg(Reg::A));
        ch.remove_reg(&d);
        Ok(ops)
    } else {
        Ok(none())
    }
}

fn slot_pointer(index: u8, pointer: OtherReg, cell: &Loc, v: &IRVar, ch: &mut Cache) -> (ops: Vec<ZPAQLOp>)
    ensures
        (Emitted { code: ops@, cache: final(ch)@ }) =~~= slot_pointer_code(
            index,
            pointer,
            *cell,
            v.deep_view(),
            old(ch)@,
        ),
{
    let p = Loc::Reg(Reg::OtherReg(pointer));
    if ch.is_loc(&p, &slot_operand(index)) || ch.is_loc(cell, v) {
        none()
    } else {
        let op = if ch.is_loc(&Loc::Reg(Reg::A), &slot_operand(index)) {
            mov_op(p, Loc::Reg(Reg::A))
        } else {
            ZPAQLOp::SetR { target: Reg::OtherReg(pointer), r: index }
        };
        ch.last_hold.insert(p, slot_operand(index));
        ch.last_hold.insert(*cell, v.clone());
        one(op)
    }
}

fn slot_load(index: u8, pointer: OtherReg, ch: &mut Cache) -> (ops: Vec<ZPAQLOp>)
    ensures
        (Emitted { code: ops@, cache: final(ch)@ }) =~~= slot_load_code(index, pointer, old(ch)@),
{
    let p = Loc::Reg(Reg::OtherReg(pointer));
    if ch.is_loc(&p, &slot_operand(index)) {
        none()
    } else {
        ch.last_hold.insert(p, slot_operand(index));
        one(ZPAQLOp::SetR { target: Reg::OtherReg(pointer), r: index })
    }
}

fn address_pointer(addr: u32, pointer: OtherReg, cell: &Loc, v: &IRVar, ch: &mut Cache) -> (ops: Vec<
    ZPAQLOp,
>)
    ensures
        (Emitted { code: ops@, cache: final(ch)@ }) =~~= address_pointer_code(
            addr,
            pointer,
            *cell,
            v.deep_view(),
            old(ch)@,
        ),
{
    let p = Loc::Reg(Reg::OtherReg(pointer));
    if ch.is_loc(cell, v) || ch.is_loc(&p, &number_operand(addr)) {
        none()
    } else {
        calc_number(addr, &p, ch)
    }
}

/// Makes the place of a cell of memory ready to be written: returns the
/// instructions that point D or C at the cell, and the place, `*d` or `*c`.
pub fn gen_loc_for_var(var: &IRVar, ch: &mut Cache) -> (r: Result<(Vec<ZPAQLOp>, Loc), CompileError>)
    ensures
        match r {
            Ok((ops, loc)) => loc_code(var.deep_view(), old(ch)@) =~~= Ok::<Emitted, CompileError>(
                Emitted { code: ops@, cache: final(ch)@ },
            ) && loc == home(var.deep_view().tovar()),
            Err(e) => loc_code(var.deep_view(), old(ch)@) == Err::<Emitted, CompileError>(e),
        },
{
    let v = var.tovar();
    match &v {
        IRVar::H { index_varid, orig_name } => {
            let ops = slot_pointer(*index_varid, OtherReg::D, &Loc::HD, &v, ch);
            Ok((ops, Loc::HD))
        },
        IRVar::Ht { stack_offset, local, orig_name } => {
            let ops = frame_pointer(*stack_offset, *local, orig_name, ch)?;
            if ops.len() != 0 {
                ch.last_hold.insert(Loc::HD, v.clone());
            }
            Ok((ops, Loc::HD))
        },
        IRVar::Hx { addr } => {
            let known = ch.is_loc(&Loc::HD, &v) || ch.is_loc(
                &Loc::Reg(Reg::OtherReg(OtherReg::D)),
                &number_operand(*addr),
            );
            let ops = address_pointer(*addr, OtherReg::D, &Loc::HD, &v, ch);
            if !known {
                ch.last_hold.insert(Loc::HD, v.clone());
            }
            Ok((ops, Loc::HD))
        },
        IRVar::Mx { addr } => {
            let known = ch.is_loc(&Loc::MC, &v) || ch.is_loc(
                &Loc::Reg(Reg::OtherReg(OtherReg::C)),
                &number_operand(*addr),
            );
            let ops = address_pointer(*addr, OtherReg::C, &Loc::MC, &v, ch);
            if !known {
                ch.last_hold.insert(Loc::MC, v.clone());
            }
            Ok((ops, Loc::MC))
        },
        IRVar::M { index_varid } => {
            let ops = slot_pointer(*index_varid, OtherReg::C, &Loc::MC, &v, ch);
            Ok((ops, Loc::MC))
        },
        _ => Err(CompileError::BadOperand),
    }
}

fn is_hd(loc: &Loc) -> (b: bool)
    ensures
        b == (*loc == Loc::HD),
{
    match loc {
        Loc::HD => true,
        _ => false,
    }
}

fn is_mb(loc: &Loc) -> (b: bool)
    ensures
        b == (*loc == Loc::MB),
{
    match loc {
        Loc::MB => true,
        _ => false,
    }
}

fn is_mc(loc: &Loc) -> (b: bool)
    ensures
        b == (*loc == Loc::MC),
{
    match loc {
        Loc::MC => true,
        _ => false,
    }
}

fn is_a(loc: &Loc) -> (b: bool)
    ensures
        b == (*loc == reg_a()),
{
    match loc {
        Loc::Reg(Reg::A) => true,
        _ => false,
    }
}

fn is_c(loc: &Loc) -> (b: bool)
    ensures
        b == (*loc == reg_c()),
{
    match loc {
        Loc::Reg(Reg::OtherReg(OtherReg::C)) => true,
        _ => false,
    }
}

fn is_d(loc: &Loc) -> (b: bool)
    ensures
        b == (*loc == reg_d()),
{
    match loc {
        Loc::Reg(Reg::OtherReg(OtherReg::D)) => true,
        _ => false,
    }
}

fn fetch(v: &IRVar, loc: &Loc, ch: &mut Cache) -> (r: Result<Vec<ZPAQLOp>, CompileError>)
    ensures
        match r {
            Ok(ops) => fetch_code(v.deep_view(), *loc, old(ch)@) =~~= Ok::<Emitted, CompileError>(
                Emitted { code: ops@, cache: final(ch)@ },
            ),
            Err(e) => fetch_code(v.deep_view(), *loc, old(ch)@) == Err::<Emitted, CompileError>(e),
        },
{
    match v {
        IRVar::Number { value } => Ok(calc_number(*value, loc, ch)),
        IRVar::Var { varid } => {
            match loc {
                Loc::Reg(reg) => {
                    ch.last_hold.insert(*loc, v.clone());
                    Ok(one(ZPAQLOp::SetR { target: *reg, r: *varid }))
                },
                _ => {
                    ch.last_hold.insert(Loc::Reg(Reg::A), v.clone());
                    Ok(two(ZPAQLOp::SetR { target: Reg::A, r: *varid }, mov_op(*loc, Loc::Reg(Reg::A))))
                },
            }
        },
        IRVar::H { index_varid, orig_name } => {
            if is_hd(loc) {
                return Err(CompileError::RegisterClash);
            }
            let mut ops = slot_pointer(*index_varid, OtherReg::D, &Loc::HD, v, ch);
            ops.push(mov_op(*loc, Loc::HD));
            Ok(ops)
        },
        IRVar::Ht { stack_offset, local, orig_name } => {
            if is_hd(loc) {
                return Err(CompileError::RegisterClash);
            }
            let mut ops = frame_pointer(*stack_offset, *local, orig_name, ch)?;
            if ops.len() != 0 {
                ch.last_hold.insert(Loc::HD, v.clone());
            }
            ops.push(mov_op(*loc, Loc::HD));
            Ok(ops)
        },
        IRVar::Hx { addr } => {
            if is_hd(loc) {
                return Err(CompileError::RegisterClash);
            }
            let mut ops = address_pointer(*addr, OtherReg::D, &Loc::HD, v, ch);
            ch.last_hold.insert(Loc::HD, v.clone());
            ops.push(mov_op(*loc, Loc::HD));
            Ok(ops)
        },
        IRVar::Mx { addr } => {
            if is_mb(loc) {
                return Err(CompileError::RegisterClash);
            }
            let mut ops = address_pointer(*addr, OtherReg::B, &Loc::MB, v, ch);
            ch.last_hold.insert(Loc::MB, v.clone());
            ops.push(mov_op(*loc, Loc::MB));
            Ok(ops)
        },
        IRVar::M { index_varid } => {
            if is_mb(loc) {
                return Err(CompileError::RegisterClash);
            }
            let mut ops = slot_pointer(*index_varid, OtherReg::B, &Loc::MB, v, ch);
            ops.push(mov_op(*loc, Loc::MB));
            Ok(ops)
        },
        _ => Err(CompileError::BadOperand),
    }
}

/// Copies the value of an operand to a place: returns the instructions for
/// it. On the way A, B and D may be overwritten.
pub fn assign_var_to_loc(var: &IRVar, loc: &Loc, ch: &mut Cache) -> (r: Result<Vec<ZPAQLOp>, CompileError>)
    ensures
        match r {
            Ok(ops) => var_to_loc(var.deep_view(), *loc, old(ch)@) =~~= Ok::<Emitted, CompileError>(
                Emitted { code: ops@, cache: final(ch)@ },
            ),
            Err(e) => var_to_loc(var.deep_view(), *loc, old(ch)@) == Err::<Emitted, CompileError>(e),
        },
{
    let v = var.tovar();
    if ch.is_loc(loc, &v) {
        Ok(none())
    } else if ch.is_loc(&Loc::Reg(Reg::A), &v) {
        ch.remove_reg(loc);
        ch.last_hold.insert(*loc, v);
        Ok(one(mov_op(*loc, Loc::Reg(Reg::A))))
    } else {
        let ops = fetch(&v, loc, ch)?;
        ch.remove_reg(loc);
        ch.last_hold.insert(*loc, v);
        Ok(ops)
    }
}

fn holds_exactly(ch: &Cache, loc: &Loc, var: &IRVar) -> (b: bool)
    ensures
        b == (ch@.contains_key(*loc) && ch@[*loc] == var.deep_view()),
{
    match ch.last_hold.get(loc) {
        Some(h) => h.same(var),
        None => false,
    }
}

fn hold_the_same(ch: &Cache, a: &Loc, b: &Loc) -> (r: bool)
    ensures
        r == (ch@.contains_key(*a) && ch@.contains_key(*b) && ch@[*a] == ch@[*b]),
{
    match ch.last_hold.get(a) {
        Some(x) => match ch.last_hold.get(b) {
            Some(y) => x.same(y),
            None => false,
        },
        None => false,
    }
}

fn append(ops: &mut Vec<ZPAQLOp>, more: Vec<ZPAQLOp>)
    ensures
        final(ops)@ == old(ops)@ + more@,
{
    let mut rest = more;
    ops.append(&mut rest);
}

/// Stores the value of a place in an operand: returns the instructions
/// for it. On the way A, C and D may be overwritten.
pub fn assign_loc_to_var(var: &IRVar, loc: &Loc, ch: &mut Cache) -> (r: Result<Vec<ZPAQLOp>, CompileError>)
    ensures
        match r {
            Ok(ops) => loc_to_var(var.deep_view(), *loc, old(ch)@) =~~= Ok::<Emitted, CompileError>(
                Emitted { code: ops@, cache: final(ch)@ },
            ),
            Err(e) => loc_to_var(var.deep_view(), *loc, old(ch)@) == Err::<Emitted, CompileError>(e),
        },
{
    if holds_exactly(ch, loc, var) {
        return Ok(none());
    }
    let a = Loc::Reg(Reg::A);
    let c = Loc::Reg(Reg::OtherReg(OtherReg::C));
    let d = Loc::Reg(Reg::OtherReg(OtherReg::D));
    let v = var.tovar();
    match &v {
        IRVar::Number { value } => Err(CompileError::BadOperand),
        IRVar::Var { varid } => {
            let mut ops = none();
            if !is_a(loc) && !hold_the_same(ch, &a, loc) {
                ops.push(mov_op(a, *loc));
            }
            ops.push(ZPAQLOp::RsetA { n: *varid });
            ch.delete(var);
            ch.delete_references(*varid);
            ch.last_hold.insert(*loc, v.clone());
            ch.last_hold.insert(a, v.clone());
            Ok(ops)
        },
        IRVar::H { index_varid, orig_name } => {
            if is_d(loc) || is_hd(loc) {
                return Err(CompileError::RegisterClash);
            }
            let mut ops = slot_load(*index_varid, OtherReg::D, ch);
            ops.push(mov_op(Loc::HD, *loc));
            ch.delete(var);
            ch.last_hold.insert(*loc, v.clone());
            ch.last_hold.insert(Loc::HD, v.clone());
            Ok(ops)
        },
        IRVar::Ht { stack_offset, local, orig_name } => {
            if is_d(loc) || is_hd(loc) {
                return Err(CompileError::RegisterClash);
            }
            let mut ops = none();
            let source = if is_a(loc) {
                ops.push(mov_op(c, a));
                ch.remove_reg(&c);
                c
            } else {
                *loc
            };
            let ghost first = ops@;
            let more = frame_pointer(*stack_offset, *local, orig_name, ch)?;
            append(&mut ops, more);
            ops.push(mov_op(Loc::HD, source));
            ch.delete(var);
            ch.last_hold.insert(source, v.clone());
            ch.last_hold.insert(Loc::HD, v.clone());
            Ok(ops)
        },
        IRVar::Hx { addr } => {
            if is_d(loc) || is_hd(loc) {
                return Err(CompileError::RegisterClash);
            }
            let mut ops = none();
            let source = if is_a(loc) {
                ops.push(mov_op(c, a));
                ch.remove_reg(&c);
                c
            } else {
                *loc
            };
            let more = address_pointer(*addr, OtherReg::D, &Loc::HD, &v, ch);
            append(&mut ops, more);
            ops.push(mov_op(Loc::HD, source));
            ch.delete(var);
            ch.last_hold.insert(source, v.clone());
            ch.last_hold.insert(Loc::HD, v.clone());
            Ok(ops)
        },
        IRVar::Mx { addr } => {
            if is_c(loc) || is_mc(loc) {
                return Err(CompileError::RegisterClash);
            }
            let mut ops = none();
            let source = if is_a(loc) {
                ops.push(mov_op(d, a));
                ch.remove_reg(&d);
                d
            } else {
                *loc
            };
            let more = address_pointer(*addr, OtherReg::C, &Loc::MC, &v, ch);
            append(&mut ops, more);
            ops.push(mov_op(Loc::MC, source));
            ch.delete(var);
            ch.last_hold.insert(source, v.clone());
            ch.last_hold.insert(Loc::MC, v.clone());
            Ok(ops)
        },
        IRVar::M { index_varid } => {
            if is_c(loc) || is_mc(loc) {
                return Err(CompileError::RegisterClash);
            }
            let mut ops = slot_load(*index_varid, OtherReg::C, ch);
            ops.push(mov_op(Loc::MC, *loc));
            ch.delete(var);
            ch.last_hold.insert(*loc, v.clone());
            ch.last_hold.insert(Loc::MC, v.clone());
            Ok(ops)
        },
        _ => Err(CompileError::BadOperand),
    }
}

/// A listing, and what the cache knows after it.
pub struct Listing {
    pub code: Seq<OpView>,
    pub cache: CacheView,
}

/// A listing or a failure.
pub type Step = Result<Listing, CompileError>;

/// The listing followed by the instructions that copy an operand to a
/// place.
pub open spec fn then_fetch(r: Step, var: IRVarView, loc: Loc) -> Step {
    match r {
        Err(e) => Err(e),
        Ok(s) => match var_to_loc(var, loc, s.cache) {
            Err(e) => Err(e),
            Ok(t) => Ok(Listing { code: s.code + op_views(t.code), cache: t.cache }),
        },
    }
}

/// The listing followed by the instructions that store a place in an
/// operand.
pub open spec fn then_store(r: Step, var: IRVarView, loc: Loc) -> Step {
    match r {
        Err(e) => Err(e),
        Ok(s) => match loc_to_var(var, loc, s.cache) {
            Err(e) => Err(e),
            Ok(t) => Ok(Listing { code: s.code + op_views(t.code), cache: t.cache }),
        },
    }
}

/// The listing followed by the instructions that make the place of a cell
/// of memory ready.
pub open spec fn then_place(r: Step, var: IRVarView) -> Step {
    match r {
        Err(e) => Err(e),
        Ok(s) => match loc_code(var, s.cache) {
            Err(e) => Err(e),
            Ok(t) => Ok(Listing { code: s.code + op_views(t.code), cache: t.cache }),
        },
    }
}

/// The listing followed by instructions.
pub open spec fn then_ops(r: Step, ops: Seq<ZPAQLOp>) -> Step {
    match r {
        Err(e) => Err(e),
        Ok(s) => Ok(Listing { code: s.code + op_views(ops), cache: s.cache }),
    }
}

/// The listing followed by a jump to a label.
pub open spec fn then_jump(r: Step, label: Seq<char>) -> Step {
    match r {
        Err(e) => Err(e),
        Ok(s) => Ok(Listing { code: s.code.push(OpView::GoTo { label }), cache: s.cache }),
    }
}

/// The listing, with the cache after a write to a place.
pub open spec fn then_write(r: Step, loc: Loc) -> Step {
    match r {
        Err(e) => Err(e),
        Ok(s) => Ok(Listing { code: s.code, cache: without_reg(s.cache, loc) }),
    }
}

/// The listing, with the cache noting that a place holds an operand.
pub open spec fn then_note(r: Step, loc: Loc, v: IRVarView) -> Step {
    match r {
        Err(e) => Err(e),
        Ok(s) => Ok(Listing { code: s.code, cache: s.cache.insert(loc, v) }),
    }
}

/// The listing, with the cache forgetting an operand, but for one place.
pub open spec fn then_forget(r: Step, v: IRVarView, keep: Option<Loc>) -> Step {
    match r {
        Err(e) => Err(e),
        Ok(s) => Ok(Listing { code: s.code, cache: without_var(s.cache, v, keep) }),
    }
}

/// The instructions for an operator with one operand, on A. `not` turns 0
/// into 1 and everything else into 0.
pub open spec fn uop_on_a(uop: IRUOp) -> Seq<ZPAQLOp> {
    match uop {
        IRUOp::Not => seq![
            ZPAQLOp::Inc(reg_a()),
            ZPAQLOp::AeqN { n: 1 },
            ZPAQLOp::JT { n: 1 },
            ZPAQLOp::Zero(reg_a()),
        ],
        IRUOp::Invert => seq![ZPAQLOp::Not(reg_a())],
        IRUOp::USub => seq![ZPAQLOp::Not(reg_a()), ZPAQLOp::Inc(reg_a())],
    }
}

/// The instructions for an operator with one operand, on the place that
/// holds the operand. `not` needs a 0 in A to compare with.
pub open spec fn uop_in_place(uop: IRUOp, loc: Loc) -> Seq<ZPAQLOp> {
    match uop {
        IRUOp::Not => seq![
            ZPAQLOp::Zero(reg_a()),
            ZPAQLOp::Aeq(loc),
            ZPAQLOp::Zero(loc),
            ZPAQLOp::JF { n: 1 },
            ZPAQLOp::Inc(loc),
        ],
        IRUOp::Invert => seq![ZPAQLOp::Not(loc)],
        IRUOp::USub => seq![ZPAQLOp::Not(loc), ZPAQLOp::Inc(loc)],
    }
}

/// 1 in A where the flag is set, else 0.
pub open spec fn flag_to_a(when_set: bool) -> Seq<ZPAQLOp> {
    seq![
        ZPAQLOp::Zero(reg_a()),
        if when_set {
            ZPAQLOp::JF { n: 1 }
        } else {
            ZPAQLOp::JT { n: 1 }
        },
        ZPAQLOp::Inc(reg_a()),
    ]
}

/// The instructions for an operator with two operands: the first is in A,
/// the second in C, the result comes to be in A. Powers are computed by a
/// loop with the base in B. `or` keeps the first operand unless it is 0,
/// `and` keeps it if it is 0.
pub open spec fn op_ops(op: IROp) -> Seq<ZPAQLOp> {
    match op {
        IROp::Add => seq![ZPAQLOp::Aadd(reg_c())],
        IROp::Sub => seq![ZPAQLOp::Asub(reg_c())],
        IROp::Mult => seq![ZPAQLOp::Amult(reg_c())],
        IROp::Div => seq![ZPAQLOp::Adiv(reg_c())],
        IROp::Pow => seq![
            mov(reg_b(), reg_a()),
            ZPAQLOp::SetN { target: reg_a(), n: 1 },
            ZPAQLOp::SwapA(SwapLoc::OtherReg(OtherReg::C)),
            ZPAQLOp::AgtN { n: 0 },
            ZPAQLOp::JF { n: 5 },
            ZPAQLOp::SwapA(SwapLoc::OtherReg(OtherReg::C)),
            ZPAQLOp::Amult(reg_b()),
            ZPAQLOp::Dec(reg_c()),
            ZPAQLOp::JMP { n: -10i8 },
            ZPAQLOp::SwapA(SwapLoc::OtherReg(OtherReg::C)),
        ],
        IROp::LShift => seq![ZPAQLOp::Alshift(reg_c())],
        IROp::RShift => seq![ZPAQLOp::Arshift(reg_c())],
        IROp::Mod => seq![ZPAQLOp::Amod(reg_c())],
        IROp::BitOr => seq![ZPAQLOp::Aor(reg_c())],
        IROp::BitXor => seq![ZPAQLOp::Axor(reg_c())],
        IROp::BitAnd => seq![ZPAQLOp::Aand(reg_c())],
        IROp::Or => seq![ZPAQLOp::AeqN { n: 0 }, ZPAQLOp::JF { n: 1 }, mov(reg_a(), reg_c())],
        IROp::And => seq![ZPAQLOp::AeqN { n: 0 }, ZPAQLOp::JT { n: 1 }, mov(reg_a(), reg_c())],
        IROp::Eq => seq![ZPAQLOp::Aeq(reg_c())] + flag_to_a(true),
        IROp::NotEq => seq![ZPAQLOp::Aeq(reg_c())] + flag_to_a(false),
        IROp::Lt => seq![ZPAQLOp::Alt(reg_c())] + flag_to_a(true),
        IROp::LtE => seq![
            ZPAQLOp::Aeq(reg_c()),
            ZPAQLOp::JT { n: 4 },
            ZPAQLOp::Alt(reg_c()),
            ZPAQLOp::Zero(reg_a()),
            ZPAQLOp::JF { n: 2 },
            ZPAQLOp::SetN { target: reg_a(), n: 1 },
        ],
        IROp::Gt => seq![ZPAQLOp::Agt(reg_c())] + flag_to_a(true),
        IROp::GtE => seq![
            ZPAQLOp::Aeq(reg_c()),
            ZPAQLOp::JT { n: 4 },
            ZPAQLOp::Agt(reg_c()),
            ZPAQLOp::Zero(reg_a()),
            ZPAQLOp::JF { n: 2 },
            ZPAQLOp::SetN { target: reg_a(), n: 1 },
        ],
    }
}

/// A conditional jump: the test, and a jump over the long jump for the
/// case that it fails.
pub open spec fn skip_unless(flag: bool) -> ZPAQLOp {
    if flag {
        ZPAQLOp::JF { n: 3 }
    } else {
        ZPAQLOp::JT { n: 3 }
    }
}

/// Whether the operand is a cell of H.
pub open spec fn in_h(v: IRVarView) -> bool {
    v is H || v is Ht || v is Hx
}

/// Whether the operand is a byte of M.
pub open spec fn in_m(v: IRVarView) -> bool {
    v is M || v is Mx
}

/// A value is stored in a cell of memory through the cell's place: the
/// place is made ready, the cell forgotten, the value copied to the place,
/// and the place noted to hold the cell.
pub open spec fn stored_through_place(start: Step, target: IRVarView, source: IRVarView) -> Step {
    let loc = home(target.tovar());
    then_note(then_fetch(then_forget(then_place(start, target), target, None), source, loc), loc, target)
}

/// A value passes through a register on its way from `source` to `target`.
pub open spec fn moved_through(start: Step, target: IRVarView, source: IRVarView, reg: Loc) -> Step {
    then_store(then_fetch(start, source, reg), target, reg)
}

/// An operand in memory is changed where it is: its place is made ready,
/// the other copies are forgotten, and after the instructions the place is
/// noted to hold it.
pub open spec fn changed_in_place(start: Step, target: IRVarView, ops: Seq<ZPAQLOp>, zero_in_a: bool) -> Step {
    let loc = home(target.tovar());
    let ready = then_forget(then_place(start, target), target, Some(loc));
    let done = then_ops(
        if zero_in_a {
            then_note(ready, reg_a(), IRVarView::Number { value: 0 })
        } else {
            ready
        },
        ops,
    );
    then_note(then_write(done, loc), loc, target)
}

/// The instructions for `target = source`.
pub open spec fn assign_code(start: Step, target: IRVarView, source: IRVarView) -> Step {
    if target == source {
        start
    } else {
        let t = target.tovar();
        let s = source.tovar();
        if t is Var {
            moved_through(start, target, source, reg_a())
        } else if in_h(t) {
            if s is Number || s is Var || in_m(s) {
                stored_through_place(start, target, source)
            } else if in_h(s) {
                moved_through(start, target, source, reg_c())
            } else {
                Err(CompileError::BadOperand)
            }
        } else if in_m(t) {
            stored_through_place(start, target, source)
        } else {
            Err(CompileError::BadOperand)
        }
    }
}

/// The instructions for `target = uop source`.
pub open spec fn assign1_code(start: Step, target: IRVarView, uop: IRUOp, source: IRVarView) -> Step {
    if target == source && !(target.tovar() is Var) {
        changed_in_place(start, target, uop_in_place(uop, home(target.tovar())), uop == IRUOp::Not)
    } else {
        then_store(then_write(then_ops(then_fetch(start, source, reg_a()), uop_on_a(uop)), reg_a()), target, reg_a())
    }
}

/// `x++` or `x--`
pub open spec fn step_op(op: IROp, loc: Loc) -> ZPAQLOp {
    if op == IROp::Add {
        ZPAQLOp::Inc(loc)
    } else {
        ZPAQLOp::Dec(loc)
    }
}

/// Whether the instruction adds 0 or 1 to its target, or subtracts it.
pub open spec fn is_step(target: IRVarView, val1: IRVarView, op: IROp, val2: IRVarView) -> bool {
    target == val1 && (op == IROp::Add || op == IROp::Sub) && (val2 == (IRVarView::Number { value: 0 })
        || val2 == (IRVarView::Number { value: 1 }))
}

/// The instructions for `target = val1 op val2`.
pub open spec fn assign2_code(start: Step, target: IRVarView, val1: IRVarView, op: IROp, val2: IRVarView) -> Step {
    if is_step(target, val1, op, val2) {
        if val2 == (IRVarView::Number { value: 0 }) {
            start
        } else if target.tovar() is Var {
            then_store(
                then_write(then_ops(then_fetch(start, val1, reg_a()), seq![step_op(op, reg_a())]), reg_a()),
                target,
                reg_a(),
            )
        } else {
            changed_in_place(start, target, seq![step_op(op, home(target.tovar()))], false)
        }
    } else {
        then_store(
            then_write(
                then_write(
                    then_ops(then_fetch(then_fetch(start, val2, reg_c()), val1, reg_a()), op_ops(op)),
                    reg_a(),
                ),
                reg_c(),
            ),
            target,
            reg_a(),
        )
    }
}

/// Whether the instruction stands for a block of instructions until it is
/// expanded.
pub open spec fn is_meta(c: IRView) -> bool {
    c is InitialCode || c is JumpCode || c is Return || c is Call || c is StoreTempVars || c is LoadTempVars
}

/// The comment that goes before the code of an instruction.
pub open spec fn listing_comment(c: IRView) -> OpView {
    OpView::Comment { comment: "        "@ + c.text() }
}

/// The code for one instruction that is neither a block nor stands for
/// one: where comments are on, the instruction as a comment, then its
/// code. A label empties the cache.
#[verifier::opaque]
pub open spec fn plain_code(c: IRView, ch: CacheView, comments: bool) -> Step {
    let start: Step = Ok(
        Listing {
            code: if comments {
                seq![listing_comment(c)]
            } else {
                Seq::empty()
            },
            cache: ch,
        },
    );
    match c {
        IRView::Comment { comment } => Ok(Listing { code: seq![OpView::Comment { comment }], cache: ch }),
        IRView::Label { label } => Ok(
            Listing { code: start->Ok_0.code.push(OpView::Label { label, position: 0 }), cache: Map::empty() },
        ),
        IRView::GoTo { label } => then_jump(start, label),
        IRView::Error => then_ops(start, seq![ZPAQLOp::Error]),
        IRView::Halt => then_ops(start, seq![ZPAQLOp::Halt]),
        IRView::Out { var } => then_ops(then_fetch(start, var, reg_a()), seq![ZPAQLOp::Out]),
        IRView::If { cond_var, goto_label } => then_jump(
            then_ops(then_fetch(start, cond_var, reg_a()), seq![ZPAQLOp::AeqN { n: 0 }, skip_unless(false)]),
            goto_label,
        ),
        IRView::IfN { cond_var, goto_label } => then_jump(
            then_ops(then_fetch(start, cond_var, reg_a()), seq![ZPAQLOp::AeqN { n: 0 }, skip_unless(true)]),
            goto_label,
        ),
        IRView::IfEq { val1, val2, goto_label } => then_jump(
            then_ops(
                then_fetch(then_fetch(start, val1, reg_c()), val2, reg_a()),
                seq![ZPAQLOp::Aeq(reg_c()), skip_unless(true)],
            ),
            goto_label,
        ),
        IRView::IfNeq { val1, val2, goto_label } => then_jump(
            then_ops(
                then_fetch(then_fetch(start, val1, reg_c()), val2, reg_a()),
                seq![ZPAQLOp::Aeq(reg_c()), skip_unless(false)],
            ),
            goto_label,
        ),
        IRView::Assign { target, source } => assign_code(start, target, source),
        IRView::Assign1Op { target, uop, source } => assign1_code(start, target, uop, source),
        IRView::Assign2Op { target, val1, op, val2 } => assign2_code(start, target, val1, op, val2),
        IRView::MarkTempVarStart | IRView::MarkTempVarEnd => start,
        _ => Err(CompileError::NotExpanded),
    }
}

/// The instructions that an instruction stands for.
#[verifier::opaque]
pub open spec fn expansion(c: IRView) -> Seq<IRView> {
    c.convert()->Block_stmts
}

/// The code for the first `n` instructions of expanded code: blocks and
/// instructions that neither are nor stand for a block.
pub open spec fn expanded_code(stmts: Seq<IRView>, n: int, ch: CacheView, comments: bool) -> Step
    decreases stmts, n,
{
    if n <= 0 || n > stmts.len() {
        Ok(Listing { code: Seq::empty(), cache: ch })
    } else {
        match expanded_code(stmts, n - 1, ch, comments) {
            Err(e) => Err(e),
            Ok(s) => {
                let next = match stmts[n - 1] {
                    IRView::Block { stmts: inner } => expanded_code(inner, inner.len() as int, s.cache, comments),
                    c => plain_code(c, s.cache, comments),
                };
                match next {
                    Err(e) => Err(e),
                    Ok(t) => Ok(Listing { code: s.code + t.code, cache: t.cache }),
                }
            },
        }
    }
}

/// The code for the first `n` instructions: every instruction that stands
/// for a block is expanded, and the code of the instructions follows one
/// another, each starting with the cache that the one before left. An
/// instruction that cannot be expanded within 32 bits is refused.
pub open spec fn emitted(irc: Seq<IRView>, n: int, ch: CacheView, comments: bool) -> Step
    decreases irc, n,
{
    if n <= 0 || n > irc.len() {
        Ok(Listing { code: Seq::empty(), cache: ch })
    } else {
        match emitted(irc, n - 1, ch, comments) {
            Err(e) => Err(e),
            Ok(s) => {
                let c = irc[n - 1];
                let next = if !c.expandable() {
                    Err(CompileError::LimitExceeded)
                } else {
                    match c {
                        IRView::Block { stmts } => emitted(stmts, stmts.len() as int, s.cache, comments),
                        _ => if is_meta(c) {
                            expanded_code(expansion(c), expansion(c).len() as int, s.cache, comments)
                        } else {
                            plain_code(c, s.cache, comments)
                        },
                    }
                };
                match next {
                    Err(e) => Err(e),
                    Ok(t) => Ok(Listing { code: s.code + t.code, cache: t.cache }),
                }
            },
        }
    }
}

/// The ZPAQL code for a piece of intermediate code.
pub open spec fn zpaql_code(irc: Seq<IRView>, ch: CacheView, comments: bool) -> Step {
    emitted(irc, irc.len() as int, ch, comments)
}

/// Appends instructions to a listing.
fn extend(code: &mut Vec<ZPAQLOp>, more: Vec<ZPAQLOp>)
    ensures
        op_views(final(code)@) == op_views(old(code)@) + op_views(more@),
{
    let ghost added = more@;
    let mut rest = more;
    code.append(&mut rest);
    assert(op_views(code@) =~= op_views(old(code)@) + op_views(added));
}

fn put(code: &mut Vec<ZPAQLOp>, op: ZPAQLOp)
    ensures
        op_views(final(code)@) == op_views(old(code)@).push(op.deep_view()),
{
    code.push(op);
    assert(op_views(code@) =~= op_views(old(code)@).push(op.deep_view()));
}

fn do_fetch(code: &mut Vec<ZPAQLOp>, var: &IRVar, loc: &Loc, ch: &mut Cache) -> (r: Result<(), CompileError>)
    ensures
        match r {
            Ok(_) => then_fetch(
                Ok(Listing { code: op_views(old(code)@), cache: old(ch)@ }),
                var.deep_view(),
                *loc,
            ) == Ok::<Listing, CompileError>(Listing { code: op_views(final(code)@), cache: final(ch)@ }),
            Err(e) => then_fetch(
                Ok(Listing { code: op_views(old(code)@), cache: old(ch)@ }),
                var.deep_view(),
                *loc,
            ) == Err::<Listing, CompileError>(e),
        },
{
    let ops = assign_var_to_loc(var, loc, ch)?;
    extend(code, ops);
    Ok(())
}

fn do_store(code: &mut Vec<ZPAQLOp>, var: &IRVar, loc: &Loc, ch: &mut Cache) -> (r: Result<(), CompileError>)
    ensures
        match r {
            Ok(_) => then_store(
                Ok(Listing { code: op_views(old(code)@), cache: old(ch)@ }),
                var.deep_view(),
                *loc,
            ) == Ok::<Listing, CompileError>(Listing { code: op_views(final(code)@), cache: final(ch)@ }),
            Err(e) => then_store(
                Ok(Listing { code: op_views(old(code)@), cache: old(ch)@ }),
                var.deep_view(),
                *loc,
            ) == Err::<Listing, CompileError>(e),
        },
{
    let ops = assign_loc_to_var(var, loc, ch)?;
    extend(code, ops);
    Ok(())
}

fn do_place(code: &mut Vec<ZPAQLOp>, var: &IRVar, ch: &mut Cache) -> (r: Result<Loc, CompileError>)
    ensures
        match r {
            Ok(loc) => then_place(Ok(Listing { code: op_views(old(code)@), cache: old(ch)@ }), var.deep_view())
                == Ok::<Listing, CompileError>(Listing { code: op_views(final(code)@), cache: final(ch)@ })
                && loc == home(var.deep_view().tovar()),
            Err(e) => then_place(Ok(Listing { code: op_views(old(code)@), cache: old(ch)@ }), var.deep_view())
                == Err::<Listing, CompileError>(e),
        },
{
    let (ops, loc) = gen_loc_for_var(var, ch)?;
    extend(code, ops);
    Ok(loc)
}

fn do_ops(code: &mut Vec<ZPAQLOp>, ops: Vec<ZPAQLOp>, Ghost(ch): Ghost<CacheView>)
    ensures
        then_ops(Ok(Listing { code: op_views(old(code)@), cache: ch }), ops@) == Ok::<Listing, CompileError>(
            Listing { code: op_views(final(code)@), cache: ch },
        ),
{
    extend(code, ops);
}

fn do_jump(code: &mut Vec<ZPAQLOp>, label: &String, Ghost(ch): Ghost<CacheView>)
    ensures
        then_jump(Ok(Listing { code: op_views(old(code)@), cache: ch }), label@) == Ok::<Listing, CompileError>(
            Listing { code: op_views(final(code)@), cache: ch },
        ),
{
    put(code, ZPAQLOp::GoTo { label: label.clone() });
}

fn uop_a_ops(uop: IRUOp) -> (ops: Vec<ZPAQLOp>)
    ensures
        ops@ == uop_on_a(uop),
{
    let a = Loc::Reg(Reg::A);
    match uop {
        IRUOp::Not => vec![ZPAQLOp::Inc(a), ZPAQLOp::AeqN { n: 1 }, ZPAQLOp::JT { n: 1 }, ZPAQLOp::Zero(a)],
        IRUOp::Invert => vec![ZPAQLOp::Not(a)],
        IRUOp::USub => vec![ZPAQLOp::Not(a), ZPAQLOp::Inc(a)],
    }
}

fn uop_place_ops(uop: IRUOp, loc: Loc) -> (ops: Vec<ZPAQLOp>)
    ensures
        ops@ == uop_in_place(uop, loc),
{
    match uop {
        IRUOp::Not => vec![
            ZPAQLOp::Zero(Loc::Reg(Reg::A)),
            ZPAQLOp::Aeq(loc),
            ZPAQLOp::Zero(loc),
            ZPAQLOp::JF { n: 1 },
            ZPAQLOp::Inc(loc),
        ],
        IRUOp::Invert => vec![ZPAQLOp::Not(loc)],
        IRUOp::USub => vec![ZPAQLOp::Not(loc), ZPAQLOp::Inc(loc)],
    }
}

fn flag_ops(test: ZPAQLOp, when_set: bool) -> (ops: Vec<ZPAQLOp>)
    ensures
        ops@ == seq![test] + flag_to_a(when_set),
{
    let a = Loc::Reg(Reg::A);
    let ops = vec![
        test,
        ZPAQLOp::Zero(a),
        if when_set {
            ZPAQLOp::JF { n: 1 }
        } else {
            ZPAQLOp::JT { n: 1 }
        },
        ZPAQLOp::Inc(a),
    ];
    assert(ops@ =~= seq![test] + flag_to_a(when_set));
    ops
}

fn operator_ops(op: IROp) -> (ops: Vec<ZPAQLOp>)
    ensures
        ops@ == op_ops(op),
{
    let a = Loc::Reg(Reg::A);
    let b = Loc::Reg(Reg::OtherReg(OtherReg::B));
    let c = Loc::Reg(Reg::OtherReg(OtherReg::C));
    match op {
        IROp::Add => vec![ZPAQLOp::Aadd(c)],
        IROp::Sub => vec![ZPAQLOp::Asub(c)],
        IROp::Mult => vec![ZPAQLOp::Amult(c)],
        IROp::Div => vec![ZPAQLOp::Adiv(c)],
        IROp::Pow => vec![
            mov_op(b, a),
            ZPAQLOp::SetN { target: a, n: 1 },
            ZPAQLOp::SwapA(SwapLoc::OtherReg(OtherReg::C)),
            ZPAQLOp::AgtN { n: 0 },
            ZPAQLOp::JF { n: 5 },
            ZPAQLOp::SwapA(SwapLoc::OtherReg(OtherReg::C)),
            ZPAQLOp::Amult(b),
            ZPAQLOp::Dec(c),
            ZPAQLOp::JMP { n: -10 },
            ZPAQLOp::SwapA(SwapLoc::OtherReg(OtherReg::C)),
        ],
        IROp::LShift => vec![ZPAQLOp::Alshift(c)],
        IROp::RShift => vec![ZPAQLOp::Arshift(c)],
        IROp::Mod => vec![ZPAQLOp::Amod(c)],
        IROp::BitOr => vec![ZPAQLOp::Aor(c)],
        IROp::BitXor => vec![ZPAQLOp::Axor(c)],
        IROp::BitAnd => vec![ZPAQLOp::Aand(c)],
        IROp::Or => vec![ZPAQLOp::AeqN { n: 0 }, ZPAQLOp::JF { n: 1 }, mov_op(a, c)],
        IROp::And => vec![ZPAQLOp::AeqN { n: 0 }, ZPAQLOp::JT { n: 1 }, mov_op(a, c)],
        IROp::Eq => flag_ops(ZPAQLOp::Aeq(c), true),
        IROp::NotEq => flag_ops(ZPAQLOp::Aeq(c), false),
        IROp::Lt => flag_ops(ZPAQLOp::Alt(c), true),
        IROp::LtE => vec![
            ZPAQLOp::Aeq(c),
            ZPAQLOp::JT { n: 4 },
            ZPAQLOp::Alt(c),
            ZPAQLOp::Zero(a),
            ZPAQLOp::JF { n: 2 },
            ZPAQLOp::SetN { target: a, n: 1 },
        ],
        IROp::Gt => flag_ops(ZPAQLOp::Agt(c), true),
        IROp::GtE => vec![
            ZPAQLOp::Aeq(c),
            ZPAQLOp::JT { n: 4 },
            ZPAQLOp::Agt(c),
            ZPAQLOp::Zero(a),
            ZPAQLOp::JF { n: 2 },
            ZPAQLOp::SetN { target: a, n: 1 },
        ],
    }
}

fn store_through_place(code: &mut Vec<ZPAQLOp>, target: &IRVar, source: &IRVar, ch: &mut Cache) -> (r: Result<
    (),
    CompileError,
>)
    ensures
        match r {
            Ok(_) => stored_through_place(
                Ok(Listing { code: op_views(old(code)@), cache: old(ch)@ }),
                target.deep_view(),
                source.deep_view(),
            ) == Ok::<Listing, CompileError>(Listing { code: op_views(final(code)@), cache: final(ch)@ }),
            Err(e) => stored_through_place(
                Ok(Listing { code: op_views(old(code)@), cache: old(ch)@ }),
                target.deep_view(),
                source.deep_view(),
            ) == Err::<Listing, CompileError>(e),
        },
{
    let loc = do_place(code, target, ch)?;
    ch.delete(target);
    do_fetch(code, source, &loc, ch)?;
    ch.last_hold.insert(loc, target.clone());
    Ok(())
}

fn move_through(code: &mut Vec<ZPAQLOp>, target: &IRVar, source: &IRVar, reg: &Loc, ch: &mut Cache) -> (r:
    Result<(), CompileError>)
    ensures
        match r {
            Ok(_) => moved_through(
                Ok(Listing { code: op_views(old(code)@), cache: old(ch)@ }),
                target.deep_view(),
                source.deep_view(),
                *reg,
            ) == Ok::<Listing, CompileError>(Listing { code: op_views(final(code)@), cache: final(ch)@ }),
            Err(e) => moved_through(
                Ok(Listing { code: op_views(old(code)@), cache: old(ch)@ }),
                target.deep_view(),
                source.deep_view(),
                *reg,
            ) == Err::<Listing, CompileError>(e),
        },
{
    do_fetch(code, source, reg, ch)?;
    do_store(code, target, reg, ch)
}

fn change_in_place(code: &mut Vec<ZPAQLOp>, target: &IRVar, uop: Option<IRUOp>, op: IROp, ch: &mut Cache) -> (r:
    Result<(), CompileError>)
    ensures
        match r {
            Ok(_) => changed_in_place(
                Ok(Listing { code: op_views(old(code)@), cache: old(ch)@ }),
                target.deep_view(),
                match uop {
                    Some(u) => uop_in_place(u, home(target.deep_view().tovar())),
                    None => seq![step_op(op, home(target.deep_view().tovar()))],
                },
                uop == Some(IRUOp::Not),
            ) == Ok::<Listing, CompileError>(Listing { code: op_views(final(code)@), cache: final(ch)@ }),
            Err(e) => changed_in_place(
                Ok(Listing { code: op_views(old(code)@), cache: old(ch)@ }),
                target.deep_view(),
                match uop {
                    Some(u) => uop_in_place(u, home(target.deep_view().tovar())),
                    None => seq![step_op(op, home(target.deep_view().tovar()))],
                },
                uop == Some(IRUOp::Not),
            ) == Err::<Listing, CompileError>(e),
        },
{
    let loc = do_place(code, target, ch)?;
    ch.delete_not(target, &loc);
    match uop {
        Some(u) => {
            match u {
                IRUOp::Not => {
                    ch.last_hold.insert(Loc::Reg(Reg::A), IRVar::Number { value: 0 });
                },
                _ => {},
            }
            do_ops(code, uop_place_ops(u, loc), Ghost(ch@));
        },
        None => {
            let step = match op {
                IROp::Add => ZPAQLOp::Inc(loc),
                _ => ZPAQLOp::Dec(loc),
            };
            do_ops(code, one(step), Ghost(ch@));
        },
    }
    ch.remove_reg(&loc);
    ch.last_hold.insert(loc, target.clone());
    Ok(())
}

fn is_slot(v: &IRVar) -> (b: bool)
    ensures
        b == (v.deep_view() is Var),
{
    match v {
        IRVar::Var { .. } => true,
        _ => false,
    }
}

fn is_in_h(v: &IRVar) -> (b: bool)
    ensures
        b == in_h(v.deep_view()),
{
    match v {
        IRVar::H { .. } | IRVar::Ht { .. } | IRVar::Hx { .. } => true,
        _ => false,
    }
}

fn is_in_m(v: &IRVar) -> (b: bool)
    ensures
        b == in_m(v.deep_view()),
{
    match v {
        IRVar::M { .. } | IRVar::Mx { .. } => true,
        _ => false,
    }
}

fn is_number(v: &IRVar) -> (b: bool)
    ensures
        b == (v.deep_view() is Number),
{
    match v {
        IRVar::Number { .. } => true,
        _ => false,
    }
}

fn is_constant(v: &IRVar, value: u32) -> (b: bool)
    ensures
        b == (v.deep_view() == (IRVarView::Number { value })),
{
    match v {
        IRVar::Number { value: x } => *x == value,
        _ => false,
    }
}

fn emit_assign(code: &mut Vec<ZPAQLOp>, target: &IRVar, source: &IRVar, ch: &mut Cache) -> (r: Result<
    (),
    CompileError,
>)
    ensures
        match r {
            Ok(_) => assign_code(
                Ok(Listing { code: op_views(old(code)@), cache: old(ch)@ }),
                target.deep_view(),
                source.deep_view(),
            ) == Ok::<Listing, CompileError>(Listing { code: op_views(final(code)@), cache: final(ch)@ }),
            Err(e) => assign_code(
                Ok(Listing { code: op_views(old(code)@), cache: old(ch)@ }),
                target.deep_view(),
                source.deep_view(),
            ) == Err::<Listing, CompileError>(e),
        },
{
    if target.same(source) {
        return Ok(());
    }
    let t = target.tovar();
    let s = source.tovar();
    if is_slot(&t) {
        move_through(code, target, source, &Loc::Reg(Reg::A), ch)
    } else if is_in_h(&t) {
        if is_number(&s) || is_slot(&s) || is_in_m(&s) {
            store_through_place(code, target, source, ch)
        } else if is_in_h(&s) {
            move_through(code, target, source, &Loc::Reg(Reg::OtherReg(OtherReg::C)), ch)
        } else {
            Err(CompileError::BadOperand)
        }
    } else if is_in_m(&t) {
        store_through_place(code, target, source, ch)
    } else {
        Err(CompileError::BadOperand)
    }
}

fn emit_assign1(code: &mut Vec<ZPAQLOp>, target: &IRVar, uop: IRUOp, source: &IRVar, ch: &mut Cache) -> (r:
    Result<(), CompileError>)
    ensures
        match r {
            Ok(_) => assign1_code(
                Ok(Listing { code: op_views(old(code)@), cache: old(ch)@ }),
                target.deep_view(),
                uop,
                source.deep_view(),
            ) == Ok::<Listing, CompileError>(Listing { code: op_views(final(code)@), cache: final(ch)@ }),
            Err(e) => assign1_code(
                Ok(Listing { code: op_views(old(code)@), cache: old(ch)@ }),
                target.deep_view(),
                uop,
                source.deep_view(),
            ) == Err::<Listing, CompileError>(e),
        },
{
    let a = Loc::Reg(Reg::A);
    if target.same(source) && !is_slot(&target.tovar()) {
        change_in_place(code, target, Some(uop), IROp::Add, ch)
    } else {
        do_fetch(code, source, &a, ch)?;
        do_ops(code, uop_a_ops(uop), Ghost(ch@));
        ch.remove_reg(&a);
        do_store(code, target, &a, ch)
    }
}

fn emit_assign2(
    code: &mut Vec<ZPAQLOp>,
    target: &IRVar,
    val1: &IRVar,
    op: IROp,
    val2: &IRVar,
    ch: &mut Cache,
) -> (r: Result<(), CompileError>)
    ensures
        match r {
            Ok(_) => assign2_code(
                Ok(Listing { code: op_views(old(code)@), cache: old(ch)@ }),
                target.deep_view(),
                val1.deep_view(),
                op,
                val2.deep_view(),
            ) == Ok::<Listing, CompileError>(Listing { code: op_views(final(code)@), cache: final(ch)@ }),
            Err(e) => assign2_code(
                Ok(Listing { code: op_views(old(code)@), cache: old(ch)@ }),
                target.deep_view(),
                val1.deep_view(),
                op,
                val2.deep_view(),
            ) == Err::<Listing, CompileError>(e),
        },
{
    let a = Loc::Reg(Reg::A);
    let c = Loc::Reg(Reg::OtherReg(OtherReg::C));
    let steps = match op {
        IROp::Add => true,
        IROp::Sub => true,
        _ => false,
    };
    if target.same(val1) && steps && (is_constant(val2, 0) || is_constant(val2, 1)) {
        if is_constant(val2, 0) {
            Ok(())
        } else if is_slot(&target.tovar()) {
            do_fetch(code, val1, &a, ch)?;
            let step = match op {
                IROp::Add => ZPAQLOp::Inc(a),
                _ => ZPAQLOp::Dec(a),
            };
            do_ops(code, one(step), Ghost(ch@));
            ch.remove_reg(&a);
            do_store(code, target, &a, ch)
        } else {
            change_in_place(code, target, None, op, ch)
        }
    } else {
        do_fetch(code, val2, &c, ch)?;
        do_fetch(code, val1, &a, ch)?;
        do_ops(code, operator_ops(op), Ghost(ch@));
        ch.remove_reg(&a);
        ch.remove_reg(&c);
        do_store(code, target, &a, ch)
    }
}

fn comment_for(op: &IR) -> (c: ZPAQLOp)
    ensures
        c.deep_view() == listing_comment(op.deep_view()),
{
    let mut s = String::from_str("        ");
    let t = op.to_string();
    push_text(&mut s, t.as_str());
    ZPAQLOp::Comment { comment: s }
}

/// The code for one instruction that is neither a block nor stands for one.
fn emit_plain(op: &IR, ch: &mut Cache, optioncfg: &Options) -> (r: Result<Vec<ZPAQLOp>, CompileError>)
    ensures
        match r {
            Ok(code) => plain_code(op.deep_view(), old(ch)@, optioncfg.comments) == Ok::<Listing, CompileError>(
                Listing { code: op_views(code@), cache: final(ch)@ },
            ),
            Err(e) => plain_code(op.deep_view(), old(ch)@, optioncfg.comments) == Err::<Listing, CompileError>(e),
        },
{
    reveal(plain_code);
    let a = Loc::Reg(Reg::A);
    let c = Loc::Reg(Reg::OtherReg(OtherReg::C));
    let mut code: Vec<ZPAQLOp> = Vec::new();
    assert(op_views(code@) =~= Seq::<OpView>::empty());
    match op {
        IR::Comment { comment } => {
            put(&mut code, ZPAQLOp::Comment { comment: comment.clone() });
            assert(op_views(code@) =~= seq![OpView::Comment { comment: comment@ }]);
            return Ok(code);
        },
        IR::Block { .. }
        | IR::InitialCode { .. }
        | IR::JumpCode { .. }
        | IR::Return { .. }
        | IR::Call { .. }
        | IR::StoreTempVars { .. }
        | IR::LoadTempVars { .. } => {
            return Err(CompileError::NotExpanded);
        },
        _ => {},
    }
    if optioncfg.comments {
        put(&mut code, comment_for(op));
        assert(op_views(code@) =~= seq![listing_comment(op.deep_view())]);
    }
    match op {
        IR::Label { label } => {
            ch.last_hold.clear();
            put(&mut code, ZPAQLOp::Label { label: label.clone(), position: 0 });
        },
        IR::GoTo { label } => {
            do_jump(&mut code, label, Ghost(ch@));
        },
        IR::Error => {
            do_ops(&mut code, one(ZPAQLOp::Error), Ghost(ch@));
        },
        IR::Halt => {
            do_ops(&mut code, one(ZPAQLOp::Halt), Ghost(ch@));
        },
        IR::Out { var } => {
            do_fetch(&mut code, var, &a, ch)?;
            do_ops(&mut code, one(ZPAQLOp::Out), Ghost(ch@));
        },
        IR::If { cond_var, goto_label } => {
            do_fetch(&mut code, cond_var, &a, ch)?;
            do_ops(&mut code, two(ZPAQLOp::AeqN { n: 0 }, ZPAQLOp::JT { n: 3 }), Ghost(ch@));
            do_jump(&mut code, goto_label, Ghost(ch@));
        },
        IR::IfN { cond_var, goto_label } => {
            do_fetch(&mut code, cond_var, &a, ch)?;
            do_ops(&mut code, two(ZPAQLOp::AeqN { n: 0 }, ZPAQLOp::JF { n: 3 }), Ghost(ch@));
            do_jump(&mut code, goto_label, Ghost(ch@));
        },
        IR::IfEq { val1, val2, goto_label } => {
            do_fetch(&mut code, val1, &c, ch)?;
            do_fetch(&mut code, val2, &a, ch)?;
            do_ops(&mut code, two(ZPAQLOp::Aeq(c), ZPAQLOp::JF { n: 3 }), Ghost(ch@));
            do_jump(&mut code, goto_label, Ghost(ch@));
        },
        IR::IfNeq { val1, val2, goto_label } => {
            do_fetch(&mut code, val1, &c, ch)?;
            do_fetch(&mut code, val2, &a, ch)?;
            do_ops(&mut code, two(ZPAQLOp::Aeq(c), ZPAQLOp::JT { n: 3 }), Ghost(ch@));
            do_jump(&mut code, goto_label, Ghost(ch@));
        },
        IR::Assign { target, source } => {
            emit_assign(&mut code, target, source, ch)?;
        },
        IR::Assign1Op { target, uop, source } => {
            emit_assign1(&mut code, target, *uop, source, ch)?;
        },
        IR::Assign2Op { target, val1, op, val2 } => {
            emit_assign2(&mut code, target, val1, *op, val2, ch)?;
        },
        _ => {},
    }
    Ok(code)
}

/// The code for expanded code: blocks and instructions that neither are nor
/// stand for a block.
fn emit_expanded(stmts: &Vec<IR>, ch: &mut Cache, optioncfg: &Options) -> (r: Result<Vec<ZPAQLOp>, CompileError>)
    ensures
        match r {
            Ok(code) => expanded_code(ir_views(stmts@), stmts@.len() as int, old(ch)@, optioncfg.comments)
                == Ok::<Listing, CompileError>(Listing { code: op_views(code@), cache: final(ch)@ }),
            Err(e) => expanded_code(ir_views(stmts@), stmts@.len() as int, old(ch)@, optioncfg.comments)
                == Err::<Listing, CompileError>(e),
        },
    decreases stmts,
{
    let ghost all = ir_views(stmts@);
    let ghost start = ch@;
    let mut code: Vec<ZPAQLOp> = Vec::new();
    assert(op_views(code@) =~= Seq::<OpView>::empty());
    let mut i: usize = 0;
    while i < stmts.len()
        invariant
            i <= stmts.len(),
            all == ir_views(stmts@),
            start == old(ch)@,
            expanded_code(all, i as int, start, optioncfg.comments) == Ok::<Listing, CompileError>(
                Listing { code: op_views(code@), cache: ch@ },
            ),
        decreases stmts.len() - i,
    {
        let ghost before = ch@;
        let ghost next = match all[i as int] {
            IRView::Block { stmts: inner } => expanded_code(inner, inner.len() as int, before, optioncfg.comments),
            c => plain_code(c, before, optioncfg.comments),
        };
        assert(all[i as int] == stmts@[i as int].deep_view());
        let more = match &stmts[i] {
            IR::Block { stmts: inner } => {
                proof {
                    lemma_block_view(*inner);
                }
                emit_expanded(inner, ch, optioncfg)
            },
            op => emit_plain(op, ch, optioncfg),
        };
        assert(match more {
            Ok(m) => next == Ok::<Listing, CompileError>(Listing { code: op_views(m@), cache: ch@ }),
            Err(e) => next == Err::<Listing, CompileError>(e),
        });
        match more {
            Err(e) => {
                proof {
                    assert(expanded_code(all, i + 1, start, optioncfg.comments) == Err::<Listing, CompileError>(e));
                    lemma_expanded_fails(all, i + 1, all.len() as int, start, optioncfg.comments);
                }
                return Err(e);
            },
            Ok(m) => {
                extend(&mut code, m);
            },
        }
        i += 1;
    }
    Ok(code)
}

proof fn lemma_expanded_fails(stmts: Seq<IRView>, k: int, n: int, ch: CacheView, comments: bool)
    requires
        0 <= k <= n <= stmts.len(),
        expanded_code(stmts, k, ch, comments) is Err,
    ensures
        expanded_code(stmts, n, ch, comments) == expanded_code(stmts, k, ch, comments),
    decreases n - k,
{
    if k < n {
        lemma_expanded_fails(stmts, k, n - 1, ch, comments);
    }
}

proof fn lemma_emitted_fails(irc: Seq<IRView>, k: int, n: int, ch: CacheView, comments: bool)
    requires
        0 <= k <= n <= irc.len(),
        emitted(irc, k, ch, comments) is Err,
    ensures
        emitted(irc, n, ch, comments) == emitted(irc, k, ch, comments),
    decreases n - k,
{
    if k < n {
        lemma_emitted_fails(irc, k, n - 1, ch, comments);
    }
}

fn stands_for_block(op: &IR) -> (b: bool)
    ensures
        b == is_meta(op.deep_view()),
{
    match op {
        IR::InitialCode { .. }
        | IR::JumpCode { .. }
        | IR::Return { .. }
        | IR::Call { .. }
        | IR::StoreTempVars { .. }
        | IR::LoadTempVars { .. } => true,
        _ => false,
    }
}

fn emit_meta(op: &IR, ch: &mut Cache, optioncfg: &Options) -> (r: Result<Vec<ZPAQLOp>, CompileError>)
    requires
        is_meta(op.deep_view()),
        op.deep_view().expandable(),
    ensures
        match r {
            Ok(code) => expanded_code(
                expansion(op.deep_view()),
                expansion(op.deep_view()).len() as int,
                old(ch)@,
                optioncfg.comments,
            ) == Ok::<Listing, CompileError>(Listing { code: op_views(code@), cache: final(ch)@ }),
            Err(e) => expanded_code(
                expansion(op.deep_view()),
                expansion(op.deep_view()).len() as int,
                old(ch)@,
                optioncfg.comments,
            ) == Err::<Listing, CompileError>(e),
        },
{
    reveal(expansion);
    match op.convert() {
        IR::Block { stmts } => {
            proof {
                lemma_block_view(stmts);
            }
            emit_expanded(&stmts, ch, optioncfg)
        },
        _ => {
            assert(false);
            Err(CompileError::NotExpanded)
        },
    }
}

fn emit_all(irc: &Vec<IR>, ch: &mut Cache, optioncfg: &Options) -> (r: Result<Vec<ZPAQLOp>, CompileError>)
    ensures
        match r {
            Ok(code) => zpaql_code(ir_views(irc@), old(ch)@, optioncfg.comments) == Ok::<Listing, CompileError>(
                Listing { code: op_views(code@), cache: final(ch)@ },
            ),
            Err(e) => zpaql_code(ir_views(irc@), old(ch)@, optioncfg.comments) == Err::<Listing, CompileError>(e),
        },
    decreases irc,
{
    let ghost all = ir_views(irc@);
    let ghost start = ch@;
    let mut code: Vec<ZPAQLOp> = Vec::new();
    assert(op_views(code@) =~= Seq::<OpView>::empty());
    let mut i: usize = 0;
    while i < irc.len()
        invariant
            i <= irc.len(),
            all == ir_views(irc@),
            start == old(ch)@,
            emitted(all, i as int, start, optioncfg.comments) == Ok::<Listing, CompileError>(
                Listing { code: op_views(code@), cache: ch@ },
            ),
        decreases irc.len() - i,
    {
        let op = &irc[i];
        let ghost before = ch@;
        let ghost c = all[i as int];
        let ghost next = if !c.expandable() {
            Err(CompileError::LimitExceeded)
        } else {
            match c {
                IRView::Block { stmts } => emitted(stmts, stmts.len() as int, before, optioncfg.comments),
                _ => if is_meta(c) {
                    expanded_code(expansion(c), expansion(c).len() as int, before, optioncfg.comments)
                } else {
                    plain_code(c, before, optioncfg.comments)
                },
            }
        };
        assert(c == irc@[i as int].deep_view());
        let more = if !op.fits() {
            Err(CompileError::LimitExceeded)
        } else {
            match op {
                IR::Block { stmts } => {
                    proof {
                        lemma_block_view(*stmts);
                    }
                    emit_all(stmts, ch, optioncfg)
                },
                _ => {
                    if stands_for_block(op) {
                        emit_meta(op, ch, optioncfg)
                    } else {
                        emit_plain(op, ch, optioncfg)
                    }
                },
            }
        };
        assert(match more {
            Ok(m) => next == Ok::<Listing, CompileError>(Listing { code: op_views(m@), cache: ch@ }),
            Err(e) => next == Err::<Listing, CompileError>(e),
        });
        match more {
            Err(e) => {
                proof {
                    assert(emitted(all, i + 1, start, optioncfg.comments) == Err::<Listing, CompileError>(e));
                    lemma_emitted_fails(all, i + 1, all.len() as int, start, optioncfg.comments);
                }
                return Err(e);
            },
            Ok(m) => {
                extend(&mut code, m);
            },
        }
        i += 1;
    }
    Ok(code)
}

/// Compiles intermediate code to ZPAQL: the variables in H, M and R are
/// moved through the registers A to D, and the cache keeps track of what
/// the registers hold between the instructions.
pub fn emit_zpaql(irc: &[IR], ch: &mut Cache, optioncfg: &Options) -> (r: Result<Vec<ZPAQLOp>, CompileError>)
    ensures
        match r {
            Ok(code) => zpaql_code(ir_views(irc@), old(ch)@, optioncfg.comments) == Ok::<Listing, CompileError>(
                Listing { code: op_views(code@), cache: final(ch)@ },
            ),
            Err(e) => zpaql_code(ir_views(irc@), old(ch)@, optioncfg.comments) == Err::<Listing, CompileError>(e),
        },
{
    let mut owned: Vec<IR> = Vec::new();
    let mut i: usize = 0;
    while i < irc.len()
        invariant
            i <= irc.len(),
            owned.len() == i,
            forall|j: int| 0 <= j < i ==> owned@[j].deep_view() == irc@[j].deep_view(),
        decreases irc.len() - i,
    {
        owned.push(irc[i].clone());
        i += 1;
    }
    assert(ir_views(owned@) =~= ir_views(irc@));
    emit_all(&owned, ch, optioncfg)
}

} // verus!
