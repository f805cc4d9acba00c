//! A machine that runs assembled ZPAQL code.

use vstd::prelude::*;
use crate::zpaqcfg::{power_of_two, two_to, ZPAQCfgFile};
use crate::zpaql::{op_views, Loc, OpView, OtherReg, Reg, SwapLoc, ZPAQLOp};

verus! {

/// Why the machine stopped without reaching `halt`.
#[derive(Debug, Clone, Copy, PartialEq, Eq, Structural)]
pub enum VmError {
    /// An array of the configuration has 2^32 cells or more.
    TooLarge,
    /// The machine has no cell in H or M, or not 256 slots in R.
    BadMachine,
    /// The program counter points behind the code, or into the middle of an
    /// instruction.
    InvalidPc,
    /// The instruction `error` was reached.
    ErrorInstruction,
    /// The instruction `halt` was to be executed.
    HaltExecuted,
    /// A comment, a label or a jump to a label was reached.
    NotExecutable,
    /// `halt` was not reached within the given number of steps.
    OutOfSteps,
}

/// An interpreter for assembled ZPAQL code.
pub struct ZPAQLVM {
    /// The code byte by byte: an instruction at its first byte, nothing at
    /// its other bytes.
    pub code: Vec<Option<ZPAQLOp>>,
    pub pc: u16,
    pub h: Vec<u32>,
    pub m: Vec<u8>,
    pub a: u32,
    pub b: u32,
    pub c: u32,
    pub d: u32,
    pub f: bool,
    pub r: Vec<u32>,
    /// What `out` has emitted.
    pub outbuf: Vec<u8>,
}

/// The state of the machine.
pub struct Machine {
    pub pc: u16,
    pub h: Seq<u32>,
    pub m: Seq<u8>,
    pub a: u32,
    pub b: u32,
    pub c: u32,
    pub d: u32,
    pub f: bool,
    pub r: Seq<u32>,
    pub outbuf: Seq<u8>,
}

/// Addition modulo 2^32.
pub open spec fn zadd_spec(x: u32, y: u32) -> u32 {
    ((x + y) % 0x1_0000_0000) as u32
}

/// Subtraction modulo 2^32.
pub open spec fn zsub_spec(x: u32, y: u32) -> u32 {
    ((x - y + 0x1_0000_0000) % 0x1_0000_0000) as u32
}

/// Multiplication modulo 2^32.
pub open spec fn zmul_spec(x: u32, y: u32) -> u32 {
    ((x * y) % 0x1_0000_0000) as u32
}

/// Division, which gives 0 for the divisor 0.
pub open spec fn zdiv_spec(x: u32, y: u32) -> u32 {
    if y == 0 {
        0
    } else {
        x / y
    }
}

/// The remainder, which is 0 for the divisor 0.
pub open spec fn zmod_spec(x: u32, y: u32) -> u32 {
    if y == 0 {
        0
    } else {
        x % y
    }
}

/// A shift to the left by `y` modulo 32 bits.
pub open spec fn zlshift_spec(x: u32, y: u32) -> u32 {
    x << (y % 32)
}

/// A shift to the right by `y` modulo 32 bits.
pub open spec fn zrshift_spec(x: u32, y: u32) -> u32 {
    x >> (y % 32)
}

pub open spec fn band_spec(x: u32, y: u32) -> u32 {
    x & y
}

pub open spec fn bandnot_spec(x: u32, y: u32) -> u32 {
    x & !y
}

pub open spec fn bor_spec(x: u32, y: u32) -> u32 {
    x | y
}

pub open spec fn bxor_spec(x: u32, y: u32) -> u32 {
    x ^ y
}

/// A with its low byte replaced.
pub open spec fn with_low_byte(a: u32, byte: u32) -> u32 {
    ((a & 0xffff_ff00) + byte) as u32
}

/// The program counter moved by `n`, modulo 2^16.
pub open spec fn jumped(pc: u16, n: i8) -> u16 {
    ((pc + n + 65536) % 65536) as u16
}

pub fn zadd(x: u32, y: u32) -> (r: u32)
    ensures
        r == zadd_spec(x, y),
{
    ((x as u64 + y as u64) % 0x1_0000_0000) as u32
}

pub fn zsub(x: u32, y: u32) -> (r: u32)
    ensures
        r == zsub_spec(x, y),
{
    ((x as u64 + 0x1_0000_0000 - y as u64) % 0x1_0000_0000) as u32
}

pub fn zmul(x: u32, y: u32) -> (r: u32)
    ensures
        r == zmul_spec(x, y),
{
    assert(x * y <= 0xffff_ffff * 0xffff_ffff) by (nonlinear_arith)
        requires
            x <= 0xffff_ffff,
            y <= 0xffff_ffff,
    ;
    ((x as u64 * y as u64) % 0x1_0000_0000) as u32
}

pub fn zdiv(x: u32, y: u32) -> (r: u32)
    ensures
        r == zdiv_spec(x, y),
{
    if y == 0 {
        0
    } else {
        x / y
    }
}

pub fn zmod(x: u32, y: u32) -> (r: u32)
    ensures
        r == zmod_spec(x, y),
{
    if y == 0 {
        0
    } else {
        x % y
    }
}

pub fn zlshift(x: u32, y: u32) -> (r: u32)
    ensures
        r == zlshift_spec(x, y),
{
    x << (y % 32)
}

pub fn zrshift(x: u32, y: u32) -> (r: u32)
    ensures
        r == zrshift_spec(x, y),
{
    x >> (y % 32)
}

fn band(x: u32, y: u32) -> (r: u32)
    ensures
        r == band_spec(x, y),
{
    x & y
}

fn bandnot(x: u32, y: u32) -> (r: u32)
    ensures
        r == bandnot_spec(x, y),
{
    x & !y
}

fn bor(x: u32, y: u32) -> (r: u32)
    ensures
        r == bor_spec(x, y),
{
    x | y
}

fn bxor(x: u32, y: u32) -> (r: u32)
    ensures
        r == bxor_spec(x, y),
{
    x ^ y
}

fn arithmetic(op: &ZPAQLOp, a: u32, v: u32) -> (r: u32)
    ensures
        r == arithmetic_result(*op, a, v),
{
    match op {
        ZPAQLOp::Aadd(_) | ZPAQLOp::AaddN { .. } => zadd(a, v),
        ZPAQLOp::Asub(_) | ZPAQLOp::AsubN { .. } => zsub(a, v),
        ZPAQLOp::Amult(_) | ZPAQLOp::AmultN { .. } => zmul(a, v),
        ZPAQLOp::Adiv(_) | ZPAQLOp::AdivN { .. } => zdiv(a, v),
        ZPAQLOp::Amod(_) | ZPAQLOp::AmodN { .. } => zmod(a, v),
        ZPAQLOp::Aand(_) | ZPAQLOp::AandN { .. } => band(a, v),
        ZPAQLOp::Aandnot(_) | ZPAQLOp::AandnotN { .. } => bandnot(a, v),
        ZPAQLOp::Aor(_) | ZPAQLOp::AorN { .. } => bor(a, v),
        ZPAQLOp::Axor(_) | ZPAQLOp::AxorN { .. } => bxor(a, v),
        ZPAQLOp::Alshift(_) | ZPAQLOp::AlshiftN { .. } => zlshift(a, v),
        ZPAQLOp::Arshift(_) | ZPAQLOp::ArshiftN { .. } => zrshift(a, v),
        _ => a,
    }
}

fn comparison(op: &ZPAQLOp, a: u32, v: u32, f: bool) -> (r: bool)
    ensures
        r == comparison_result(*op, a, v, f),
{
    match op {
        ZPAQLOp::Aeq(_) | ZPAQLOp::AeqN { .. } => a == v,
        ZPAQLOp::Alt(_) | ZPAQLOp::AltN { .. } => a < v,
        ZPAQLOp::Agt(_) | ZPAQLOp::AgtN { .. } => a > v,
        _ => f,
    }
}

fn place_of_operand(op: &ZPAQLOp) -> (r: Option<Loc>)
    ensures
        r == operand_place(*op),
{
    match op {
        ZPAQLOp::Aadd(loc) => Some(*loc),
        ZPAQLOp::Asub(loc) => Some(*loc),
        ZPAQLOp::Amult(loc) => Some(*loc),
        ZPAQLOp::Adiv(loc) => Some(*loc),
        ZPAQLOp::Amod(loc) => Some(*loc),
        ZPAQLOp::Aand(loc) => Some(*loc),
        ZPAQLOp::Aandnot(loc) => Some(*loc),
        ZPAQLOp::Aor(loc) => Some(*loc),
        ZPAQLOp::Axor(loc) => Some(*loc),
        ZPAQLOp::Alshift(loc) => Some(*loc),
        ZPAQLOp::Arshift(loc) => Some(*loc),
        ZPAQLOp::Aeq(loc) => Some(*loc),
        ZPAQLOp::Alt(loc) => Some(*loc),
        ZPAQLOp::Agt(loc) => Some(*loc),
        _ => None,
    }
}

fn byte_of_operand(op: &ZPAQLOp) -> (r: u8)
    ensures
        r == operand_byte(*op),
{
    match op {
        ZPAQLOp::AaddN { n } => *n,
        ZPAQLOp::AsubN { n } => *n,
        ZPAQLOp::AmultN { n } => *n,
        ZPAQLOp::AdivN { n } => *n,
        ZPAQLOp::AmodN { n } => *n,
        ZPAQLOp::AandN { n } => *n,
        ZPAQLOp::AandnotN { n } => *n,
        ZPAQLOp::AorN { n } => *n,
        ZPAQLOp::AxorN { n } => *n,
        ZPAQLOp::AlshiftN { n } => *n,
        ZPAQLOp::ArshiftN { n } => *n,
        ZPAQLOp::AeqN { n } => *n,
        ZPAQLOp::AltN { n } => *n,
        ZPAQLOp::AgtN { n } => *n,
        _ => 0,
    }
}

fn low_byte_replaced(a: u32, byte: u32) -> (r: u32)
    requires
        byte < 256,
    ensures
        r == with_low_byte(a, byte),
{
    let high = a & 0xffff_ff00;
    assert(high <= 0xffff_ff00) by (bit_vector)
        requires
            high == a & 0xffff_ff00,
    ;
    high + byte
}

fn jump(pc: u16, n: i8) -> (r: u16)
    ensures
        r == jumped(pc, n),
{
    ((pc as i64 + n as i64 + 65536) % 65536) as u16
}

impl Machine {
    /// Whether the machine has cells in H and M, and 256 slots in R.
    pub open spec fn wf(self) -> bool {
        self.h.len() > 0 && self.m.len() > 0 && self.r.len() == 256
    }

    /// What a place holds. The pointers into H and M wrap at their sizes.
    #[verifier::opaque]
    pub open spec fn get(self, loc: Loc) -> u32 {
        match loc {
            Loc::Reg(Reg::A) => self.a,
            Loc::Reg(Reg::OtherReg(OtherReg::B)) => self.b,
            Loc::Reg(Reg::OtherReg(OtherReg::C)) => self.c,
            Loc::Reg(Reg::OtherReg(OtherReg::D)) => self.d,
            Loc::MB => self.m[self.b as int % self.m.len() as int] as u32,
            Loc::MC => self.m[self.c as int % self.m.len() as int] as u32,
            Loc::HD => self.h[self.d as int % self.h.len() as int],
        }
    }

    /// The machine after a write to a place. A byte of M takes the low 8
    /// bits.
    #[verifier::opaque]
    pub open spec fn set(self, loc: Loc, v: u32) -> Machine {
        match loc {
            Loc::Reg(Reg::A) => Machine { a: v, ..self },
            Loc::Reg(Reg::OtherReg(OtherReg::B)) => Machine { b: v, ..self },
            Loc::Reg(Reg::OtherReg(OtherReg::C)) => Machine { c: v, ..self },
            Loc::Reg(Reg::OtherReg(OtherReg::D)) => Machine { d: v, ..self },
            Loc::MB => Machine {
                m: self.m.update(self.b as int % self.m.len() as int, (v % 256) as u8),
                ..self
            },
            Loc::MC => Machine {
                m: self.m.update(self.c as int % self.m.len() as int, (v % 256) as u8),
                ..self
            },
            Loc::HD => Machine { h: self.h.update(self.d as int % self.h.len() as int, v), ..self },
        }
    }
}

/// The place that is swapped with A.
pub open spec fn swap_place(l: SwapLoc) -> Loc {
    match l {
        SwapLoc::MB => Loc::MB,
        SwapLoc::MC => Loc::MC,
        SwapLoc::HD => Loc::HD,
        SwapLoc::OtherReg(r) => Loc::Reg(Reg::OtherReg(r)),
    }
}

/// Whether the instruction computes with A, or compares A.
pub open spec fn is_arithmetic(op: ZPAQLOp) -> bool {
    match op {
        ZPAQLOp::Aadd(_) | ZPAQLOp::AaddN { .. } => true,
        ZPAQLOp::Asub(_) | ZPAQLOp::AsubN { .. } => true,
        ZPAQLOp::Amult(_) | ZPAQLOp::AmultN { .. } => true,
        ZPAQLOp::Adiv(_) | ZPAQLOp::AdivN { .. } => true,
        ZPAQLOp::Amod(_) | ZPAQLOp::AmodN { .. } => true,
        ZPAQLOp::Aand(_) | ZPAQLOp::AandN { .. } => true,
        ZPAQLOp::Aandnot(_) | ZPAQLOp::AandnotN { .. } => true,
        ZPAQLOp::Aor(_) | ZPAQLOp::AorN { .. } => true,
        ZPAQLOp::Axor(_) | ZPAQLOp::AxorN { .. } => true,
        ZPAQLOp::Alshift(_) | ZPAQLOp::AlshiftN { .. } => true,
        ZPAQLOp::Arshift(_) | ZPAQLOp::ArshiftN { .. } => true,
        ZPAQLOp::Aeq(_) | ZPAQLOp::AeqN { .. } => true,
        ZPAQLOp::Alt(_) | ZPAQLOp::AltN { .. } => true,
        ZPAQLOp::Agt(_) | ZPAQLOp::AgtN { .. } => true,
        _ => false,
    }
}

/// Whether the instruction moves the program counter, stores A in a slot of
/// R, or ends the run.
pub open spec fn is_control(op: ZPAQLOp) -> bool {
    match op {
        ZPAQLOp::Error
        | ZPAQLOp::Halt
        | ZPAQLOp::JT { .. }
        | ZPAQLOp::JF { .. }
        | ZPAQLOp::JMP { .. }
        | ZPAQLOp::LJ { .. }
        | ZPAQLOp::RsetA { .. } => true,
        _ => false,
    }
}

/// The place of the second operand of an instruction that computes with A
/// or compares A, if it is in a place.
pub open spec fn operand_place(op: ZPAQLOp) -> Option<Loc> {
    match op {
        ZPAQLOp::Aadd(loc) => Some(loc),
        ZPAQLOp::Asub(loc) => Some(loc),
        ZPAQLOp::Amult(loc) => Some(loc),
        ZPAQLOp::Adiv(loc) => Some(loc),
        ZPAQLOp::Amod(loc) => Some(loc),
        ZPAQLOp::Aand(loc) => Some(loc),
        ZPAQLOp::Aandnot(loc) => Some(loc),
        ZPAQLOp::Aor(loc) => Some(loc),
        ZPAQLOp::Axor(loc) => Some(loc),
        ZPAQLOp::Alshift(loc) => Some(loc),
        ZPAQLOp::Arshift(loc) => Some(loc),
        ZPAQLOp::Aeq(loc) => Some(loc),
        ZPAQLOp::Alt(loc) => Some(loc),
        ZPAQLOp::Agt(loc) => Some(loc),
        _ => None,
    }
}

/// The second operand of an instruction that computes with A or compares
/// A, if it is a byte of the instruction.
pub open spec fn operand_byte(op: ZPAQLOp) -> u8 {
    match op {
        ZPAQLOp::AaddN { n } => n,
        ZPAQLOp::AsubN { n } => n,
        ZPAQLOp::AmultN { n } => n,
        ZPAQLOp::AdivN { n } => n,
        ZPAQLOp::AmodN { n } => n,
        ZPAQLOp::AandN { n } => n,
        ZPAQLOp::AandnotN { n } => n,
        ZPAQLOp::AorN { n } => n,
        ZPAQLOp::AxorN { n } => n,
        ZPAQLOp::AlshiftN { n } => n,
        ZPAQLOp::ArshiftN { n } => n,
        ZPAQLOp::AeqN { n } => n,
        ZPAQLOp::AltN { n } => n,
        ZPAQLOp::AgtN { n } => n,
        _ => 0,
    }
}

/// The second operand of an instruction that computes with A or compares
/// A: what a place holds, or a byte.
pub open spec fn second_operand(op: ZPAQLOp, s: Machine) -> u32 {
    match operand_place(op) {
        Some(loc) => s.get(loc),
        None => operand_byte(op) as u32,
    }
}

/// What an instruction that computes with A leaves in A.
pub open spec fn arithmetic_result(op: ZPAQLOp, a: u32, v: u32) -> u32 {
    match op {
        ZPAQLOp::Aadd(_) | ZPAQLOp::AaddN { .. } => zadd_spec(a, v),
        ZPAQLOp::Asub(_) | ZPAQLOp::AsubN { .. } => zsub_spec(a, v),
        ZPAQLOp::Amult(_) | ZPAQLOp::AmultN { .. } => zmul_spec(a, v),
        ZPAQLOp::Adiv(_) | ZPAQLOp::AdivN { .. } => zdiv_spec(a, v),
        ZPAQLOp::Amod(_) | ZPAQLOp::AmodN { .. } => zmod_spec(a, v),
        ZPAQLOp::Aand(_) | ZPAQLOp::AandN { .. } => band_spec(a, v),
        ZPAQLOp::Aandnot(_) | ZPAQLOp::AandnotN { .. } => bandnot_spec(a, v),
        ZPAQLOp::Aor(_) | ZPAQLOp::AorN { .. } => bor_spec(a, v),
        ZPAQLOp::Axor(_) | ZPAQLOp::AxorN { .. } => bxor_spec(a, v),
        ZPAQLOp::Alshift(_) | ZPAQLOp::AlshiftN { .. } => zlshift_spec(a, v),
        ZPAQLOp::Arshift(_) | ZPAQLOp::ArshiftN { .. } => zrshift_spec(a, v),
        _ => a,
    }
}

/// The flag that an instruction that compares A leaves.
pub open spec fn comparison_result(op: ZPAQLOp, a: u32, v: u32, f: bool) -> bool {
    match op {
        ZPAQLOp::Aeq(_) | ZPAQLOp::AeqN { .. } => a == v,
        ZPAQLOp::Alt(_) | ZPAQLOp::AltN { .. } => a < v,
        ZPAQLOp::Agt(_) | ZPAQLOp::AgtN { .. } => a > v,
        _ => f,
    }
}

/// The machine after an instruction that computes with A or compares A.
pub open spec fn computed(op: ZPAQLOp, s: Machine) -> Result<Machine, VmError> {
    if is_arithmetic(op) {
        Ok(
            Machine {
                a: arithmetic_result(op, s.a, second_operand(op, s)),
                f: comparison_result(op, s.a, second_operand(op, s), s.f),
                ..s
            },
        )
    } else {
        Err(VmError::NotExecutable)
    }
}

/// The machine after an instruction that moves the program counter, stores
/// A in a slot of R, or ends the run.
#[verifier::opaque]
pub open spec fn controlled(op: ZPAQLOp, s: Machine) -> Result<Machine, VmError> {
    match op {
        ZPAQLOp::Error => Err(VmError::ErrorInstruction),
        ZPAQLOp::Halt => Err(VmError::HaltExecuted),
        ZPAQLOp::JT { n } => Ok(
            if s.f {
                Machine { pc: jumped(s.pc, n), ..s }
            } else {
                s
            },
        ),
        ZPAQLOp::JF { n } => Ok(
            if !s.f {
                Machine { pc: jumped(s.pc, n), ..s }
            } else {
                s
            },
        ),
        ZPAQLOp::JMP { n } => Ok(Machine { pc: jumped(s.pc, n), ..s }),
        ZPAQLOp::RsetA { n } => Ok(Machine { r: s.r.update(n as int, s.a), ..s }),
        ZPAQLOp::LJ { n } => Ok(Machine { pc: n, ..s }),
        _ => Err(VmError::NotExecutable),
    }
}

/// The machine after an instruction that moves or changes a value in
/// place.
#[verifier::opaque]
pub open spec fn moved(op: ZPAQLOp, s: Machine) -> Result<Machine, VmError> {
    match op {
        ZPAQLOp::Out => Ok(Machine { outbuf: s.outbuf.push((s.a % 256) as u8), ..s }),
        ZPAQLOp::Hash => Ok(Machine { a: zmul_spec(zadd_spec(zadd_spec(s.a, s.get(Loc::MB)), 512), 773), ..s }),
        ZPAQLOp::HashD => Ok(s.set(Loc::HD, zmul_spec(zadd_spec(zadd_spec(s.get(Loc::HD), s.a), 512), 773))),
        ZPAQLOp::Inc(loc) => Ok(s.set(loc, zadd_spec(s.get(loc), 1))),
        ZPAQLOp::Dec(loc) => Ok(s.set(loc, zsub_spec(s.get(loc), 1))),
        ZPAQLOp::Not(loc) => Ok(s.set(loc, !s.get(loc))),
        ZPAQLOp::Zero(loc) => Ok(s.set(loc, 0)),
        ZPAQLOp::Mov { target, source } => Ok(s.set(target, s.get(source))),
        ZPAQLOp::SwapA(l) => match l {
            SwapLoc::MB | SwapLoc::MC => Ok(
                Machine { a: with_low_byte(s.a, s.get(swap_place(l))), ..s.set(swap_place(l), s.a) },
            ),
            _ => Ok(Machine { a: s.get(swap_place(l)), ..s.set(swap_place(l), s.a) }),
        },
        ZPAQLOp::SetN { target, n } => Ok(s.set(target, n as u32)),
        ZPAQLOp::SetR { target, r } => Ok(s.set(Loc::Reg(target), s.r[r as int])),
        _ => Err(VmError::NotExecutable),
    }
}

/// The machine after an instruction, whose size the program counter has
/// passed already.
pub open spec fn executed(op: ZPAQLOp, s: Machine) -> Result<Machine, VmError> {
    if is_arithmetic(op) {
        computed(op, s)
    } else if is_control(op) {
        controlled(op, s)
    } else {
        moved(op, s)
    }
}

/// The machine after one instruction.
#[verifier::opaque]
pub open spec fn stepped(code: Seq<Option<OpView>>, s: Machine) -> Result<Machine, VmError> {
    if s.pc >= code.len() {
        Err(VmError::InvalidPc)
    } else {
        match code[s.pc as int] {
            None => Err(VmError::InvalidPc),
            Some(OpView::Plain(op)) => if s.pc + op.spec_size() > 65535 {
                Err(VmError::InvalidPc)
            } else {
                executed(op, Machine { pc: (s.pc + op.spec_size()) as u16, ..s })
            },
            Some(_) => Err(VmError::NotExecutable),
        }
    }
}

/// The machine when it has run to the next `halt`, which it has to reach
/// within `fuel` instructions.
pub open spec fn run_to_halt(code: Seq<Option<OpView>>, s: Machine, fuel: nat) -> Result<Machine, VmError>
    decreases fuel,
{
    if s.pc >= code.len() {
        Err(VmError::InvalidPc)
    } else if code[s.pc as int] == Some(OpView::Plain(ZPAQLOp::Halt)) {
        Ok(s)
    } else if fuel == 0 {
        Err(VmError::OutOfSteps)
    } else {
        match stepped(code, s) {
            Err(e) => Err(e),
            Ok(t) => run_to_halt(code, t, (fuel - 1) as nat),
        }
    }
}

/// The code byte by byte, for the first `n` instructions: each instruction
/// at its first byte and nothing at its other bytes. Comments and labels
/// take no byte.
pub open spec fn byte_code(ops: Seq<OpView>, n: int) -> Seq<Option<OpView>>
    decreases n,
{
    if n <= 0 || n > ops.len() {
        Seq::empty()
    } else {
        byte_code(ops, n - 1) + (if ops[n - 1].size() == 0 {
            Seq::<Option<OpView>>::empty()
        } else {
            seq![Some(ops[n - 1])] + Seq::new((ops[n - 1].size() - 1) as nat, |i: int| None::<OpView>)
        })
    }
}

/// The instructions of byte code as values.
pub open spec fn code_views(code: Seq<Option<ZPAQLOp>>) -> Seq<Option<OpView>> {
    Seq::new(
        code.len(),
        |i: int|
            match code[i] {
                Some(op) => Some(op.deep_view()),
                None => None,
            },
    )
}

/// Lays out code byte by byte.
pub fn zops_to_vmops(ops: &[ZPAQLOp]) -> (code: Vec<Option<ZPAQLOp>>)
    ensures
        code_views(code@) == byte_code(op_views(ops@), ops@.len() as int),
{
    let ghost all = op_views(ops@);
    let mut code: Vec<Option<ZPAQLOp>> = Vec::new();
    let mut i: usize = 0;
    assert(code_views(code@) =~= byte_code(all, 0));
    while i < ops.len()
        invariant
            i <= ops.len(),
            all == op_views(ops@),
            code_views(code@) == byte_code(all, i as int),
        decreases ops.len() - i,
    {
        let ghost before = code_views(code@);
        let size = ops[i].size();
        if size != 0 {
            code.push(Some(ops[i].clone()));
            let mut k: u16 = 1;
            assert(code_views(code@) =~= before + seq![Some(all[i as int])] + Seq::new(
                0,
                |i: int| None::<OpView>,
            ));
            while k < size
                invariant
                    1 <= k <= size,
                    0 <= i < all.len(),
                    code_views(code@) == before + seq![Some(all[i as int])] + Seq::new(
                        (k - 1) as nat,
                        |i: int| None::<OpView>,
                    ),
                decreases size - k,
            {
                let ghost prev = code_views(code@);
                code.push(None);
                assert(code_views(code@) =~= prev.push(None::<OpView>));
                assert(Seq::new(k as nat, |i: int| None::<OpView>) =~= Seq::new(
                    (k - 1) as nat,
                    |i: int| None::<OpView>,
                ).push(None::<OpView>));
                assert(code_views(code@) =~= before + seq![Some(all[i as int])] + Seq::new(
                    k as nat,
                    |i: int| None::<OpView>,
                ));
                k += 1;
            }
            assert(code_views(code@) =~= byte_code(all, i + 1));
        } else {
            assert(code_views(code@) =~= byte_code(all, i + 1));
        }
        i += 1;
    }
    code
}

fn zeros(n: u64) -> (v: Vec<u32>)
    requires
        n <= usize::MAX,
    ensures
        v@ == Seq::new(n as nat, |i: int| 0u32),
{
    let mut v: Vec<u32> = Vec::new();
    let mut i: u64 = 0;
    while i < n
        invariant
            i <= n,
            v@ == Seq::new(i as nat, |j: int| 0u32),
        decreases n - i,
    {
        v.push(0);
        assert(v@ =~= Seq::new((i + 1) as nat, |j: int| 0u32));
        i += 1;
    }
    v
}

fn zero_bytes(n: u64) -> (v: Vec<u8>)
    requires
        n <= usize::MAX,
    ensures
        v@ == Seq::new(n as nat, |i: int| 0u8),
{
    let mut v: Vec<u8> = Vec::new();
    let mut i: u64 = 0;
    while i < n
        invariant
            i <= n,
            v@ == Seq::new(i as nat, |j: int| 0u8),
        decreases n - i,
    {
        v.push(0);
        assert(v@ =~= Seq::new((i + 1) as nat, |j: int| 0u8));
        i += 1;
    }
    v
}

/// The machine before its first run: the program counter at the start,
/// every register, cell, byte and slot 0, nothing emitted.
pub open spec fn fresh_machine(hlog: u8, mlog: u8) -> Machine {
    Machine {
        pc: 0,
        h: Seq::new(two_to(hlog as nat), |i: int| 0u32),
        m: Seq::new(two_to(mlog as nat), |i: int| 0u8),
        a: 0,
        b: 0,
        c: 0,
        d: 0,
        f: false,
        r: Seq::new(256, |i: int| 0u32),
        outbuf: Seq::empty(),
    }
}

impl ZPAQLVM {
    /// The state of the machine.
    pub open spec fn machine(&self) -> Machine {
        Machine {
            pc: self.pc,
            h: self.h@,
            m: self.m@,
            a: self.a,
            b: self.b,
            c: self.c,
            d: self.d,
            f: self.f,
            r: self.r@,
            outbuf: self.outbuf@,
        }
    }

    /// The code of the machine, byte by byte.
    pub open spec fn program(&self) -> Seq<Option<OpView>> {
        code_views(self.code@)
    }

    fn with_code(code: Vec<Option<ZPAQLOp>>, hlog: u8, mlog: u8) -> (r: Result<ZPAQLVM, VmError>)
        ensures
            match r {
                Ok(vm) => hlog < 32 && mlog < 32 && vm.code == code && vm.machine() == fresh_machine(hlog, mlog),
                Err(e) => e == VmError::TooLarge && (hlog >= 32 || mlog >= 32),
            },
    {
        if hlog >= 32 || mlog >= 32 {
            return Err(VmError::TooLarge);
        }
        let hsize = power_of_two(hlog);
        let msize = power_of_two(mlog);
        proof {
            crate::zpaqcfg::lemma_two_to_32();
            crate::zpaqcfg::lemma_two_to_grows(hlog as nat, 31);
            crate::zpaqcfg::lemma_two_to_grows(mlog as nat, 31);
        }
        let vm = ZPAQLVM {
            code,
            pc: 0,
            h: zeros(hsize),
            m: zero_bytes(msize),
            a: 0,
            b: 0,
            c: 0,
            d: 0,
            f: false,
            r: zeros(256),
            outbuf: Vec::new(),
        };
        assert(vm.machine().outbuf =~= Seq::<u8>::empty());
        Ok(vm)
    }

    /// A machine for each section of a configuration, with the arrays at
    /// the sizes that the configuration gives. Arrays of 2^32 cells are
    /// refused.
    pub fn new(cfgfile: &ZPAQCfgFile) -> (r: Result<(ZPAQLVM, ZPAQLVM), VmError>)
        ensures
            match r {
                Ok((hvm, pvm)) => {
                    &&& cfgfile.hh < 32 && cfgfile.hm < 32 && cfgfile.ph < 32 && cfgfile.pm < 32
                    &&& hvm.program() == byte_code(op_views(cfgfile.hcomp@), cfgfile.hcomp@.len() as int)
                    &&& pvm.program() == byte_code(op_views(cfgfile.pcomp@), cfgfile.pcomp@.len() as int)
                    &&& hvm.machine() == fresh_machine(cfgfile.hh, cfgfile.hm)
                    &&& pvm.machine() == fresh_machine(cfgfile.ph, cfgfile.pm)
                },
                Err(e) => e == VmError::TooLarge && (cfgfile.hh >= 32 || cfgfile.hm >= 32 || cfgfile.ph >= 32
                    || cfgfile.pm >= 32),
            },
    {
        let hcomp = zops_to_vmops(cfgfile.hcomp.as_slice());
        let pcomp = zops_to_vmops(cfgfile.pcomp.as_slice());
        let hvm = ZPAQLVM::with_code(hcomp, cfgfile.hh, cfgfile.hm)?;
        let pvm = ZPAQLVM::with_code(pcomp, cfgfile.ph, cfgfile.pm)?;
        Ok((hvm, pvm))
    }

    /// What a place holds.
    pub fn get_value(&self, loc: &Loc) -> (v: u32)
        requires
            self.machine().wf(),
        ensures
            v == self.machine().get(*loc),
            *loc == Loc::MB || *loc == Loc::MC ==> v < 256,
    {
        reveal(Machine::get);
        match loc {
            Loc::Reg(Reg::A) => self.a,
            Loc::Reg(Reg::OtherReg(OtherReg::B)) => self.b,
            Loc::Reg(Reg::OtherReg(OtherReg::C)) => self.c,
            Loc::Reg(Reg::OtherReg(OtherReg::D)) => self.d,
            Loc::MB => self.m[(self.b as u64 % self.m.len() as u64) as usize] as u32,
            Loc::MC => self.m[(self.c as u64 % self.m.len() as u64) as usize] as u32,
            Loc::HD => self.h[(self.d as u64 % self.h.len() as u64) as usize],
        }
    }

    /// Writes to a place.
    pub fn set_value(&mut self, loc: &Loc, v: u32)
        requires
            old(self).machine().wf(),
        ensures
            final(self).machine() == old(self).machine().set(*loc, v),
            final(self).code == old(self).code,
            final(self).machine().wf(),
    {
        reveal(Machine::set);
        match loc {
            Loc::Reg(Reg::A) => {
                self.a = v;
            },
            Loc::Reg(Reg::OtherReg(OtherReg::B)) => {
                self.b = v;
            },
            Loc::Reg(Reg::OtherReg(OtherReg::C)) => {
                self.c = v;
            },
            Loc::Reg(Reg::OtherReg(OtherReg::D)) => {
                self.d = v;
            },
            Loc::MB => {
                let i = (self.b as u64 % self.m.len() as u64) as usize;
                self.m.set(i, (v % 256) as u8);
            },
            Loc::MC => {
                let i = (self.c as u64 % self.m.len() as u64) as usize;
                self.m.set(i, (v % 256) as u8);
            },
            Loc::HD => {
                let i = (self.d as u64 % self.h.len() as u64) as usize;
                self.h.set(i, v);
            },
        }
    }

    fn operand(&self, op: &ZPAQLOp) -> (v: u32)
        requires
            self.machine().wf(),
        ensures
            v == second_operand(*op, self.machine()),
    {
        match place_of_operand(op) {
            Some(loc) => self.get_value(&loc),
            None => byte_of_operand(op) as u32,
        }
    }

    fn compute(&mut self, op: &ZPAQLOp) -> (r: Result<(), VmError>)
        requires
            old(self).machine().wf(),
            is_arithmetic(*op),
        ensures
            final(self).code == old(self).code,
            final(self).machine().wf(),
            r is Ok,
            computed(*op, old(self).machine()) == Ok::<Machine, VmError>(final(self).machine()),
    {
        let v = self.operand(op);
        let a = self.a;
        self.a = arithmetic(op, a, v);
        self.f = comparison(op, a, v, self.f);
        Ok(())
    }

    fn control(&mut self, op: &ZPAQLOp) -> (r: Result<(), VmError>)
        requires
            old(self).machine().wf(),
        ensures
            final(self).code == old(self).code,
            final(self).machine().wf(),
            match r {
                Ok(_) => controlled(*op, old(self).machine()) == Ok::<Machine, VmError>(final(self).machine()),
                Err(e) => controlled(*op, old(self).machine()) == Err::<Machine, VmError>(e)
                    && final(self).machine() == old(self).machine(),
            },
    {
        reveal(controlled);
        match op {
            ZPAQLOp::Error => {
                return Err(VmError::ErrorInstruction);
            },
            ZPAQLOp::Halt => {
                return Err(VmError::HaltExecuted);
            },
            ZPAQLOp::JT { n } => {
                if self.f {
                    self.pc = jump(self.pc, *n);
                }
            },
            ZPAQLOp::JF { n } => {
                if !self.f {
                    self.pc = jump(self.pc, *n);
                }
            },
            ZPAQLOp::JMP { n } => {
                self.pc = jump(self.pc, *n);
            },
            ZPAQLOp::RsetA { n } => {
                self.r.set(*n as usize, self.a);
            },
            ZPAQLOp::LJ { n } => {
                self.pc = *n;
            },
            _ => {
                return Err(VmError::NotExecutable);
            },
        }
        Ok(())
    }

    fn swap(&mut self, place: &Loc, bytewise: bool)
        requires
            old(self).machine().wf(),
            bytewise ==> *place == Loc::MB || *place == Loc::MC,
        ensures
            final(self).code == old(self).code,
            final(self).machine().wf(),
            final(self).machine() == (Machine {
                a: if bytewise {
                    with_low_byte(old(self).a, old(self).machine().get(*place))
                } else {
                    old(self).machine().get(*place)
                },
                ..old(self).machine().set(*place, old(self).a)
            }),
    {
        let v = self.a;
        let t = self.get_value(place);
        self.set_value(place, v);
        if bytewise {
            self.a = low_byte_replaced(v, t);
        } else {
            self.a = t;
        }
    }

    fn move_value(&mut self, op: &ZPAQLOp) -> (r: Result<(), VmError>)
        requires
            old(self).machine().wf(),
        ensures
            final(self).code == old(self).code,
            final(self).machine().wf(),
            match r {
                Ok(_) => moved(*op, old(self).machine()) == Ok::<Machine, VmError>(final(self).machine()),
                Err(e) => moved(*op, old(self).machine()) == Err::<Machine, VmError>(e)
                    && final(self).machine() == old(self).machine(),
            },
    {
        reveal(moved);
        match op {
            ZPAQLOp::Out => {
                self.outbuf.push((self.a % 256) as u8);
            },
            ZPAQLOp::Hash => {
                self.a = zmul(zadd(zadd(self.a, self.get_value(&Loc::MB)), 512), 773);
            },
            ZPAQLOp::HashD => {
                let v = zadd(self.get_value(&Loc::HD), self.a);
                self.set_value(&Loc::HD, zmul(zadd(v, 512), 773));
            },
            ZPAQLOp::Inc(loc) => {
                let v = zadd(self.get_value(loc), 1);
                self.set_value(loc, v);
            },
            ZPAQLOp::Dec(loc) => {
                let v = zsub(self.get_value(loc), 1);
                self.set_value(loc, v);
            },
            ZPAQLOp::Not(loc) => {
                let v = !self.get_value(loc);
                self.set_value(loc, v);
            },
            ZPAQLOp::Zero(loc) => {
                self.set_value(loc, 0);
            },
            ZPAQLOp::Mov { target, source } => {
                let v = self.get_value(source);
                self.set_value(target, v);
            },
            ZPAQLOp::SwapA(l) => {
                match l {
                    SwapLoc::MB => {
                        self.swap(&Loc::MB, true);
                    },
                    SwapLoc::MC => {
                        self.swap(&Loc::MC, true);
                    },
                    SwapLoc::HD => {
                        self.swap(&Loc::HD, false);
                    },
                    SwapLoc::OtherReg(reg) => {
                        self.swap(&Loc::Reg(Reg::OtherReg(*reg)), false);
                    },
                }
            },
            ZPAQLOp::SetN { target, n } => {
                self.set_value(target, *n as u32);
            },
            ZPAQLOp::SetR { target, r } => {
                let v = self.r[*r as usize];
                self.set_value(&Loc::Reg(*target), v);
            },
            _ => {
                return Err(VmError::NotExecutable);
            },
        }
        Ok(())
    }

    fn execute(&mut self, op: &ZPAQLOp) -> (r: Result<(), VmError>)
        requires
            old(self).machine().wf(),
        ensures
            final(self).code == old(self).code,
            final(self).machine().wf(),
            match r {
                Ok(_) => executed(*op, old(self).machine()) == Ok::<Machine, VmError>(final(self).machine()),
                Err(e) => executed(*op, old(self).machine()) == Err::<Machine, VmError>(e)
                    && final(self).machine() == old(self).machine(),
            },
    {
        match op {
            ZPAQLOp::Aadd(_) | ZPAQLOp::AaddN { .. } => self.compute(op),
            ZPAQLOp::Asub(_) | ZPAQLOp::AsubN { .. } => self.compute(op),
            ZPAQLOp::Amult(_) | ZPAQLOp::AmultN { .. } => self.compute(op),
            ZPAQLOp::Adiv(_) | ZPAQLOp::AdivN { .. } => self.compute(op),
            ZPAQLOp::Amod(_) | ZPAQLOp::AmodN { .. } => self.compute(op),
            ZPAQLOp::Aand(_) | ZPAQLOp::AandN { .. } => self.compute(op),
            ZPAQLOp::Aandnot(_) | ZPAQLOp::AandnotN { .. } => self.compute(op),
            ZPAQLOp::Aor(_) | ZPAQLOp::AorN { .. } => self.compute(op),
            ZPAQLOp::Axor(_) | ZPAQLOp::AxorN { .. } => self.compute(op),
            ZPAQLOp::Alshift(_) | ZPAQLOp::AlshiftN { .. } => self.compute(op),
            ZPAQLOp::Arshift(_) | ZPAQLOp::ArshiftN { .. } => self.compute(op),
            ZPAQLOp::Aeq(_) | ZPAQLOp::AeqN { .. } => self.compute(op),
            ZPAQLOp::Alt(_) | ZPAQLOp::AltN { .. } => self.compute(op),
            ZPAQLOp::Agt(_) | ZPAQLOp::AgtN { .. } => self.compute(op),
            ZPAQLOp::Error
            | ZPAQLOp::Halt
            | ZPAQLOp::JT { .. }
            | ZPAQLOp::JF { .. }
            | ZPAQLOp::JMP { .. }
            | ZPAQLOp::LJ { .. }
            | ZPAQLOp::RsetA { .. } => self.control(op),
            _ => self.move_value(op),
        }
    }

    /// Executes the instruction at the program counter.
    pub fn step(&mut self) -> (r: Result<(), VmError>)
        requires
            old(self).machine().wf(),
        ensures
            final(self).code == old(self).code,
            final(self).machine().wf(),
            match r {
                Ok(_) => stepped(old(self).program(), old(self).machine()) == Ok::<Machine, VmError>(
                    final(self).machine(),
                ),
                Err(e) => stepped(old(self).program(), old(self).machine()) == Err::<Machine, VmError>(e)
                    && final(self).machine() == old(self).machine(),
            },
    {
        reveal(stepped);
        if self.pc as usize >= self.code.len() {
            return Err(VmError::InvalidPc);
        }
        let op = match &self.code[self.pc as usize] {
            None => {
                return Err(VmError::InvalidPc);
            },
            Some(op) => op.clone(),
        };
        match &op {
            ZPAQLOp::Comment { .. } | ZPAQLOp::Label { .. } | ZPAQLOp::GoTo { .. } => {
                return Err(VmError::NotExecutable);
            },
            _ => {},
        }
        let size = op.size();
        if self.pc as u32 + size as u32 > 65535 {
            return Err(VmError::InvalidPc);
        }
        let before = self.pc;
        self.pc = self.pc + size;
        match self.execute(&op) {
            Ok(()) => Ok(()),
            Err(e) => {
                self.pc = before;
                Err(e)
            },
        }
    }

    fn at_halt(&self) -> (r: Result<bool, VmError>)
        ensures
            match r {
                Ok(b) => self.pc < self.program().len() && b == (self.program()[self.pc as int] == Some(
                    OpView::Plain(ZPAQLOp::Halt),
                )),
                Err(e) => e == VmError::InvalidPc && self.pc >= self.program().len(),
            },
    {
        if self.pc as usize >= self.code.len() {
            return Err(VmError::InvalidPc);
        }
        match &self.code[self.pc as usize] {
            Some(ZPAQLOp::Halt) => Ok(true),
            _ => Ok(false),
        }
    }

    /// Runs the code for one byte of input: the byte goes to A, the program
    /// counter to the start, and instructions are executed up to the next
    /// `halt`, which has to be reached within `max_steps` instructions.
    pub fn run(&mut self, c: u32, max_steps: u64) -> (r: Result<(), VmError>)
        ensures
            final(self).code == old(self).code,
            match r {
                Ok(_) => old(self).machine().wf() && run_to_halt(
                    old(self).program(),
                    Machine { a: c, pc: 0, ..old(self).machine() },
                    max_steps as nat,
                ) == Ok::<Machine, VmError>(final(self).machine()),
                Err(e) => if old(self).machine().wf() {
                    run_to_halt(
                        old(self).program(),
                        Machine { a: c, pc: 0, ..old(self).machine() },
                        max_steps as nat,
                    ) == Err::<Machine, VmError>(e)
                } else {
                    e == VmError::BadMachine
                },
            },
    {
        if self.h.len() == 0 || self.m.len() == 0 || self.r.len() != 256 {
            return Err(VmError::BadMachine);
        }
        self.a = c;
        self.pc = 0;
        let ghost start = self.machine();
        let ghost code = self.program();
        let mut left: u64 = max_steps;
        loop
            invariant
                self.machine().wf(),
                old(self).machine().wf(),
                self.code == old(self).code,
                code == self.program(),
                code == old(self).program(),
                start == (Machine { a: c, pc: 0, ..old(self).machine() }),
                run_to_halt(code, start, max_steps as nat) == run_to_halt(code, self.machine(), left as nat),
            decreases left,
        {
            match self.at_halt() {
                Err(e) => {
                    return Err(e);
                },
                Ok(true) => {
                    return Ok(());
                },
                Ok(false) => {},
            }
            if left == 0 {
                return Err(VmError::OutOfSteps);
            }
            match self.step() {
                Err(e) => {
                    return Err(e);
                },
                Ok(()) => {},
            }
            left = left - 1;
        }
    }
}

} // verus!
