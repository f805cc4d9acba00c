//! The instructions of ZPAQL, their sizes and texts, and the assembler
//! that turns jumps to labels into long jumps.

use vstd::prelude::*;
use vstd::string::*;
use crate::error::CompileError;
use crate::names::NameMap;
use crate::options::Options;
use crate::text::{decimal, push_char, push_decimal, push_signed_decimal, push_text, signed_decimal, chars_of};

verus! {

/// The registers other than the accumulator.
#[derive(Debug, Clone, Copy, PartialEq, Eq, Hash, Structural)]
pub enum OtherReg {
    B,
    C,
    D,
}

/// A 32-bit register.
#[derive(Debug, Clone, Copy, PartialEq, Eq, Hash, Structural)]
pub enum Reg {
    A,
    OtherReg(OtherReg),
}

/// A place that an instruction reads or writes: a register, the byte of M
/// that B or C points to, or the cell of H that D points to.
#[derive(Debug, Clone, Copy, PartialEq, Eq, Hash, Structural)]
pub enum Loc {
    Reg(Reg),
    MB,
    MC,
    HD,
}

/// A place that can be swapped with the accumulator. For a byte of M only
/// the low 8 bits are exchanged.
#[derive(Debug, Clone, Copy, PartialEq, Eq, Structural)]
pub enum SwapLoc {
    OtherReg(OtherReg),
    MB,
    MC,
    HD,
}

impl OtherReg {
    /// The register's mnemonic.
    pub open spec fn text(self) -> Seq<char> {
        match self {
            OtherReg::B => "b"@,
            OtherReg::C => "c"@,
            OtherReg::D => "d"@,
        }
    }

    pub fn to_string(&self) -> (s: String)
        ensures
            s@ == self.text(),
    {
        match self {
            OtherReg::B => String::from_str("b"),
            OtherReg::C => String::from_str("c"),
            OtherReg::D => String::from_str("d"),
        }
    }
}

impl Reg {
    /// The register's mnemonic.
    pub open spec fn text(self) -> Seq<char> {
        match self {
            Reg::A => "a"@,
            Reg::OtherReg(r) => r.text(),
        }
    }

    pub fn to_string(&self) -> (s: String)
        ensures
            s@ == self.text(),
    {
        match self {
            Reg::A => String::from_str("a"),
            Reg::OtherReg(r) => r.to_string(),
        }
    }
}

impl Loc {
    /// The place's mnemonic.
    pub open spec fn text(self) -> Seq<char> {
        match self {
            Loc::MB => "*b"@,
            Loc::MC => "*c"@,
            Loc::HD => "*d"@,
            Loc::Reg(r) => r.text(),
        }
    }

    pub fn to_string(&self) -> (s: String)
        ensures
            s@ == self.text(),
    {
        match self {
            Loc::MB => String::from_str("*b"),
            Loc::MC => String::from_str("*c"),
            Loc::HD => String::from_str("*d"),
            Loc::Reg(r) => r.to_string(),
        }
    }
}

impl SwapLoc {
    /// The place's mnemonic.
    pub open spec fn text(self) -> Seq<char> {
        match self {
            SwapLoc::MB => "*b"@,
            SwapLoc::MC => "*c"@,
            SwapLoc::HD => "*d"@,
            SwapLoc::OtherReg(r) => r.text(),
        }
    }

    pub fn to_string(&self) -> (s: String)
        ensures
            s@ == self.text(),
    {
        match self {
            SwapLoc::MB => String::from_str("*b"),
            SwapLoc::MC => String::from_str("*c"),
            SwapLoc::HD => String::from_str("*d"),
            SwapLoc::OtherReg(r) => r.to_string(),
        }
    }
}

/// One ZPAQL instruction, or one of three pseudo-instructions that exist
/// until the code is assembled: a comment, a label, and a jump to a label.
#[derive(Debug, PartialEq)]
#[allow(inconsistent_fields)]
pub enum ZPAQLOp {
    Error,
    Halt,
    Out,
    /// A := (A + M[B] + 512) * 773
    Hash,
    /// H[D] := (H[D] + A + 512) * 773
    HashD,
    Inc(Loc),
    Dec(Loc),
    Not(Loc),
    Zero(Loc),
    /// target := source
    Mov { target: Loc, source: Loc },
    SwapA(SwapLoc),
    SetN { target: Loc, n: u8 },
    SetR { target: Reg, r: u8 },
    Aadd(Loc),
    Asub(Loc),
    Amult(Loc),
    Adiv(Loc),
    Amod(Loc),
    Aand(Loc),
    Aandnot(Loc),
    Aor(Loc),
    Axor(Loc),
    Alshift(Loc),
    Arshift(Loc),
    /// Sets F.
    Aeq(Loc),
    /// Sets F.
    Alt(Loc),
    /// Sets F.
    Agt(Loc),
    /// If F, the program counter of the next instruction moves by `n`.
    JT { n: i8 },
    JF { n: i8 },
    JMP { n: i8 },
    RsetA { n: u8 },
    AaddN { n: u8 },
    AsubN { n: u8 },
    AmultN { n: u8 },
    AdivN { n: u8 },
    AmodN { n: u8 },
    AandN { n: u8 },
    AandnotN { n: u8 },
    AorN { n: u8 },
    AxorN { n: u8 },
    AlshiftN { n: u8 },
    ArshiftN { n: u8 },
    AeqN { n: u8 },
    AltN { n: u8 },
    AgtN { n: u8 },
    /// Jump to the byte `n`.
    LJ { n: u16 },
    /// Takes no byte.
    Comment { comment: String },
    /// Takes no byte.
    Label { label: String, position: u32 },
    /// Takes three bytes, and becomes an `LJ` when the code is assembled.
    GoTo { label: String },
}

/// An instruction as a value: the three pseudo-instructions with their text
/// as a sequence of characters, every other instruction as it is.
pub enum OpView {
    Comment { comment: Seq<char> },
    Label { label: Seq<char>, position: u32 },
    GoTo { label: Seq<char> },
    Plain(ZPAQLOp),
}

/// A comment as it is written out: brackets would end it, so they are
/// replaced by angle brackets.
pub open spec fn soften(comment: Seq<char>) -> Seq<char> {
    comment.map_values(
        |c: char|
            if c == '(' {
                '\u{3008}'
            } else if c == ')' {
                '\u{3009}'
            } else {
                c
            },
    )
}

impl ZPAQLOp {
    /// Whether this is an instruction of the machine, not one of the three
    /// pseudo-instructions.
    pub open spec fn is_plain(self) -> bool {
        !(self is Comment || self is Label || self is GoTo)
    }

    /// The number of bytes that the instruction takes.
    pub open spec fn spec_size(self) -> nat {
        match self {
            ZPAQLOp::Comment { .. } | ZPAQLOp::Label { .. } => 0,
            ZPAQLOp::JT { .. }
            | ZPAQLOp::JF { .. }
            | ZPAQLOp::JMP { .. }
            | ZPAQLOp::RsetA { .. }
            | ZPAQLOp::AaddN { .. }
            | ZPAQLOp::AsubN { .. }
            | ZPAQLOp::AmultN { .. }
            | ZPAQLOp::AdivN { .. }
            | ZPAQLOp::AmodN { .. }
            | ZPAQLOp::AandN { .. }
            | ZPAQLOp::AandnotN { .. }
            | ZPAQLOp::AorN { .. }
            | ZPAQLOp::AxorN { .. }
            | ZPAQLOp::AlshiftN { .. }
            | ZPAQLOp::ArshiftN { .. }
            | ZPAQLOp::AeqN { .. }
            | ZPAQLOp::AltN { .. }
            | ZPAQLOp::AgtN { .. }
            | ZPAQLOp::SetN { .. }
            | ZPAQLOp::SetR { .. } => 2,
            ZPAQLOp::LJ { .. } | ZPAQLOp::GoTo { .. } => 3,
            _ => 1,
        }
    }

    /// How an instruction of the machine is written in a configuration.
    pub open spec fn plain_text(self) -> Seq<char> {
        match self {
            ZPAQLOp::Error => "error"@,
            ZPAQLOp::Halt => "halt"@,
            ZPAQLOp::Out => "out"@,
            ZPAQLOp::Hash => "hash"@,
            ZPAQLOp::HashD => "hashd"@,
            ZPAQLOp::Inc(l) => l.text() + "++"@,
            ZPAQLOp::Dec(l) => l.text() + "--"@,
            ZPAQLOp::Not(l) => l.text() + "!"@,
            ZPAQLOp::Zero(l) => l.text() + "=0"@,
            ZPAQLOp::Mov { target, source } => target.text() + "="@ + source.text(),
            ZPAQLOp::SwapA(l) => l.text() + "<>a"@,
            ZPAQLOp::SetN { target, n } => target.text() + "= "@ + decimal(n as nat),
            ZPAQLOp::SetR { target, r } => target.text() + "=r "@ + decimal(r as nat),
            ZPAQLOp::Aadd(l) => "a+="@ + l.text(),
            ZPAQLOp::Asub(l) => "a-="@ + l.text(),
            ZPAQLOp::Amult(l) => "a*="@ + l.text(),
            ZPAQLOp::Adiv(l) => "a/="@ + l.text(),
            ZPAQLOp::Amod(l) => "a%="@ + l.text(),
            ZPAQLOp::Aand(l) => "a&="@ + l.text(),
            ZPAQLOp::Aandnot(l) => "a&~"@ + l.text(),
            ZPAQLOp::Aor(l) => "a|="@ + l.text(),
            ZPAQLOp::Axor(l) => "a^="@ + l.text(),
            ZPAQLOp::Alshift(l) => "a<<="@ + l.text(),
            ZPAQLOp::Arshift(l) => "a>>="@ + l.text(),
            ZPAQLOp::Aeq(l) => "a=="@ + l.text(),
            ZPAQLOp::Alt(l) => "a<"@ + l.text(),
            ZPAQLOp::Agt(l) => "a>"@ + l.text(),
            ZPAQLOp::JT { n } => "jt "@ + signed_decimal(n as int),
            ZPAQLOp::JF { n } => "jf "@ + signed_decimal(n as int),
            ZPAQLOp::JMP { n } => "jmp "@ + signed_decimal(n as int),
            ZPAQLOp::RsetA { n } => "r=a "@ + decimal(n as nat),
            ZPAQLOp::AaddN { n } => "a+= "@ + decimal(n as nat),
            ZPAQLOp::AsubN { n } => "a-= "@ + decimal(n as nat),
            ZPAQLOp::AmultN { n } => "a*= "@ + decimal(n as nat),
            ZPAQLOp::AdivN { n } => "a/= "@ + decimal(n as nat),
            ZPAQLOp::AmodN { n } => "a%= "@ + decimal(n as nat),
            ZPAQLOp::AandN { n } => "a&= "@ + decimal(n as nat),
            ZPAQLOp::AandnotN { n } => "a&~ "@ + decimal(n as nat),
            ZPAQLOp::AorN { n } => "a|= "@ + decimal(n as nat),
            ZPAQLOp::AxorN { n } => "a^= "@ + decimal(n as nat),
            ZPAQLOp::AlshiftN { n } => "a<<= "@ + decimal(n as nat),
            ZPAQLOp::ArshiftN { n } => "a>>= "@ + decimal(n as nat),
            ZPAQLOp::AeqN { n } => "a== "@ + decimal(n as nat),
            ZPAQLOp::AltN { n } => "a< "@ + decimal(n as nat),
            ZPAQLOp::AgtN { n } => "a> "@ + decimal(n as nat),
            ZPAQLOp::LJ { n } => "lj "@ + decimal(n as nat),
            ZPAQLOp::Comment { .. } | ZPAQLOp::Label { .. } | ZPAQLOp::GoTo { .. } => Seq::empty(),
        }
    }

    /// The number of bytes that the instruction takes: none for a comment or
    /// a label, three for a jump to a label.
    pub fn size(&self) -> (n: u16)
        ensures
            n == self.deep_view().size(),
            n <= 3,
    {
        match self {
            ZPAQLOp::Comment { .. } | ZPAQLOp::Label { .. } => 0,
            ZPAQLOp::JT { .. }
            | ZPAQLOp::JF { .. }
            | ZPAQLOp::JMP { .. }
            | ZPAQLOp::RsetA { .. }
            | ZPAQLOp::AaddN { .. }
            | ZPAQLOp::AsubN { .. }
            | ZPAQLOp::AmultN { .. }
            | ZPAQLOp::AdivN { .. }
            | ZPAQLOp::AmodN { .. }
            | ZPAQLOp::AandN { .. }
            | ZPAQLOp::AandnotN { .. }
            | ZPAQLOp::AorN { .. }
            | ZPAQLOp::AxorN { .. }
            | ZPAQLOp::AlshiftN { .. }
            | ZPAQLOp::ArshiftN { .. }
            | ZPAQLOp::AeqN { .. }
            | ZPAQLOp::AltN { .. }
            | ZPAQLOp::AgtN { .. }
            | ZPAQLOp::SetN { .. }
            | ZPAQLOp::SetR { .. } => 2,
            ZPAQLOp::LJ { .. } | ZPAQLOp::GoTo { .. } => 3,
            _ => 1,
        }
    }

    /// The instruction as it is written in a configuration.
    pub fn to_string(&self) -> (s: String)
        ensures
            s@ == self.deep_view().text(),
    {
        match self {
            ZPAQLOp::Error => String::from_str("error"),
            ZPAQLOp::Halt => String::from_str("halt"),
            ZPAQLOp::Out => String::from_str("out"),
            ZPAQLOp::Hash => String::from_str("hash"),
            ZPAQLOp::HashD => String::from_str("hashd"),
            ZPAQLOp::Inc(l) => {
                let mut s = l.to_string();
                push_text(&mut s, "++");
                s
            },
            ZPAQLOp::Dec(l) => {
                let mut s = l.to_string();
                push_text(&mut s, "--");
                s
            },
            ZPAQLOp::Not(l) => {
                let mut s = l.to_string();
                push_text(&mut s, "!");
                s
            },
            ZPAQLOp::Zero(l) => {
                let mut s = l.to_string();
                push_text(&mut s, "=0");
                s
            },
            ZPAQLOp::Mov { target, source } => {
                let mut s = target.to_string();
                push_text(&mut s, "=");
                let t = source.to_string();
                push_text(&mut s, t.as_str());
                s
            },
            ZPAQLOp::SwapA(l) => {
                let mut s = l.to_string();
                push_text(&mut s, "<>a");
                s
            },
            ZPAQLOp::SetN { target, n } => {
                let mut s = target.to_string();
                push_text(&mut s, "= ");
                push_decimal(&mut s, *n as u64);
                s
            },
            ZPAQLOp::SetR { target, r } => {
                let mut s = target.to_string();
                push_text(&mut s, "=r ");
                push_decimal(&mut s, *r as u64);
                s
            },
            ZPAQLOp::Aadd(l) => {
                let mut s = String::from_str("a+=");
                let t = l.to_string();
                push_text(&mut s, t.as_str());
                s
            },
            ZPAQLOp::Asub(l) => {
                let mut s = String::from_str("a-=");
                let t = l.to_string();
                push_text(&mut s, t.as_str());
                s
            },
            ZPAQLOp::Amult(l) => {
                let mut s = String::from_str("a*=");
                let t = l.to_string();
                push_text(&mut s, t.as_str());
                s
            },
            ZPAQLOp::Adiv(l) => {
                let mut s = String::from_str("a/=");
                let t = l.to_string();
                push_text(&mut s, t.as_str());
                s
            },
            ZPAQLOp::Amod(l) => {
                let mut s = String::from_str("a%=");
                let t = l.to_string();
                push_text(&mut s, t.as_str());
                s
            },
            ZPAQLOp::Aand(l) => {
                let mut s = String::from_str("a&=");
                let t = l.to_string();
                push_text(&mut s, t.as_str());
                s
            },
            ZPAQLOp::Aandnot(l) => {
                let mut s = String::from_str("a&~");
                let t = l.to_string();
                push_text(&mut s, t.as_str());
                s
            },
            ZPAQLOp::Aor(l) => {
                let mut s = String::from_str("a|=");
                let t = l.to_string();
                push_text(&mut s, t.as_str());
                s
            },
            ZPAQLOp::Axor(l) => {
                let mut s = String::from_str("a^=");
                let t = l.to_string();
                push_text(&mut s, t.as_str());
                s
            },
            ZPAQLOp::Alshift(l) => {
                let mut s = String::from_str("a<<=");
                let t = l.to_string();
                push_text(&mut s, t.as_str());
                s
            },
            ZPAQLOp::Arshift(l) => {
                let mut s = String::from_str("a>>=");
                let t = l.to_string();
                push_text(&mut s, t.as_str());
                s
            },
            ZPAQLOp::Aeq(l) => {
                let mut s = String::from_str("a==");
                let t = l.to_string();
                push_text(&mut s, t.as_str());
                s
            },
            ZPAQLOp::Alt(l) => {
                let mut s = String::from_str("a<");
                let t = l.to_string();
                push_text(&mut s, t.as_str());
                s
            },
            ZPAQLOp::Agt(l) => {
                let mut s = String::from_str("a>");
                let t = l.to_string();
                push_text(&mut s, t.as_str());
                s
            },
            ZPAQLOp::JT { n } => {
                let mut s = String::from_str("jt ");
                push_signed_decimal(&mut s, *n as i64);
                s
            },
            ZPAQLOp::JF { n } => {
                let mut s = String::from_str("jf ");
                push_signed_decimal(&mut s, *n as i64);
                s
            },
            ZPAQLOp::JMP { n } => {
                let mut s = String::from_str("jmp ");
                push_signed_decimal(&mut s, *n as i64);
                s
            },
            ZPAQLOp::RsetA { n } => {
                let mut s = String::from_str("r=a ");
                push_decimal(&mut s, *n as u64);
                s
            },
            ZPAQLOp::AaddN { n } => {
                let mut s = String::from_str("a+= ");
                push_decimal(&mut s, *n as u64);
                s
            },
            ZPAQLOp::AsubN { n } => {
                let mut s = String::from_str("a-= ");
                push_decimal(&mut s, *n as u64);
                s
            },
            ZPAQLOp::AmultN { n } => {
                let mut s = String::from_str("a*= ");
                push_decimal(&mut s, *n as u64);
                s
            },
            ZPAQLOp::AdivN { n } => {
                let mut s = String::from_str("a/= ");
                push_decimal(&mut s, *n as u64);
                s
            },
            ZPAQLOp::AmodN { n } => {
                let mut s = String::from_str("a%= ");
                push_decimal(&mut s, *n as u64);
                s
            },
            ZPAQLOp::AandN { n } => {
                let mut s = String::from_str("a&= ");
                push_decimal(&mut s, *n as u64);
                s
            },
            ZPAQLOp::AandnotN { n } => {
                let mut s = String::from_str("a&~ ");
                push_decimal(&mut s, *n as u64);
                s
            },
            ZPAQLOp::AorN { n } => {
                let mut s = String::from_str("a|= ");
                push_decimal(&mut s, *n as u64);
                s
            },
            ZPAQLOp::AxorN { n } => {
                let mut s = String::from_str("a^= ");
                push_decimal(&mut s, *n as u64);
                s
            },
            ZPAQLOp::AlshiftN { n } => {
                let mut s = String::from_str("a<<= ");
                push_decimal(&mut s, *n as u64);
                s
            },
            ZPAQLOp::ArshiftN { n } => {
                let mut s = String::from_str("a>>= ");
                push_decimal(&mut s, *n as u64);
                s
            },
            ZPAQLOp::AeqN { n } => {
                let mut s = String::from_str("a== ");
                push_decimal(&mut s, *n as u64);
                s
            },
            ZPAQLOp::AltN { n } => {
                let mut s = String::from_str("a< ");
                push_decimal(&mut s, *n as u64);
                s
            },
            ZPAQLOp::AgtN { n } => {
                let mut s = String::from_str("a> ");
                push_decimal(&mut s, *n as u64);
                s
            },
            ZPAQLOp::LJ { n } => {
                let mut s = String::from_str("lj ");
                push_decimal(&mut s, *n as u64);
                s
            },
            ZPAQLOp::Comment { comment } => {
                let cs = chars_of(comment.as_str());
                let mut s = String::from_str("(");
                let mut i: usize = 0;
                while i < cs.len()
                    invariant
                        i <= cs.len(),
                        cs@ == comment@,
                        s@ == "("@ + soften(comment@.take(i as int)),
                    decreases cs.len() - i,
                {
                    let c = cs[i];
                    let d = if c == '(' {
                        '\u{3008}'
                    } else if c == ')' {
                        '\u{3009}'
                    } else {
                        c
                    };
                    push_char(&mut s, d);
                    assert(soften(comment@.take(i + 1)) =~= soften(comment@.take(i as int)).push(d));
                    assert(s@ =~= "("@ + soften(comment@.take(i + 1)));
                    i += 1;
                }
                assert(comment@.take(cs.len() as int) =~= comment@);
                push_text(&mut s, ")");
                s
            },
            ZPAQLOp::Label { label, position } => {
                let mut s = label.clone();
                push_text(&mut s, ": ");
                push_decimal(&mut s, *position as u64);
                s
            },
            ZPAQLOp::GoTo { label } => {
                let mut s = String::from_str("goto ");
                push_text(&mut s, label.as_str());
                s
            },
        }
    }
}

impl OpView {
    /// The number of bytes that the instruction takes.
    pub open spec fn size(self) -> nat {
        match self {
            OpView::Comment { .. } | OpView::Label { .. } => 0,
            OpView::GoTo { .. } => 3,
            OpView::Plain(op) => op.spec_size(),
        }
    }

    /// The instruction as it is written in a configuration.
    pub open spec fn text(self) -> Seq<char> {
        match self {
            OpView::Comment { comment } => "("@ + soften(comment) + ")"@,
            OpView::Label { label, position } => label + ": "@ + decimal(position as nat),
            OpView::GoTo { label } => "goto "@ + label,
            OpView::Plain(op) => op.plain_text(),
        }
    }
}

impl DeepView for ZPAQLOp {
    type V = OpView;

    open spec fn deep_view(&self) -> OpView {
        match self {
            ZPAQLOp::Comment { comment } => OpView::Comment { comment: comment@ },
            ZPAQLOp::Label { label, position } => OpView::Label { label: label@, position: *position },
            ZPAQLOp::GoTo { label } => OpView::GoTo { label: label@ },
            _ => OpView::Plain(*self),
        }
    }
}

impl Clone for ZPAQLOp {
    fn clone(&self) -> (r: ZPAQLOp)
        ensures
            r.deep_view() == self.deep_view(),
            self.is_plain() ==> r == *self,
    {
        match self {
            ZPAQLOp::Error => ZPAQLOp::Error,
            ZPAQLOp::Halt => ZPAQLOp::Halt,
            ZPAQLOp::Out => ZPAQLOp::Out,
            ZPAQLOp::Hash => ZPAQLOp::Hash,
            ZPAQLOp::HashD => ZPAQLOp::HashD,
            ZPAQLOp::Inc(l) => ZPAQLOp::Inc(*l),
            ZPAQLOp::Dec(l) => ZPAQLOp::Dec(*l),
            ZPAQLOp::Not(l) => ZPAQLOp::Not(*l),
            ZPAQLOp::Zero(l) => ZPAQLOp::Zero(*l),
            ZPAQLOp::SwapA(l) => ZPAQLOp::SwapA(*l),
            ZPAQLOp::Aadd(l) => ZPAQLOp::Aadd(*l),
            ZPAQLOp::Asub(l) => ZPAQLOp::Asub(*l),
            ZPAQLOp::Amult(l) => ZPAQLOp::Amult(*l),
            ZPAQLOp::Adiv(l) => ZPAQLOp::Adiv(*l),
            ZPAQLOp::Amod(l) => ZPAQLOp::Amod(*l),
            ZPAQLOp::Aand(l) => ZPAQLOp::Aand(*l),
            ZPAQLOp::Aandnot(l) => ZPAQLOp::Aandnot(*l),
            ZPAQLOp::Aor(l) => ZPAQLOp::Aor(*l),
            ZPAQLOp::Axor(l) => ZPAQLOp::Axor(*l),
            ZPAQLOp::Alshift(l) => ZPAQLOp::Alshift(*l),
            ZPAQLOp::Arshift(l) => ZPAQLOp::Arshift(*l),
            ZPAQLOp::Aeq(l) => ZPAQLOp::Aeq(*l),
            ZPAQLOp::Alt(l) => ZPAQLOp::Alt(*l),
            ZPAQLOp::Agt(l) => ZPAQLOp::Agt(*l),
            ZPAQLOp::Mov { target, source } => ZPAQLOp::Mov { target: *target, source: *source },
            ZPAQLOp::SetN { target, n } => ZPAQLOp::SetN { target: *target, n: *n },
            ZPAQLOp::SetR { target, r } => ZPAQLOp::SetR { target: *target, r: *r },
            ZPAQLOp::JT { n } => ZPAQLOp::JT { n: *n },
            ZPAQLOp::JF { n } => ZPAQLOp::JF { n: *n },
            ZPAQLOp::JMP { n } => ZPAQLOp::JMP { n: *n },
            ZPAQLOp::RsetA { n } => ZPAQLOp::RsetA { n: *n },
            ZPAQLOp::AaddN { n } => ZPAQLOp::AaddN { n: *n },
            ZPAQLOp::AsubN { n } => ZPAQLOp::AsubN { n: *n },
            ZPAQLOp::AmultN { n } => ZPAQLOp::AmultN { n: *n },
            ZPAQLOp::AdivN { n } => ZPAQLOp::AdivN { n: *n },
            ZPAQLOp::AmodN { n } => ZPAQLOp::AmodN { n: *n },
            ZPAQLOp::AandN { n } => ZPAQLOp::AandN { n: *n },
            ZPAQLOp::AandnotN { n } => ZPAQLOp::AandnotN { n: *n },
            ZPAQLOp::AorN { n } => ZPAQLOp::AorN { n: *n },
            ZPAQLOp::AxorN { n } => ZPAQLOp::AxorN { n: *n },
            ZPAQLOp::AlshiftN { n } => ZPAQLOp::AlshiftN { n: *n },
            ZPAQLOp::ArshiftN { n } => ZPAQLOp::ArshiftN { n: *n },
            ZPAQLOp::AeqN { n } => ZPAQLOp::AeqN { n: *n },
            ZPAQLOp::AltN { n } => ZPAQLOp::AltN { n: *n },
            ZPAQLOp::AgtN { n } => ZPAQLOp::AgtN { n: *n },
            ZPAQLOp::LJ { n } => ZPAQLOp::LJ { n: *n },
            ZPAQLOp::Comment { comment } => ZPAQLOp::Comment { comment: comment.clone() },
            ZPAQLOp::Label { label, position } => ZPAQLOp::Label { label: label.clone(), position: *position },
            ZPAQLOp::GoTo { label } => ZPAQLOp::GoTo { label: label.clone() },
        }
    }
}

/// The instructions of a piece of code as values.
pub open spec fn op_views(code: Seq<ZPAQLOp>) -> Seq<OpView> {
    Seq::new(code.len(), |i: int| code[i].deep_view())
}

/// The bytes that a piece of code takes.
pub open spec fn total_size(code: Seq<OpView>) -> nat
    decreases code.len(),
{
    if code.len() == 0 {
        0
    } else {
        total_size(code.drop_last()) + code.last().size()
    }
}

/// The byte at which the label `name` stands: the bytes that the code before
/// it takes, counted in 16 bits. Where several labels carry the name, the
/// last one counts.
pub open spec fn label_position(code: Seq<OpView>, name: Seq<char>) -> Option<u16>
    decreases code.len(),
{
    if code.len() == 0 {
        None
    } else {
        match code.last() {
            OpView::Label { label, .. } => if label == name {
                Some((total_size(code.drop_last()) % 65536) as u16)
            } else {
                label_position(code.drop_last(), name)
            },
            _ => label_position(code.drop_last(), name),
        }
    }
}

/// `code` with its labels dropped and each jump to a label turned into a long
/// jump to the byte at which that label stands in `all`.
pub open spec fn resolve(code: Seq<OpView>, all: Seq<OpView>) -> Result<Seq<OpView>, CompileError>
    decreases code.len(),
{
    if code.len() == 0 {
        Ok(Seq::empty())
    } else {
        match resolve(code.drop_last(), all) {
            Err(e) => Err(e),
            Ok(done) => match code.last() {
                OpView::Label { .. } => Ok(done),
                OpView::GoTo { label } => match label_position(all, label) {
                    None => Err(CompileError::UnknownLabel),
                    Some(p) => Ok(done.push(OpView::Plain(ZPAQLOp::LJ { n: p }))),
                },
                op => Ok(done.push(op)),
            },
        }
    }
}

/// The assembled code: the labels are dropped and the jumps to them become
/// long jumps. Code of more than 65535 bytes is refused unless errors are to
/// be ignored; a jump to a label that does not occur is always refused.
pub open spec fn assemble(code: Seq<OpView>, ignore_errors: bool) -> Result<Seq<OpView>, CompileError> {
    if total_size(code) > 65535 && !ignore_errors {
        Err(CompileError::CodeTooLong)
    } else {
        resolve(code, code)
    }
}

/// What comes first takes no more bytes than the whole.
pub proof fn lemma_total_size_prefix(code: Seq<OpView>, i: int)
    requires
        0 <= i <= code.len(),
    ensures
        total_size(code.take(i)) <= total_size(code),
    decreases code.len(),
{
    if i < code.len() {
        assert(code.drop_last().take(i) =~= code.take(i));
        lemma_total_size_prefix(code.drop_last(), i);
    } else {
        assert(code.take(i) =~= code);
    }
}

/// Assembling preserves the size of the code: the long jumps take the three
/// bytes of the jumps they replace, and labels take none. So the byte at
/// which assembled code ends is the sum of the sizes of its instructions, and
/// it is at most 65535 unless errors were to be ignored.
pub proof fn lemma_assembled_size(code: Seq<OpView>, ignore_errors: bool)
    requires
        assemble(code, ignore_errors) is Ok,
    ensures
        total_size(assemble(code, ignore_errors)->Ok_0) == total_size(code),
        !ignore_errors ==> total_size(assemble(code, ignore_errors)->Ok_0) <= 65535,
{
    lemma_resolved_size(code, code);
}

proof fn lemma_resolved_size(code: Seq<OpView>, all: Seq<OpView>)
    requires
        resolve(code, all) is Ok,
    ensures
        total_size(resolve(code, all)->Ok_0) == total_size(code),
    decreases code.len(),
{
    if code.len() > 0 {
        lemma_resolved_size(code.drop_last(), all);
        let done = resolve(code.drop_last(), all)->Ok_0;
        match code.last() {
            OpView::Label { .. } => {},
            OpView::GoTo { label } => {
                let p = label_position(all, label)->Some_0;
                assert(done.push(OpView::Plain(ZPAQLOp::LJ { n: p })).drop_last() =~= done);
            },
            op => {
                assert(done.push(op).drop_last() =~= done);
            },
        }
    }
}

/// Assembled code holds no label and no jump to a label.
pub proof fn lemma_assembled_plain(code: Seq<OpView>, ignore_errors: bool, i: int)
    requires
        assemble(code, ignore_errors) is Ok,
        0 <= i < assemble(code, ignore_errors)->Ok_0.len(),
    ensures
        !(assemble(code, ignore_errors)->Ok_0[i] is Label),
        !(assemble(code, ignore_errors)->Ok_0[i] is GoTo),
{
    lemma_resolved_plain(code, code, i);
}

proof fn lemma_resolved_plain(code: Seq<OpView>, all: Seq<OpView>, i: int)
    requires
        resolve(code, all) is Ok,
        0 <= i < resolve(code, all)->Ok_0.len(),
    ensures
        !(resolve(code, all)->Ok_0[i] is Label),
        !(resolve(code, all)->Ok_0[i] is GoTo),
    decreases code.len(),
{
    if code.len() > 0 {
        let done = resolve(code.drop_last(), all)->Ok_0;
        if i < done.len() {
            lemma_resolved_plain(code.drop_last(), all, i);
        }
    }
}

/// Assembles the code: computes the byte at which each label stands, drops
/// the labels, and turns the jumps to labels into long jumps.
pub fn set_positions(code: &[ZPAQLOp], optioncfg: &Options) -> (r: Result<Vec<ZPAQLOp>, CompileError>)
    ensures
        match r {
            Ok(ops) => assemble(op_views(code@), optioncfg.ignore_errors) == Ok::<Seq<OpView>, CompileError>(op_views(ops@)),
            Err(e) => assemble(op_views(code@), optioncfg.ignore_errors) == Err::<Seq<OpView>, CompileError>(e),
        },
{
    let ghost all = op_views(code@);
    let mut pos: u16 = 0;
    let mut labels: NameMap<u16> = NameMap::new();
    let mut i: usize = 0;
    while i < code.len()
        invariant
            i <= code.len(),
            all == op_views(code@),
            pos == total_size(all.take(i as int)) % 65536,
            !optioncfg.ignore_errors ==> total_size(all.take(i as int)) <= 65535,
            forall|name: Seq<char>| #[trigger] label_position(all.take(i as int), name)
                == if labels@.contains_key(name) { Some(labels@[name]) } else { None::<u16> },
        decreases code.len() - i,
    {
        let ghost before = all.take(i as int);
        let ghost after = all.take(i + 1);
        assert(after.drop_last() =~= before);
        assert(after.last() == code@[i as int].deep_view());
        let ghost old_labels = labels@;
        match &code[i] {
            ZPAQLOp::Label { label, position: _ } => {
                labels.insert(label.clone(), pos);
            },
            op => {
                let new_pos: u32 = pos as u32 + op.size() as u32;
                if new_pos > 65535 {
                    if !optioncfg.ignore_errors {
                        proof {
                            lemma_total_size_prefix(all, i + 1);
                        }
                        return Err(CompileError::CodeTooLong);
                    }
                }
                pos = (new_pos % 65536) as u16;
            },
        }
        assert forall|name: Seq<char>| #[trigger] label_position(after, name) == if labels@.contains_key(
            name,
        ) {
            Some(labels@[name])
        } else {
            None::<u16>
        } by {
            assert(label_position(before, name) == if old_labels.contains_key(name) {
                Some(old_labels[name])
            } else {
                None::<u16>
            });
        }
        i += 1;
    }
    assert(all.take(code.len() as int) =~= all);
    let mut ops: Vec<ZPAQLOp> = Vec::new();
    let mut k: usize = 0;
    assert(op_views(ops@) =~= Seq::<OpView>::empty());
    assert(all.take(0).len() == 0);
    while k < code.len()
        invariant
            k <= code.len(),
            all == op_views(code@),
            !optioncfg.ignore_errors ==> total_size(all) <= 65535,
            forall|name: Seq<char>| #[trigger] label_position(all, name)
                == if labels@.contains_key(name) { Some(labels@[name]) } else { None::<u16> },
            resolve(all.take(k as int), all) == Ok::<Seq<OpView>, CompileError>(op_views(ops@)),
        decreases code.len() - k,
    {
        let ghost before = all.take(k as int);
        let ghost after = all.take(k + 1);
        let ghost done = op_views(ops@);
        assert(after.drop_last() =~= before);
        assert(after.last() == code@[k as int].deep_view());
        match &code[k] {
            ZPAQLOp::Label { .. } => {},
            ZPAQLOp::GoTo { label } => {
                match labels.get(label.as_str()) {
                    None => {
                        assert(label_position(all, label@) is None);
                        proof {
                            lemma_resolve_fails(all, all, k as int);
                        }
                        return Err(CompileError::UnknownLabel);
                    },
                    Some(p) => {
                        assert(label_position(all, label@) == Some(*p));
                        ops.push(ZPAQLOp::LJ { n: *p });
                        assert(op_views(ops@) =~= done.push(OpView::Plain(ZPAQLOp::LJ { n: *p })));
                    },
                }
            },
            op => {
                let c = op.clone();
                ops.push(c);
                assert(op_views(ops@) =~= done.push(op.deep_view()));
            },
        }
        k += 1;
    }
    assert(all.take(code.len() as int) =~= all);
    Ok(ops)
}

proof fn lemma_resolve_fails(code: Seq<OpView>, all: Seq<OpView>, k: int)
    requires
        0 <= k < code.len(),
        resolve(code.take(k), all) is Ok,
        code[k] is GoTo,
        label_position(all, code[k]->GoTo_label) is None,
    ensures
        resolve(code, all) == Err::<Seq<OpView>, CompileError>(CompileError::UnknownLabel),
    decreases code.len(),
{
    assert(code.take(k + 1).drop_last() =~= code.take(k));
    if k + 1 < code.len() {
        assert(code.drop_last().take(k) =~= code.take(k));
        lemma_resolve_fails(code.drop_last(), all, k);
    } else {
        assert(code.drop_last() =~= code.take(k));
    }
}

} // verus!
