//! The intermediate code: operands, instructions, their texts, and the
//! expansion of the instructions that stand for blocks.

use vstd::prelude::*;
use vstd::string::*;
use crate::text::{
    decimal, decimal_string, indent, join, lemma_join_step, nats_of_u32, nats_of_u8, number_list,
    push_decimal, push_indented, push_text, push_u32_list, push_u8_list,
};

verus! {

/// An operand of the intermediate code.
#[derive(Debug, PartialEq)]
#[allow(inconsistent_fields)]
pub enum IRVar {
    /// A constant. All computations are modulo 2^32.
    Number { value: u32 },
    /// The slot `varid` of R. The slots 252 to 255 are reserved: the global
    /// base pointer, the pushed-back input byte, the reading flag and the
    /// input byte.
    Var { varid: u8 },
    /// The cell of H that the slot `index_varid` points to.
    H { index_varid: u8, orig_name: String },
    /// The cell of H at `stack_offset` from the base pointer of the current
    /// frame (`local`) or of the outermost frame.
    Ht { stack_offset: u32, local: bool, orig_name: String },
    /// The byte of M that the slot `index_varid` points to.
    M { index_varid: u8 },
    /// The cell of H at `addr`.
    Hx { addr: u32 },
    /// The byte of M at `addr`.
    Mx { addr: u32 },
    /// An operand known to hold a pointer to an array in H.
    VH(Box<IRVar>),
    /// An operand known to hold a pointer to an array in M.
    VM(Box<IRVar>),
}

/// An operand as a value.
#[allow(inconsistent_fields)]
pub enum IRVarView {
    Number { value: u32 },
    Var { varid: u8 },
    H { index_varid: u8, orig_name: Seq<char> },
    Ht { stack_offset: u32, local: bool, orig_name: Seq<char> },
    M { index_varid: u8 },
    Hx { addr: u32 },
    Mx { addr: u32 },
    VH(Box<IRVarView>),
    VM(Box<IRVarView>),
}

/// The operators with two operands.
#[derive(Debug, Clone, Copy, PartialEq, Eq, Structural)]
pub enum IROp {
    Add,
    Sub,
    Mult,
    Div,
    Pow,
    LShift,
    RShift,
    Mod,
    BitOr,
    BitXor,
    BitAnd,
    Or,
    And,
    Eq,
    NotEq,
    Lt,
    LtE,
    Gt,
    GtE,
}

/// The operators with one operand.
#[derive(Debug, Clone, Copy, PartialEq, Eq, Structural)]
pub enum IRUOp {
    /// 1 for 0, else 0.
    Not,
    /// Every bit flipped.
    Invert,
    USub,
}

impl IROp {
    /// The operator as it is written.
    pub open spec fn text(self) -> Seq<char> {
        match self {
            IROp::Add => "+"@,
            IROp::Sub => "-"@,
            IROp::Mult => "*"@,
            IROp::Div => "/"@,
            IROp::Pow => "**"@,
            IROp::Mod => "%"@,
            IROp::LShift => "<<"@,
            IROp::RShift => ">>"@,
            IROp::BitOr => "|"@,
            IROp::BitXor => "^"@,
            IROp::BitAnd => "&"@,
            IROp::Or => "or"@,
            IROp::And => "and"@,
            IROp::Eq => "=="@,
            IROp::NotEq => "!="@,
            IROp::Lt => "<"@,
            IROp::LtE => "<="@,
            IROp::Gt => ">"@,
            IROp::GtE => ">="@,
        }
    }

    pub fn to_string(&self) -> (s: String)
        ensures
            s@ == self.text(),
    {
        match self {
            IROp::Add => String::from_str("+"),
            IROp::Sub => String::from_str("-"),
            IROp::Mult => String::from_str("*"),
            IROp::Div => String::from_str("/"),
            IROp::Pow => String::from_str("**"),
            IROp::Mod => String::from_str("%"),
            IROp::LShift => String::from_str("<<"),
            IROp::RShift => String::from_str(">>"),
            IROp::BitOr => String::from_str("|"),
            IROp::BitXor => String::from_str("^"),
            IROp::BitAnd => String::from_str("&"),
            IROp::Or => String::from_str("or"),
            IROp::And => String::from_str("and"),
            IROp::Eq => String::from_str("=="),
            IROp::NotEq => String::from_str("!="),
            IROp::Lt => String::from_str("<"),
            IROp::LtE => String::from_str("<="),
            IROp::Gt => String::from_str(">"),
            IROp::GtE => String::from_str(">="),
        }
    }
}

impl IRUOp {
    /// The operator as it is written.
    pub open spec fn text(self) -> Seq<char> {
        match self {
            IRUOp::Not => "!"@,
            IRUOp::Invert => "~"@,
            IRUOp::USub => "-"@,
        }
    }

    pub fn to_string(&self) -> (s: String)
        ensures
            s@ == self.text(),
    {
        match self {
            IRUOp::Not => String::from_str("!"),
            IRUOp::Invert => String::from_str("~"),
            IRUOp::USub => String::from_str("-"),
        }
    }
}

impl IRVarView {
    /// The operand without the mark of what its pointer points into.
    pub open spec fn tovar(self) -> IRVarView {
        match self {
            IRVarView::VH(x) => *x,
            IRVarView::VM(x) => *x,
            _ => self,
        }
    }

    /// The operand as it is written. A mark of what a pointer points into
    /// is not written.
    pub open spec fn text(self) -> Seq<char>
        decreases self,
    {
        match self {
            IRVarView::Number { value } => decimal(value as nat),
            IRVarView::Var { varid } => "t"@ + decimal(varid as nat),
            IRVarView::H { index_varid, orig_name } => "H[t"@ + decimal(index_varid as nat) + "]("@
                + orig_name + ")"@,
            IRVarView::Ht { stack_offset, local, orig_name } => "H[t"@ + decimal(
                if local {
                    0
                } else {
                    252
                },
            ) + "+"@ + decimal(stack_offset as nat) + "]("@ + orig_name + ")"@,
            IRVarView::M { index_varid } => "M[t"@ + decimal(index_varid as nat) + "]"@,
            IRVarView::Mx { addr } => "M["@ + decimal(addr as nat) + "]"@,
            IRVarView::Hx { addr } => "H["@ + decimal(addr as nat) + "]"@,
            IRVarView::VH(x) => x.text(),
            IRVarView::VM(x) => x.text(),
        }
    }

    /// The slot of R that the operand reads to find its value: the slot
    /// itself, or the slot that points into H or M.
    pub open spec fn slot(self) -> Option<u8> {
        match self {
            IRVarView::Var { varid } => Some(varid),
            IRVarView::M { index_varid } => Some(index_varid),
            IRVarView::H { index_varid, .. } => Some(index_varid),
            _ => None,
        }
    }
}

impl IRVar {
    /// The operand as a value.
    pub open spec fn model(self) -> IRVarView
        decreases self,
    {
        match self {
            IRVar::Number { value } => IRVarView::Number { value },
            IRVar::Var { varid } => IRVarView::Var { varid },
            IRVar::H { index_varid, orig_name } => IRVarView::H { index_varid, orig_name: orig_name@ },
            IRVar::Ht { stack_offset, local, orig_name } => IRVarView::Ht {
                stack_offset,
                local,
                orig_name: orig_name@,
            },
            IRVar::M { index_varid } => IRVarView::M { index_varid },
            IRVar::Hx { addr } => IRVarView::Hx { addr },
            IRVar::Mx { addr } => IRVarView::Mx { addr },
            IRVar::VH(x) => IRVarView::VH(Box::new((*x).model())),
            IRVar::VM(x) => IRVarView::VM(Box::new((*x).model())),
        }
    }

    /// The operand without the mark of what its pointer points into.
    pub fn tovar(&self) -> (r: IRVar)
        ensures
            r.deep_view() == self.deep_view().tovar(),
    {
        match self {
            IRVar::VH(x) => (**x).clone(),
            IRVar::VM(x) => (**x).clone(),
            _ => self.clone(),
        }
    }

    /// Whether two operands are the same, names included.
    pub fn same(&self, other: &IRVar) -> (b: bool)
        ensures
            b == (self.deep_view() == other.deep_view()),
        decreases self,
    {
        match (self, other) {
            (IRVar::Number { value: a }, IRVar::Number { value: b }) => *a == *b,
            (IRVar::Var { varid: a }, IRVar::Var { varid: b }) => *a == *b,
            (IRVar::H { index_varid: a, orig_name: n }, IRVar::H { index_varid: b, orig_name: m }) => *a
                == *b && *n == *m,
            (
                IRVar::Ht { stack_offset: a, local: l, orig_name: n },
                IRVar::Ht { stack_offset: b, local: k, orig_name: m },
            ) => *a == *b && *l == *k && *n == *m,
            (IRVar::M { index_varid: a }, IRVar::M { index_varid: b }) => *a == *b,
            (IRVar::Hx { addr: a }, IRVar::Hx { addr: b }) => *a == *b,
            (IRVar::Mx { addr: a }, IRVar::Mx { addr: b }) => *a == *b,
            (IRVar::VH(a), IRVar::VH(b)) => (**a).same(&**b),
            (IRVar::VM(a), IRVar::VM(b)) => (**a).same(&**b),
            _ => false,
        }
    }

    /// The operand as it is written.
    pub fn to_string(&self) -> (s: String)
        ensures
            s@ == self.deep_view().text(),
        decreases self,
    {
        match self {
            IRVar::Number { value } => decimal_string(*value as u64),
            IRVar::Var { varid } => {
                let mut s = String::from_str("t");
                push_decimal(&mut s, *varid as u64);
                s
            },
            IRVar::H { index_varid, orig_name } => {
                let mut s = String::from_str("H[t");
                push_decimal(&mut s, *index_varid as u64);
                push_text(&mut s, "](");
                push_text(&mut s, orig_name.as_str());
                push_text(&mut s, ")");
                s
            },
            IRVar::Ht { stack_offset, local, orig_name } => {
                let mut s = String::from_str("H[t");
                push_decimal(
                    &mut s,
                    if *local {
                        0
                    } else {
                        252
                    },
                );
                push_text(&mut s, "+");
                push_decimal(&mut s, *stack_offset as u64);
                push_text(&mut s, "](");
                push_text(&mut s, orig_name.as_str());
                push_text(&mut s, ")");
                s
            },
            IRVar::M { index_varid } => {
                let mut s = String::from_str("M[t");
                push_decimal(&mut s, *index_varid as u64);
                push_text(&mut s, "]");
                s
            },
            IRVar::Mx { addr } => {
                let mut s = String::from_str("M[");
                push_decimal(&mut s, *addr as u64);
                push_text(&mut s, "]");
                s
            },
            IRVar::Hx { addr } => {
                let mut s = String::from_str("H[");
                push_decimal(&mut s, *addr as u64);
                push_text(&mut s, "]");
                s
            },
            IRVar::VH(x) => (**x).to_string(),
            IRVar::VM(x) => (**x).to_string(),
        }
    }
}

impl DeepView for IRVar {
    type V = IRVarView;

    open spec fn deep_view(&self) -> IRVarView {
        self.model()
    }
}

impl Clone for IRVar {
    fn clone(&self) -> (r: IRVar)
        ensures
            r.deep_view() == self.deep_view(),
        decreases self,
    {
        match self {
            IRVar::Number { value } => IRVar::Number { value: *value },
            IRVar::Var { varid } => IRVar::Var { varid: *varid },
            IRVar::H { index_varid, orig_name } => IRVar::H {
                index_varid: *index_varid,
                orig_name: orig_name.clone(),
            },
            IRVar::Ht { stack_offset, local, orig_name } => IRVar::Ht {
                stack_offset: *stack_offset,
                local: *local,
                orig_name: orig_name.clone(),
            },
            IRVar::M { index_varid } => IRVar::M { index_varid: *index_varid },
            IRVar::Hx { addr } => IRVar::Hx { addr: *addr },
            IRVar::Mx { addr } => IRVar::Mx { addr: *addr },
            IRVar::VH(x) => IRVar::VH(Box::new((**x).clone())),
            IRVar::VM(x) => IRVar::VM(Box::new((**x).clone())),
        }
    }
}

/// The operands of a list as values.
pub open spec fn var_views(vars: Seq<IRVar>) -> Seq<IRVarView> {
    Seq::new(vars.len(), |i: int| vars[i].deep_view())
}

/// A copy of a list of operands.
pub fn clone_vars(vars: &Vec<IRVar>) -> (r: Vec<IRVar>)
    ensures
        var_views(r@) == var_views(vars@),
{
    let mut out: Vec<IRVar> = Vec::new();
    let mut i: usize = 0;
    while i < vars.len()
        invariant
            i <= vars.len(),
            out.len() == i,
            forall|j: int| 0 <= j < i ==> out@[j].deep_view() == vars@[j].deep_view(),
        decreases vars.len() - i,
    {
        out.push(vars[i].clone());
        i += 1;
    }
    assert(var_views(out@) =~= var_views(vars@));
    out
}

/// An instruction of the intermediate code.
#[derive(Debug, PartialEq)]
#[allow(inconsistent_fields)]
pub enum IR {
    Assign { target: IRVar, source: IRVar },
    Assign2Op { target: IRVar, val1: IRVar, op: IROp, val2: IRVar },
    Assign1Op { target: IRVar, uop: IRUOp, source: IRVar },
    GoTo { label: String },
    Label { label: String },
    /// Ends the run for the current input byte.
    Halt,
    /// Emits a byte of output.
    Out { var: IRVar },
    /// Jumps where the operand is not 0.
    If { cond_var: IRVar, goto_label: String },
    /// Jumps where the operand is 0.
    IfN { cond_var: IRVar, goto_label: String },
    IfEq { val1: IRVar, val2: IRVar, goto_label: String },
    IfNeq { val1: IRVar, val2: IRVar, goto_label: String },
    /// Ends the run for good.
    Error,
    Comment { comment: String },
    Block { stmts: Vec<IR> },
    /// Where the body of a function starts.
    MarkTempVarStart,
    /// Where the body of a function ends.
    MarkTempVarEnd,
    /// Saves the slots `ti` in the cells that follow `stack_pos`.
    StoreTempVars { ti: Vec<u8>, stack_pos: u32 },
    /// Restores the slots `ti` from the cells that follow `stack_pos`.
    LoadTempVars { ti: Vec<u8>, stack_pos: u32 },
    /// Calls the function at `label`. Its result comes back in slot 1.
    Call { label: String, args: Vec<IRVar>, stack_pos: u32, ret_id: u32 },
    Return { var: Option<IRVar> },
    /// The jumps back to the call sites, by their return ids.
    JumpCode { ret_ids: Vec<u32>, stackend: u32 },
    /// The entry of a section.
    InitialCode { bsp: u32 },
}

/// An instruction as a value.
#[allow(inconsistent_fields)]
pub enum IRView {
    Assign { target: IRVarView, source: IRVarView },
    Assign2Op { target: IRVarView, val1: IRVarView, op: IROp, val2: IRVarView },
    Assign1Op { target: IRVarView, uop: IRUOp, source: IRVarView },
    GoTo { label: Seq<char> },
    Label { label: Seq<char> },
    Halt,
    Out { var: IRVarView },
    If { cond_var: IRVarView, goto_label: Seq<char> },
    IfN { cond_var: IRVarView, goto_label: Seq<char> },
    IfEq { val1: IRVarView, val2: IRVarView, goto_label: Seq<char> },
    IfNeq { val1: IRVarView, val2: IRVarView, goto_label: Seq<char> },
    Error,
    Comment { comment: Seq<char> },
    Block { stmts: Seq<IRView> },
    MarkTempVarStart,
    MarkTempVarEnd,
    StoreTempVars { ti: Seq<u8>, stack_pos: u32 },
    LoadTempVars { ti: Seq<u8>, stack_pos: u32 },
    Call { label: Seq<char>, args: Seq<IRVarView>, stack_pos: u32, ret_id: u32 },
    Return { var: Option<IRVarView> },
    JumpCode { ret_ids: Seq<u32>, stackend: u32 },
    InitialCode { bsp: u32 },
}

/// The slot `varid` of R.
pub open spec fn slot(varid: u8) -> IRVarView {
    IRVarView::Var { varid }
}

/// The constant `value`.
pub open spec fn number(value: u32) -> IRVarView {
    IRVarView::Number { value }
}

/// The cell of H at `offset` from the base pointer of the current frame.
pub open spec fn frame_cell(offset: u32) -> IRVarView {
    IRVarView::Ht { stack_offset: offset, local: true, orig_name: Seq::empty() }
}

/// The cell of H that slot 0, the base pointer, points to.
pub open spec fn base_cell() -> IRVarView {
    IRVarView::H { index_varid: 0, orig_name: Seq::empty() }
}

/// The label that follows the call with the return id `ret_id`.
pub open spec fn return_label(ret_id: u32) -> Seq<char> {
    "return_id_"@ + decimal(ret_id as nat)
}

/// What `return` expands to: the result goes to slot 1, the return id is
/// fetched to slot 2, the frame of the caller is restored, and the shared
/// jump code takes over.
pub open spec fn return_code(var: Option<IRVarView>) -> Seq<IRView> {
    (match var {
        None => Seq::<IRView>::empty(),
        Some(v) => seq![IRView::Assign { target: slot(1), source: v }],
    }) + seq![
        IRView::Assign { target: slot(2), source: base_cell() },
        IRView::Assign2Op { target: slot(0), val1: slot(0), op: IROp::Sub, val2: number(1) },
        IRView::Assign { target: slot(0), source: base_cell() },
        IRView::GoTo { label: "find_label_ret_id"@ },
    ]
}

/// The entry of a section: on the first run the base pointers are set; on a
/// run that continues a suspended read the read is resumed; otherwise the
/// section's function is called. The code also holds the function `read_b`.
pub open spec fn initial_code(bsp: u32) -> Seq<IRView> {
    seq![
        IRView::Comment {
            comment: "t255 holds the inital value passed into the A register, first ZPAQL instruction must thus be r=a 255"@,
        },
        IRView::IfN { cond_var: slot(0), goto_label: "init_code"@ },
        IRView::If { cond_var: slot(254), goto_label: "cont_reading"@ },
        IRView::GoTo { label: "call_next"@ },
        IRView::Label { label: "init_code"@ },
        IRView::Assign { target: slot(0), source: number(bsp) },
        IRView::Assign { target: slot(252), source: slot(0) },
        IRView::GoTo { label: "read_b_end~"@ },
        IRView::Label { label: "read_b"@ },
        IRView::Assign2Op { target: slot(1), val1: slot(253), op: IROp::Eq, val2: number(4294967294) },
        IRView::If { cond_var: slot(1), goto_label: "do_read_in"@ },
        IRView::Assign { target: slot(255), source: slot(253) },
        IRView::Assign { target: slot(253), source: number(4294967294) },
        IRView::GoTo { label: "cont_reading"@ },
        IRView::Label { label: "do_read_in"@ },
        IRView::Assign { target: slot(254), source: number(1) },
        IRView::Halt,
        IRView::Label { label: "cont_reading"@ },
        IRView::Assign { target: slot(254), source: number(0) },
        IRView::Block { stmts: return_code(Some(slot(255))) },
        IRView::Label { label: "read_b_end~"@ },
    ]
}

/// The jump code: one test of slot 2 for each return id, in their order, and
/// the error instruction behind them. Before it, a test for a stack that has
/// come within 200 cells of its end.
pub open spec fn jump_code(ret_ids: Seq<u32>, stackend: u32) -> Seq<IRView> {
    seq![
        IRView::Halt,
        IRView::Label { label: "find_label_ret_id"@ },
        IRView::Assign2Op {
            target: slot(4),
            val1: slot(0),
            op: IROp::Gt,
            val2: number((stackend - 200) as u32),
        },
        IRView::If { cond_var: slot(4), goto_label: "throw_error"@ },
    ] + Seq::new(
        ret_ids.len(),
        |i: int|
            IRView::IfEq { val1: slot(2), val2: number(ret_ids[i]), goto_label: return_label(ret_ids[i]) },
    ) + seq![IRView::Label { label: "throw_error"@ }, IRView::Error, IRView::Halt]
}

/// What a call expands to: the base pointer and the return id are stored
/// behind the cells in use, the arguments behind them, the base pointer moves
/// to the cell of the return id, and the jump to the function is followed by
/// the label at which the function's return arrives.
pub open spec fn call_code(label: Seq<char>, args: Seq<IRVarView>, stack_pos: u32, ret_id: u32) -> Seq<
    IRView,
> {
    seq![
        IRView::Assign { target: frame_cell((stack_pos + 1) as u32), source: slot(0) },
        IRView::Comment { comment: "saved bsp, return id:"@ },
        IRView::Assign { target: frame_cell((stack_pos + 2) as u32), source: number(ret_id) },
        IRView::Comment { comment: "push arguments:"@ },
    ] + Seq::new(
        args.len(),
        |i: int| IRView::Assign { target: frame_cell((stack_pos + 3 + i) as u32), source: args[i] },
    ) + seq![
        IRView::Assign2Op {
            target: slot(0),
            val1: slot(0),
            op: IROp::Add,
            val2: number((stack_pos + 2) as u32),
        },
        IRView::GoTo { label },
        IRView::Label { label: return_label(ret_id) },
    ]
}

/// The slots `ti` are written to the cells that follow `stack_pos`.
pub open spec fn store_code(ti: Seq<u8>, stack_pos: u32) -> Seq<IRView> {
    Seq::new(
        ti.len(),
        |i: int| IRView::Assign { target: frame_cell((stack_pos + 1 + i) as u32), source: slot(ti[i]) },
    )
}

/// The slots `ti` are read back from the cells that follow `stack_pos`.
pub open spec fn load_code(ti: Seq<u8>, stack_pos: u32) -> Seq<IRView> {
    Seq::new(
        ti.len(),
        |i: int| IRView::Assign { target: slot(ti[i]), source: frame_cell((stack_pos + 1 + i) as u32) },
    )
}

impl IRView {
    /// Whether the instruction can be expanded within 32 bits: the cells it
    /// names lie below 2^32, and the end of the stack at 200 or above.
    pub open spec fn expandable(self) -> bool {
        match self {
            IRView::JumpCode { ret_ids, stackend } => stackend >= 200,
            IRView::Call { label, args, stack_pos, ret_id } => stack_pos + 2 + args.len() <= u32::MAX,
            IRView::StoreTempVars { ti, stack_pos } => stack_pos + ti.len() <= u32::MAX,
            IRView::LoadTempVars { ti, stack_pos } => stack_pos + ti.len() <= u32::MAX,
            _ => true,
        }
    }

    /// The instruction with its meaning spelled out: the entry code, the jump
    /// code, a call, a return, and the saving and restoring of slots become a
    /// block of plain instructions. Every other instruction stays.
    pub open spec fn convert(self) -> IRView {
        match self {
            IRView::InitialCode { bsp } => IRView::Block { stmts: initial_code(bsp) },
            IRView::JumpCode { ret_ids, stackend } => IRView::Block { stmts: jump_code(ret_ids, stackend) },
            IRView::Return { var } => IRView::Block { stmts: return_code(var) },
            IRView::Call { label, args, stack_pos, ret_id } => IRView::Block {
                stmts: call_code(label, args, stack_pos, ret_id),
            },
            IRView::StoreTempVars { ti, stack_pos } => IRView::Block { stmts: store_code(ti, stack_pos) },
            IRView::LoadTempVars { ti, stack_pos } => IRView::Block { stmts: load_code(ti, stack_pos) },
            _ => self,
        }
    }

    /// The instruction as it is written in a listing.
    pub open spec fn text(self) -> Seq<char>
        decreases self,
    {
        match self {
            IRView::Assign { target, source } => " "@ + target.text() + " = "@ + source.text(),
            IRView::Assign2Op { target, val1, op, val2 } => " "@ + target.text() + " = "@ + val1.text()
                + " "@ + op.text() + " "@ + val2.text(),
            IRView::Assign1Op { target, uop, source } => " "@ + target.text() + " = "@ + uop.text()
                + " "@ + source.text(),
            IRView::GoTo { label } => " goto "@ + label,
            IRView::Label { label } => ":"@ + label + ":"@,
            IRView::Halt => " halt"@,
            IRView::Out { var } => " out "@ + var.text(),
            IRView::If { cond_var, goto_label } => " if "@ + cond_var.text() + " goto "@ + goto_label,
            IRView::IfN { cond_var, goto_label } => " ifN "@ + cond_var.text() + " goto "@ + goto_label,
            IRView::IfEq { val1, val2, goto_label } => " ifEq "@ + val1.text() + " "@ + val2.text()
                + " goto "@ + goto_label,
            IRView::IfNeq { val1, val2, goto_label } => " ifNeq "@ + val1.text() + " "@ + val2.text()
                + " goto "@ + goto_label,
            IRView::Error => " error"@,
            IRView::Block { stmts } => " "@ + join(block_lines(stmts), "\n"@),
            IRView::Comment { comment } => " # "@ + comment,
            IRView::InitialCode { bsp } => " InitialCode (bsp: "@ + decimal(bsp as nat) + ")"@,
            IRView::MarkTempVarStart => " MarkTempVarStart"@,
            IRView::MarkTempVarEnd => " MarkTempVarEnd"@,
            IRView::StoreTempVars { ti, stack_pos } => " StoreTempVars(t"@ + number_list(nats_of_u8(ti))
                + ", stack_pos: "@ + decimal(stack_pos as nat) + ")"@,
            IRView::LoadTempVars { ti, stack_pos } => " LoadTempVars(t"@ + number_list(nats_of_u8(ti))
                + ", stack_pos: "@ + decimal(stack_pos as nat) + ")"@,
            IRView::JumpCode { ret_ids, stackend } => " JumpCode(ret_ids: "@ + number_list(
                nats_of_u32(ret_ids),
            ) + ", stackend: "@ + decimal(stackend as nat) + ")"@,
            IRView::Call { label, args, stack_pos, ret_id } => " t1 = "@ + label + "("@ + join(
                Seq::new(args.len(), |i: int| args[i].text()),
                ", "@,
            ) + ") # stack_pos: "@ + decimal(stack_pos as nat) + " return id: "@ + decimal(
                ret_id as nat,
            ),
            IRView::Return { var } => " return "@ + (match var {
                Some(v) => v.text(),
                None => Seq::empty(),
            }),
        }
    }
}

/// The statements of a block, each indented by two spaces, as lines.
pub open spec fn block_lines(stmts: Seq<IRView>) -> Seq<Seq<char>>
    decreases stmts,
{
    Seq::new(
        stmts.len(),
        |i: int|
            if 0 <= i < stmts.len() {
                proof {
                    assert(decreases_to!(stmts => stmts[i]));
                }
                indent("  "@ + stmts[i].text())
            } else {
                Seq::empty()
            },
    )
}

impl IR {
    /// The instruction as a value.
    pub open spec fn model(self) -> IRView
        decreases self,
    {
        match self {
            IR::Assign { target, source } => IRView::Assign { target: target.model(), source: source.model() },
            IR::Assign2Op { target, val1, op, val2 } => IRView::Assign2Op {
                target: target.model(),
                val1: val1.model(),
                op,
                val2: val2.model(),
            },
            IR::Assign1Op { target, uop, source } => IRView::Assign1Op {
                target: target.model(),
                uop,
                source: source.model(),
            },
            IR::GoTo { label } => IRView::GoTo { label: label@ },
            IR::Label { label } => IRView::Label { label: label@ },
            IR::Halt => IRView::Halt,
            IR::Out { var } => IRView::Out { var: var.model() },
            IR::If { cond_var, goto_label } => IRView::If {
                cond_var: cond_var.model(),
                goto_label: goto_label@,
            },
            IR::IfN { cond_var, goto_label } => IRView::IfN {
                cond_var: cond_var.model(),
                goto_label: goto_label@,
            },
            IR::IfEq { val1, val2, goto_label } => IRView::IfEq {
                val1: val1.model(),
                val2: val2.model(),
                goto_label: goto_label@,
            },
            IR::IfNeq { val1, val2, goto_label } => IRView::IfNeq {
                val1: val1.model(),
                val2: val2.model(),
                goto_label: goto_label@,
            },
            IR::Error => IRView::Error,
            IR::Comment { comment } => IRView::Comment { comment: comment@ },
            IR::Block { stmts } => IRView::Block {
                stmts: Seq::new(
                    stmts@.len(),
                    |i: int|
                        if 0 <= i < stmts@.len() {
                            proof {
                                assert(decreases_to!(stmts => stmts@));
                                assert(decreases_to!(stmts@ => stmts@[i]));
                            }
                            stmts@[i].model()
                        } else {
                            IRView::Halt
                        },
                ),
            },
            IR::MarkTempVarStart => IRView::MarkTempVarStart,
            IR::MarkTempVarEnd => IRView::MarkTempVarEnd,
            IR::StoreTempVars { ti, stack_pos } => IRView::StoreTempVars { ti: ti@, stack_pos },
            IR::LoadTempVars { ti, stack_pos } => IRView::LoadTempVars { ti: ti@, stack_pos },
            IR::Call { label, args, stack_pos, ret_id } => IRView::Call {
                label: label@,
                args: var_views(args@),
                stack_pos,
                ret_id,
            },
            IR::Return { var } => IRView::Return {
                var: match var {
                    Some(v) => Some(v.model()),
                    None => None,
                },
            },
            IR::JumpCode { ret_ids, stackend } => IRView::JumpCode { ret_ids: ret_ids@, stackend },
            IR::InitialCode { bsp } => IRView::InitialCode { bsp },
        }
    }
}

impl DeepView for IR {
    type V = IRView;

    open spec fn deep_view(&self) -> IRView {
        self.model()
    }
}

/// The instructions of a piece of code as values.
pub open spec fn ir_views(code: Seq<IR>) -> Seq<IRView> {
    Seq::new(code.len(), |i: int| code[i].deep_view())
}

/// The value of a block is the block of the values of its statements.
pub proof fn lemma_block_view(stmts: Vec<IR>)
    ensures
        (IR::Block { stmts }).deep_view() == (IRView::Block { stmts: ir_views(stmts@) }),
{
    assert((IR::Block { stmts }).deep_view()->Block_stmts =~= ir_views(stmts@));
}

impl Clone for IR {
    fn clone(&self) -> (r: IR)
        ensures
            r.deep_view() == self.deep_view(),
        decreases self,
    {
        match self {
            IR::Assign { target, source } => IR::Assign { target: target.clone(), source: source.clone() },
            IR::Assign2Op { target, val1, op, val2 } => IR::Assign2Op {
                target: target.clone(),
                val1: val1.clone(),
                op: *op,
                val2: val2.clone(),
            },
            IR::Assign1Op { target, uop, source } => IR::Assign1Op {
                target: target.clone(),
                uop: *uop,
                source: source.clone(),
            },
            IR::GoTo { label } => IR::GoTo { label: label.clone() },
            IR::Label { label } => IR::Label { label: label.clone() },
            IR::Halt => IR::Halt,
            IR::Out { var } => IR::Out { var: var.clone() },
            IR::If { cond_var, goto_label } => IR::If {
                cond_var: cond_var.clone(),
                goto_label: goto_label.clone(),
            },
            IR::IfN { cond_var, goto_label } => IR::IfN {
                cond_var: cond_var.clone(),
                goto_label: goto_label.clone(),
            },
            IR::IfEq { val1, val2, goto_label } => IR::IfEq {
                val1: val1.clone(),
                val2: val2.clone(),
                goto_label: goto_label.clone(),
            },
            IR::IfNeq { val1, val2, goto_label } => IR::IfNeq {
                val1: val1.clone(),
                val2: val2.clone(),
                goto_label: goto_label.clone(),
            },
            IR::Error => IR::Error,
            IR::Comment { comment } => IR::Comment { comment: comment.clone() },
            IR::Block { stmts } => {
                let copy = clone_irs(stmts);
                proof {
                    lemma_block_view(copy);
                    lemma_block_view(*stmts);
                }
                IR::Block { stmts: copy }
            },
            IR::MarkTempVarStart => IR::MarkTempVarStart,
            IR::MarkTempVarEnd => IR::MarkTempVarEnd,
            IR::StoreTempVars { ti, stack_pos } => {
                let t = ti.clone();
                assert(t@ =~= ti@);
                IR::StoreTempVars { ti: t, stack_pos: *stack_pos }
            },
            IR::LoadTempVars { ti, stack_pos } => {
                let t = ti.clone();
                assert(t@ =~= ti@);
                IR::LoadTempVars { ti: t, stack_pos: *stack_pos }
            },
            IR::Call { label, args, stack_pos, ret_id } => IR::Call {
                label: label.clone(),
                args: clone_vars(args),
                stack_pos: *stack_pos,
                ret_id: *ret_id,
            },
            IR::Return { var } => IR::Return {
                var: match var {
                    Some(v) => Some(v.clone()),
                    None => None,
                },
            },
            IR::JumpCode { ret_ids, stackend } => {
                let t = ret_ids.clone();
                assert(t@ =~= ret_ids@);
                IR::JumpCode { ret_ids: t, stackend: *stackend }
            },
            IR::InitialCode { bsp } => IR::InitialCode { bsp: *bsp },
        }
    }
}

/// A copy of a piece of code.
pub fn clone_irs(code: &Vec<IR>) -> (r: Vec<IR>)
    ensures
        ir_views(r@) == ir_views(code@),
    decreases code,
{
    let mut out: Vec<IR> = Vec::new();
    let mut i: usize = 0;
    while i < code.len()
        invariant
            i <= code.len(),
            out.len() == i,
            forall|j: int| 0 <= j < i ==> out@[j].deep_view() == code@[j].deep_view(),
        decreases code.len() - i,
    {
        out.push(code[i].clone());
        i += 1;
    }
    assert(ir_views(out@) =~= ir_views(code@));
    out
}

/// The slot `varid` of R.
pub fn var(varid: u8) -> (r: IRVar)
    ensures
        r.deep_view() == slot(varid),
{
    IRVar::Var { varid }
}

/// The constant `value`.
pub fn num(value: u32) -> (r: IRVar)
    ensures
        r.deep_view() == number(value),
{
    IRVar::Number { value }
}

fn frame(offset: u32) -> (r: IRVar)
    ensures
        r.deep_view() == frame_cell(offset),
{
    let r = IRVar::Ht { stack_offset: offset, local: true, orig_name: String::new() };
    assert(r.deep_view()->Ht_orig_name =~= Seq::<char>::empty());
    r
}

fn base() -> (r: IRVar)
    ensures
        r.deep_view() == base_cell(),
{
    let r = IRVar::H { index_varid: 0, orig_name: String::new() };
    assert(r.deep_view()->H_orig_name =~= Seq::<char>::empty());
    r
}

fn label(name: &str) -> (r: IR)
    ensures
        r.deep_view() == (IRView::Label { label: name@ }),
{
    IR::Label { label: String::from_str(name) }
}

fn goto(name: &str) -> (r: IR)
    ensures
        r.deep_view() == (IRView::GoTo { label: name@ }),
{
    IR::GoTo { label: String::from_str(name) }
}

fn assign(target: IRVar, source: IRVar) -> (r: IR)
    ensures
        r.deep_view() == (IRView::Assign { target: target.deep_view(), source: source.deep_view() }),
{
    IR::Assign { target, source }
}

/// The label that follows the call with the return id `ret_id`.
pub fn return_label_text(ret_id: u32) -> (s: String)
    ensures
        s@ == return_label(ret_id),
{
    let mut s = String::from_str("return_id_");
    push_decimal(&mut s, ret_id as u64);
    s
}

fn return_stmts(v: &Option<IRVar>) -> (stmts: Vec<IR>)
    ensures
        ir_views(stmts@) == return_code(
            match v {
                Some(x) => Some(x.deep_view()),
                None => None,
            },
        ),
{
    let mut stmts: Vec<IR> = Vec::new();
    match v {
        None => {},
        Some(x) => {
            stmts.push(assign(var(1), x.clone()));
        },
    }
    stmts.push(assign(var(2), base()));
    stmts.push(IR::Assign2Op { target: var(0), val1: var(0), op: IROp::Sub, val2: num(1) });
    stmts.push(assign(var(0), base()));
    stmts.push(goto("find_label_ret_id"));
    assert(ir_views(stmts@) =~= return_code(
        match v {
            Some(x) => Some(x.deep_view()),
            None => None,
        },
    ));
    stmts
}

fn initial_stmts(bsp: u32) -> (stmts: Vec<IR>)
    ensures
        ir_views(stmts@) == initial_code(bsp),
{
    let ret = return_stmts(&Some(var(255)));
    proof {
        lemma_block_view(ret);
    }
    let stmts = vec![
        IR::Comment {
            comment: String::from_str(
                "t255 holds the inital value passed into the A register, first ZPAQL instruction must thus be r=a 255",
            ),
        },
        IR::IfN { cond_var: var(0), goto_label: String::from_str("init_code") },
        IR::If { cond_var: var(254), goto_label: String::from_str("cont_reading") },
        goto("call_next"),
        label("init_code"),
        assign(var(0), num(bsp)),
        assign(var(252), var(0)),
        goto("read_b_end~"),
        label("read_b"),
        IR::Assign2Op { target: var(1), val1: var(253), op: IROp::Eq, val2: num(4294967294) },
        IR::If { cond_var: var(1), goto_label: String::from_str("do_read_in") },
        assign(var(255), var(253)),
        assign(var(253), num(4294967294)),
        goto("cont_reading"),
        label("do_read_in"),
        assign(var(254), num(1)),
        IR::Halt,
        label("cont_reading"),
        assign(var(254), num(0)),
        IR::Block { stmts: ret },
        label("read_b_end~"),
    ];
    assert(ir_views(stmts@) =~= initial_code(bsp));
    stmts
}

fn jump_stmts(ret_ids: &Vec<u32>, stackend: u32) -> (stmts: Vec<IR>)
    requires
        stackend >= 200,
    ensures
        ir_views(stmts@) == jump_code(ret_ids@, stackend),
{
    let mut stmts = vec![
        IR::Halt,
        label("find_label_ret_id"),
        IR::Assign2Op { target: var(4), val1: var(0), op: IROp::Gt, val2: num(stackend - 200) },
        IR::If { cond_var: var(4), goto_label: String::from_str("throw_error") },
    ];
    let ghost head = ir_views(stmts@);
    let ghost tests = Seq::new(
        ret_ids@.len(),
        |i: int|
            IRView::IfEq {
                val1: slot(2),
                val2: number(ret_ids@[i]),
                goto_label: return_label(ret_ids@[i]),
            },
    );
    let mut i: usize = 0;
    assert(ir_views(stmts@) =~= head + tests.take(0));
    while i < ret_ids.len()
        invariant
            i <= ret_ids.len(),
            tests == Seq::new(
                ret_ids@.len(),
                |i: int|
                    IRView::IfEq {
                        val1: slot(2),
                        val2: number(ret_ids@[i]),
                        goto_label: return_label(ret_ids@[i]),
                    },
            ),
            ir_views(stmts@) == head + tests.take(i as int),
        decreases ret_ids.len() - i,
    {
        let ghost before = ir_views(stmts@);
        let id = ret_ids[i];
        let t = IR::IfEq { val1: var(2), val2: num(id), goto_label: return_label_text(id) };
        stmts.push(t);
        assert(ir_views(stmts@) =~= before.push(tests[i as int]));
        assert(tests.take(i + 1) =~= tests.take(i as int).push(tests[i as int]));
        assert(ir_views(stmts@) =~= head + tests.take(i + 1));
        i += 1;
    }
    assert(tests.take(ret_ids.len() as int) =~= tests);
    let ghost before = ir_views(stmts@);
    stmts.push(label("throw_error"));
    stmts.push(IR::Error);
    stmts.push(IR::Halt);
    assert(ir_views(stmts@) =~= before + seq![
        IRView::Label { label: "throw_error"@ },
        IRView::Error,
        IRView::Halt,
    ]);
    assert(head =~= seq![
        IRView::Halt,
        IRView::Label { label: "find_label_ret_id"@ },
        IRView::Assign2Op {
            target: slot(4),
            val1: slot(0),
            op: IROp::Gt,
            val2: number((stackend - 200) as u32),
        },
        IRView::If { cond_var: slot(4), goto_label: "throw_error"@ },
    ]);
    stmts
}

fn call_stmts(name: &String, args: &Vec<IRVar>, stack_pos: u32, ret_id: u32) -> (stmts: Vec<IR>)
    requires
        stack_pos + 2 + args.len() <= u32::MAX,
    ensures
        ir_views(stmts@) == call_code(name@, var_views(args@), stack_pos, ret_id),
{
    let mut stmts = vec![
        assign(frame(stack_pos + 1), var(0)),
        IR::Comment { comment: String::from_str("saved bsp, return id:") },
        assign(frame(stack_pos + 2), num(ret_id)),
        IR::Comment { comment: String::from_str("push arguments:") },
    ];
    let ghost head = ir_views(stmts@);
    let ghost pushes = Seq::new(
        args@.len(),
        |i: int|
            IRView::Assign {
                target: frame_cell((stack_pos + 3 + i) as u32),
                source: var_views(args@)[i],
            },
    );
    let mut i: usize = 0;
    assert(ir_views(stmts@) =~= head + pushes.take(0));
    while i < args.len()
        invariant
            i <= args.len(),
            stack_pos + 2 + args.len() <= u32::MAX,
            pushes == Seq::new(
                args@.len(),
                |i: int|
                    IRView::Assign {
                        target: frame_cell((stack_pos + 3 + i) as u32),
                        source: var_views(args@)[i],
                    },
            ),
            ir_views(stmts@) == head + pushes.take(i as int),
        decreases args.len() - i,
    {
        let ghost before = ir_views(stmts@);
        let t = assign(frame(stack_pos + 3 + i as u32), args[i].clone());
        stmts.push(t);
        assert(ir_views(stmts@) =~= before.push(pushes[i as int]));
        assert(pushes.take(i + 1) =~= pushes.take(i as int).push(pushes[i as int]));
        assert(ir_views(stmts@) =~= head + pushes.take(i + 1));
        i += 1;
    }
    assert(pushes.take(args.len() as int) =~= pushes);
    let ghost before = ir_views(stmts@);
    stmts.push(IR::Assign2Op { target: var(0), val1: var(0), op: IROp::Add, val2: num(stack_pos + 2) });
    stmts.push(IR::GoTo { label: name.clone() });
    stmts.push(IR::Label { label: return_label_text(ret_id) });
    assert(ir_views(stmts@) =~= before + seq![
        IRView::Assign2Op {
            target: slot(0),
            val1: slot(0),
            op: IROp::Add,
            val2: number((stack_pos + 2) as u32),
        },
        IRView::GoTo { label: name@ },
        IRView::Label { label: return_label(ret_id) },
    ]);
    assert(head =~= seq![
        IRView::Assign { target: frame_cell((stack_pos + 1) as u32), source: slot(0) },
        IRView::Comment { comment: "saved bsp, return id:"@ },
        IRView::Assign { target: frame_cell((stack_pos + 2) as u32), source: number(ret_id) },
        IRView::Comment { comment: "push arguments:"@ },
    ]);
    stmts
}

fn store_stmts(ti: &Vec<u8>, stack_pos: u32, store: bool) -> (stmts: Vec<IR>)
    requires
        stack_pos + ti.len() <= u32::MAX,
    ensures
        ir_views(stmts@) == if store {
            store_code(ti@, stack_pos)
        } else {
            load_code(ti@, stack_pos)
        },
{
    let mut stmts: Vec<IR> = Vec::new();
    let mut i: usize = 0;
    let ghost goal = if store {
        store_code(ti@, stack_pos)
    } else {
        load_code(ti@, stack_pos)
    };
    assert(ir_views(stmts@) =~= goal.take(0));
    while i < ti.len()
        invariant
            i <= ti.len(),
            stack_pos + ti.len() <= u32::MAX,
            goal == if store {
                store_code(ti@, stack_pos)
            } else {
                load_code(ti@, stack_pos)
            },
            ir_views(stmts@) == goal.take(i as int),
        decreases ti.len() - i,
    {
        let ghost before = ir_views(stmts@);
        let cell = frame(stack_pos + 1 + i as u32);
        let t = if store {
            assign(cell, var(ti[i]))
        } else {
            assign(var(ti[i]), cell)
        };
        stmts.push(t);
        assert(ir_views(stmts@) =~= before.push(goal[i as int]));
        assert(goal.take(i + 1) =~= goal.take(i as int).push(goal[i as int]));
        i += 1;
    }
    assert(goal.take(ti.len() as int) =~= goal);
    stmts
}

impl IR {
    /// Whether the instruction can be expanded within 32 bits.
    pub fn fits(&self) -> (b: bool)
        ensures
            b == self.deep_view().expandable(),
    {
        match self {
            IR::JumpCode { ret_ids, stackend } => *stackend >= 200,
            IR::Call { label, args, stack_pos, ret_id } => {
                args.len() <= 0xffff_ffff && *stack_pos as u64 + 2 + args.len() as u64 <= 0xffff_ffff
            },
            IR::StoreTempVars { ti, stack_pos } => {
                ti.len() <= 0xffff_ffff && *stack_pos as u64 + ti.len() as u64 <= 0xffff_ffff
            },
            IR::LoadTempVars { ti, stack_pos } => {
                ti.len() <= 0xffff_ffff && *stack_pos as u64 + ti.len() as u64 <= 0xffff_ffff
            },
            _ => true,
        }
    }

    /// Expands the instruction: the entry code, the jump code, a call, a
    /// return, and the saving and restoring of slots become a block of plain
    /// instructions. Every other instruction is returned as it is.
    pub fn convert(&self) -> (r: IR)
        requires
            self.deep_view().expandable(),
        ensures
            r.deep_view() == self.deep_view().convert(),
    {
        match self {
            IR::InitialCode { bsp } => {
                let stmts = initial_stmts(*bsp);
                proof {
                    lemma_block_view(stmts);
                }
                IR::Block { stmts }
            },
            IR::JumpCode { ret_ids, stackend } => {
                let stmts = jump_stmts(ret_ids, *stackend);
                proof {
                    lemma_block_view(stmts);
                }
                IR::Block { stmts }
            },
            IR::Return { var } => {
                let stmts = return_stmts(var);
                proof {
                    lemma_block_view(stmts);
                }
                IR::Block { stmts }
            },
            IR::Call { label, args, stack_pos, ret_id } => {
                let stmts = call_stmts(label, args, *stack_pos, *ret_id);
                proof {
                    lemma_block_view(stmts);
                }
                IR::Block { stmts }
            },
            IR::StoreTempVars { ti, stack_pos } => {
                let stmts = store_stmts(ti, *stack_pos, true);
                proof {
                    lemma_block_view(stmts);
                }
                IR::Block { stmts }
            },
            IR::LoadTempVars { ti, stack_pos } => {
                let stmts = store_stmts(ti, *stack_pos, false);
                proof {
                    lemma_block_view(stmts);
                }
                IR::Block { stmts }
            },
            _ => self.clone(),
        }
    }
}

fn push_var(s: &mut String, v: &IRVar)
    ensures
        final(s)@ == old(s)@ + v.deep_view().text(),
{
    let t = v.to_string();
    push_text(s, t.as_str());
}

/// The statements of a block as lines of a listing, each indented.
pub fn block_text(stmts: &Vec<IR>) -> (s: String)
    ensures
        s@ == join(block_lines(ir_views(stmts@)), "\n"@),
    decreases stmts,
{
    let ghost lines = block_lines(ir_views(stmts@));
    let mut s = String::new();
    let mut i: usize = 0;
    assert(lines.take(0) =~= Seq::<Seq<char>>::empty());
    assert(s@ =~= join(lines.take(0), "\n"@));
    while i < stmts.len()
        invariant
            i <= stmts.len(),
            lines == block_lines(ir_views(stmts@)),
            s@ == join(lines.take(i as int), "\n"@),
        decreases stmts.len() - i,
    {
        proof {
            lemma_join_step(lines, "\n"@, i as int);
        }
        if i > 0 {
            push_text(&mut s, "\n");
        }
        let mut line = String::from_str("  ");
        let t = stmts[i].to_string();
        push_text(&mut line, t.as_str());
        let ghost before = s@;
        push_indented(&mut s, line.as_str());
        assert(i == 0 ==> s@ =~= lines[0]);
        i += 1;
    }
    assert(lines.take(stmts.len() as int) =~= lines);
    s
}

fn args_text(args: &Vec<IRVar>) -> (s: String)
    ensures
        s@ == join(Seq::new(args@.len(), |i: int| var_views(args@)[i].text()), ", "@),
{
    let ghost parts = Seq::new(args@.len(), |i: int| var_views(args@)[i].text());
    let mut s = String::new();
    let mut i: usize = 0;
    assert(parts.take(0) =~= Seq::<Seq<char>>::empty());
    assert(s@ =~= join(parts.take(0), ", "@));
    while i < args.len()
        invariant
            i <= args.len(),
            parts == Seq::new(args@.len(), |i: int| var_views(args@)[i].text()),
            s@ == join(parts.take(i as int), ", "@),
        decreases args.len() - i,
    {
        proof {
            lemma_join_step(parts, ", "@, i as int);
        }
        if i > 0 {
            push_text(&mut s, ", ");
        }
        push_var(&mut s, &args[i]);
        assert(i == 0 ==> s@ =~= parts[0]);
        i += 1;
    }
    assert(parts.take(args.len() as int) =~= parts);
    s
}

impl IR {
    /// The instruction as it is written in a listing.
    pub fn to_string(&self) -> (s: String)
        ensures
            s@ == self.deep_view().text(),
        decreases self,
    {
        match self {
            IR::Assign { target, source } => {
                let mut s = String::from_str(" ");
                push_var(&mut s, target);
                push_text(&mut s, " = ");
                push_var(&mut s, source);
                s
            },
            IR::Assign2Op { target, val1, op, val2 } => {
                let mut s = String::from_str(" ");
                push_var(&mut s, target);
                push_text(&mut s, " = ");
                push_var(&mut s, val1);
                push_text(&mut s, " ");
                let o = op.to_string();
                push_text(&mut s, o.as_str());
                push_text(&mut s, " ");
                push_var(&mut s, val2);
                s
            },
            IR::Assign1Op { target, uop, source } => {
                let mut s = String::from_str(" ");
                push_var(&mut s, target);
                push_text(&mut s, " = ");
                let o = uop.to_string();
                push_text(&mut s, o.as_str());
                push_text(&mut s, " ");
                push_var(&mut s, source);
                s
            },
            IR::GoTo { label } => {
                let mut s = String::from_str(" goto ");
                push_text(&mut s, label.as_str());
                s
            },
            IR::Label { label } => {
                let mut s = String::from_str(":");
                push_text(&mut s, label.as_str());
                push_text(&mut s, ":");
                s
            },
            IR::Halt => String::from_str(" halt"),
            IR::Out { var } => {
                let mut s = String::from_str(" out ");
                push_var(&mut s, var);
                s
            },
            IR::If { cond_var, goto_label } => {
                let mut s = String::from_str(" if ");
                push_var(&mut s, cond_var);
                push_text(&mut s, " goto ");
                push_text(&mut s, goto_label.as_str());
                s
            },
            IR::IfN { cond_var, goto_label } => {
                let mut s = String::from_str(" ifN ");
                push_var(&mut s, cond_var);
                push_text(&mut s, " goto ");
                push_text(&mut s, goto_label.as_str());
                s
            },
            IR::IfEq { val1, val2, goto_label } => {
                let mut s = String::from_str(" ifEq ");
                push_var(&mut s, val1);
                push_text(&mut s, " ");
                push_var(&mut s, val2);
                push_text(&mut s, " goto ");
                push_text(&mut s, goto_label.as_str());
                s
            },
            IR::IfNeq { val1, val2, goto_label } => {
                let mut s = String::from_str(" ifNeq ");
                push_var(&mut s, val1);
                push_text(&mut s, " ");
                push_var(&mut s, val2);
                push_text(&mut s, " goto ");
                push_text(&mut s, goto_label.as_str());
                s
            },
            IR::Error => String::from_str(" error"),
            IR::Block { stmts } => {
                let mut s = String::from_str(" ");
                let t = block_text(stmts);
                push_text(&mut s, t.as_str());
                proof {
                    lemma_block_view(*stmts);
                }
                s
            },
            IR::Comment { comment } => {
                let mut s = String::from_str(" # ");
                push_text(&mut s, comment.as_str());
                s
            },
            IR::InitialCode { bsp } => {
                let mut s = String::from_str(" InitialCode (bsp: ");
                push_decimal(&mut s, *bsp as u64);
                push_text(&mut s, ")");
                s
            },
            IR::MarkTempVarStart => String::from_str(" MarkTempVarStart"),
            IR::MarkTempVarEnd => String::from_str(" MarkTempVarEnd"),
            IR::StoreTempVars { ti, stack_pos } => {
                let mut s = String::from_str(" StoreTempVars(t");
                push_u8_list(&mut s, ti);
                push_text(&mut s, ", stack_pos: ");
                push_decimal(&mut s, *stack_pos as u64);
                push_text(&mut s, ")");
                s
            },
            IR::LoadTempVars { ti, stack_pos } => {
                let mut s = String::from_str(" LoadTempVars(t");
                push_u8_list(&mut s, ti);
                push_text(&mut s, ", stack_pos: ");
                push_decimal(&mut s, *stack_pos as u64);
                push_text(&mut s, ")");
                s
            },
            IR::JumpCode { ret_ids, stackend } => {
                let mut s = String::from_str(" JumpCode(ret_ids: ");
                push_u32_list(&mut s, ret_ids);
                push_text(&mut s, ", stackend: ");
                push_decimal(&mut s, *stackend as u64);
                push_text(&mut s, ")");
                s
            },
            IR::Call { label, args, stack_pos, ret_id } => {
                let mut s = String::from_str(" t1 = ");
                push_text(&mut s, label.as_str());
                push_text(&mut s, "(");
                let a = args_text(args);
                push_text(&mut s, a.as_str());
                push_text(&mut s, ") # stack_pos: ");
                push_decimal(&mut s, *stack_pos as u64);
                push_text(&mut s, " return id: ");
                push_decimal(&mut s, *ret_id as u64);
                s
            },
            IR::Return { var } => {
                let mut s = String::from_str(" return ");
                match var {
                    Some(v) => {
                        push_var(&mut s, v);
                    },
                    None => {
                        assert(s@ =~= " return "@ + Seq::<char>::empty());
                    },
                }
                s
            },
        }
    }
}

/// The expansion of a call ends with the label of its return id, and holds
/// no other label.
pub proof fn lemma_call_label(label: Seq<char>, args: Seq<IRVarView>, stack_pos: u32, ret_id: u32, i: int)
    requires
        0 <= i < call_code(label, args, stack_pos, ret_id).len(),
    ensures
        call_code(label, args, stack_pos, ret_id).last() == (IRView::Label { label: return_label(ret_id) }),
        call_code(label, args, stack_pos, ret_id)[i] is Label ==> i == call_code(
            label,
            args,
            stack_pos,
            ret_id,
        ).len() - 1,
{
}

/// Calls with different return ids return to different labels.
pub proof fn lemma_return_labels_differ(a: u32, b: u32)
    requires
        a != b,
    ensures
        return_label(a) != return_label(b),
{
    let p = "return_id_"@;
    if return_label(a) == return_label(b) {
        assert((p + decimal(a as nat)).skip(p.len() as int) =~= decimal(a as nat));
        assert((p + decimal(b as nat)).skip(p.len() as int) =~= decimal(b as nat));
        crate::text::lemma_decimal_injective(a as nat, b as nat);
    }
}

} // verus!
