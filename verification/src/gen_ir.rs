//! The code generator for expressions.

use vstd::prelude::*;
use vstd::string::*;
use crate::ast::{
    expr_views, stmt_views, BoolOp, CmpOp, Expr, ExprContext, ExprView, Operator, Slice, SliceView, Stmt,
    StmtView, UnaryOp,
};
use crate::error::CompileError;
use crate::ir::{clone_vars, ir_views, lemma_block_view, var_views, IROp, IRUOp, IRVar, IRVarView, IRView, IR};
use crate::options::Options;
use crate::symbols::{label_text, SymbolTable, TableView};
use crate::text::{decimal, push_decimal, push_text, text_is};
use crate::zpaqcfg::{power_of_two, two_to, ZPAQCfgFile};

pub use crate::sections::{build_ir, gen_code, read_context_model, xcomp_ir_string};
pub use crate::statements::traverse;

verus! {

/// Code under way: the instructions so far, and the symbol table.
pub struct Draft {
    pub code: Seq<IRView>,
    pub st: TableView,
}

/// The operator of the intermediate code for an operator of the source.
/// There is none for `@`.
pub open spec fn binary_op(op: Operator) -> Option<IROp> {
    match op {
        Operator::Add => Some(IROp::Add),
        Operator::Sub => Some(IROp::Sub),
        Operator::Mult => Some(IROp::Mult),
        Operator::MatMult => None,
        Operator::Div | Operator::FloorDiv => Some(IROp::Div),
        Operator::Mod => Some(IROp::Mod),
        Operator::Pow => Some(IROp::Pow),
        Operator::LShift => Some(IROp::LShift),
        Operator::RShift => Some(IROp::RShift),
        Operator::BitOr => Some(IROp::BitOr),
        Operator::BitXor => Some(IROp::BitXor),
        Operator::BitAnd => Some(IROp::BitAnd),
    }
}

/// The operator of the intermediate code for a comparison. There is none
/// for `in` and `not in`.
pub open spec fn comparison_op(op: CmpOp) -> Option<IROp> {
    match op {
        CmpOp::Eq | CmpOp::Is => Some(IROp::Eq),
        CmpOp::NotEq | CmpOp::IsNot => Some(IROp::NotEq),
        CmpOp::Lt => Some(IROp::Lt),
        CmpOp::LtE => Some(IROp::LtE),
        CmpOp::Gt => Some(IROp::Gt),
        CmpOp::GtE => Some(IROp::GtE),
        CmpOp::In | CmpOp::NotIn => None,
    }
}

/// The slot `varid` of R.
pub open spec fn slot(varid: u8) -> IRVarView {
    IRVarView::Var { varid }
}

/// The constant `value`.
pub open spec fn number(value: u32) -> IRVarView {
    IRVarView::Number { value }
}

/// The cell of H that a slot points to.
pub open spec fn h_at(varid: u8) -> IRVarView {
    IRVarView::H { index_varid: varid, orig_name: Seq::empty() }
}

/// The byte of M that a slot points to.
pub open spec fn m_at(varid: u8) -> IRVarView {
    IRVarView::M { index_varid: varid }
}

/// `target = val1 op val2`
pub open spec fn op2(target: IRVarView, val1: IRVarView, op: IROp, val2: IRVarView) -> IRView {
    IRView::Assign2Op { target, val1, op, val2 }
}

/// `target = source`
pub open spec fn copy(target: IRVarView, source: IRVarView) -> IRView {
    IRView::Assign { target, source }
}

/// The mask that takes the mark of M off a pointer: 2^31 - 1.
pub open spec fn pointer_mask() -> IRVarView {
    number(2147483647)
}

/// What is done to an element of an array.
pub enum Access {
    /// The element is read into the temporary that held its address.
    Load,
    /// A value is stored in the element.
    Store { value: IRVarView },
    /// The element is combined with a value.
    Update { op: IROp, value: IRVarView },
}

/// The instruction that accesses a cell through the temporary `t`.
pub open spec fn access_code(access: Access, cell: IRVarView, t: u8) -> IRView {
    match access {
        Access::Load => copy(slot(t), cell),
        Access::Store { value } => copy(cell, value),
        Access::Update { op, value } => op2(cell, cell, op, value),
    }
}

/// The access to an element of an array in H: the address goes to the
/// temporary.
pub open spec fn h_element_code(addr: IRVarView, ind: IRVarView, t: u8, access: Access) -> Seq<IRView> {
    seq![op2(slot(t), addr, IROp::Add, ind), access_code(access, h_at(t), t)]
}

/// The access to an element of an array in M: the mark is taken off the
/// pointer first.
pub open spec fn m_element_code(addr: IRVarView, ind: IRVarView, t: u8, access: Access) -> Seq<IRView> {
    seq![
        op2(slot(t), addr, IROp::BitAnd, pointer_mask()),
        op2(slot(t), slot(t), IROp::Add, ind),
        access_code(access, m_at(t), t),
    ]
}

/// The access to an element of an array of which it is not known where it
/// lies: the highest bit of the pointer decides at run time.
pub open spec fn either_element_code(
    addr: IRVarView,
    ind: IRVarView,
    t: u8,
    access: Access,
    m_label: Seq<char>,
    done_label: Seq<char>,
) -> Seq<IRView> {
    seq![
        op2(slot(t), addr, IROp::RShift, number(31)),
        IRView::If { cond_var: slot(t), goto_label: m_label },
    ] + h_element_code(addr, ind, t, access) + seq![
        IRView::GoTo { label: done_label },
        IRView::Label { label: m_label },
    ] + m_element_code(addr, ind, t, access) + seq![IRView::Label { label: done_label }]
}

impl Draft {
    /// The draft with one more instruction.
    pub open spec fn emit(self, ir: IRView) -> Draft {
        Draft { code: self.code.push(ir), st: self.st }
    }

    /// The draft with more instructions.
    pub open spec fn emit_all(self, code: Seq<IRView>) -> Draft {
        Draft { code: self.code + code, st: self.st }
    }

    /// The draft after the line of a location was noted: where comments
    /// are on, the line is a comment.
    pub open spec fn note(self, location: Seq<char>, comments: bool) -> Draft {
        let (text, st) = self.st.line_comment(location);
        Draft {
            code: match text {
                Some(t) => if comments {
                    self.code.push(IRView::Comment { comment: t })
                } else {
                    self.code
                },
                None => self.code,
            },
            st,
        }
    }

    /// The draft with a comment, where comments are on.
    pub open spec fn remark(self, text: Seq<char>, comments: bool) -> Draft {
        if comments {
            self.emit(IRView::Comment { comment: text })
        } else {
            self
        }
    }

    /// The draft with a new temporary in use.
    pub open spec fn temp(self) -> Result<(Draft, u8), CompileError> {
        match crate::symbols::first_free(self.st.live_ids, 1) {
            Some(v) => Ok((Draft { st: TableView { live_ids: self.st.live_ids.push(v), ..self.st }, ..self }, v)),
            None => Err(CompileError::OutOfTemporaries),
        }
    }

    /// The draft after the slot of an operand was released.
    pub open spec fn free(self, v: IRVarView) -> Draft {
        Draft { st: self.st.freed(v), ..self }
    }

    /// The draft with a new label given out.
    pub open spec fn label(self, name: Seq<char>) -> Result<(Draft, Seq<char>), CompileError> {
        if self.st.label_id == u32::MAX {
            Err(CompileError::LimitExceeded)
        } else {
            Ok(
                (
                    Draft { st: TableView { label_id: (self.st.label_id + 1) as u32, ..self.st }, ..self },
                    label_text(name, (self.st.label_id + 1) as u32),
                ),
            )
        }
    }

    /// The draft with a new return id given out.
    pub open spec fn return_id(self) -> Result<(Draft, u32), CompileError> {
        if self.st.return_id == u32::MAX {
            Err(CompileError::LimitExceeded)
        } else {
            Ok(
                (
                    Draft { st: TableView { return_id: (self.st.return_id + 1) as u32, ..self.st }, ..self },
                    self.st.return_id,
                ),
            )
        }
    }

    /// The draft with a new cell of the frame in use.
    pub open spec fn stack_var(self) -> Result<(Draft, u32), CompileError> {
        if self.st.stack_pos == u32::MAX {
            Err(CompileError::LimitExceeded)
        } else {
            Ok(
                (
                    Draft { st: TableView { stack_pos: (self.st.stack_pos + 1) as u32, ..self.st }, ..self },
                    (self.st.stack_pos + 1) as u32,
                ),
            )
        }
    }

    /// The draft with a name bound.
    pub open spec fn bind(self, name: Seq<char>, v: IRVarView) -> Draft {
        Draft { st: TableView { symbols: self.st.symbols.insert(name, v), ..self.st }, ..self }
    }

    /// The slot that indexes an array: the index itself where it is a
    /// slot, else a temporary that it is copied to. The slot of the index
    /// is released where that is asked for.
    pub open spec fn index_slot(self, ind: IRVarView, release: bool) -> Result<(Draft, u8), CompileError> {
        match ind.tovar() {
            IRVarView::Var { varid } => Ok((self, varid)),
            _ => match self.temp() {
                Err(e) => Err(e),
                Ok((d, i)) => {
                    let copied = d.emit(copy(slot(i), ind));
                    Ok(
                        (
                            if release {
                                copied.free(ind)
                            } else {
                                copied
                            },
                            i,
                        ),
                    )
                },
            },
        }
    }

    /// The access to the element `ind` of the array at `addr`, through the
    /// temporary `t`: directly in H or M where the pointer is marked, else
    /// with a test at run time, whose labels end with `suffix`.
    pub open spec fn element(self, addr: IRVarView, ind: IRVarView, t: u8, access: Access, suffix: Seq<char>) -> Result<
        Draft,
        CompileError,
    > {
        match addr {
            IRVarView::VH(_) => Ok(self.emit_all(h_element_code(addr, ind, t, access))),
            IRVarView::VM(_) => Ok(self.emit_all(m_element_code(addr, ind, t, access))),
            _ => match self.label("isM"@ + suffix) {
                Err(e) => Err(e),
                Ok((d, m_label)) => match d.label("MorHdone"@ + suffix) {
                    Err(e) => Err(e),
                    Ok((d2, done_label)) => Ok(
                        d2.emit_all(either_element_code(addr, ind, t, access, m_label, done_label)),
                    ),
                },
            },
        }
    }

    /// A call: the temporaries `saved` go to the frame, the function is
    /// called with a new return id, its result is copied from slot 1 to
    /// `result`, and the temporaries come back.
    pub open spec fn call(self, func: Seq<char>, args: Seq<IRVarView>, saved: Seq<u8>, result: IRVarView) -> Result<
        Draft,
        CompileError,
    > {
        let stored = self.emit(IRView::StoreTempVars { ti: saved, stack_pos: self.st.stack_pos });
        if self.st.stack_pos + saved.len() > u32::MAX {
            Err(CompileError::LimitExceeded)
        } else {
            match stored.return_id() {
                Err(e) => Err(e),
                Ok((d, ret_id)) => Ok(
                    d.emit(
                        IRView::Call {
                            label: func,
                            args,
                            stack_pos: (self.st.stack_pos + saved.len()) as u32,
                            ret_id,
                        },
                    ).emit(copy(result, slot(1))).emit(
                        IRView::LoadTempVars { ti: saved, stack_pos: self.st.stack_pos },
                    ),
                ),
            }
        }
    }
}

/// The draft of a piece of code and a symbol table.
pub open spec fn draft(irc: Vec<IR>, st: SymbolTable) -> Draft {
    Draft { code: ir_views(irc@), st: st.deep_view() }
}

pub(crate) fn operator_of(op: Operator) -> (r: Option<IROp>)
    ensures
        r == binary_op(op),
{
    match op {
        Operator::Add => Some(IROp::Add),
        Operator::Sub => Some(IROp::Sub),
        Operator::Mult => Some(IROp::Mult),
        Operator::MatMult => None,
        Operator::Div | Operator::FloorDiv => Some(IROp::Div),
        Operator::Mod => Some(IROp::Mod),
        Operator::Pow => Some(IROp::Pow),
        Operator::LShift => Some(IROp::LShift),
        Operator::RShift => Some(IROp::RShift),
        Operator::BitOr => Some(IROp::BitOr),
        Operator::BitXor => Some(IROp::BitXor),
        Operator::BitAnd => Some(IROp::BitAnd),
    }
}

fn comparison_of(op: CmpOp) -> (r: Option<IROp>)
    ensures
        r == comparison_op(op),
{
    match op {
        CmpOp::Eq | CmpOp::Is => Some(IROp::Eq),
        CmpOp::NotEq | CmpOp::IsNot => Some(IROp::NotEq),
        CmpOp::Lt => Some(IROp::Lt),
        CmpOp::LtE => Some(IROp::LtE),
        CmpOp::Gt => Some(IROp::Gt),
        CmpOp::GtE => Some(IROp::GtE),
        CmpOp::In | CmpOp::NotIn => None,
    }
}

pub(crate) fn var(varid: u8) -> (v: IRVar)
    ensures
        v.deep_view() == slot(varid),
{
    IRVar::Var { varid }
}

pub(crate) fn num(value: u32) -> (v: IRVar)
    ensures
        v.deep_view() == number(value),
{
    IRVar::Number { value }
}

pub(crate) fn h_cell(varid: u8) -> (v: IRVar)
    ensures
        v.deep_view() == h_at(varid),
{
    let v = IRVar::H { index_varid: varid, orig_name: String::new() };
    assert(v.deep_view()->H_orig_name =~= Seq::<char>::empty());
    v
}

pub(crate) fn m_cell(varid: u8) -> (v: IRVar)
    ensures
        v.deep_view() == m_at(varid),
{
    IRVar::M { index_varid: varid }
}

pub(crate) fn emit(irc: &mut Vec<IR>, ir: IR, Ghost(st): Ghost<TableView>)
    ensures
        (Draft { code: ir_views(final(irc)@), st }) == (Draft { code: ir_views(old(irc)@), st }).emit(
            ir.deep_view(),
        ),
{
    irc.push(ir);
    assert(ir_views(irc@) =~= ir_views(old(irc)@).push(ir.deep_view()));
}

pub(crate) fn emit_all(irc: &mut Vec<IR>, more: Vec<IR>, Ghost(st): Ghost<TableView>)
    ensures
        (Draft { code: ir_views(final(irc)@), st }) == (Draft { code: ir_views(old(irc)@), st }).emit_all(
            ir_views(more@),
        ),
{
    let ghost added = more@;
    let mut rest = more;
    irc.append(&mut rest);
    assert(ir_views(irc@) =~= ir_views(old(irc)@) + ir_views(added));
}

pub(crate) fn assign2(target: IRVar, val1: IRVar, op: IROp, val2: IRVar) -> (ir: IR)
    ensures
        ir.deep_view() == op2(target.deep_view(), val1.deep_view(), op, val2.deep_view()),
{
    IR::Assign2Op { target, val1, op, val2 }
}

pub(crate) fn assign(target: IRVar, source: IRVar) -> (ir: IR)
    ensures
        ir.deep_view() == copy(target.deep_view(), source.deep_view()),
{
    IR::Assign { target, source }
}

pub(crate) fn note(irc: &mut Vec<IR>, st: &mut SymbolTable, location: String, optioncfg: &Options)
    ensures
        draft(*final(irc), *final(st)) == draft(*old(irc), *old(st)).note(location@, optioncfg.comments),
{
    match st.source_line(location) {
        Some(line) => {
            if optioncfg.comments {
                emit(irc, IR::Comment { comment: line }, Ghost(st.deep_view()));
            }
        },
        None => {},
    }
}

pub(crate) fn remark(irc: &mut Vec<IR>, text: String, optioncfg: &Options, Ghost(st): Ghost<TableView>)
    ensures
        (Draft { code: ir_views(final(irc)@), st }) == (Draft { code: ir_views(old(irc)@), st }).remark(
            text@,
            optioncfg.comments,
        ),
{
    if optioncfg.comments {
        emit(irc, IR::Comment { comment: text }, Ghost(st));
    }
}

pub(crate) fn temp(st: &mut SymbolTable, Ghost(code): Ghost<Seq<IRView>>) -> (r: Result<u8, CompileError>)
    ensures
        match r {
            Ok(v) => (Draft { code, st: old(st).deep_view() }).temp() == Ok::<(Draft, u8), CompileError>(
                (Draft { code, st: final(st).deep_view() }, v),
            ),
            Err(e) => (Draft { code, st: old(st).deep_view() }).temp() == Err::<(Draft, u8), CompileError>(e),
        },
{
    st.make_temp_var()
}

pub(crate) fn new_label(st: &mut SymbolTable, name: &str, Ghost(code): Ghost<Seq<IRView>>) -> (r: Result<
    String,
    CompileError,
>)
    ensures
        match r {
            Ok(l) => (Draft { code, st: old(st).deep_view() }).label(name@) == Ok::<
                (Draft, Seq<char>),
                CompileError,
            >((Draft { code, st: final(st).deep_view() }, l@)),
            Err(e) => (Draft { code, st: old(st).deep_view() }).label(name@) == Err::<
                (Draft, Seq<char>),
                CompileError,
            >(e),
        },
{
    st.get_new_label(name)
}

fn access_ir(access: &ElementAccess, cell: IRVar, t: u8) -> (ir: IR)
    ensures
        ir.deep_view() == access_code(access.deep_view(), cell.deep_view(), t),
{
    match access {
        ElementAccess::Load => assign(var(t), cell),
        ElementAccess::Store { value } => assign(cell, value.clone()),
        ElementAccess::Update { op, value } => {
            let again = cell.clone();
            assign2(cell, again, *op, value.clone())
        },
    }
}

/// What is done to an element of an array.
pub enum ElementAccess {
    Load,
    Store { value: IRVar },
    Update { op: IROp, value: IRVar },
}

impl DeepView for ElementAccess {
    type V = Access;

    open spec fn deep_view(&self) -> Access {
        match self {
            ElementAccess::Load => Access::Load,
            ElementAccess::Store { value } => Access::Store { value: value.deep_view() },
            ElementAccess::Update { op, value } => Access::Update { op: *op, value: value.deep_view() },
        }
    }
}

pub(crate) fn h_element(addr: &IRVar, ind: &IRVar, t: u8, access: &ElementAccess) -> (code: Vec<IR>)
    ensures
        ir_views(code@) == h_element_code(addr.deep_view(), ind.deep_view(), t, access.deep_view()),
{
    let code = vec![assign2(var(t), addr.clone(), IROp::Add, ind.clone()), access_ir(access, h_cell(t), t)];
    assert(ir_views(code@) =~= h_element_code(addr.deep_view(), ind.deep_view(), t, access.deep_view()));
    code
}

pub(crate) fn m_element(addr: &IRVar, ind: &IRVar, t: u8, access: &ElementAccess) -> (code: Vec<IR>)
    ensures
        ir_views(code@) == m_element_code(addr.deep_view(), ind.deep_view(), t, access.deep_view()),
{
    let code = vec![
        assign2(var(t), addr.clone(), IROp::BitAnd, num(2147483647)),
        assign2(var(t), var(t), IROp::Add, ind.clone()),
        access_ir(access, m_cell(t), t),
    ];
    assert(ir_views(code@) =~= m_element_code(addr.deep_view(), ind.deep_view(), t, access.deep_view()));
    code
}

pub(crate) fn either_element(addr: &IRVar, ind: &IRVar, t: u8, access: &ElementAccess, m_label: String, done_label: String) -> (code:
    Vec<IR>)
    ensures
        ir_views(code@) == either_element_code(
            addr.deep_view(),
            ind.deep_view(),
            t,
            access.deep_view(),
            m_label@,
            done_label@,
        ),
{
    let mut code = vec![
        assign2(var(t), addr.clone(), IROp::RShift, num(31)),
        IR::If { cond_var: var(t), goto_label: m_label.clone() },
    ];
    let ghost c0 = ir_views(code@);
    assert(c0 =~= seq![
        op2(slot(t), addr.deep_view(), IROp::RShift, number(31)),
        IRView::If { cond_var: slot(t), goto_label: m_label@ },
    ]);
    let ghost st = SymbolTable::new_view();
    emit_all(&mut code, h_element(addr, ind, t, access), Ghost(st));
    emit(&mut code, IR::GoTo { label: done_label.clone() }, Ghost(st));
    emit(&mut code, IR::Label { label: m_label }, Ghost(st));
    emit_all(&mut code, m_element(addr, ind, t, access), Ghost(st));
    emit(&mut code, IR::Label { label: done_label }, Ghost(st));
    assert(ir_views(code@) =~= either_element_code(
        addr.deep_view(),
        ind.deep_view(),
        t,
        access.deep_view(),
        m_label@,
        done_label@,
    ));
    code
}

fn element(
    irc: &mut Vec<IR>,
    st: &mut SymbolTable,
    addr: &IRVar,
    ind: &IRVar,
    t: u8,
    access: &ElementAccess,
    suffix: &str,
) -> (r: Result<(), CompileError>)
    ensures
        match r {
            Ok(_) => draft(*old(irc), *old(st)).element(
                addr.deep_view(),
                ind.deep_view(),
                t,
                access.deep_view(),
                suffix@,
            ) == Ok::<Draft, CompileError>(draft(*final(irc), *final(st))),
            Err(e) => draft(*old(irc), *old(st)).element(
                addr.deep_view(),
                ind.deep_view(),
                t,
                access.deep_view(),
                suffix@,
            ) == Err::<Draft, CompileError>(e),
        },
{
    match addr {
        IRVar::VH(_) => {
            emit_all(irc, h_element(addr, ind, t, access), Ghost(st.deep_view()));
            Ok(())
        },
        IRVar::VM(_) => {
            emit_all(irc, m_element(addr, ind, t, access), Ghost(st.deep_view()));
            Ok(())
        },
        _ => {
            let mut m_name = String::from_str("isM");
            push_text(&mut m_name, suffix);
            let mut done_name = String::from_str("MorHdone");
            push_text(&mut done_name, suffix);
            let m_label = new_label(st, m_name.as_str(), Ghost(ir_views(irc@)))?;
            let done_label = new_label(st, done_name.as_str(), Ghost(ir_views(irc@)))?;
            emit_all(irc, either_element(addr, ind, t, access, m_label, done_label), Ghost(st.deep_view()));
            Ok(())
        },
    }
}

pub(crate) fn index_slot(irc: &mut Vec<IR>, st: &mut SymbolTable, ind: &IRVar, release: bool) -> (r: Result<u8, CompileError>)
    ensures
        match r {
            Ok(i) => draft(*old(irc), *old(st)).index_slot(ind.deep_view(), release) == Ok::<
                (Draft, u8),
                CompileError,
            >((draft(*final(irc), *final(st)), i)),
            Err(e) => draft(*old(irc), *old(st)).index_slot(ind.deep_view(), release) == Err::<
                (Draft, u8),
                CompileError,
            >(e),
        },
{
    match ind.tovar() {
        IRVar::Var { varid } => Ok(varid),
        _ => {
            let i = temp(st, Ghost(ir_views(irc@)))?;
            emit(irc, assign(var(i), ind.clone()), Ghost(st.deep_view()));
            if release {
                st.try_freeing_varid(ind);
            }
            Ok(i)
        },
    }
}

fn call(
    irc: &mut Vec<IR>,
    st: &mut SymbolTable,
    func: String,
    args: Vec<IRVar>,
    saved: &Vec<u8>,
    result: IRVar,
) -> (r: Result<(), CompileError>)
    ensures
        match r {
            Ok(_) => draft(*old(irc), *old(st)).call(func@, var_views(args@), saved@, result.deep_view()) == Ok::<
                Draft,
                CompileError,
            >(draft(*final(irc), *final(st))),
            Err(e) => draft(*old(irc), *old(st)).call(func@, var_views(args@), saved@, result.deep_view())
                == Err::<Draft, CompileError>(e),
        },
{
    let stack_pos = st.stack_pos;
    let store = saved.clone();
    assert(store@ =~= saved@);
    emit(irc, IR::StoreTempVars { ti: store, stack_pos }, Ghost(st.deep_view()));
    if saved.len() > 0xffff_ffff || stack_pos as u64 + saved.len() as u64 > 0xffff_ffff {
        return Err(CompileError::LimitExceeded);
    }
    let call_pos: u32 = stack_pos + saved.len() as u32;
    let ret_id = st.make_new_return_id()?;
    emit(irc, IR::Call { label: func, args, stack_pos: call_pos, ret_id }, Ghost(st.deep_view()));
    emit(irc, assign(result, var(1)), Ghost(st.deep_view()));
    let load = saved.clone();
    assert(load@ =~= saved@);
    emit(irc, IR::LoadTempVars { ti: load, stack_pos }, Ghost(st.deep_view()));
    Ok(())
}

/// An expression compiled: the draft with its code, and the operand that
/// holds its value.
pub type Evaluated = Result<(Draft, IRVarView), CompileError>;

/// The length of an array of the configuration, which is a power of two
/// below 2^32.
pub open spec fn array_len(log: u8) -> Result<IRVarView, CompileError> {
    if log >= 32 {
        Err(CompileError::OversizeArray)
    } else {
        Ok(number(two_to(log as nat) as u32))
    }
}

/// The code for `and` and `or`: a temporary takes one of the two values.
pub open spec fn bool_op_code(e: ExprView, d: Draft, opts: Options) -> Evaluated
    decreases e, 0int,
{
    match e {
        ExprView::BoolOpE { op, values, .. } => if values.len() != 2 {
            Err(CompileError::MalformedBoolOp)
        } else {
            match d.temp() {
                Err(e) => Err(e),
                Ok((d1, res)) => {
                    proof {
                        assert(decreases_to!(values => values[0]));
                        assert(decreases_to!(values => values[1]));
                    }
                    match evaluated(values[0], d1, opts) {
                        Err(e) => Err(e),
                        Ok((d2, e1)) => match evaluated(values[1], d2, opts) {
                            Err(e) => Err(e),
                            Ok((d3, e2)) => Ok(
                                (
                                    d3.free(e1).free(e2).emit(
                                        op2(
                                            slot(res),
                                            e1,
                                            match op {
                                                BoolOp::And => IROp::And,
                                                BoolOp::Or => IROp::Or,
                                            },
                                            e2,
                                        ),
                                    ),
                                    slot(res),
                                ),
                            ),
                        },
                    }
                },
            }
        },
        _ => Err(CompileError::MalformedBoolOp),
    }
}

/// The instruction for an operator with one operand. `+` is a copy.
pub open spec fn unary_ir(op: UnaryOp, target: IRVarView, source: IRVarView) -> IRView {
    match op {
        UnaryOp::Not => IRView::Assign1Op { target, uop: IRUOp::Not, source },
        UnaryOp::Invert => IRView::Assign1Op { target, uop: IRUOp::Invert, source },
        UnaryOp::USub => IRView::Assign1Op { target, uop: IRUOp::USub, source },
        UnaryOp::UAdd => copy(target, source),
    }
}

/// The code for an operator with one operand.
pub open spec fn unary_code(e: ExprView, d: Draft, opts: Options) -> Evaluated
    decreases e, 0int,
{
    match e {
        ExprView::UnaryOpE { op, operand, .. } => match d.temp() {
            Err(e) => Err(e),
            Ok((d1, res)) => match evaluated(*operand, d1, opts) {
                Err(e) => Err(e),
                Ok((d2, val)) => Ok((d2.free(val).emit(unary_ir(op, slot(res), val)), slot(res))),
            },
        },
        _ => Err(CompileError::UnsupportedOperator),
    }
}

/// The code for an operator with two operands.
pub open spec fn binary_code(e: ExprView, d: Draft, opts: Options) -> Evaluated
    decreases e, 0int,
{
    match e {
        ExprView::BinOp { left, op, right, .. } => match d.temp() {
            Err(e) => Err(e),
            Ok((d1, res)) => match evaluated(*left, d1, opts) {
                Err(e) => Err(e),
                Ok((d2, e1)) => match evaluated(*right, d2, opts) {
                    Err(e) => Err(e),
                    Ok((d3, e2)) => match binary_op(op) {
                        None => Err(CompileError::UnsupportedOperator),
                        Some(o) => Ok((d3.emit(op2(slot(res), e1, o, e2)).free(e1).free(e2), slot(res))),
                    },
                },
            },
        },
        _ => Err(CompileError::UnsupportedOperator),
    }
}

/// The links of a chain of comparisons from the `n`-th on: each compares
/// the operand before it with its own, and where the chain has more than
/// one link a failed comparison jumps to the end.
pub open spec fn links_code(
    ops: Seq<CmpOp>,
    comparators: Seq<ExprView>,
    n: int,
    res: u8,
    last: IRVarView,
    end_label: Seq<char>,
    d: Draft,
    opts: Options,
) -> Evaluated
    decreases comparators, ops.len() - n,
{
    if n < 0 || n >= ops.len() || n >= comparators.len() {
        Ok((d, last))
    } else {
        proof {
            assert(decreases_to!(comparators => comparators[n]));
        }
        match evaluated(comparators[n], d, opts) {
            Err(e) => Err(e),
            Ok((d1, cur)) => match comparison_op(ops[n]) {
                None => Err(CompileError::UnsupportedComparison),
                Some(o) => {
                    let d2 = d1.free(last).emit(op2(slot(res), last, o, cur));
                    let d3 = if ops.len() > 1 {
                        d2.emit(IRView::IfN { cond_var: slot(res), goto_label: end_label })
                    } else {
                        d2
                    };
                    links_code(ops, comparators, n + 1, res, cur, end_label, d3, opts)
                },
            },
        }
    }
}

/// The code for a chain of comparisons: one temporary takes the result of
/// each link.
pub open spec fn compare_code(e: ExprView, d: Draft, opts: Options) -> Evaluated
    decreases e, 0int,
{
    match e {
        ExprView::Compare { left, ops, comparators, .. } => match d.temp() {
            Err(e) => Err(e),
            Ok((d1, res)) => match evaluated(*left, d1, opts) {
                Err(e) => Err(e),
                Ok((d2, first)) => match d2.label("test_cmp_end"@) {
                    Err(e) => Err(e),
                    Ok((d3, end_label)) => match links_code(ops, comparators, 0, res, first, end_label, d3, opts) {
                        Err(e) => Err(e),
                        Ok((d4, last)) => {
                            let d5 = d4.free(last);
                            Ok(
                                (
                                    if ops.len() > 1 {
                                        d5.emit(IRView::Label { label: end_label })
                                    } else {
                                        d5
                                    },
                                    slot(res),
                                ),
                            )
                        },
                    },
                },
            },
        },
        _ => Err(CompileError::UnsupportedComparison),
    }
}

/// The code for a subscript that is read: an element of one of the four
/// arrays of the configuration is the cell that the index points to; an
/// element of another array is read into a temporary.
pub open spec fn subscript_code(e: ExprView, d: Draft, opts: Options) -> Evaluated
    decreases e, 0int,
{
    match e {
        ExprView::Subscript { value, slice, ctx, .. } => if ctx != ExprContext::Load {
            Err(CompileError::UnsupportedContext)
        } else {
            match *slice {
                SliceView::Index { value: index } => match fixed_array(*value, ExprContext::Load) {
                    Some(in_h) => match evaluated(*index, d, opts) {
                        Err(e) => Err(e),
                        Ok((d1, ind_var)) => match d1.index_slot(ind_var, true) {
                            Err(e) => Err(e),
                            Ok((d2, ind)) => Ok(
                                (
                                    d2,
                                    if in_h {
                                        h_at(ind)
                                    } else {
                                        m_at(ind)
                                    },
                                ),
                            ),
                        },
                    },
                    None => match evaluated(*value, d, opts) {
                        Err(e) => Err(e),
                        Ok((d1, addr)) => match evaluated(*index, d1, opts) {
                            Err(e) => Err(e),
                            Ok((d2, ind_var)) => match d2.temp() {
                                Err(e) => Err(e),
                                Ok((d3, t)) => match d3.free(addr).element(
                                    addr,
                                    ind_var,
                                    t,
                                    Access::Load,
                                    Seq::empty(),
                                ) {
                                    Err(e) => Err(e),
                                    Ok(d4) => Ok((d4, slot(t))),
                                },
                            },
                        },
                    },
                },
                _ => Err(CompileError::UnsupportedSubscript),
            }
        },
        _ => Err(CompileError::UnsupportedSubscript),
    }
}

/// Whether the expression names one of the four arrays of the
/// configuration in the given use, and if so, whether the array lies in H.
pub open spec fn fixed_array(e: ExprView, ctx: ExprContext) -> Option<bool> {
    match e {
        ExprView::Name { id, ctx: c, .. } => if c != ctx {
            None
        } else if id == "hH"@ || id == "pH"@ {
            Some(true)
        } else if id == "hM"@ || id == "pM"@ {
            Some(false)
        } else {
            None
        },
        _ => None,
    }
}

/// The arguments from the `n`-th on compiled, in their order.
pub open spec fn arguments_code(args: Seq<ExprView>, n: int, done: Seq<IRVarView>, d: Draft, opts: Options) -> Result<
    (Draft, Seq<IRVarView>),
    CompileError,
>
    decreases args, args.len() - n,
{
    if n < 0 || n >= args.len() {
        Ok((d, done))
    } else {
        proof {
            assert(decreases_to!(args => args[n]));
        }
        match evaluated(args[n], d, opts) {
            Err(e) => Err(e),
            Ok((d1, v)) => arguments_code(args, n + 1, done.push(v), d1, opts),
        }
    }
}

/// The draft after the slots of the operands were released, in their
/// order.
pub open spec fn all_freed(d: Draft, vars: Seq<IRVarView>, n: int) -> Draft
    decreases n,
{
    if n <= 0 || n > vars.len() {
        d
    } else {
        all_freed(d, vars, n - 1).free(vars[n - 1])
    }
}

/// The call of a function with operands as arguments: the temporaries
/// that were in use before the arguments were compiled are saved around
/// it, the result goes to a new temporary, and the slots of the arguments
/// are released.
pub open spec fn function_call(func: Seq<char>, args: Seq<IRVarView>, saved: Seq<u8>, d: Draft) -> Evaluated {
    match d.temp() {
        Err(e) => Err(e),
        Ok((d1, res)) => match d1.call(func, args, saved, slot(res)) {
            Err(e) => Err(e),
            Ok(d2) => Ok((all_freed(d2, args, args.len() as int), slot(res))),
        },
    }
}

/// The code for the call of a function of the source.
pub open spec fn user_call_code(e: ExprView, d: Draft, opts: Options) -> Evaluated
    decreases e, 0int,
{
    match e {
        ExprView::Call { func, args, .. } => match arguments_code(args, 0, Seq::empty(), d, opts) {
            Err(e) => Err(e),
            Ok((d1, vars)) => function_call(func, vars, d.st.live_ids, d1),
        },
        _ => Err(CompileError::WrongArgumentCount),
    }
}

/// Whether the name is one of the eight functions that allocate or free an
/// array.
pub open spec fn is_allocator(func: Seq<char>) -> bool {
    func == "alloc_pM"@ || func == "alloc_hM"@ || func == "alloc_hH"@ || func == "alloc_pH"@ || func
        == "free_pM"@ || func == "free_hM"@ || func == "free_hH"@ || func == "free_pH"@
}

/// The code for the allocation or the release of an array: a call of the
/// function of the source with `addr_` before the name. A pointer into M
/// carries a mark in its highest bit, which is put on what was allocated
/// and taken off what is freed.
pub open spec fn allocator_code(e: ExprView, d: Draft, opts: Options) -> Evaluated
    decreases e, 0int,
{
    match e {
        ExprView::Call { func, args, location, .. } => if args.len() == 0 {
            Err(CompileError::WrongArgumentCount)
        } else {
            let frees_m = func == "free_pM"@ || func == "free_hM"@;
            let d1 = d.note(location, opts.comments);
            let saved = d1.st.live_ids;
            proof {
                assert(decreases_to!(args => args[0]));
            }
            let argument: Evaluated = if frees_m {
                match d1.note(location, opts.comments).temp() {
                    Err(e) => Err(e),
                    Ok((d2, res)) => match evaluated(args[0], d2, opts) {
                        Err(e) => Err(e),
                        Ok((d3, e1)) => {
                            let d4 = d3.note(location, opts.comments);
                            Ok((d4.emit(op2(slot(res), e1, IROp::BitAnd, pointer_mask())).free(e1), slot(res)))
                        },
                    },
                }
            } else {
                evaluated(args[0], d1, opts)
            };
            match argument {
                Err(e) => Err(e),
                Ok((d5, v)) => match function_call("addr_"@ + func, seq![v], saved, d5) {
                    Err(e) => Err(e),
                    Ok((d6, res)) => if func == "alloc_pM"@ || func == "alloc_hM"@ {
                        Ok(
                            (
                                d6.emit(op2(res, res, IROp::BitOr, number(2147483648))),
                                IRVarView::VM(Box::new(res)),
                            ),
                        )
                    } else if func == "alloc_pH"@ || func == "alloc_hH"@ {
                        Ok((d6, IRVarView::VH(Box::new(res))))
                    } else {
                        Ok((d6, res))
                    },
                },
            }
        },
        _ => Err(CompileError::WrongArgumentCount),
    }
}

/// The code that reads the length of an array in M from the four bytes
/// before its elements, through the temporaries `addr` and `calc`.
pub open spec fn m_length_code(addr: u8, calc: u8) -> Seq<IRView> {
    seq![
        op2(slot(calc), m_at(addr), IROp::LShift, number(8)),
        op2(slot(addr), slot(addr), IROp::Add, number(1)),
        op2(slot(calc), slot(calc), IROp::Add, m_at(addr)),
        op2(slot(calc), slot(calc), IROp::LShift, number(8)),
        op2(slot(addr), slot(addr), IROp::Add, number(1)),
        op2(slot(calc), slot(calc), IROp::Add, m_at(addr)),
        op2(slot(calc), slot(calc), IROp::LShift, number(8)),
        op2(slot(addr), slot(addr), IROp::Add, number(1)),
        op2(slot(calc), slot(calc), IROp::Add, m_at(addr)),
    ]
}

/// The code for the length of an allocated array: in H it stands two
/// cells before the elements, in M as four bytes from five before.
pub open spec fn length_code(e: ExprView, d: Draft, opts: Options) -> Evaluated
    decreases e, 0int,
{
    match e {
        ExprView::Call { func, args, .. } => if args.len() == 0 {
            Err(CompileError::WrongArgumentCount)
        } else {
            proof {
                assert(decreases_to!(args => args[0]));
            }
            match evaluated(args[0], d, opts) {
                Err(e) => Err(e),
                Ok((d1, v)) => match d1.temp() {
                    Err(e) => Err(e),
                    Ok((d2, addr)) => {
                        let d3 = d2.free(v).emit(copy(slot(addr), v));
                        if func == "len_hH"@ || func == "len_pH"@ {
                            Ok((d3.emit(op2(slot(addr), slot(addr), IROp::Sub, number(2))), h_at(addr)))
                        } else {
                            let d4 = d3.emit(op2(slot(addr), slot(addr), IROp::BitAnd, pointer_mask())).emit(
                                op2(slot(addr), slot(addr), IROp::Sub, number(5)),
                            );
                            match d4.temp() {
                                Err(e) => Err(e),
                                Ok((d5, calc)) => Ok(
                                    (d5.emit_all(m_length_code(addr, calc)).free(slot(addr)), slot(calc)),
                                ),
                            }
                        }
                    },
                }
            }
        },
        _ => Err(CompileError::WrongArgumentCount),
    }
}

/// The code for `peek_b()`: unless a byte was pushed back, `read_b` is
/// called and its result kept as the byte that is pushed back.
pub open spec fn peek_code(d: Draft) -> Evaluated {
    match d.label("no_read_call"@) {
        Err(e) => Err(e),
        Ok((d1, skip)) => {
            let d2 = d1.emit(
                IRView::IfNeq { val1: slot(253), val2: number(4294967294), goto_label: skip },
            );
            match d2.call("read_b"@, Seq::empty(), d2.st.live_ids, slot(253)) {
                Err(e) => Err(e),
                Ok(d3) => Ok((d3.emit(IRView::Label { label: skip }), slot(253))),
            }
        },
    }
}

/// Whether the name is that of a built-in function that is compiled to a
/// single instruction or to none.
pub open spec fn is_simple_builtin(func: Seq<char>) -> bool {
    func == "out"@ || func == "error"@ || func == "push_b"@ || func == "len"@ || func == "array_pM"@ || func
        == "array_hM"@ || func == "array_pH"@ || func == "array_hH"@
}

/// The code for the built-in functions `out`, `error`, `push_b`, `len`
/// and `array_..`. The length of one of the four arrays is a constant; the
/// cast to an array marks the operand and takes no instruction.
pub open spec fn builtin_code(e: ExprView, d: Draft, opts: Options) -> Evaluated
    decreases e, 0int,
{
    match e {
        ExprView::Call { func, args, .. } => {
            if func == "error"@ {
                Ok((d.emit(IRView::Error), number(4294967295)))
            } else if func == "out"@ && args.len() == 0 {
                Err(CompileError::WrongArgumentCount)
            } else if func != "out"@ && args.len() != 1 {
                Err(CompileError::WrongArgumentCount)
            } else if func == "len"@ {
                match args[0] {
                    ExprView::Name { id, ctx: ExprContext::Load, .. } => {
                        let size = if id == "hH"@ {
                            array_len(d.st.hh)
                        } else if id == "hM"@ {
                            array_len(d.st.hm)
                        } else if id == "pH"@ {
                            array_len(d.st.ph)
                        } else if id == "pM"@ {
                            array_len(d.st.pm)
                        } else {
                            Err(CompileError::LenOfNonArray)
                        };
                        match size {
                            Ok(v) => Ok((d, v)),
                            Err(e) => Err(e),
                        }
                    },
                    _ => Err(CompileError::LenOfNonArray),
                }
            } else {
                proof {
                    assert(decreases_to!(args => args[0]));
                }
                match evaluated(args[0], d, opts) {
                    Err(e) => Err(e),
                    Ok((d1, v)) => if func == "out"@ {
                        Ok((d1.free(v).emit(IRView::Out { var: v }), number(0)))
                    } else if func == "push_b"@ {
                        Ok((d1.free(v).emit(copy(slot(253), v)), number(0)))
                    } else if func == "array_pM"@ || func == "array_hM"@ {
                        Ok((d1, IRVarView::VM(Box::new(v))))
                    } else {
                        Ok((d1, IRVarView::VH(Box::new(v))))
                    },
                }
            }
        },
        _ => Err(CompileError::WrongArgumentCount),
    }
}

/// The code for a call: the built-in functions are compiled in place.
pub open spec fn call_code(e: ExprView, d: Draft, opts: Options) -> Evaluated
    decreases e, 1int,
{
    match e {
        ExprView::Call { func, args, .. } => {
            if is_simple_builtin(func) {
                builtin_code(e, d, opts)
            } else if func == "len_pM"@ || func == "len_hM"@ || func == "len_pH"@ || func == "len_hH"@ {
                length_code(e, d, opts)
            } else if is_allocator(func) {
                allocator_code(e, d, opts)
            } else if func == "peek_b"@ {
                if args.len() != 0 {
                    Err(CompileError::WrongArgumentCount)
                } else {
                    peek_code(d)
                }
            } else {
                user_call_code(e, d, opts)
            }
        },
        _ => Err(CompileError::WrongArgumentCount),
    }
}

/// An expression compiled: where comments are on, the line of the source
/// comes first, once; then the code that computes the value, with the
/// operand that holds it.
pub open spec fn evaluated(e: ExprView, d0: Draft, opts: Options) -> Evaluated
    decreases e, 2int,
{
    let d = d0.note(e.location(), opts.comments);
    match e {
        ExprView::Num { n, .. } => Ok((d, number(n))),
        ExprView::Ellipsis { .. } => Ok((d, number(0))),
        ExprView::NameConstant { value, .. } => Ok((d, number(value))),
        ExprView::Name { id, ctx, .. } => if ctx != ExprContext::Load && ctx != ExprContext::Store {
            Err(CompileError::UnsupportedContext)
        } else {
            match d.st.value_of(id, opts.fixed_global_access) {
                Ok(v) => Ok((d, v)),
                Err(e) => Err(e),
            }
        },
        ExprView::BoolOpE { .. } => bool_op_code(e, d, opts),
        ExprView::UnaryOpE { .. } => unary_code(e, d, opts),
        ExprView::Compare { .. } => compare_code(e, d, opts),
        ExprView::Call { .. } => call_code(e, d, opts),
        ExprView::Subscript { .. } => subscript_code(e, d, opts),
        ExprView::BinOp { .. } => binary_code(e, d, opts),
        ExprView::Dict { .. } => Err(CompileError::UnsupportedDict),
        ExprView::Str { .. } => Ok((d, number(0))),
        ExprView::Attribute { .. } => Err(CompileError::UnsupportedAttribute),
        ExprView::Starred { .. } => Err(CompileError::UnsupportedStarred),
        ExprView::List { .. } => Err(CompileError::UnsupportedList),
        ExprView::Tuple { .. } => Err(CompileError::UnsupportedTuple),
    }
}

fn array_size(log: u8) -> (r: Result<IRVar, CompileError>)
    ensures
        match r {
            Ok(v) => array_len(log) == Ok::<IRVarView, CompileError>(v.deep_view()),
            Err(e) => array_len(log) == Err::<IRVarView, CompileError>(e),
        },
{
    if log >= 32 {
        Err(CompileError::OversizeArray)
    } else {
        proof {
            crate::zpaqcfg::lemma_two_to_32();
            crate::zpaqcfg::lemma_two_to_grows(log as nat, 31);
        }
        Ok(num(power_of_two(log) as u32))
    }
}

fn eval_bool_op(irc: &mut Vec<IR>, expr: &Expr, st: &mut SymbolTable, optioncfg: &Options) -> (r: Result<
    IRVar,
    CompileError,
>)
        ensures
            match r {
                Ok(v) => bool_op_code(expr.deep_view(), draft(*old(irc), *old(st)), *optioncfg) == Ok::<(Draft, IRVarView), CompileError>(
                    (draft(*final(irc), *final(st)), v.deep_view()),
                ),
                Err(e) => bool_op_code(expr.deep_view(), draft(*old(irc), *old(st)), *optioncfg) == Err::<(Draft, IRVarView), CompileError>(e),
            },
    decreases expr, 0int,
{
    match expr {
        Expr::BoolOpE { op, values, location } => {
            assert(expr.deep_view() == (ExprView::BoolOpE {
                op: *op,
                values: expr_views(values@),
                location: location@,
            }));
            if values.len() != 2 {
                return Err(CompileError::MalformedBoolOp);
            }
            assert(expr_views(values@)[0] == values@[0].deep_view());
            assert(expr_views(values@)[1] == values@[1].deep_view());
            let res = temp(st, Ghost(ir_views(irc@)))?;
            let e1 = eval_into(irc, &values[0], st, optioncfg)?;
            let e2 = eval_into(irc, &values[1], st, optioncfg)?;
            st.try_freeing_varid(&e1);
            st.try_freeing_varid(&e2);
            let o = match op {
                BoolOp::And => IROp::And,
                BoolOp::Or => IROp::Or,
            };
            emit(irc, assign2(var(res), e1, o, e2), Ghost(st.deep_view()));
            Ok(var(res))
        },
        _ => Err(CompileError::MalformedBoolOp),
    }
}

fn unary(op: UnaryOp, target: IRVar, source: IRVar) -> (ir: IR)
    ensures
        ir.deep_view() == unary_ir(op, target.deep_view(), source.deep_view()),
{
    match op {
        UnaryOp::Not => IR::Assign1Op { target, uop: IRUOp::Not, source },
        UnaryOp::Invert => IR::Assign1Op { target, uop: IRUOp::Invert, source },
        UnaryOp::USub => IR::Assign1Op { target, uop: IRUOp::USub, source },
        UnaryOp::UAdd => assign(target, source),
    }
}

fn eval_unary(irc: &mut Vec<IR>, expr: &Expr, st: &mut SymbolTable, optioncfg: &Options) -> (r: Result<
    IRVar,
    CompileError,
>)
        ensures
            match r {
                Ok(v) => unary_code(expr.deep_view(), draft(*old(irc), *old(st)), *optioncfg) == Ok::<(Draft, IRVarView), CompileError>(
                    (draft(*final(irc), *final(st)), v.deep_view()),
                ),
                Err(e) => unary_code(expr.deep_view(), draft(*old(irc), *old(st)), *optioncfg) == Err::<(Draft, IRVarView), CompileError>(e),
            },
    decreases expr, 0int,
{
    match expr {
        Expr::UnaryOpE { op, operand, location } => {
            let res = temp(st, Ghost(ir_views(irc@)))?;
            let val = eval_into(irc, &**operand, st, optioncfg)?;
            st.try_freeing_varid(&val);
            emit(irc, unary(*op, var(res), val), Ghost(st.deep_view()));
            Ok(var(res))
        },
        _ => Err(CompileError::UnsupportedOperator),
    }
}

fn eval_binary(irc: &mut Vec<IR>, expr: &Expr, st: &mut SymbolTable, optioncfg: &Options) -> (r: Result<
    IRVar,
    CompileError,
>)
        ensures
            match r {
                Ok(v) => binary_code(expr.deep_view(), draft(*old(irc), *old(st)), *optioncfg) == Ok::<(Draft, IRVarView), CompileError>(
                    (draft(*final(irc), *final(st)), v.deep_view()),
                ),
                Err(e) => binary_code(expr.deep_view(), draft(*old(irc), *old(st)), *optioncfg) == Err::<(Draft, IRVarView), CompileError>(e),
            },
    decreases expr, 0int,
{
    match expr {
        Expr::BinOp { left, op, right, location } => {
            let res = temp(st, Ghost(ir_views(irc@)))?;
            let e1 = eval_into(irc, &**left, st, optioncfg)?;
            let e2 = eval_into(irc, &**right, st, optioncfg)?;
            let o = match operator_of(*op) {
                Some(o) => o,
                None => {
                    return Err(CompileError::UnsupportedOperator);
                },
            };
            emit(irc, assign2(var(res), e1.clone(), o, e2.clone()), Ghost(st.deep_view()));
            st.try_freeing_varid(&e1);
            st.try_freeing_varid(&e2);
            Ok(var(res))
        },
        _ => Err(CompileError::UnsupportedOperator),
    }
}

fn eval_links(
    irc: &mut Vec<IR>,
    ops: &Vec<CmpOp>,
    comparators: &Vec<Expr>,
    res: u8,
    first: &IRVar,
    end_label: &String,
    st: &mut SymbolTable,
    optioncfg: &Options,
) -> (r: Result<IRVar, CompileError>)
        ensures
            match r {
                Ok(v) => links_code(ops@, expr_views(comparators@), 0, res, first.deep_view(), end_label@, draft(*old(irc), *old(st)), *optioncfg) == Ok::<(Draft, IRVarView), CompileError>(
                    (draft(*final(irc), *final(st)), v.deep_view()),
                ),
                Err(e) => links_code(ops@, expr_views(comparators@), 0, res, first.deep_view(), end_label@, draft(*old(irc), *old(st)), *optioncfg) == Err::<(Draft, IRVarView), CompileError>(e),
            },
    decreases comparators,
{
    let ghost all = expr_views(comparators@);
    let ghost goal = links_code(
        ops@,
        all,
        0,
        res,
        first.deep_view(),
        end_label@,
        draft(*old(irc), *old(st)),
        *optioncfg,
    );
    let ghost first_view = first.deep_view();
    let mut last = first.clone();
    let mut n: usize = 0;
    while n < ops.len() && n < comparators.len()
        invariant
            n <= ops.len(),
            n <= comparators.len(),
            all == expr_views(comparators@),
            first_view == first.deep_view(),
            goal == links_code(
                ops@,
                all,
                0,
                res,
                first_view,
                end_label@,
                draft(*old(irc), *old(st)),
                *optioncfg,
            ),
            goal == links_code(ops@, all, n as int, res, last.deep_view(), end_label@, draft(*irc, *st), *optioncfg),
        decreases comparators.len() - n,
    {
        assert(all[n as int] == comparators@[n as int].deep_view());
        let cur = eval_into(irc, &comparators[n], st, optioncfg)?;
        let o = match comparison_of(ops[n]) {
            Some(o) => o,
            None => {
                return Err(CompileError::UnsupportedComparison);
            },
        };
        st.try_freeing_varid(&last);
        emit(irc, assign2(var(res), last, o, cur.clone()), Ghost(st.deep_view()));
        if ops.len() > 1 {
            emit(irc, IR::IfN { cond_var: var(res), goto_label: end_label.clone() }, Ghost(st.deep_view()));
        }
        last = cur;
        n += 1;
    }
    Ok(last)
}

fn eval_compare(irc: &mut Vec<IR>, expr: &Expr, st: &mut SymbolTable, optioncfg: &Options) -> (r: Result<
    IRVar,
    CompileError,
>)
        ensures
            match r {
                Ok(v) => compare_code(expr.deep_view(), draft(*old(irc), *old(st)), *optioncfg) == Ok::<(Draft, IRVarView), CompileError>(
                    (draft(*final(irc), *final(st)), v.deep_view()),
                ),
                Err(e) => compare_code(expr.deep_view(), draft(*old(irc), *old(st)), *optioncfg) == Err::<(Draft, IRVarView), CompileError>(e),
            },
    decreases expr, 0int,
{
    match expr {
        Expr::Compare { left, ops, comparators, location } => {
            let res = temp(st, Ghost(ir_views(irc@)))?;
            let first = eval_into(irc, &**left, st, optioncfg)?;
            let end_label = new_label(st, "test_cmp_end", Ghost(ir_views(irc@)))?;
            let last = eval_links(irc, ops, comparators, res, &first, &end_label, st, optioncfg)?;
            st.try_freeing_varid(&last);
            if ops.len() > 1 {
                emit(irc, IR::Label { label: end_label }, Ghost(st.deep_view()));
            }
            Ok(var(res))
        },
        _ => Err(CompileError::UnsupportedComparison),
    }
}

pub(crate) fn names_fixed_array(e: &Expr, ctx: ExprContext) -> (r: Option<bool>)
    ensures
        r == fixed_array(e.deep_view(), ctx),
{
    match e {
        Expr::Name { id, ctx: c, location } => {
            if *c != ctx {
                None
            } else if text_is(id.as_str(), "hH") || text_is(id.as_str(), "pH") {
                Some(true)
            } else if text_is(id.as_str(), "hM") || text_is(id.as_str(), "pM") {
                Some(false)
            } else {
                None
            }
        },
        _ => None,
    }
}

fn eval_subscript(irc: &mut Vec<IR>, expr: &Expr, st: &mut SymbolTable, optioncfg: &Options) -> (r: Result<
    IRVar,
    CompileError,
>)
        ensures
            match r {
                Ok(v) => subscript_code(expr.deep_view(), draft(*old(irc), *old(st)), *optioncfg) == Ok::<(Draft, IRVarView), CompileError>(
                    (draft(*final(irc), *final(st)), v.deep_view()),
                ),
                Err(e) => subscript_code(expr.deep_view(), draft(*old(irc), *old(st)), *optioncfg) == Err::<(Draft, IRVarView), CompileError>(e),
            },
    decreases expr, 0int,
{
    match expr {
        Expr::Subscript { value, slice, ctx, location } => {
            match ctx {
                ExprContext::Load => {},
                _ => {
                    return Err(CompileError::UnsupportedContext);
                },
            }
            assert(expr.deep_view() == (ExprView::Subscript {
                value: Box::new((**value).deep_view()),
                slice: Box::new((**slice).deep_view()),
                ctx: *ctx,
                location: location@,
            }));
            match &**slice {
                Slice::Index { value: index } => {
                    assert((**slice).deep_view() == (SliceView::Index { value: Box::new((**index).deep_view()) }));
                    match names_fixed_array(&**value, ExprContext::Load) {
                        Some(in_h) => {
                            let ind_var = eval_into(irc, &**index, st, optioncfg)?;
                            let ind = index_slot(irc, st, &ind_var, true)?;
                            if in_h {
                                Ok(h_cell(ind))
                            } else {
                                Ok(m_cell(ind))
                            }
                        },
                        None => {
                            let addr = eval_into(irc, &**value, st, optioncfg)?;
                            let ind_var = eval_into(irc, &**index, st, optioncfg)?;
                            let t = temp(st, Ghost(ir_views(irc@)))?;
                            st.try_freeing_varid(&addr);
                            proof {
                                reveal_strlit("");
                            }
                            element(irc, st, &addr, &ind_var, t, &ElementAccess::Load, "")?;
                            Ok(var(t))
                        },
                    }
                },
                _ => Err(CompileError::UnsupportedSubscript),
            }
        },
        _ => Err(CompileError::UnsupportedSubscript),
    }
}

fn eval_args(irc: &mut Vec<IR>, args: &Vec<Expr>, st: &mut SymbolTable, optioncfg: &Options) -> (r: Result<
    Vec<IRVar>,
    CompileError,
>)
    ensures
        match r {
            Ok(vars) => arguments_code(expr_views(args@), 0, Seq::empty(), draft(*old(irc), *old(st)), *optioncfg)
                == Ok::<(Draft, Seq<IRVarView>), CompileError>((draft(*final(irc), *final(st)), var_views(vars@))),
            Err(e) => arguments_code(expr_views(args@), 0, Seq::empty(), draft(*old(irc), *old(st)), *optioncfg)
                == Err::<(Draft, Seq<IRVarView>), CompileError>(e),
        },
    decreases args,
{
    let ghost all = expr_views(args@);
    let ghost goal = arguments_code(all, 0, Seq::empty(), draft(*old(irc), *old(st)), *optioncfg);
    let mut vars: Vec<IRVar> = Vec::new();
    let mut n: usize = 0;
    assert(var_views(vars@) =~= Seq::<IRVarView>::empty());
    while n < args.len()
        invariant
            n <= args.len(),
            all == expr_views(args@),
            goal == arguments_code(all, 0, Seq::empty(), draft(*old(irc), *old(st)), *optioncfg),
            goal == arguments_code(all, n as int, var_views(vars@), draft(*irc, *st), *optioncfg),
        decreases args.len() - n,
    {
        assert(all[n as int] == args@[n as int].deep_view());
        let ghost before = var_views(vars@);
        let v = eval_into(irc, &args[n], st, optioncfg)?;
        vars.push(v);
        assert(var_views(vars@) =~= before.push(v.deep_view()));
        n += 1;
    }
    Ok(vars)
}

fn free_all(st: &mut SymbolTable, vars: &Vec<IRVar>, Ghost(code): Ghost<Seq<IRView>>)
    ensures
        (Draft { code, st: final(st).deep_view() }) == all_freed(
            Draft { code, st: old(st).deep_view() },
            var_views(vars@),
            vars@.len() as int,
        ),
{
    let mut n: usize = 0;
    while n < vars.len()
        invariant
            n <= vars.len(),
            (Draft { code, st: st.deep_view() }) == all_freed(
                Draft { code, st: old(st).deep_view() },
                var_views(vars@),
                n as int,
            ),
        decreases vars.len() - n,
    {
        st.try_freeing_varid(&vars[n]);
        n += 1;
    }
}

fn call_function(irc: &mut Vec<IR>, st: &mut SymbolTable, func: String, args: Vec<IRVar>, saved: &Vec<u8>) -> (r:
    Result<IRVar, CompileError>)
        ensures
            match r {
                Ok(v) => function_call(func@, var_views(args@), saved@, draft(*old(irc), *old(st))) == Ok::<(Draft, IRVarView), CompileError>(
                    (draft(*final(irc), *final(st)), v.deep_view()),
                ),
                Err(e) => function_call(func@, var_views(args@), saved@, draft(*old(irc), *old(st))) == Err::<(Draft, IRVarView), CompileError>(e),
            },
{
    let res = temp(st, Ghost(ir_views(irc@)))?;
    let passed = clone_vars(&args);
    call(irc, st, func, passed, saved, var(res))?;
    free_all(st, &args, Ghost(ir_views(irc@)));
    Ok(var(res))
}

fn eval_user_call(irc: &mut Vec<IR>, expr: &Expr, st: &mut SymbolTable, optioncfg: &Options) -> (r: Result<
    IRVar,
    CompileError,
>)
        ensures
            match r {
                Ok(v) => user_call_code(expr.deep_view(), draft(*old(irc), *old(st)), *optioncfg) == Ok::<(Draft, IRVarView), CompileError>(
                    (draft(*final(irc), *final(st)), v.deep_view()),
                ),
                Err(e) => user_call_code(expr.deep_view(), draft(*old(irc), *old(st)), *optioncfg) == Err::<(Draft, IRVarView), CompileError>(e),
            },
    decreases expr, 0int,
{
    match expr {
        Expr::Call { func, args, keywords, location } => {
            let saved = st.live_ids.clone();
            assert(saved@ =~= st.live_ids@);
            let vars = eval_args(irc, args, st, optioncfg)?;
            call_function(irc, st, func.clone(), vars, &saved)
        },
        _ => Err(CompileError::WrongArgumentCount),
    }
}

fn names_allocator(func: &str) -> (b: bool)
    ensures
        b == is_allocator(func@),
{
    text_is(func, "alloc_pM") || text_is(func, "alloc_hM") || text_is(func, "alloc_hH") || text_is(
        func,
        "alloc_pH",
    ) || text_is(func, "free_pM") || text_is(func, "free_hM") || text_is(func, "free_hH") || text_is(
        func,
        "free_pH",
    )
}

fn eval_allocator(irc: &mut Vec<IR>, expr: &Expr, st: &mut SymbolTable, optioncfg: &Options) -> (r: Result<
    IRVar,
    CompileError,
>)
        ensures
            match r {
                Ok(v) => allocator_code(expr.deep_view(), draft(*old(irc), *old(st)), *optioncfg) == Ok::<(Draft, IRVarView), CompileError>(
                    (draft(*final(irc), *final(st)), v.deep_view()),
                ),
                Err(e) => allocator_code(expr.deep_view(), draft(*old(irc), *old(st)), *optioncfg) == Err::<(Draft, IRVarView), CompileError>(e),
            },
    decreases expr, 0int,
{
    match expr {
        Expr::Call { func, args, keywords, location } => {
            assert(expr.deep_view() == (ExprView::Call {
                func: func@,
                args: expr_views(args@),
                keywords: crate::ast::keyword_views(keywords@),
                location: location@,
            }));
            if args.len() == 0 {
                return Err(CompileError::WrongArgumentCount);
            }
            let frees_m = text_is(func.as_str(), "free_pM") || text_is(func.as_str(), "free_hM");
            note(irc, st, location.clone(), optioncfg);
            let saved = st.live_ids.clone();
            assert(saved@ =~= st.live_ids@);
            assert(expr_views(args@)[0] == args@[0].deep_view());
            let v = if frees_m {
                note(irc, st, location.clone(), optioncfg);
                let res = temp(st, Ghost(ir_views(irc@)))?;
                let e1 = eval_into(irc, &args[0], st, optioncfg)?;
                note(irc, st, location.clone(), optioncfg);
                emit(irc, assign2(var(res), e1.clone(), IROp::BitAnd, num(2147483647)), Ghost(st.deep_view()));
                st.try_freeing_varid(&e1);
                var(res)
            } else {
                eval_into(irc, &args[0], st, optioncfg)?
            };
            let mut name = String::from_str("addr_");
            push_text(&mut name, func.as_str());
            let passed = vec![v];
            assert(var_views(passed@) =~= seq![v.deep_view()]);
            let res = call_function(irc, st, name, passed, &saved)?;
            if text_is(func.as_str(), "alloc_pM") || text_is(func.as_str(), "alloc_hM") {
                emit(irc, assign2(res.clone(), res.clone(), IROp::BitOr, num(2147483648)), Ghost(st.deep_view()));
                Ok(IRVar::VM(Box::new(res)))
            } else if text_is(func.as_str(), "alloc_pH") || text_is(func.as_str(), "alloc_hH") {
                Ok(IRVar::VH(Box::new(res)))
            } else {
                Ok(res)
            }
        },
        _ => Err(CompileError::WrongArgumentCount),
    }
}

fn m_length(addr: u8, calc: u8) -> (code: Vec<IR>)
    ensures
        ir_views(code@) == m_length_code(addr, calc),
{
    let code = vec![
        assign2(var(calc), m_cell(addr), IROp::LShift, num(8)),
        assign2(var(addr), var(addr), IROp::Add, num(1)),
        assign2(var(calc), var(calc), IROp::Add, m_cell(addr)),
        assign2(var(calc), var(calc), IROp::LShift, num(8)),
        assign2(var(addr), var(addr), IROp::Add, num(1)),
        assign2(var(calc), var(calc), IROp::Add, m_cell(addr)),
        assign2(var(calc), var(calc), IROp::LShift, num(8)),
        assign2(var(addr), var(addr), IROp::Add, num(1)),
        assign2(var(calc), var(calc), IROp::Add, m_cell(addr)),
    ];
    assert(ir_views(code@) =~= m_length_code(addr, calc));
    code
}

fn eval_length(irc: &mut Vec<IR>, expr: &Expr, st: &mut SymbolTable, optioncfg: &Options) -> (r: Result<
    IRVar,
    CompileError,
>)
        ensures
            match r {
                Ok(v) => length_code(expr.deep_view(), draft(*old(irc), *old(st)), *optioncfg) == Ok::<(Draft, IRVarView), CompileError>(
                    (draft(*final(irc), *final(st)), v.deep_view()),
                ),
                Err(e) => length_code(expr.deep_view(), draft(*old(irc), *old(st)), *optioncfg) == Err::<(Draft, IRVarView), CompileError>(e),
            },
    decreases expr, 0int,
{
    match expr {
        Expr::Call { func, args, keywords, location } => {
            assert(expr.deep_view() == (ExprView::Call {
                func: func@,
                args: expr_views(args@),
                keywords: crate::ast::keyword_views(keywords@),
                location: location@,
            }));
            if args.len() == 0 {
                return Err(CompileError::WrongArgumentCount);
            }
            assert(expr_views(args@)[0] == args@[0].deep_view());
            let v = eval_into(irc, &args[0], st, optioncfg)?;
            let addr = temp(st, Ghost(ir_views(irc@)))?;
            st.try_freeing_varid(&v);
            emit(irc, assign(var(addr), v), Ghost(st.deep_view()));
            if text_is(func.as_str(), "len_hH") || text_is(func.as_str(), "len_pH") {
                emit(irc, assign2(var(addr), var(addr), IROp::Sub, num(2)), Ghost(st.deep_view()));
                Ok(h_cell(addr))
            } else {
                emit(irc, assign2(var(addr), var(addr), IROp::BitAnd, num(2147483647)), Ghost(st.deep_view()));
                emit(irc, assign2(var(addr), var(addr), IROp::Sub, num(5)), Ghost(st.deep_view()));
                let calc = temp(st, Ghost(ir_views(irc@)))?;
                emit_all(irc, m_length(addr, calc), Ghost(st.deep_view()));
                st.try_freeing_varid(&var(addr));
                Ok(var(calc))
            }
        },
        _ => Err(CompileError::WrongArgumentCount),
    }
}

fn eval_peek(irc: &mut Vec<IR>, st: &mut SymbolTable) -> (r: Result<IRVar, CompileError>)
        ensures
            match r {
                Ok(v) => peek_code(draft(*old(irc), *old(st))) == Ok::<(Draft, IRVarView), CompileError>(
                    (draft(*final(irc), *final(st)), v.deep_view()),
                ),
                Err(e) => peek_code(draft(*old(irc), *old(st))) == Err::<(Draft, IRVarView), CompileError>(e),
            },
{
    let skip = new_label(st, "no_read_call", Ghost(ir_views(irc@)))?;
    emit(
        irc,
        IR::IfNeq { val1: var(253), val2: num(4294967294), goto_label: skip.clone() },
        Ghost(st.deep_view()),
    );
    let saved = st.live_ids.clone();
    assert(saved@ =~= st.live_ids@);
    let no_args: Vec<IRVar> = Vec::new();
    assert(var_views(no_args@) =~= Seq::<IRVarView>::empty());
    call(irc, st, String::from_str("read_b"), no_args, &saved, var(253))?;
    emit(irc, IR::Label { label: skip }, Ghost(st.deep_view()));
    Ok(var(253))
}

fn names_simple_builtin(f: &str) -> (b: bool)
    ensures
        b == is_simple_builtin(f@),
{
    text_is(f, "out") || text_is(f, "error") || text_is(f, "push_b") || text_is(f, "len") || text_is(
        f,
        "array_pM",
    ) || text_is(f, "array_hM") || text_is(f, "array_pH") || text_is(f, "array_hH")
}

fn eval_builtin(irc: &mut Vec<IR>, expr: &Expr, st: &mut SymbolTable, optioncfg: &Options) -> (r: Result<
    IRVar,
    CompileError,
>)
    ensures
        match r {
            Ok(v) => builtin_code(expr.deep_view(), draft(*old(irc), *old(st)), *optioncfg) == Ok::<(Draft, IRVarView), CompileError>((draft(*final(irc), *final(st)), v.deep_view())),
            Err(e) => builtin_code(expr.deep_view(), draft(*old(irc), *old(st)), *optioncfg) == Err::<(Draft, IRVarView), CompileError>(e),
        },
    decreases expr, 0int,
{
    match expr {
        Expr::Call { func, args, keywords, location } => {
            assert(expr.deep_view() == (ExprView::Call {
                func: func@,
                args: expr_views(args@),
                keywords: crate::ast::keyword_views(keywords@),
                location: location@,
            }));
            let f = func.as_str();
            if text_is(f, "error") {
                emit(irc, IR::Error, Ghost(st.deep_view()));
                return Ok(num(4294967295));
            }
            let is_out = text_is(f, "out");
            if is_out && args.len() == 0 {
                return Err(CompileError::WrongArgumentCount);
            }
            if !is_out && args.len() != 1 {
                return Err(CompileError::WrongArgumentCount);
            }
            assert(expr_views(args@)[0] == args@[0].deep_view());
            if text_is(f, "len") {
                match &args[0] {
                    Expr::Name { id, ctx: ExprContext::Load, location: _ } => {
                        if text_is(id.as_str(), "hH") {
                            array_size(st.hh)
                        } else if text_is(id.as_str(), "hM") {
                            array_size(st.hm)
                        } else if text_is(id.as_str(), "pH") {
                            array_size(st.ph)
                        } else if text_is(id.as_str(), "pM") {
                            array_size(st.pm)
                        } else {
                            Err(CompileError::LenOfNonArray)
                        }
                    },
                    _ => Err(CompileError::LenOfNonArray),
                }
            } else {
                let v = eval_into(irc, &args[0], st, optioncfg)?;
                if is_out {
                    st.try_freeing_varid(&v);
                    emit(irc, IR::Out { var: v }, Ghost(st.deep_view()));
                    Ok(num(0))
                } else if text_is(f, "push_b") {
                    st.try_freeing_varid(&v);
                    emit(irc, assign(var(253), v), Ghost(st.deep_view()));
                    Ok(num(0))
                } else if text_is(f, "array_pM") || text_is(f, "array_hM") {
                    Ok(IRVar::VM(Box::new(v)))
                } else {
                    Ok(IRVar::VH(Box::new(v)))
                }
            }
        },
        _ => Err(CompileError::WrongArgumentCount),
    }
}

fn eval_call(irc: &mut Vec<IR>, expr: &Expr, st: &mut SymbolTable, optioncfg: &Options) -> (r: Result<
    IRVar,
    CompileError,
>)
    ensures
        match r {
            Ok(v) => call_code(expr.deep_view(), draft(*old(irc), *old(st)), *optioncfg) == Ok::<(Draft, IRVarView), CompileError>((draft(*final(irc), *final(st)), v.deep_view())),
            Err(e) => call_code(expr.deep_view(), draft(*old(irc), *old(st)), *optioncfg) == Err::<(Draft, IRVarView), CompileError>(e),
        },
    decreases expr, 1int,
{
    match expr {
        Expr::Call { func, args, keywords, location } => {
            assert(expr.deep_view() == (ExprView::Call {
                func: func@,
                args: expr_views(args@),
                keywords: crate::ast::keyword_views(keywords@),
                location: location@,
            }));
            let f = func.as_str();
            if names_simple_builtin(f) {
                eval_builtin(irc, expr, st, optioncfg)
            } else if text_is(f, "len_pM") || text_is(f, "len_hM") || text_is(f, "len_pH") || text_is(f, "len_hH") {
                eval_length(irc, expr, st, optioncfg)
            } else if names_allocator(f) {
                eval_allocator(irc, expr, st, optioncfg)
            } else if text_is(f, "peek_b") {
                if args.len() != 0 {
                    return Err(CompileError::WrongArgumentCount);
                }
                eval_peek(irc, st)
            } else {
                eval_user_call(irc, expr, st, optioncfg)
            }
        },
        _ => Err(CompileError::WrongArgumentCount),
    }
}

/// Compiles an expression behind the code in `irc`: returns the operand
/// that holds its value.
pub fn eval_into(irc: &mut Vec<IR>, expr: &Expr, st: &mut SymbolTable, optioncfg: &Options) -> (r: Result<
    IRVar,
    CompileError,
>)
        ensures
            match r {
                Ok(v) => evaluated(expr.deep_view(), draft(*old(irc), *old(st)), *optioncfg) == Ok::<(Draft, IRVarView), CompileError>(
                    (draft(*final(irc), *final(st)), v.deep_view()),
                ),
                Err(e) => evaluated(expr.deep_view(), draft(*old(irc), *old(st)), *optioncfg) == Err::<(Draft, IRVarView), CompileError>(e),
            },
    decreases expr, 2int,
{
    note(irc, st, expr.location(), optioncfg);
    match expr {
        Expr::Num { n, location } => Ok(num(*n)),
        Expr::Ellipsis { location } => Ok(num(0)),
        Expr::NameConstant { value, location } => Ok(num(*value)),
        Expr::Name { id, ctx, location } => {
            match ctx {
                ExprContext::Load | ExprContext::Store => {},
                _ => {
                    return Err(CompileError::UnsupportedContext);
                },
            }
            let (v, code) = st.get_value(id.as_str(), optioncfg)?;
            Ok(v)
        },
        Expr::BoolOpE { .. } => eval_bool_op(irc, expr, st, optioncfg),
        Expr::UnaryOpE { .. } => eval_unary(irc, expr, st, optioncfg),
        Expr::Compare { .. } => eval_compare(irc, expr, st, optioncfg),
        Expr::Call { .. } => eval_call(irc, expr, st, optioncfg),
        Expr::Subscript { .. } => eval_subscript(irc, expr, st, optioncfg),
        Expr::BinOp { .. } => eval_binary(irc, expr, st, optioncfg),
        Expr::Dict { .. } => Err(CompileError::UnsupportedDict),
        Expr::Str { .. } => Ok(num(0)),
        Expr::Attribute { .. } => Err(CompileError::UnsupportedAttribute),
        Expr::Starred { .. } => Err(CompileError::UnsupportedStarred),
        Expr::List { .. } => Err(CompileError::UnsupportedList),
        Expr::Tuple { .. } => Err(CompileError::UnsupportedTuple),
    }
}

/// Compiles an expression: returns the code that computes its value, and
/// the operand that holds the value. Temporaries are taken for it.
pub fn evaluate(expr: &Expr, st: &mut SymbolTable, optioncfg: &Options) -> (r: Result<(Vec<IR>, IRVar), CompileError>)
    ensures
        match r {
            Ok((code, v)) => evaluated(
                expr.deep_view(),
                Draft { code: Seq::empty(), st: old(st).deep_view() },
                *optioncfg,
            ) == Ok::<(Draft, IRVarView), CompileError>((draft(code, *final(st)), v.deep_view())),
            Err(e) => evaluated(expr.deep_view(), Draft { code: Seq::empty(), st: old(st).deep_view() }, *optioncfg)
                == Err::<(Draft, IRVarView), CompileError>(e),
        },
{
    let mut irc: Vec<IR> = Vec::new();
    assert(ir_views(irc@) =~= Seq::<IRView>::empty());
    let v = eval_into(&mut irc, expr, st, optioncfg)?;
    Ok((irc, v))
}

} // verus!
