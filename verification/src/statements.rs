//! The code generator for statements.

use vstd::prelude::*;
use vstd::string::*;
use crate::ast::{expr_views, stmt_views, Expr, ExprContext, ExprView, Operator, Slice, SliceView, Stmt, StmtView};
use crate::error::CompileError;
use crate::gen_ir::{
    assign, assign2, binary_op, copy, draft, either_element, either_element_code, emit, emit_all, eval_into,
    evaluated, fixed_array, h_at, h_cell, h_element, h_element_code, index_slot, m_at, m_cell, m_element,
    m_element_code, names_fixed_array, new_label, note, num, number, op2, operator_of, remark, slot, temp,
    var, Access, Draft, ElementAccess,
};
use crate::ir::{ir_views, lemma_block_view, IROp, IRVar, IRVarView, IRView, IR};
use crate::options::Options;
use crate::symbols::{texts, SymbolTable, TableView};
use crate::text::{decimal, push_decimal, push_text, text_is};

verus! {

/// The last store to an element of an array in H and in M: the pointer,
/// the index and the temporary that holds the address. A store to the next
/// element of the same array through the same temporary only has to add 1
/// to the address.
pub struct Pairs {
    pub vh: Option<(IRVarView, IRVarView, u8)>,
    pub vm: Option<(IRVarView, IRVarView, u8)>,
}

/// No store is remembered.
pub open spec fn no_pairs() -> Pairs {
    Pairs { vh: None, vm: None }
}

/// How far a list of statements is compiled.
pub enum Progress {
    /// The statement is compiled.
    Next { d: Draft, pairs: Pairs },
    /// The statement defines a section without code: nothing of the list
    /// is kept.
    Empty { st: TableView },
}

/// A statement compiled, or a failure.
pub type Lowered = Result<Progress, CompileError>;

/// The variable that a name stands for, if it is a cell of H.
pub open spec fn assignable(v: IRVarView) -> Result<IRVarView, CompileError> {
    match v.tovar() {
        IRVarView::H { .. } | IRVarView::Ht { .. } | IRVarView::Hx { .. } => Ok(v.tovar()),
        _ => Err(CompileError::NotAssignable),
    }
}

/// The index before a constant index, modulo 2^32; the largest number for
/// an index that is no constant.
pub open spec fn index_before(ind: IRVarView) -> u32 {
    match ind {
        IRVarView::Number { value } => if value == 0 {
            4294967295
        } else {
            (value - 1) as u32
        },
        _ => 4294967295,
    }
}

/// Whether a store through `t` to the element `ind` of the array at `addr`
/// follows the remembered store: same array, same temporary, next index.
pub open spec fn follows(last: Option<(IRVarView, IRVarView, u8)>, addr: IRVarView, ind: IRVarView, t: u8) -> bool {
    match last {
        Some((a, IRVarView::Number { value }, tt)) => a == addr && value == index_before(ind) && tt == t,
        _ => false,
    }
}

/// The labels for an access to an element of an array: two where it is
/// not known whether the array lies in H or in M, else none.
pub open spec fn element_labels(d: Draft, addr: IRVarView, suffix: Seq<char>) -> Result<
    (Draft, Option<(Seq<char>, Seq<char>)>),
    CompileError,
> {
    match addr {
        IRVarView::VH(_) | IRVarView::VM(_) => Ok((d, None)),
        _ => match d.label("isM"@ + suffix) {
            Err(e) => Err(e),
            Ok((d1, m_label)) => match d1.label("MorHdone"@ + suffix) {
                Err(e) => Err(e),
                Ok((d2, done_label)) => Ok((d2, Some((m_label, done_label)))),
            },
        },
    }
}

/// The code for an access to an element of an array.
pub open spec fn element_code(
    addr: IRVarView,
    ind: IRVarView,
    t: u8,
    access: Access,
    labels: Option<(Seq<char>, Seq<char>)>,
) -> Seq<IRView> {
    match addr {
        IRVarView::VH(_) => h_element_code(addr, ind, t, access),
        IRVarView::VM(_) => m_element_code(addr, ind, t, access),
        _ => match labels {
            Some((m_label, done_label)) => either_element_code(addr, ind, t, access, m_label, done_label),
            None => Seq::empty(),
        },
    }
}

/// `target op= value` for a name.
pub open spec fn aug_name_code(id: Seq<char>, op: Operator, val: IRVarView, d: Draft) -> Lowered {
    if !d.st.symbols.contains_key(id) {
        Err(CompileError::UnknownVariable)
    } else {
        match assignable(d.st.symbols[id]) {
            Err(e) => Err(e),
            Ok(target) => match binary_op(op) {
                None => Err(CompileError::UnsupportedOperator),
                Some(o) => Ok(Progress::Next { d: d.emit(op2(target, target, o, val)).free(val), pairs: no_pairs() }),
            },
        }
    }
}

/// `array[index] op= value`, where `array` is one of the four arrays of
/// the configuration, in H or in M. The remembered stores stay.
pub open spec fn aug_fixed_code(
    in_h: bool,
    index: ExprView,
    op: Operator,
    val: IRVarView,
    d: Draft,
    pairs: Pairs,
    opts: Options,
) -> Lowered
{
    match evaluated(index, d, opts) {
        Err(e) => Err(e),
        Ok((d1, ind_var)) => match d1.index_slot(ind_var, false) {
            Err(e) => Err(e),
            Ok((d2, ind)) => {
                let cell = if in_h {
                    h_at(ind)
                } else {
                    m_at(ind)
                };
                match binary_op(op) {
                    None => Err(CompileError::UnsupportedOperator),
                    Some(o) => Ok(
                        Progress::Next {
                            d: d2.emit(op2(cell, cell, o, val)).free(ind_var).free(cell).free(val),
                            pairs,
                        },
                    ),
                }
            },
        },
    }
}

/// `array[index] op= value` for an allocated array.
pub open spec fn aug_element_code(
    array: ExprView,
    index: ExprView,
    op: Operator,
    val: IRVarView,
    d: Draft,
    opts: Options,
) -> Lowered {
    match evaluated(array, d, opts) {
        Err(e) => Err(e),
        Ok((d1, addr)) => match evaluated(index, d1, opts) {
            Err(e) => Err(e),
            Ok((d2, ind_var)) => match d2.temp() {
                Err(e) => Err(e),
                Ok((d3, t)) => match element_labels(d3, addr, "_augassign"@) {
                    Err(e) => Err(e),
                    Ok((d4, labels)) => match binary_op(op) {
                        None => Err(CompileError::UnsupportedOperator),
                        Some(o) => Ok(
                            Progress::Next {
                                d: d4.emit_all(
                                    element_code(addr, ind_var, t, Access::Update { op: o, value: val }, labels),
                                ).free(slot(t)).free(ind_var).free(addr).free(val),
                                pairs: no_pairs(),
                            },
                        ),
                    },
                },
            },
        },
    }
}

/// `target = value` for a name: a name that is new gets the next cell of
/// the frame. The name remembers whether it holds a pointer into H or M.
pub open spec fn assign_name_code(id: Seq<char>, val: IRVarView, d: Draft) -> Lowered {
    let found: Result<(Draft, IRVarView), CompileError> = if d.st.symbols.contains_key(id) {
        match assignable(d.st.symbols[id]) {
            Ok(v) => Ok((d, v)),
            Err(e) => Err(e),
        }
    } else {
        match d.stack_var() {
            Err(e) => Err(e),
            Ok((d1, pos)) => {
                let v = IRVarView::Ht { stack_offset: pos, local: true, orig_name: id };
                Ok((d1.bind(id, v), v))
            },
        }
    };
    match found {
        Err(e) => Err(e),
        Ok((d2, target)) => Ok(
            Progress::Next {
                d: d2.bind(
                    id,
                    match val {
                        IRVarView::VM(_) => IRVarView::VM(Box::new(target)),
                        IRVarView::VH(_) => IRVarView::VH(Box::new(target)),
                        _ => target,
                    },
                ).emit(copy(target, val)).free(val),
                pairs: no_pairs(),
            },
        ),
    }
}

/// `array[index] = value`, where `array` is one of the four arrays of the
/// configuration. The remembered stores stay.
pub open spec fn assign_fixed_code(in_h: bool, index: ExprView, val: IRVarView, d: Draft, pairs: Pairs, opts: Options) -> Lowered {
    match evaluated(index, d, opts) {
        Err(e) => Err(e),
        Ok((d1, ind_var)) => match d1.index_slot(ind_var, false) {
            Err(e) => Err(e),
            Ok((d2, ind)) => {
                let cell = if in_h {
                    h_at(ind)
                } else {
                    m_at(ind)
                };
                Ok(Progress::Next { d: d2.emit(copy(cell, val)).free(ind_var).free(slot(ind)).free(val), pairs })
            },
        },
    }
}

/// A store that follows the remembered store: the address moves on by 1.
pub open spec fn next_element_code(cell: IRVarView, t: u8, val: IRVarView) -> Seq<IRView> {
    seq![op2(slot(t), slot(t), IROp::Add, number(1)), copy(cell, val)]
}

/// `array[index] = value` for an allocated array. The store is remembered
/// where it is known whether the array lies in H or in M.
pub open spec fn assign_element_code(
    array: ExprView,
    index: ExprView,
    val: IRVarView,
    d: Draft,
    pairs: Pairs,
    opts: Options,
) -> Lowered {
    match evaluated(array, d, opts) {
        Err(e) => Err(e),
        Ok((d1, addr)) => match evaluated(index, d1, opts) {
            Err(e) => Err(e),
            Ok((d2, ind_var)) => match d2.temp() {
                Err(e) => Err(e),
                Ok((d3, t)) => match element_labels(d3, addr, "_assign"@) {
                    Err(e) => Err(e),
                    Ok((d4, labels)) => {
                        let code = match addr {
                            IRVarView::VH(_) => if follows(pairs.vh, addr, ind_var, t) {
                                next_element_code(h_at(t), t, val)
                            } else {
                                h_element_code(addr, ind_var, t, Access::Store { value: val })
                            },
                            IRVarView::VM(_) => if follows(pairs.vm, addr, ind_var, t) {
                                next_element_code(m_at(t), t, val)
                            } else {
                                m_element_code(addr, ind_var, t, Access::Store { value: val })
                            },
                            _ => element_code(addr, ind_var, t, Access::Store { value: val }, labels),
                        };
                        Ok(
                            Progress::Next {
                                d: d4.emit_all(code).free(slot(t)).free(ind_var).free(addr).free(val),
                                pairs: match addr {
                                    IRVarView::VH(_) => Pairs { vh: Some((addr, ind_var, t)), vm: None },
                                    IRVarView::VM(_) => Pairs { vh: None, vm: Some((addr, ind_var, t)) },
                                    _ => no_pairs(),
                                },
                            },
                        )
                    },
                },
            },
        },
    }
}

/// An assignment, plain or with an operator.
#[verifier::opaque]
pub open spec fn assignment_code(
    target: ExprView,
    op: Option<Operator>,
    value: ExprView,
    d: Draft,
    pairs: Pairs,
    opts: Options,
) -> Lowered {
    match evaluated(value, d, opts) {
        Err(e) => Err(e),
        Ok((d1, val)) => match target {
            ExprView::Name { id, ctx: ExprContext::Store, .. } => match op {
                Some(o) => aug_name_code(id, o, val, d1),
                None => assign_name_code(id, val, d1),
            },
            ExprView::Subscript { value: array, slice, ctx: ExprContext::Store, .. } => match *slice {
                SliceView::Index { value: index } => match fixed_array(*array, ExprContext::Store) {
                    Some(in_h) => match op {
                        Some(o) => aug_fixed_code(in_h, *index, o, val, d1, pairs, opts),
                        None => assign_fixed_code(in_h, *index, val, d1, pairs, opts),
                    },
                    None => match op {
                        Some(o) => aug_element_code(*array, *index, o, val, d1, opts),
                        None => assign_element_code(*array, *index, val, d1, pairs, opts),
                    },
                },
                _ => Err(CompileError::UnsupportedSubscript),
            },
            _ => Err(CompileError::UnsupportedTarget),
        },
    }
}

/// The comment for a parameter of a function.
pub open spec fn argument_remark(name: Seq<char>, pos: u32) -> Seq<char> {
    "Arg "@ + name + " at t0 + "@ + decimal(pos as nat)
}

/// The parameters from the `n`-th on get the next cells of the frame.
pub open spec fn parameters_code(args: Seq<Seq<char>>, n: int, d: Draft, opts: Options) -> Result<
    Draft,
    CompileError,
>
    decreases args.len() - n,
{
    if n < 0 || n >= args.len() {
        Ok(d)
    } else {
        match d.stack_var() {
            Err(e) => Err(e),
            Ok((d1, pos)) => parameters_code(
                args,
                n + 1,
                d1.bind(args[n], IRVarView::Ht { stack_offset: pos, local: true, orig_name: args[n] }).remark(
                    argument_remark(args[n], pos),
                    opts.comments,
                ),
                opts,
            ),
        }
    }
}

/// The comment for a global variable that is reached at its address.
pub open spec fn global_remark_fixed(name: Seq<char>, addr: u32) -> Seq<char> {
    "Global "@ + name + " via H["@ + decimal(addr as nat) + "]"@
}

/// The comment for a global variable that is reached from the global base
/// pointer.
pub open spec fn global_remark_offset(name: Seq<char>, offset: u32) -> Seq<char> {
    "Global "@ + name + " via H[t252+"@ + decimal(offset as nat) + "]"@
}

/// Why a name cannot be made global: the constants of the header are
/// read-only, other names unknown.
pub open spec fn global_error(name: Seq<char>) -> CompileError {
    if name == "hh"@ || name == "hm"@ || name == "ph"@ || name == "pm"@ || name == "n"@ {
        CompileError::ReadOnlyGlobal
    } else {
        CompileError::UnknownGlobal
    }
}

/// How a function reaches a cell of the outermost scope, with the comment
/// that says so.
pub open spec fn global_cell_code(held: IRVarView, name: Seq<char>, d: Draft, opts: Options) -> Result<
    (Draft, IRVarView),
    CompileError,
> {
    match held {
        IRVarView::Hx { addr } => Ok((d.remark(global_remark_fixed(name, addr), opts.comments), held)),
        IRVarView::Ht { stack_offset, local, .. } => if !local {
            Err(global_error(name))
        } else {
            match d.st.global_cell(stack_offset, name, opts.fixed_global_access) {
                Err(e) => Err(e),
                Ok(cell) => Ok(
                    (
                        d.remark(
                            match cell {
                                IRVarView::Hx { addr } => global_remark_fixed(name, addr),
                                _ => global_remark_offset(name, stack_offset),
                            },
                            opts.comments,
                        ),
                        cell,
                    ),
                ),
            }
        },
        _ => Err(global_error(name)),
    }
}

/// The names from the `n`-th on are bound to the variables of the
/// outermost scope.
pub open spec fn globals_code(names: Seq<Seq<char>>, n: int, d: Draft, opts: Options) -> Result<Draft, CompileError>
    decreases names.len() - n,
{
    if n < 0 || n >= names.len() {
        Ok(d)
    } else {
        let name = names[n];
        if d.st.previous.len() == 0 || !d.st.previous[0].contains_key(name) {
            Err(global_error(name))
        } else {
            let bound: Result<(Draft, IRVarView), CompileError> = match d.st.previous[0][name] {
                IRVarView::VH(b) => match global_cell_code(*b, name, d, opts) {
                    Err(e) => Err(e),
                    Ok((d1, cell)) => Ok((d1, IRVarView::VH(Box::new(cell)))),
                },
                IRVarView::VM(b) => match global_cell_code(*b, name, d, opts) {
                    Err(e) => Err(e),
                    Ok((d1, cell)) => Ok((d1, IRVarView::VM(Box::new(cell)))),
                },
                held => global_cell_code(held, name, d, opts),
            };
            match bound {
                Err(e) => Err(e),
                Ok((d1, v)) => globals_code(names, n + 1, d1.bind(name, v), opts),
            }
        }
    }
}

/// Whether the statement defines a section without code: `hcomp` or
/// `pcomp` with `pass` as its body.
pub open spec fn is_empty_section(s: StmtView) -> bool {
    match s {
        StmtView::FunctionDef { name, body, .. } => (name == "pcomp"@ || name == "hcomp"@) && body.len() == 1
            && body[0] is Pass,
        _ => false,
    }
}

/// The draft with a block of code behind it, and the table after the
/// block.
pub open spec fn with_block(d: Draft, block: (Seq<IRView>, TableView)) -> Draft {
    Draft { code: d.code.push(IRView::Block { stmts: block.0 }), st: block.1 }
}

/// The draft inside a loop with the given labels.
pub open spec fn in_loop(d: Draft, begin: Seq<char>, end: Seq<char>) -> Draft {
    Draft {
        st: TableView {
            while_begins: d.st.while_begins.push(begin),
            while_ends: d.st.while_ends.push(end),
            ..d.st
        },
        ..d
    }
}

/// The draft outside the innermost loop.
pub open spec fn out_of_loop(d: Draft) -> Draft {
    Draft {
        st: TableView {
            while_begins: if d.st.while_begins.len() > 0 {
                d.st.while_begins.drop_last()
            } else {
                d.st.while_begins
            },
            while_ends: if d.st.while_ends.len() > 0 {
                d.st.while_ends.drop_last()
            } else {
                d.st.while_ends
            },
            ..d.st
        },
        ..d
    }
}

/// The code for a function: a jump over it, its label, its parameters in
/// the first cells of its frame, its body as a block, and a return for the
/// case that the body has none. The function has a scope of its own.
pub open spec fn function_code(s: StmtView, d: Draft, opts: Options) -> Lowered
    decreases s, 0int,
{
    match s {
        StmtView::FunctionDef { name, args, body, .. } => {
            let inside = Draft { st: d.st.pushed(), ..d }.emit(IRView::GoTo { label: name + "_end~"@ }).emit(
                IRView::Label { label: name },
            ).emit(IRView::MarkTempVarStart);
            match parameters_code(args, 0, inside, opts) {
                Err(e) => Err(e),
                Ok(d1) => match traversed(body, d1.st, opts) {
                    Err(e) => Err(e),
                    Ok(block) => {
                        let d2 = with_block(d1, block).remark(
                            "insert return as it might not be done by the function:"@,
                            opts.comments,
                        ).emit(IRView::Return { var: None }).emit(IRView::MarkTempVarEnd).emit(
                            IRView::Label { label: name + "_end~"@ },
                        );
                        Ok(Progress::Next { d: Draft { st: d2.st.popped(), ..d2 }, pairs: no_pairs() })
                    },
                },
            }
        },
        _ => Err(CompileError::UnsupportedTarget),
    }
}

/// The code for `if`: the test, a jump to the else branch where it fails,
/// and the two branches as blocks.
pub open spec fn if_code(s: StmtView, d: Draft, opts: Options) -> Lowered
    decreases s, 0int,
{
    match s {
        StmtView::If { test, body, orelse, .. } => match evaluated(*test, d, opts) {
            Err(e) => Err(e),
            Ok((d1, cond)) => match d1.label("else"@) {
                Err(e) => Err(e),
                Ok((d2, else_label)) => match d2.label("endif"@) {
                    Err(e) => Err(e),
                    Ok((d3, endif_label)) => {
                        let d4 = d3.free(cond).emit(IRView::IfN { cond_var: cond, goto_label: else_label });
                        match traversed(body, d4.st, opts) {
                            Err(e) => Err(e),
                            Ok(then_block) => {
                                let d5 = with_block(d4, then_block).emit(IRView::GoTo { label: endif_label }).emit(
                                    IRView::Label { label: else_label },
                                );
                                match traversed(orelse, d5.st, opts) {
                                    Err(e) => Err(e),
                                    Ok(else_block) => Ok(
                                        Progress::Next {
                                            d: with_block(d5, else_block).emit(IRView::Label { label: endif_label }),
                                            pairs: no_pairs(),
                                        },
                                    ),
                                }
                            },
                        }
                    },
                },
            },
        },
        _ => Err(CompileError::UnsupportedTarget),
    }
}

/// The code for `while`: the test at the start of each round, the body as
/// a block, and the else branch, which runs when the test fails.
pub open spec fn while_code(s: StmtView, d: Draft, opts: Options) -> Lowered
    decreases s, 0int,
{
    match s {
        StmtView::While { test, body, orelse, .. } => match d.label("while"@) {
            Err(e) => Err(e),
            Ok((d1, while_label)) => match d1.label("whileelse"@) {
                Err(e) => Err(e),
                Ok((d2, else_label)) => match d2.label("whileend"@) {
                    Err(e) => Err(e),
                    Ok((d3, end_label)) => {
                        let d4 = in_loop(d3, while_label, end_label).emit(IRView::Label { label: while_label });
                        match evaluated(*test, d4, opts) {
                            Err(e) => Err(e),
                            Ok((d5, cond)) => {
                                let d6 = d5.free(cond).emit(
                                    IRView::IfN {
                                        cond_var: cond,
                                        goto_label: if orelse.len() > 0 {
                                            else_label
                                        } else {
                                            end_label
                                        },
                                    },
                                );
                                match traversed(body, d6.st, opts) {
                                    Err(e) => Err(e),
                                    Ok(block) => {
                                        let d7 = with_block(d6, block).emit(IRView::GoTo { label: while_label });
                                        let after: Result<Draft, CompileError> = if orelse.len() > 0 {
                                            match traversed(
                                                orelse,
                                                d7.emit(IRView::Label { label: else_label }).st,
                                                opts,
                                            ) {
                                                Err(e) => Err(e),
                                                Ok(else_block) => Ok(
                                                    with_block(
                                                        d7.emit(IRView::Label { label: else_label }),
                                                        else_block,
                                                    ),
                                                ),
                                            }
                                        } else {
                                            Ok(d7)
                                        };
                                        match after {
                                            Err(e) => Err(e),
                                            Ok(d8) => Ok(
                                                Progress::Next {
                                                    d: out_of_loop(d8.emit(IRView::Label { label: end_label })),
                                                    pairs: no_pairs(),
                                                },
                                            ),
                                        }
                                    },
                                }
                            },
                        }
                    },
                },
            },
        },
        _ => Err(CompileError::UnsupportedTarget),
    }
}

/// A statement compiled behind the draft.
pub open spec fn statement_code(s: StmtView, d: Draft, pairs: Pairs, opts: Options) -> Lowered
    decreases s, 1int,
{
    match s {
        StmtView::Pass { .. } => Ok(Progress::Next { d, pairs: no_pairs() }),
        StmtView::AugAssign { target, op, value, .. } => assignment_code(*target, Some(op), *value, d, pairs, opts),
        StmtView::Assign { target, value, .. } => assignment_code(*target, None, *value, d, pairs, opts),
        StmtView::FunctionDef { .. } => if is_empty_section(s) {
            Ok(Progress::Empty { st: d.st })
        } else {
            function_code(s, d, opts)
        },
        StmtView::Expr { value, .. } => match evaluated(*value, d, opts) {
            Err(e) => Err(e),
            Ok((d1, v)) => Ok(Progress::Next { d: d1.free(v), pairs: no_pairs() }),
        },
        StmtView::Global { names, .. } => match globals_code(names, 0, d, opts) {
            Err(e) => Err(e),
            Ok(d1) => Ok(Progress::Next { d: d1, pairs: no_pairs() }),
        },
        StmtView::Nonlocal { .. } => Err(CompileError::UnsupportedNonlocal),
        StmtView::Return { value, .. } => match value {
            Some(e) => match evaluated(e, d, opts) {
                Err(e) => Err(e),
                Ok((d1, v)) => Ok(
                    Progress::Next { d: d1.free(v).emit(IRView::Return { var: Some(v) }), pairs: no_pairs() },
                ),
            },
            None => Ok(Progress::Next { d: d.emit(IRView::Return { var: None }), pairs: no_pairs() }),
        },
        StmtView::If { .. } => if_code(s, d, opts),
        StmtView::While { .. } => while_code(s, d, opts),
        StmtView::Break { .. } => if d.st.while_ends.len() == 0 {
            Err(CompileError::BreakOutsideLoop)
        } else {
            Ok(Progress::Next { d: d.emit(IRView::GoTo { label: d.st.while_ends.last() }), pairs: no_pairs() })
        },
        StmtView::Continue { .. } => if d.st.while_begins.len() == 0 {
            Err(CompileError::ContinueOutsideLoop)
        } else {
            Ok(Progress::Next { d: d.emit(IRView::GoTo { label: d.st.while_begins.last() }), pairs: no_pairs() })
        },
    }
}

/// The statements from the `n`-th on compiled behind the draft: where
/// comments are on, the line of each statement comes before its code.
pub open spec fn statements_code(stmts: Seq<StmtView>, n: int, d: Draft, pairs: Pairs, opts: Options) -> Lowered
    decreases stmts, stmts.len() - n,
{
    if n < 0 || n >= stmts.len() {
        Ok(Progress::Next { d, pairs })
    } else {
        proof {
            assert(decreases_to!(stmts => stmts[n]));
        }
        match statement_code(stmts[n], d.note(stmts[n].location(), opts.comments), pairs, opts) {
            Err(e) => Err(e),
            Ok(Progress::Empty { st }) => Ok(Progress::Empty { st }),
            Ok(Progress::Next { d: d1, pairs: p1 }) => statements_code(stmts, n + 1, d1, p1, opts),
        }
    }
}

/// A list of statements compiled: its code, and the table after it. A
/// list that defines a section without code has no code.
pub open spec fn traversed(stmts: Seq<StmtView>, st: TableView, opts: Options) -> Result<
    (Seq<IRView>, TableView),
    CompileError,
>
    decreases stmts, stmts.len() + 1,
{
    match statements_code(stmts, 0, Draft { code: Seq::empty(), st }, no_pairs(), opts) {
        Err(e) => Err(e),
        Ok(Progress::Empty { st: s }) => Ok((Seq::empty(), s)),
        Ok(Progress::Next { d, .. }) => Ok((d.code, d.st)),
    }
}

/// The last store to an element of an array in H and in M.
pub struct PairState {
    pub vh: Option<(IRVar, IRVar, u8)>,
    pub vm: Option<(IRVar, IRVar, u8)>,
}

/// A remembered store as a value.
pub open spec fn pair_view(p: Option<(IRVar, IRVar, u8)>) -> Option<(IRVarView, IRVarView, u8)> {
    match p {
        Some((a, i, t)) => Some((a.deep_view(), i.deep_view(), t)),
        None => None,
    }
}

impl DeepView for PairState {
    type V = Pairs;

    open spec fn deep_view(&self) -> Pairs {
        Pairs { vh: pair_view(self.vh), vm: pair_view(self.vm) }
    }
}

impl PairState {
    fn forget(&mut self)
        ensures
            final(self).deep_view() == no_pairs(),
    {
        self.vh = None;
        self.vm = None;
    }
}

fn assignable_var(v: &IRVar) -> (r: Result<IRVar, CompileError>)
    ensures
        match r {
            Ok(t) => assignable(v.deep_view()) == Ok::<IRVarView, CompileError>(t.deep_view()),
            Err(e) => assignable(v.deep_view()) == Err::<IRVarView, CompileError>(e),
        },
{
    let t = v.tovar();
    match &t {
        IRVar::H { .. } | IRVar::Ht { .. } | IRVar::Hx { .. } => Ok(t),
        _ => Err(CompileError::NotAssignable),
    }
}

fn follows_last(last: &Option<(IRVar, IRVar, u8)>, addr: &IRVar, ind: &IRVar, t: u8) -> (b: bool)
    ensures
        b == follows(pair_view(*last), addr.deep_view(), ind.deep_view(), t),
{
    let before: u32 = match ind {
        IRVar::Number { value } => {
            if *value == 0 {
                4294967295
            } else {
                *value - 1
            }
        },
        _ => 4294967295,
    };
    match last {
        Some((a, IRVar::Number { value }, tt)) => a.same(addr) && *value == before && *tt == t,
        _ => false,
    }
}

fn labels_for(irc: &Vec<IR>, st: &mut SymbolTable, addr: &IRVar, suffix: &str) -> (r: Result<
    Option<(String, String)>,
    CompileError,
>)
    ensures
        match r {
            Ok(labels) => element_labels(draft(*irc, *old(st)), addr.deep_view(), suffix@) == Ok::<
                (Draft, Option<(Seq<char>, Seq<char>)>),
                CompileError,
            >(
                (
                    draft(*irc, *final(st)),
                    match labels {
                        Some((m, done)) => Some((m@, done@)),
                        None => None,
                    },
                ),
            ),
            Err(e) => element_labels(draft(*irc, *old(st)), addr.deep_view(), suffix@) == Err::<
                (Draft, Option<(Seq<char>, Seq<char>)>),
                CompileError,
            >(e),
        },
{
    match addr {
        IRVar::VH(_) | IRVar::VM(_) => Ok(None),
        _ => {
            let mut m_name = String::from_str("isM");
            push_text(&mut m_name, suffix);
            let mut done_name = String::from_str("MorHdone");
            push_text(&mut done_name, suffix);
            let m_label = new_label(st, m_name.as_str(), Ghost(ir_views(irc@)))?;
            let done_label = new_label(st, done_name.as_str(), Ghost(ir_views(irc@)))?;
            Ok(Some((m_label, done_label)))
        },
    }
}

fn element_with(addr: &IRVar, ind: &IRVar, t: u8, access: &ElementAccess, labels: Option<(String, String)>) -> (code:
    Vec<IR>)
    ensures
        ir_views(code@) == element_code(
            addr.deep_view(),
            ind.deep_view(),
            t,
            access.deep_view(),
            match labels {
                Some((m, done)) => Some((m@, done@)),
                None => None,
            },
        ),
{
    match addr {
        IRVar::VH(_) => h_element(addr, ind, t, access),
        IRVar::VM(_) => m_element(addr, ind, t, access),
        _ => match labels {
            Some((m, done)) => either_element(addr, ind, t, access, m, done),
            None => {
                let code: Vec<IR> = Vec::new();
                assert(ir_views(code@) =~= Seq::<IRView>::empty());
                code
            },
        },
    }
}

fn aug_name(irc: &mut Vec<IR>, st: &mut SymbolTable, id: &String, op: Operator, val: &IRVar, pairs: &mut PairState) -> (r:
    Result<bool, CompileError>)
    ensures
        match r {
            Ok(true) => aug_name_code(id@, op, val.deep_view(), draft(*old(irc), *old(st))) == Ok::<Progress, CompileError>(
                Progress::Next { d: draft(*final(irc), *final(st)), pairs: final(pairs).deep_view() },
            ),
            Ok(false) => aug_name_code(id@, op, val.deep_view(), draft(*old(irc), *old(st))) == Ok::<Progress, CompileError>(Progress::Empty { st: final(st).deep_view() }),
            Err(e) => aug_name_code(id@, op, val.deep_view(), draft(*old(irc), *old(st))) == Err::<Progress, CompileError>(e),
        },
{
    let target = match st.symbols.get(id.as_str()) {
        Some(v) => assignable_var(v)?,
        None => {
            return Err(CompileError::UnknownVariable);
        },
    };
    let o = match operator_of(op) {
        Some(o) => o,
        None => {
            return Err(CompileError::UnsupportedOperator);
        },
    };
    emit(irc, assign2(target.clone(), target, o, val.clone()), Ghost(st.deep_view()));
    st.try_freeing_varid(val);
    pairs.forget();
    Ok(true)
}

fn fixed_cell(in_h: bool, ind: u8) -> (v: IRVar)
    ensures
        v.deep_view() == if in_h {
            h_at(ind)
        } else {
            m_at(ind)
        },
{
    if in_h {
        h_cell(ind)
    } else {
        m_cell(ind)
    }
}

fn aug_fixed(
    irc: &mut Vec<IR>,
    st: &mut SymbolTable,
    in_h: bool,
    index: &Expr,
    op: Operator,
    val: &IRVar,
    pairs: &mut PairState,
    optioncfg: &Options,
) -> (r: Result<bool, CompileError>)
    ensures
        match r {
            Ok(true) => aug_fixed_code(in_h, index.deep_view(), op, val.deep_view(), draft(*old(irc), *old(st)), old(pairs).deep_view(), *optioncfg) == Ok::<Progress, CompileError>(
                Progress::Next { d: draft(*final(irc), *final(st)), pairs: final(pairs).deep_view() },
            ),
            Ok(false) => aug_fixed_code(in_h, index.deep_view(), op, val.deep_view(), draft(*old(irc), *old(st)), old(pairs).deep_view(), *optioncfg) == Ok::<Progress, CompileError>(Progress::Empty { st: final(st).deep_view() }),
            Err(e) => aug_fixed_code(in_h, index.deep_view(), op, val.deep_view(), draft(*old(irc), *old(st)), old(pairs).deep_view(), *optioncfg) == Err::<Progress, CompileError>(e),
        },
{
    let ind_var = eval_into(irc, index, st, optioncfg)?;
    let ind = index_slot(irc, st, &ind_var, false)?;
    let o = match operator_of(op) {
        Some(o) => o,
        None => {
            return Err(CompileError::UnsupportedOperator);
        },
    };
    let cell = fixed_cell(in_h, ind);
    emit(irc, assign2(cell.clone(), cell.clone(), o, val.clone()), Ghost(st.deep_view()));
    st.try_freeing_varid(&ind_var);
    st.try_freeing_varid(&cell);
    st.try_freeing_varid(val);
    Ok(true)
}

fn aug_element(
    irc: &mut Vec<IR>,
    st: &mut SymbolTable,
    array: &Expr,
    index: &Expr,
    op: Operator,
    val: &IRVar,
    pairs: &mut PairState,
    optioncfg: &Options,
) -> (r: Result<bool, CompileError>)
    ensures
        match r {
            Ok(true) => aug_element_code(array.deep_view(), index.deep_view(), op, val.deep_view(), draft(*old(irc), *old(st)), *optioncfg) == Ok::<Progress, CompileError>(
                Progress::Next { d: draft(*final(irc), *final(st)), pairs: final(pairs).deep_view() },
            ),
            Ok(false) => aug_element_code(array.deep_view(), index.deep_view(), op, val.deep_view(), draft(*old(irc), *old(st)), *optioncfg) == Ok::<Progress, CompileError>(Progress::Empty { st: final(st).deep_view() }),
            Err(e) => aug_element_code(array.deep_view(), index.deep_view(), op, val.deep_view(), draft(*old(irc), *old(st)), *optioncfg) == Err::<Progress, CompileError>(e),
        },
{
    let addr = eval_into(irc, array, st, optioncfg)?;
    let ind_var = eval_into(irc, index, st, optioncfg)?;
    let t = temp(st, Ghost(ir_views(irc@)))?;
    let labels = labels_for(irc, st, &addr, "_augassign")?;
    let o = match operator_of(op) {
        Some(o) => o,
        None => {
            return Err(CompileError::UnsupportedOperator);
        },
    };
    let access = ElementAccess::Update { op: o, value: val.clone() };
    emit_all(irc, element_with(&addr, &ind_var, t, &access, labels), Ghost(st.deep_view()));
    st.try_freeing_varid(&var(t));
    st.try_freeing_varid(&ind_var);
    st.try_freeing_varid(&addr);
    st.try_freeing_varid(val);
    pairs.forget();
    Ok(true)
}

fn bind(st: &mut SymbolTable, name: String, v: IRVar, Ghost(code): Ghost<Seq<IRView>>)
    ensures
        (Draft { code, st: final(st).deep_view() }) == (Draft { code, st: old(st).deep_view() }).bind(
            name@,
            v.deep_view(),
        ),
{
    st.symbols.insert(name, v);
    assert(final(st).deep_view().symbols =~= old(st).deep_view().symbols.insert(name@, v.deep_view()));
}

fn stack_var(st: &mut SymbolTable, Ghost(code): Ghost<Seq<IRView>>) -> (r: Result<u32, CompileError>)
    ensures
        match r {
            Ok(pos) => (Draft { code, st: old(st).deep_view() }).stack_var() == Ok::<(Draft, u32), CompileError>(
                (Draft { code, st: final(st).deep_view() }, pos),
            ),
            Err(e) => (Draft { code, st: old(st).deep_view() }).stack_var() == Err::<(Draft, u32), CompileError>(e),
        },
{
    st.make_stack_var()
}

fn assign_name(irc: &mut Vec<IR>, st: &mut SymbolTable, id: &String, val: &IRVar, pairs: &mut PairState) -> (r: Result<
    bool,
    CompileError,
>)
    ensures
        match r {
            Ok(true) => assign_name_code(id@, val.deep_view(), draft(*old(irc), *old(st))) == Ok::<Progress, CompileError>(
                Progress::Next { d: draft(*final(irc), *final(st)), pairs: final(pairs).deep_view() },
            ),
            Ok(false) => assign_name_code(id@, val.deep_view(), draft(*old(irc), *old(st))) == Ok::<Progress, CompileError>(Progress::Empty { st: final(st).deep_view() }),
            Err(e) => assign_name_code(id@, val.deep_view(), draft(*old(irc), *old(st))) == Err::<Progress, CompileError>(e),
        },
{
    let known = match st.symbols.get(id.as_str()) {
        Some(v) => Some(assignable_var(v)?),
        None => None,
    };
    let target = match known {
        Some(t) => t,
        None => {
            let pos = stack_var(st, Ghost(ir_views(irc@)))?;
            let v = IRVar::Ht { stack_offset: pos, local: true, orig_name: id.clone() };
            bind(st, id.clone(), v.clone(), Ghost(ir_views(irc@)));
            v
        },
    };
    let typed = match val {
        IRVar::VM(_) => IRVar::VM(Box::new(target.clone())),
        IRVar::VH(_) => IRVar::VH(Box::new(target.clone())),
        _ => target.clone(),
    };
    bind(st, id.clone(), typed, Ghost(ir_views(irc@)));
    emit(irc, assign(target, val.clone()), Ghost(st.deep_view()));
    st.try_freeing_varid(val);
    pairs.forget();
    Ok(true)
}

fn assign_fixed(
    irc: &mut Vec<IR>,
    st: &mut SymbolTable,
    in_h: bool,
    index: &Expr,
    val: &IRVar,
    pairs: &mut PairState,
    optioncfg: &Options,
) -> (r: Result<bool, CompileError>)
    ensures
        match r {
            Ok(true) => assign_fixed_code(in_h, index.deep_view(), val.deep_view(), draft(*old(irc), *old(st)), old(pairs).deep_view(), *optioncfg) == Ok::<Progress, CompileError>(
                Progress::Next { d: draft(*final(irc), *final(st)), pairs: final(pairs).deep_view() },
            ),
            Ok(false) => assign_fixed_code(in_h, index.deep_view(), val.deep_view(), draft(*old(irc), *old(st)), old(pairs).deep_view(), *optioncfg) == Ok::<Progress, CompileError>(Progress::Empty { st: final(st).deep_view() }),
            Err(e) => assign_fixed_code(in_h, index.deep_view(), val.deep_view(), draft(*old(irc), *old(st)), old(pairs).deep_view(), *optioncfg) == Err::<Progress, CompileError>(e),
        },
{
    let ind_var = eval_into(irc, index, st, optioncfg)?;
    let ind = index_slot(irc, st, &ind_var, false)?;
    emit(irc, assign(fixed_cell(in_h, ind), val.clone()), Ghost(st.deep_view()));
    st.try_freeing_varid(&ind_var);
    st.try_freeing_varid(&var(ind));
    st.try_freeing_varid(val);
    Ok(true)
}

fn next_element(cell: IRVar, t: u8, val: &IRVar) -> (code: Vec<IR>)
    ensures
        ir_views(code@) == next_element_code(cell.deep_view(), t, val.deep_view()),
{
    let code = vec![assign2(var(t), var(t), IROp::Add, num(1)), assign(cell, val.clone())];
    assert(ir_views(code@) =~= next_element_code(cell.deep_view(), t, val.deep_view()));
    code
}

fn assign_element(
    irc: &mut Vec<IR>,
    st: &mut SymbolTable,
    array: &Expr,
    index: &Expr,
    val: &IRVar,
    pairs: &mut PairState,
    optioncfg: &Options,
) -> (r: Result<bool, CompileError>)
    ensures
        match r {
            Ok(true) => assign_element_code(array.deep_view(), index.deep_view(), val.deep_view(), draft(*old(irc), *old(st)), old(pairs).deep_view(), *optioncfg) == Ok::<Progress, CompileError>(
                Progress::Next { d: draft(*final(irc), *final(st)), pairs: final(pairs).deep_view() },
            ),
            Ok(false) => assign_element_code(array.deep_view(), index.deep_view(), val.deep_view(), draft(*old(irc), *old(st)), old(pairs).deep_view(), *optioncfg) == Ok::<Progress, CompileError>(Progress::Empty { st: final(st).deep_view() }),
            Err(e) => assign_element_code(array.deep_view(), index.deep_view(), val.deep_view(), draft(*old(irc), *old(st)), old(pairs).deep_view(), *optioncfg) == Err::<Progress, CompileError>(e),
        },
{
    let addr = eval_into(irc, array, st, optioncfg)?;
    let ind_var = eval_into(irc, index, st, optioncfg)?;
    let t = temp(st, Ghost(ir_views(irc@)))?;
    let labels = labels_for(irc, st, &addr, "_assign")?;
    let access = ElementAccess::Store { value: val.clone() };
    let code = match &addr {
        IRVar::VH(_) => {
            if follows_last(&pairs.vh, &addr, &ind_var, t) {
                next_element(h_cell(t), t, val)
            } else {
                h_element(&addr, &ind_var, t, &access)
            }
        },
        IRVar::VM(_) => {
            if follows_last(&pairs.vm, &addr, &ind_var, t) {
                next_element(m_cell(t), t, val)
            } else {
                m_element(&addr, &ind_var, t, &access)
            }
        },
        _ => element_with(&addr, &ind_var, t, &access, labels),
    };
    emit_all(irc, code, Ghost(st.deep_view()));
    st.try_freeing_varid(&var(t));
    st.try_freeing_varid(&ind_var);
    st.try_freeing_varid(&addr);
    st.try_freeing_varid(val);
    match &addr {
        IRVar::VH(_) => {
            pairs.vh = Some((addr.clone(), ind_var, t));
            pairs.vm = None;
        },
        IRVar::VM(_) => {
            pairs.vh = None;
            pairs.vm = Some((addr.clone(), ind_var, t));
        },
        _ => {
            pairs.forget();
        },
    }
    Ok(true)
}

fn assignment(
    irc: &mut Vec<IR>,
    st: &mut SymbolTable,
    target: &Expr,
    op: Option<Operator>,
    value: &Expr,
    pairs: &mut PairState,
    optioncfg: &Options,
) -> (r: Result<bool, CompileError>)
    ensures
        match r {
            Ok(true) => assignment_code(target.deep_view(), op, value.deep_view(), draft(*old(irc), *old(st)), old(pairs).deep_view(), *optioncfg) == Ok::<Progress, CompileError>(
                Progress::Next { d: draft(*final(irc), *final(st)), pairs: final(pairs).deep_view() },
            ),
            Ok(false) => assignment_code(target.deep_view(), op, value.deep_view(), draft(*old(irc), *old(st)), old(pairs).deep_view(), *optioncfg) == Ok::<Progress, CompileError>(Progress::Empty { st: final(st).deep_view() }),
            Err(e) => assignment_code(target.deep_view(), op, value.deep_view(), draft(*old(irc), *old(st)), old(pairs).deep_view(), *optioncfg) == Err::<Progress, CompileError>(e),
        },
{
    reveal(assignment_code);
    let val = eval_into(irc, value, st, optioncfg)?;
    match target {
        Expr::Name { id, ctx: ExprContext::Store, location } => {
            match op {
                Some(o) => aug_name(irc, st, id, o, &val, pairs),
                None => assign_name(irc, st, id, &val, pairs),
            }
        },
        Expr::Subscript { value: array, slice, ctx: ExprContext::Store, location } => {
            assert(target.deep_view() == (ExprView::Subscript {
                value: Box::new((**array).deep_view()),
                slice: Box::new((**slice).deep_view()),
                ctx: ExprContext::Store,
                location: location@,
            }));
            match &**slice {
                Slice::Index { value: index } => {
                    assert((**slice).deep_view() == (SliceView::Index { value: Box::new((**index).deep_view()) }));
                    match names_fixed_array(&**array, ExprContext::Store) {
                        Some(in_h) => {
                            match op {
                                Some(o) => aug_fixed(irc, st, in_h, &**index, o, &val, pairs, optioncfg),
                                None => assign_fixed(irc, st, in_h, &**index, &val, pairs, optioncfg),
                            }
                        },
                        None => {
                            match op {
                                Some(o) => aug_element(irc, st, &**array, &**index, o, &val, pairs, optioncfg),
                                None => assign_element(irc, st, &**array, &**index, &val, pairs, optioncfg),
                            }
                        },
                    }
                },
                _ => Err(CompileError::UnsupportedSubscript),
            }
        },
        _ => Err(CompileError::UnsupportedTarget),
    }
}

fn parameters(irc: &mut Vec<IR>, st: &mut SymbolTable, args: &Vec<String>, optioncfg: &Options) -> (r: Result<
    (),
    CompileError,
>)
    ensures
        match r {
            Ok(_) => parameters_code(crate::ast::name_views(args@), 0, draft(*old(irc), *old(st)), *optioncfg) == Ok::<Draft, CompileError>(draft(*final(irc), *final(st))),
            Err(e) => parameters_code(crate::ast::name_views(args@), 0, draft(*old(irc), *old(st)), *optioncfg) == Err::<Draft, CompileError>(e),
        },
{
    let ghost names = crate::ast::name_views(args@);
    let ghost goal = parameters_code(names, 0, draft(*old(irc), *old(st)), *optioncfg);
    let mut n: usize = 0;
    while n < args.len()
        invariant
            n <= args.len(),
            names == crate::ast::name_views(args@),
            goal == parameters_code(names, 0, draft(*old(irc), *old(st)), *optioncfg),
            goal == parameters_code(names, n as int, draft(*irc, *st), *optioncfg),
        decreases args.len() - n,
    {
        let arg = &args[n];
        assert(names[n as int] == arg@);
        let pos = stack_var(st, Ghost(ir_views(irc@)))?;
        bind(
            st,
            arg.clone(),
            IRVar::Ht { stack_offset: pos, local: true, orig_name: arg.clone() },
            Ghost(ir_views(irc@)),
        );
        if optioncfg.comments {
            let mut text = String::from_str("Arg ");
            push_text(&mut text, arg.as_str());
            push_text(&mut text, " at t0 + ");
            push_decimal(&mut text, pos as u64);
            remark(irc, text, optioncfg, Ghost(st.deep_view()));
        }
        n += 1;
    }
    Ok(())
}

fn names_header_constant(name: &str) -> (e: CompileError)
    ensures
        e == global_error(name@),
{
    if text_is(name, "hh") || text_is(name, "hm") || text_is(name, "ph") || text_is(name, "pm") || text_is(
        name,
        "n",
    ) {
        CompileError::ReadOnlyGlobal
    } else {
        CompileError::UnknownGlobal
    }
}

fn global_cell(irc: &mut Vec<IR>, st: &SymbolTable, held: &IRVar, name: &String, optioncfg: &Options) -> (r:
    Result<IRVar, CompileError>)
    ensures
        match r {
            Ok(v) => global_cell_code(held.deep_view(), name@, draft(*old(irc), *st), *optioncfg) == Ok::<
                (Draft, IRVarView),
                CompileError,
            >((draft(*final(irc), *st), v.deep_view())),
            Err(e) => global_cell_code(held.deep_view(), name@, draft(*old(irc), *st), *optioncfg) == Err::<
                (Draft, IRVarView),
                CompileError,
            >(e),
        },
{
    let cell = match held {
        IRVar::Hx { addr } => IRVar::Hx { addr: *addr },
        IRVar::Ht { stack_offset, local, orig_name } => {
            if !*local {
                return Err(names_header_constant(name.as_str()));
            }
            st.global_cell(*stack_offset, name.as_str(), optioncfg.fixed_global_access)?
        },
        _ => {
            return Err(names_header_constant(name.as_str()));
        },
    };
    if optioncfg.comments {
        let mut text = String::from_str("Global ");
        push_text(&mut text, name.as_str());
        match &cell {
            IRVar::Hx { addr } => {
                push_text(&mut text, " via H[");
                push_decimal(&mut text, *addr as u64);
                push_text(&mut text, "]");
            },
            IRVar::Ht { stack_offset, local, orig_name } => {
                push_text(&mut text, " via H[t252+");
                push_decimal(&mut text, *stack_offset as u64);
                push_text(&mut text, "]");
            },
            _ => {},
        }
        remark(irc, text, optioncfg, Ghost(st.deep_view()));
    }
    Ok(cell)
}

fn globals(irc: &mut Vec<IR>, st: &mut SymbolTable, names: &Vec<String>, optioncfg: &Options) -> (r: Result<
    (),
    CompileError,
>)
    ensures
        match r {
            Ok(_) => globals_code(crate::ast::name_views(names@), 0, draft(*old(irc), *old(st)), *optioncfg) == Ok::<Draft, CompileError>(draft(*final(irc), *final(st))),
            Err(e) => globals_code(crate::ast::name_views(names@), 0, draft(*old(irc), *old(st)), *optioncfg) == Err::<Draft, CompileError>(e),
        },
{
    let ghost all = crate::ast::name_views(names@);
    let ghost goal = globals_code(all, 0, draft(*old(irc), *old(st)), *optioncfg);
    let mut n: usize = 0;
    while n < names.len()
        invariant
            n <= names.len(),
            all == crate::ast::name_views(names@),
            goal == globals_code(all, 0, draft(*old(irc), *old(st)), *optioncfg),
            goal == globals_code(all, n as int, draft(*irc, *st), *optioncfg),
        decreases names.len() - n,
    {
        let name = &names[n];
        assert(all[n as int] == name@);
        if st.previous.len() == 0 {
            return Err(names_header_constant(name.as_str()));
        }
        let v = match st.previous[0].get(name.as_str()) {
            None => {
                return Err(names_header_constant(name.as_str()));
            },
            Some(held) => {
                match held {
                    IRVar::VH(b) => IRVar::VH(Box::new(global_cell(irc, st, &**b, name, optioncfg)?)),
                    IRVar::VM(b) => IRVar::VM(Box::new(global_cell(irc, st, &**b, name, optioncfg)?)),
                    other => global_cell(irc, st, other, name, optioncfg)?,
                }
            },
        };
        bind(st, name.clone(), v, Ghost(ir_views(irc@)));
        n += 1;
    }
    Ok(())
}

fn defines_empty_section(node: &Stmt) -> (b: bool)
    ensures
        b == is_empty_section(node.deep_view()),
{
    match node {
        Stmt::FunctionDef { name, args, body, decorator_list, annotation, location } => {
            if (text_is(name.as_str(), "pcomp") || text_is(name.as_str(), "hcomp")) && body.len() == 1 {
                assert(stmt_views(body@)[0] == body@[0].deep_view());
                match &body[0] {
                    Stmt::Pass { .. } => true,
                    _ => false,
                }
            } else {
                false
            }
        },
        _ => false,
    }
}

fn add_block(irc: &mut Vec<IR>, block: Vec<IR>, Ghost(before): Ghost<TableView>, Ghost(after): Ghost<TableView>)
    ensures
        (Draft { code: ir_views(final(irc)@), st: after }) == with_block(
            Draft { code: ir_views(old(irc)@), st: before },
            (ir_views(block@), after),
        ),
{
    proof {
        lemma_block_view(block);
    }
    emit(irc, IR::Block { stmts: block }, Ghost(after));
}

fn function_def(irc: &mut Vec<IR>, st: &mut SymbolTable, node: &Stmt, pairs: &mut PairState, optioncfg: &Options) -> (r:
    Result<bool, CompileError>)
    ensures
        match r {
            Ok(true) => function_code(node.deep_view(), draft(*old(irc), *old(st)), *optioncfg) == Ok::<Progress, CompileError>(
                Progress::Next { d: draft(*final(irc), *final(st)), pairs: final(pairs).deep_view() },
            ),
            Ok(false) => function_code(node.deep_view(), draft(*old(irc), *old(st)), *optioncfg) == Ok::<Progress, CompileError>(Progress::Empty { st: final(st).deep_view() }),
            Err(e) => function_code(node.deep_view(), draft(*old(irc), *old(st)), *optioncfg) == Err::<Progress, CompileError>(e),
        },
    decreases node, 0int,
{
    match node {
        Stmt::FunctionDef { name, args, body, decorator_list, annotation, location } => {
            st.push();
            let mut end_label = name.clone();
            push_text(&mut end_label, "_end~");
            emit(irc, IR::GoTo { label: end_label.clone() }, Ghost(st.deep_view()));
            emit(irc, IR::Label { label: name.clone() }, Ghost(st.deep_view()));
            emit(irc, IR::MarkTempVarStart, Ghost(st.deep_view()));
            parameters(irc, st, args, optioncfg)?;
            let ghost before = st.deep_view();
            let block = traverse_list(body, st, optioncfg)?;
            add_block(irc, block, Ghost(before), Ghost(st.deep_view()));
            remark(
                irc,
                String::from_str("insert return as it might not be done by the function:"),
                optioncfg,
                Ghost(st.deep_view()),
            );
            emit(irc, IR::Return { var: None }, Ghost(st.deep_view()));
            emit(irc, IR::MarkTempVarEnd, Ghost(st.deep_view()));
            emit(irc, IR::Label { label: end_label }, Ghost(st.deep_view()));
            if st.in_scope() {
                st.pop();
            }
            pairs.forget();
            Ok(true)
        },
        _ => Err(CompileError::UnsupportedTarget),
    }
}

fn if_stmt(irc: &mut Vec<IR>, st: &mut SymbolTable, node: &Stmt, pairs: &mut PairState, optioncfg: &Options) -> (r:
    Result<bool, CompileError>)
    ensures
        match r {
            Ok(true) => if_code(node.deep_view(), draft(*old(irc), *old(st)), *optioncfg) == Ok::<Progress, CompileError>(
                Progress::Next { d: draft(*final(irc), *final(st)), pairs: final(pairs).deep_view() },
            ),
            Ok(false) => if_code(node.deep_view(), draft(*old(irc), *old(st)), *optioncfg) == Ok::<Progress, CompileError>(Progress::Empty { st: final(st).deep_view() }),
            Err(e) => if_code(node.deep_view(), draft(*old(irc), *old(st)), *optioncfg) == Err::<Progress, CompileError>(e),
        },
    decreases node, 0int,
{
    match node {
        Stmt::If { test, body, orelse, location } => {
            let cond = eval_into(irc, &**test, st, optioncfg)?;
            let else_label = new_label(st, "else", Ghost(ir_views(irc@)))?;
            let endif_label = new_label(st, "endif", Ghost(ir_views(irc@)))?;
            st.try_freeing_varid(&cond);
            emit(irc, IR::IfN { cond_var: cond, goto_label: else_label.clone() }, Ghost(st.deep_view()));
            let ghost before = st.deep_view();
            let then_block = traverse_list(body, st, optioncfg)?;
            add_block(irc, then_block, Ghost(before), Ghost(st.deep_view()));
            emit(irc, IR::GoTo { label: endif_label.clone() }, Ghost(st.deep_view()));
            emit(irc, IR::Label { label: else_label }, Ghost(st.deep_view()));
            let ghost middle = st.deep_view();
            let else_block = traverse_list(orelse, st, optioncfg)?;
            add_block(irc, else_block, Ghost(middle), Ghost(st.deep_view()));
            emit(irc, IR::Label { label: endif_label }, Ghost(st.deep_view()));
            pairs.forget();
            Ok(true)
        },
        _ => Err(CompileError::UnsupportedTarget),
    }
}

fn enter_loop(st: &mut SymbolTable, begin: String, end: String, Ghost(code): Ghost<Seq<IRView>>)
    ensures
        (Draft { code, st: final(st).deep_view() }) == in_loop(Draft { code, st: old(st).deep_view() }, begin@, end@),
{
    st.while_begins.push(begin);
    st.while_ends.push(end);
    assert(final(st).deep_view().while_begins =~= old(st).deep_view().while_begins.push(begin@));
    assert(final(st).deep_view().while_ends =~= old(st).deep_view().while_ends.push(end@));
}

fn leave_loop(st: &mut SymbolTable, Ghost(code): Ghost<Seq<IRView>>)
    ensures
        (Draft { code, st: final(st).deep_view() }) == out_of_loop(Draft { code, st: old(st).deep_view() }),
{
    st.while_begins.pop();
    st.while_ends.pop();
    let ghost v = final(st).deep_view();
    let ghost w = out_of_loop(Draft { code, st: old(st).deep_view() }).st;
    assert(v.while_begins =~= w.while_begins);
    assert(v.while_ends =~= w.while_ends);
}

fn while_stmt(irc: &mut Vec<IR>, st: &mut SymbolTable, node: &Stmt, pairs: &mut PairState, optioncfg: &Options) -> (r:
    Result<bool, CompileError>)
    ensures
        match r {
            Ok(true) => while_code(node.deep_view(), draft(*old(irc), *old(st)), *optioncfg) == Ok::<Progress, CompileError>(
                Progress::Next { d: draft(*final(irc), *final(st)), pairs: final(pairs).deep_view() },
            ),
            Ok(false) => while_code(node.deep_view(), draft(*old(irc), *old(st)), *optioncfg) == Ok::<Progress, CompileError>(Progress::Empty { st: final(st).deep_view() }),
            Err(e) => while_code(node.deep_view(), draft(*old(irc), *old(st)), *optioncfg) == Err::<Progress, CompileError>(e),
        },
    decreases node, 0int,
{
    match node {
        Stmt::While { test, body, orelse, location } => {
            let while_label = new_label(st, "while", Ghost(ir_views(irc@)))?;
            let else_label = new_label(st, "whileelse", Ghost(ir_views(irc@)))?;
            let end_label = new_label(st, "whileend", Ghost(ir_views(irc@)))?;
            enter_loop(st, while_label.clone(), end_label.clone(), Ghost(ir_views(irc@)));
            emit(irc, IR::Label { label: while_label.clone() }, Ghost(st.deep_view()));
            let cond = eval_into(irc, &**test, st, optioncfg)?;
            st.try_freeing_varid(&cond);
            let target = if orelse.len() > 0 {
                else_label.clone()
            } else {
                end_label.clone()
            };
            emit(irc, IR::IfN { cond_var: cond, goto_label: target }, Ghost(st.deep_view()));
            let ghost before = st.deep_view();
            let block = traverse_list(body, st, optioncfg)?;
            add_block(irc, block, Ghost(before), Ghost(st.deep_view()));
            emit(irc, IR::GoTo { label: while_label }, Ghost(st.deep_view()));
            if orelse.len() > 0 {
                emit(irc, IR::Label { label: else_label }, Ghost(st.deep_view()));
                let ghost middle = st.deep_view();
                let else_block = traverse_list(orelse, st, optioncfg)?;
                add_block(irc, else_block, Ghost(middle), Ghost(st.deep_view()));
            }
            emit(irc, IR::Label { label: end_label }, Ghost(st.deep_view()));
            leave_loop(st, Ghost(ir_views(irc@)));
            pairs.forget();
            Ok(true)
        },
        _ => Err(CompileError::UnsupportedTarget),
    }
}

fn last_text(v: &Vec<String>) -> (r: Option<String>)
    ensures
        match r {
            Some(s) => v@.len() > 0 && s@ == texts(v@).last(),
            None => v@.len() == 0,
        },
{
    if v.len() == 0 {
        None
    } else {
        Some(v[v.len() - 1].clone())
    }
}

#[verifier::rlimit(50)]
fn statement(irc: &mut Vec<IR>, st: &mut SymbolTable, node: &Stmt, pairs: &mut PairState, optioncfg: &Options) -> (r:
    Result<bool, CompileError>)
    ensures
        match r {
            Ok(true) => statement_code(node.deep_view(), draft(*old(irc), *old(st)), old(pairs).deep_view(), *optioncfg) == Ok::<Progress, CompileError>(
                Progress::Next { d: draft(*final(irc), *final(st)), pairs: final(pairs).deep_view() },
            ),
            Ok(false) => statement_code(node.deep_view(), draft(*old(irc), *old(st)), old(pairs).deep_view(), *optioncfg) == Ok::<Progress, CompileError>(Progress::Empty { st: final(st).deep_view() }),
            Err(e) => statement_code(node.deep_view(), draft(*old(irc), *old(st)), old(pairs).deep_view(), *optioncfg) == Err::<Progress, CompileError>(e),
        },
    decreases node, 1int,
{
    match node {
        Stmt::Pass { location } => {
            pairs.forget();
            Ok(true)
        },
        Stmt::AugAssign { target, op, value, location } => assignment(
            irc,
            st,
            &**target,
            Some(*op),
            &**value,
            pairs,
            optioncfg,
        ),
        Stmt::Assign { target, value, location } => assignment(irc, st, &**target, None, &**value, pairs, optioncfg),
        Stmt::FunctionDef { .. } => {
            if defines_empty_section(node) {
                Ok(false)
            } else {
                function_def(irc, st, node, pairs, optioncfg)
            }
        },
        Stmt::Expr { value, location } => {
            let v = eval_into(irc, &**value, st, optioncfg)?;
            st.try_freeing_varid(&v);
            pairs.forget();
            Ok(true)
        },
        Stmt::Global { names, location } => {
            globals(irc, st, names, optioncfg)?;
            pairs.forget();
            Ok(true)
        },
        Stmt::Nonlocal { .. } => Err(CompileError::UnsupportedNonlocal),
        Stmt::Return { value, location } => {
            match value {
                Some(e) => {
                    let v = eval_into(irc, e, st, optioncfg)?;
                    st.try_freeing_varid(&v);
                    emit(irc, IR::Return { var: Some(v) }, Ghost(st.deep_view()));
                },
                None => {
                    emit(irc, IR::Return { var: None }, Ghost(st.deep_view()));
                },
            }
            pairs.forget();
            Ok(true)
        },
        Stmt::If { .. } => if_stmt(irc, st, node, pairs, optioncfg),
        Stmt::While { .. } => while_stmt(irc, st, node, pairs, optioncfg),
        Stmt::Break { location } => {
            match last_text(&st.while_ends) {
                None => Err(CompileError::BreakOutsideLoop),
                Some(end) => {
                    emit(irc, IR::GoTo { label: end }, Ghost(st.deep_view()));
                    pairs.forget();
                    Ok(true)
                },
            }
        },
        Stmt::Continue { location } => {
            match last_text(&st.while_begins) {
                None => Err(CompileError::ContinueOutsideLoop),
                Some(begin) => {
                    emit(irc, IR::GoTo { label: begin }, Ghost(st.deep_view()));
                    pairs.forget();
                    Ok(true)
                },
            }
        },
    }
}

/// Compiles a list of statements: returns its code.
pub fn traverse_list(tree: &Vec<Stmt>, st: &mut SymbolTable, optioncfg: &Options) -> (r: Result<Vec<IR>, CompileError>)
    ensures
        match r {
            Ok(code) => traversed(stmt_views(tree@), old(st).deep_view(), *optioncfg) == Ok::<
                (Seq<IRView>, TableView),
                CompileError,
            >((ir_views(code@), final(st).deep_view())),
            Err(e) => traversed(stmt_views(tree@), old(st).deep_view(), *optioncfg) == Err::<
                (Seq<IRView>, TableView),
                CompileError,
            >(e),
        },
    decreases tree,
{
    let ghost all = stmt_views(tree@);
    let ghost start = Draft { code: Seq::empty(), st: old(st).deep_view() };
    let ghost goal = statements_code(all, 0, start, no_pairs(), *optioncfg);
    let mut irc: Vec<IR> = Vec::new();
    assert(ir_views(irc@) =~= Seq::<IRView>::empty());
    let mut pairs = PairState { vh: None, vm: None };
    let mut n: usize = 0;
    while n < tree.len()
        invariant
            n <= tree.len(),
            all == stmt_views(tree@),
            start == (Draft { code: Seq::empty(), st: old(st).deep_view() }),
            goal == statements_code(all, 0, start, no_pairs(), *optioncfg),
            goal == statements_code(all, n as int, draft(irc, *st), pairs.deep_view(), *optioncfg),
        decreases tree.len() - n,
    {
        let node = &tree[n];
        assert(all[n as int] == node.deep_view());
        note(&mut irc, st, node.location(), optioncfg);
        match statement(&mut irc, st, node, &mut pairs, optioncfg) {
            Err(e) => {
                return Err(e);
            },
            Ok(false) => {
                let empty: Vec<IR> = Vec::new();
                assert(ir_views(empty@) =~= Seq::<IRView>::empty());
                return Ok(empty);
            },
            Ok(true) => {},
        }
        n += 1;
    }
    Ok(irc)
}

/// Compiles a list of statements to intermediate code.
pub fn traverse(tree: &[Stmt], st: &mut SymbolTable, optioncfg: &Options) -> (r: Result<Vec<IR>, CompileError>)
    ensures
        match r {
            Ok(code) => traversed(stmt_views(tree@), old(st).deep_view(), *optioncfg) == Ok::<
                (Seq<IRView>, TableView),
                CompileError,
            >((ir_views(code@), final(st).deep_view())),
            Err(e) => traversed(stmt_views(tree@), old(st).deep_view(), *optioncfg) == Err::<
                (Seq<IRView>, TableView),
                CompileError,
            >(e),
        },
{
    let mut owned: Vec<Stmt> = Vec::new();
    let mut i: usize = 0;
    while i < tree.len()
        invariant
            i <= tree.len(),
            owned.len() == i,
            forall|j: int| 0 <= j < i ==> owned@[j].deep_view() == tree@[j].deep_view(),
        decreases tree.len() - i,
    {
        owned.push(tree[i].clone());
        i += 1;
    }
    assert(stmt_views(owned@) =~= stmt_views(tree@));
    traverse_list(&owned, st, optioncfg)
}

} // verus!
