//! The parser: from the tokens of a section to its statements, by
//! recursive descent.

use vstd::prelude::*;
use vstd::string::*;
use crate::ast::{
    expr_views, keyword_views, name_views, slice_views, stmt_views, BoolOp, CmpOp, Expr, ExprContext, ExprView, Keyword,
    KeywordView, Operator, Slice, SliceView, Stmt, StmtView, UnaryOp,
};
use crate::error::CompileError;
use crate::text::text_is;
use crate::tok::{tok_views, Tok, TokKind, TokView};

verus! {

/// An expression parsed, and the place behind it.
pub type ParsedExpr = Result<(ExprView, int), CompileError>;

/// The kind of the token at a place, if there is one.
#[verifier::opaque]
pub open spec fn kind_at(t: Seq<TokView>, pos: int) -> Option<TokKind> {
    if 0 <= pos < t.len() {
        Some(t[pos].kind)
    } else {
        None
    }
}

/// The kind of the token at a place, which is none where the place is
/// behind the last token.
pub open spec fn token_at(t: Seq<TokView>, pos: int) -> Option<TokKind> {
    if 0 <= pos < t.len() {
        kind_at(t, pos)
    } else {
        None
    }
}

/// Whether the token at a place is of the kind.
pub open spec fn is_at(t: Seq<TokView>, pos: int, kind: TokKind) -> bool {
    0 <= pos < t.len() && kind_at(t, pos) == Some(kind)
}

/// Whether the token at a place is an operator with the text.
pub open spec fn op_at(t: Seq<TokView>, pos: int, text: Seq<char>) -> bool {
    is_at(t, pos, TokKind::OP) && value_at(t, pos) == text
}

/// The text of the token at a place.
#[verifier::opaque]
pub open spec fn value_at(t: Seq<TokView>, pos: int) -> Seq<char> {
    if 0 <= pos < t.len() {
        t[pos].value
    } else {
        Seq::empty()
    }
}

/// The number that the token at a place spells.
#[verifier::opaque]
pub open spec fn number_at(t: Seq<TokView>, pos: int) -> u32 {
    if 0 <= pos < t.len() {
        t[pos].number
    } else {
        0
    }
}

/// The location of the token at a place.
#[verifier::opaque]
pub open spec fn location_at(t: Seq<TokView>, pos: int) -> Seq<char> {
    if 0 <= pos < t.len() {
        t[pos].location
    } else {
        Seq::empty()
    }
}

/// The operator with two operands that a kind of token stands for, and
/// how tightly it binds: `|`, `^`, `&`, the shifts, sums and products, in
/// rising order.
#[verifier::opaque]
pub open spec fn binary_of(kind: TokKind) -> Option<(Operator, int)> {
    match kind {
        TokKind::VBAR => Some((Operator::BitOr, 1)),
        TokKind::CIRCUMFLEX => Some((Operator::BitXor, 2)),
        TokKind::AMPER => Some((Operator::BitAnd, 3)),
        TokKind::LEFTSHIFT => Some((Operator::LShift, 4)),
        TokKind::RIGHTSHIFT => Some((Operator::RShift, 4)),
        TokKind::PLUS => Some((Operator::Add, 5)),
        TokKind::MINUS => Some((Operator::Sub, 5)),
        TokKind::STAR => Some((Operator::Mult, 6)),
        TokKind::SLASH => Some((Operator::Div, 6)),
        TokKind::PERCENT => Some((Operator::Mod, 6)),
        TokKind::DOUBLESLASH => Some((Operator::FloorDiv, 6)),
        TokKind::AT => Some((Operator::MatMult, 6)),
        _ => None,
    }
}

/// The operator of an assignment with an operator.
#[verifier::opaque]
pub open spec fn augmented_of(kind: TokKind) -> Option<Operator> {
    match kind {
        TokKind::PLUSEQUAL => Some(Operator::Add),
        TokKind::MINEQUAL => Some(Operator::Sub),
        TokKind::STAREQUAL => Some(Operator::Mult),
        TokKind::SLASHEQUAL => Some(Operator::Div),
        TokKind::PERCENTEQUAL => Some(Operator::Mod),
        TokKind::AMPEREQUAL => Some(Operator::BitAnd),
        TokKind::VBAREQUAL => Some(Operator::BitOr),
        TokKind::CIRCUMFLEXEQUAL => Some(Operator::BitXor),
        TokKind::LEFTSHIFTEQUAL => Some(Operator::LShift),
        TokKind::RIGHTSHIFTEQUAL => Some(Operator::RShift),
        TokKind::DOUBLESTAREQUAL => Some(Operator::Pow),
        TokKind::DOUBLESLASHEQUAL => Some(Operator::FloorDiv),
        TokKind::ATEQUAL => Some(Operator::MatMult),
        _ => None,
    }
}

/// The comparison at a place, and the number of tokens it takes: `not in`
/// and `is not` take two.
#[verifier::opaque]
pub open spec fn comparison_at(t: Seq<TokView>, pos: int) -> Option<(CmpOp, int)> {
    match token_at(t, pos) {
        Some(TokKind::LESS) => Some((CmpOp::Lt, 1)),
        Some(TokKind::GREATER) => Some((CmpOp::Gt, 1)),
        Some(TokKind::EQEQUAL) => Some((CmpOp::Eq, 1)),
        Some(TokKind::GREATEREQUAL) => Some((CmpOp::GtE, 1)),
        Some(TokKind::LESSEQUAL) => Some((CmpOp::LtE, 1)),
        Some(TokKind::NOTEQUAL) => Some((CmpOp::NotEq, 1)),
        Some(TokKind::NAMEin) => Some((CmpOp::In, 1)),
        Some(TokKind::NAMEnot) => if is_at(t, pos + 1, TokKind::NAMEin) {
            Some((CmpOp::NotIn, 2))
        } else {
            None
        },
        Some(TokKind::NAMEis) => if is_at(t, pos + 1, TokKind::NAMEnot) {
            Some((CmpOp::IsNot, 2))
        } else {
            Some((CmpOp::Is, 1))
        },
        _ => None,
    }
}

/// The expression as the target of an assignment: a name, a subscript
/// of which the subscripted name counts as a target too, an attribute, a
/// starred expression, a tuple or a list. Of a tuple and a list the
/// elements stay as they were written. Nothing else can be assigned to.
pub open spec fn as_target(e: ExprView) -> Option<ExprView> {
    match e {
        ExprView::Name { id, location, .. } => Some(ExprView::Name { id, ctx: ExprContext::Store, location }),
        ExprView::Subscript { value, slice, location, .. } => Some(
            ExprView::Subscript {
                value: match *value {
                    ExprView::Name { id, location: l, .. } => Box::new(
                        ExprView::Name { id, ctx: ExprContext::Store, location: l },
                    ),
                    _ => value,
                },
                slice,
                ctx: ExprContext::Store,
                location,
            },
        ),
        ExprView::Attribute { value, attr, location, .. } => Some(
            ExprView::Attribute { value, attr, ctx: ExprContext::Store, location },
        ),
        ExprView::Starred { value, location, .. } => Some(
            ExprView::Starred { value, ctx: ExprContext::Store, location },
        ),
        ExprView::Tuple { elts, location, .. } => Some(ExprView::Tuple { elts, ctx: ExprContext::Store, location }),
        ExprView::List { elts, location, .. } => Some(ExprView::List { elts, ctx: ExprContext::Store, location }),
        _ => None,
    }
}

/// An item of a list: an expression, or a starred expression.
pub open spec fn parsed_item(t: Seq<TokView>, pos: int) -> ParsedExpr
    decreases t.len() - pos, 9int,
{
    if is_at(t, pos, TokKind::STAR) {
        match parsed_binary(t, pos + 1, 1) {
            Err(e) => Err(e),
            Ok((value, p)) => Ok(
                (ExprView::Starred { value: Box::new(value), ctx: ExprContext::Load, location: location_at(t, pos) }, p),
            ),
        }
    } else {
        parsed_test(t, pos)
    }
}

/// Whether a list of items without brackets ends at a place: at the end
/// of the tokens, of the line or of the statement, at a closing bracket,
/// at `=` or at a colon.
pub open spec fn ends_list(t: Seq<TokView>, pos: int) -> bool {
    match token_at(t, pos) {
        None => true,
        Some(kind) => kind == TokKind::NEWLINE || kind == TokKind::SEMI || kind == TokKind::RPAR || kind
            == TokKind::RSQB || kind == TokKind::RBRACE || kind == TokKind::EQUAL || kind == TokKind::COLON,
    }
}

/// The further items of a list without brackets, from the place behind a
/// comma on: the list ends where no comma follows an item, or behind a
/// comma that nothing follows.
pub open spec fn parsed_more(t: Seq<TokView>, pos: int, done: Seq<ExprView>) -> Result<
    (Seq<ExprView>, int),
    CompileError,
>
    decreases t.len() - pos, 10int,
{
    if ends_list(t, pos) {
        Ok((done, pos))
    } else {
        match parsed_item(t, pos) {
            Err(e) => Err(e),
            Ok((item, p)) => if p <= pos || p > t.len() {
                Err(CompileError::UnexpectedToken)
            } else if is_at(t, p, TokKind::COMMA) {
                parsed_more(t, p + 1, done.push(item))
            } else {
                Ok((done.push(item), p))
            },
        }
    }
}

/// An expression, or a tuple: items with commas between them. One item
/// with a comma behind it is a tuple of one element.
pub open spec fn parsed_list(t: Seq<TokView>, pos: int) -> ParsedExpr
    decreases t.len() - pos, 10int,
{
    match parsed_item(t, pos) {
        Err(e) => Err(e),
        Ok((first, p)) => if p <= pos || p > t.len() {
            Err(CompileError::UnexpectedToken)
        } else if is_at(t, p, TokKind::COMMA) {
            match parsed_more(t, p + 1, seq![first]) {
                Err(e) => Err(e),
                Ok((elts, q)) => Ok(
                    (ExprView::Tuple { elts, ctx: ExprContext::Load, location: first.location() }, q),
                ),
            }
        } else {
            Ok((first, p))
        },
    }
}

/// The items of a list between brackets from a place on, up to the kind
/// of token that closes the list: expressions, starred or not, with
/// commas between them, and a comma may follow the last.
pub open spec fn parsed_items(t: Seq<TokView>, pos: int, close: TokKind, done: Seq<ExprView>) -> Result<
    (Seq<ExprView>, int),
    CompileError,
>
    decreases t.len() - pos, 11int,
{
    if pos < 0 || pos >= t.len() {
        Err(CompileError::UnexpectedToken)
    } else if is_at(t, pos, close) {
        Ok((done, pos + 1))
    } else {
        match parsed_item(t, pos) {
            Err(e) => Err(e),
            Ok((item, p)) => if p <= pos || p > t.len() {
                Err(CompileError::UnexpectedToken)
            } else if is_at(t, p, TokKind::COMMA) {
                parsed_items(t, p + 1, close, done.push(item))
            } else if is_at(t, p, close) {
                Ok((done.push(item), p + 1))
            } else {
                Err(CompileError::UnexpectedToken)
            },
        }
    }
}

/// The keys and the values of the entries of a dict.
pub type Pairs = (Seq<ExprView>, Seq<ExprView>);

/// An entry of a dict behind the entries before it: a key, a colon and a
/// value.
pub open spec fn parsed_entry(t: Seq<TokView>, pos: int, done: Pairs) -> Result<(Pairs, int), CompileError>
    decreases t.len() - pos, 9int,
{
    match parsed_test(t, pos) {
        Err(e) => Err(e),
        Ok((key, p)) => if p <= pos || p >= t.len() || !is_at(t, p, TokKind::COLON) {
            Err(CompileError::UnexpectedToken)
        } else {
            match parsed_test(t, p + 1) {
                Err(e) => Err(e),
                Ok((value, q)) => Ok(((done.0.push(key), done.1.push(value)), q)),
            }
        },
    }
}

/// The entries of a dict from a place on, up to the closing brace, with
/// commas between them; a comma may follow the last.
pub open spec fn parsed_entries(t: Seq<TokView>, pos: int, done: Pairs) -> Result<(Pairs, int), CompileError>
    decreases t.len() - pos, 10int,
{
    if pos < 0 || pos >= t.len() {
        Err(CompileError::UnexpectedToken)
    } else if is_at(t, pos, TokKind::RBRACE) {
        Ok((done, pos + 1))
    } else {
        match parsed_entry(t, pos, done) {
            Err(e) => Err(e),
            Ok((more, q)) => if q <= pos || q > t.len() {
                Err(CompileError::UnexpectedToken)
            } else if is_at(t, q, TokKind::COMMA) {
                parsed_entries(t, q + 1, more)
            } else if is_at(t, q, TokKind::RBRACE) {
                Ok((more, q + 1))
            } else {
                Err(CompileError::UnexpectedToken)
            },
        }
    }
}

/// An atom: a name, a number, a string, a constant, three points, an
/// expression or a tuple in parentheses, a list or a dict. Empty
/// parentheses are the tuple without elements.
pub open spec fn parsed_atom(t: Seq<TokView>, pos: int) -> ParsedExpr
    decreases t.len() - pos, 1int,
{
    let location = location_at(t, pos);
    match token_at(t, pos) {
        None => Err(CompileError::UnexpectedToken),
        Some(TokKind::NAME) => Ok((ExprView::Name { id: value_at(t, pos), ctx: ExprContext::Load, location }, pos + 1)),
        Some(TokKind::NUMBER) => Ok((ExprView::Num { n: number_at(t, pos), location }, pos + 1)),
        Some(TokKind::STRING) => Ok((ExprView::Str { s: value_at(t, pos), location }, pos + 1)),
        Some(TokKind::NAMENone) => Ok((ExprView::NameConstant { value: 0, location }, pos + 1)),
        Some(TokKind::NAMEFalse) => Ok((ExprView::NameConstant { value: 0, location }, pos + 1)),
        Some(TokKind::NAMETrue) => Ok((ExprView::NameConstant { value: 1, location }, pos + 1)),
        Some(TokKind::OP) => if value_at(t, pos) == "..."@ {
            Ok((ExprView::Ellipsis { location }, pos + 1))
        } else {
            Err(CompileError::UnexpectedToken)
        },
        Some(TokKind::LPAR) => if is_at(t, pos + 1, TokKind::RPAR) {
            Ok((ExprView::Tuple { elts: Seq::empty(), ctx: ExprContext::Load, location }, pos + 2))
        } else {
            match parsed_list(t, pos + 1) {
                Err(e) => Err(e),
                Ok((e, p)) => if is_at(t, p, TokKind::RPAR) {
                    Ok((e, p + 1))
                } else {
                    Err(CompileError::UnexpectedToken)
                },
            }
        },
        Some(TokKind::LSQB) => match parsed_items(t, pos + 1, TokKind::RSQB, Seq::empty()) {
            Err(e) => Err(e),
            Ok((elts, p)) => Ok((ExprView::List { elts, ctx: ExprContext::Load, location }, p)),
        },
        Some(TokKind::LBRACE) => match parsed_entries(t, pos + 1, (Seq::empty(), Seq::empty())) {
            Err(e) => Err(e),
            Ok((entries, p)) => Ok((ExprView::Dict { keys: entries.0, values: entries.1, location }, p)),
        },
        Some(_) => Err(CompileError::UnexpectedToken),
    }
}

/// The arguments of a call: those that stand for themselves, and those
/// with a keyword.
pub type Args = (Seq<ExprView>, Seq<KeywordView>);

/// An argument of a call behind the arguments before it: `name = value`
/// and `**value` go to the arguments with a keyword, of which the second
/// has none; an expression, starred or not, stands for itself.
pub open spec fn parsed_argument(t: Seq<TokView>, pos: int, done: Args) -> Result<(Args, int), CompileError>
    decreases t.len() - pos, 10int,
{
    if is_at(t, pos, TokKind::NAME) && is_at(t, pos + 1, TokKind::EQUAL) {
        match parsed_test(t, pos + 2) {
            Err(e) => Err(e),
            Ok((value, p)) => Ok(
                ((done.0, done.1.push(KeywordView { arg: Some(value_at(t, pos)), value: Box::new(value) })), p),
            ),
        }
    } else if is_at(t, pos, TokKind::DOUBLESTAR) {
        match parsed_test(t, pos + 1) {
            Err(e) => Err(e),
            Ok((value, p)) => Ok(((done.0, done.1.push(KeywordView { arg: None, value: Box::new(value) })), p)),
        }
    } else {
        match parsed_item(t, pos) {
            Err(e) => Err(e),
            Ok((value, p)) => Ok(((done.0.push(value), done.1), p)),
        }
    }
}

/// The arguments of a call from a place on, up to the closing
/// parenthesis, with commas between them; a comma may follow the last.
pub open spec fn parsed_arguments(t: Seq<TokView>, pos: int, done: Args) -> Result<(Args, int), CompileError>
    decreases t.len() - pos, 11int,
{
    if pos < 0 || pos >= t.len() {
        Err(CompileError::UnexpectedToken)
    } else if is_at(t, pos, TokKind::RPAR) {
        Ok((done, pos + 1))
    } else {
        match parsed_argument(t, pos, done) {
            Err(e) => Err(e),
            Ok((more, q)) => if q <= pos || q > t.len() {
                Err(CompileError::UnexpectedToken)
            } else if is_at(t, q, TokKind::COMMA) {
                parsed_arguments(t, q + 1, more)
            } else if is_at(t, q, TokKind::RPAR) {
                Ok((more, q + 1))
            } else {
                Err(CompileError::UnexpectedToken)
            },
        }
    }
}

/// A call of a name, from the opening parenthesis on: only a name can
/// be called.
pub open spec fn parsed_call(t: Seq<TokView>, pos: int, e: ExprView) -> ParsedExpr
    decreases t.len() - pos, 0int,
{
    if pos < 0 || pos >= t.len() {
        Err(CompileError::UnexpectedToken)
    } else {
        match name_of(e) {
            Some((id, location)) => match parsed_arguments(t, pos + 1, (Seq::empty(), Seq::empty())) {
                Err(x) => Err(x),
                Ok((all, p)) => Ok((ExprView::Call { func: id, args: all.0, keywords: all.1, location }, p)),
            },
            None => Err(CompileError::UnexpectedToken),
        }
    }
}

/// A bound of a slice, which may be missing: there is none before a
/// colon, a comma or the closing bracket.
pub open spec fn parsed_bound(t: Seq<TokView>, pos: int) -> Result<(Option<ExprView>, int), CompileError>
    decreases t.len() - pos, 9int,
{
    if pos < 0 || pos >= t.len() || is_at(t, pos, TokKind::COLON) || is_at(t, pos, TokKind::COMMA) || is_at(
        t,
        pos,
        TokKind::RSQB,
    ) {
        Ok((None, pos))
    } else {
        match parsed_test(t, pos) {
            Err(e) => Err(e),
            Ok((e, p)) => Ok((Some(e), p)),
        }
    }
}

/// The upper bound and the step of a slice, from the place behind its
/// first colon on.
pub open spec fn parsed_range(t: Seq<TokView>, pos: int, lower: Option<ExprView>) -> Result<
    (SliceView, int),
    CompileError,
>
    decreases t.len() - pos, 10int,
{
    match parsed_bound(t, pos) {
        Err(e) => Err(e),
        Ok((upper, q)) => if q < pos || q > t.len() {
            Err(CompileError::UnexpectedToken)
        } else if is_at(t, q, TokKind::COLON) {
            match parsed_bound(t, q + 1) {
                Err(e) => Err(e),
                Ok((step, r)) => Ok((SliceView::Slice { lower, upper, step }, r)),
            }
        } else {
            Ok((SliceView::Slice { lower, upper, step: None }, q))
        },
    }
}

/// What stands between the brackets of a subscript: an index, or a slice
/// `lower:upper` or `lower:upper:step`, each part of which may be
/// missing.
pub open spec fn parsed_slice(t: Seq<TokView>, pos: int) -> Result<(SliceView, int), CompileError>
    decreases t.len() - pos, 10int,
{
    match parsed_bound(t, pos) {
        Err(e) => Err(e),
        Ok((lower, p)) => if p < pos || p > t.len() {
            Err(CompileError::UnexpectedToken)
        } else if is_at(t, p, TokKind::COLON) {
            parsed_range(t, p + 1, lower)
        } else {
            match lower {
                Some(e) => Ok((SliceView::Index { value: Box::new(e) }, p)),
                None => Err(CompileError::UnexpectedToken),
            }
        },
    }
}

/// The further indices and slices of a subscript, from the place behind
/// a comma up to the closing bracket.
pub open spec fn parsed_dims(t: Seq<TokView>, pos: int, done: Seq<SliceView>) -> Result<
    (Seq<SliceView>, int),
    CompileError,
>
    decreases t.len() - pos, 11int,
{
    if pos < 0 || pos >= t.len() {
        Err(CompileError::UnexpectedToken)
    } else if is_at(t, pos, TokKind::RSQB) {
        Ok((done, pos + 1))
    } else {
        match parsed_slice(t, pos) {
            Err(e) => Err(e),
            Ok((dim, p)) => if p < pos || p > t.len() {
                Err(CompileError::UnexpectedToken)
            } else if is_at(t, p, TokKind::COMMA) {
                parsed_dims(t, p + 1, done.push(dim))
            } else if is_at(t, p, TokKind::RSQB) {
                Ok((done.push(dim), p + 1))
            } else {
                Err(CompileError::UnexpectedToken)
            },
        }
    }
}

/// What stands between the brackets of a subscript, up to the closing
/// bracket: one index or slice, or several with commas between them.
pub open spec fn parsed_index(t: Seq<TokView>, pos: int) -> Result<(SliceView, int), CompileError>
    decreases t.len() - pos, 12int,
{
    match parsed_slice(t, pos) {
        Err(x) => Err(x),
        Ok((first, p)) => if p < pos || p > t.len() {
            Err(CompileError::UnexpectedToken)
        } else if is_at(t, p, TokKind::RSQB) {
            Ok((first, p + 1))
        } else if is_at(t, p, TokKind::COMMA) {
            match parsed_dims(t, p + 1, seq![first]) {
                Err(x) => Err(x),
                Ok((dims, q)) => Ok((SliceView::ExtSlice { dims }, q)),
            }
        } else {
            Err(CompileError::UnexpectedToken)
        },
    }
}

/// A subscript of an expression, from the opening bracket on.
pub open spec fn parsed_subscript(t: Seq<TokView>, pos: int, e: ExprView) -> ParsedExpr
    decreases t.len() - pos, 0int,
{
    if pos < 0 || pos >= t.len() {
        Err(CompileError::UnexpectedToken)
    } else {
        match parsed_index(t, pos + 1) {
            Err(x) => Err(x),
            Ok((slice, p)) => Ok(
                (
                    ExprView::Subscript {
                        value: Box::new(e),
                        slice: Box::new(slice),
                        ctx: ExprContext::Load,
                        location: e.location(),
                    },
                    p,
                ),
            ),
        }
    }
}

/// An attribute of an expression, from the point on.
pub open spec fn parsed_attribute(t: Seq<TokView>, pos: int, e: ExprView) -> ParsedExpr {
    if is_at(t, pos + 1, TokKind::NAME) {
        Ok(
            (
                ExprView::Attribute {
                    value: Box::new(e),
                    attr: value_at(t, pos + 1),
                    ctx: ExprContext::Load,
                    location: e.location(),
                },
                pos + 2,
            ),
        )
    } else {
        Err(CompileError::UnexpectedToken)
    }
}

/// What follows an expression at a place: a call, a subscript or an
/// attribute of it; nothing where none of them begins there.
pub open spec fn parsed_trailer(t: Seq<TokView>, pos: int, e: ExprView) -> Option<ParsedExpr>
    decreases t.len() - pos, 1int,
{
    if is_at(t, pos, TokKind::LPAR) {
        Some(parsed_call(t, pos, e))
    } else if is_at(t, pos, TokKind::LSQB) {
        Some(parsed_subscript(t, pos, e))
    } else if is_at(t, pos, TokKind::DOT) {
        Some(parsed_attribute(t, pos, e))
    } else {
        None
    }
}

/// What follows an atom from a place on: calls, subscripts and
/// attributes.
pub open spec fn parsed_trailers(t: Seq<TokView>, pos: int, e: ExprView) -> ParsedExpr
    decreases t.len() - pos, 2int,
{
    match parsed_trailer(t, pos, e) {
        None => Ok((e, pos)),
        Some(Err(x)) => Err(x),
        Some(Ok((longer, p))) => if p <= pos || p > t.len() {
            Err(CompileError::UnexpectedToken)
        } else {
            parsed_trailers(t, p, longer)
        },
    }
}

/// An atom with what follows it, and a power: `**` binds more tightly
/// than a sign before it, and a sign may stand behind it.
pub open spec fn parsed_power(t: Seq<TokView>, pos: int) -> ParsedExpr
    decreases t.len() - pos, 2int,
{
    match parsed_atom(t, pos) {
        Err(e) => Err(e),
        Ok((atom, p)) => if p <= pos || p > t.len() {
            Err(CompileError::UnexpectedToken)
        } else {
            match parsed_trailers(t, p, atom) {
                Err(e) => Err(e),
                Ok((base, q)) => if q < p || q > t.len() {
                    Err(CompileError::UnexpectedToken)
                } else if is_at(t, q, TokKind::DOUBLESTAR) {
                    match parsed_unary(t, q + 1) {
                        Err(e) => Err(e),
                        Ok((exponent, r)) => Ok(
                            (
                                ExprView::BinOp {
                                    left: Box::new(base),
                                    op: Operator::Pow,
                                    right: Box::new(exponent),
                                    location: base.location(),
                                },
                                r,
                            ),
                        ),
                    }
                } else {
                    Ok((base, q))
                },
            }
        },
    }
}

/// An expression with signs before it.
pub open spec fn parsed_unary(t: Seq<TokView>, pos: int) -> ParsedExpr
    decreases t.len() - pos, 3int,
{
    let sign = match token_at(t, pos) {
        Some(TokKind::PLUS) => Some(UnaryOp::UAdd),
        Some(TokKind::MINUS) => Some(UnaryOp::USub),
        Some(TokKind::TILDE) => Some(UnaryOp::Invert),
        _ => None,
    };
    match sign {
        Some(op) => match parsed_unary(t, pos + 1) {
            Err(e) => Err(e),
            Ok((operand, p)) => Ok(
                (ExprView::UnaryOpE { op, operand: Box::new(operand), location: location_at(t, pos) }, p),
            ),
        },
        None => parsed_power(t, pos),
    }
}

/// The operators that bind at least as tightly as `level`, with their
/// right operands, behind a left operand: operators of one level group to
/// the left.
pub open spec fn parsed_binary_rest(t: Seq<TokView>, pos: int, level: int, left: ExprView) -> ParsedExpr
    decreases t.len() - pos, 0int,
{
    match token_at(t, pos) {
        None => Ok((left, pos)),
        Some(kind) => match binary_of(kind) {
            None => Ok((left, pos)),
            Some((op, binds)) => if binds < level {
                Ok((left, pos))
            } else {
                match parsed_binary(t, pos + 1, binds + 1) {
                    Err(e) => Err(e),
                    Ok((right, p)) => if p <= pos || p > t.len() {
                        Err(CompileError::UnexpectedToken)
                    } else {
                        parsed_binary_rest(
                            t,
                            p,
                            level,
                            ExprView::BinOp {
                                left: Box::new(left),
                                op,
                                right: Box::new(right),
                                location: left.location(),
                            },
                        )
                    },
                }
            },
        },
    }
}

/// An expression of the operators that bind at least as tightly as
/// `level`.
pub open spec fn parsed_binary(t: Seq<TokView>, pos: int, level: int) -> ParsedExpr
    decreases t.len() - pos, 4int,
{
    match parsed_unary(t, pos) {
        Err(e) => Err(e),
        Ok((left, p)) => if p <= pos || p > t.len() {
            Err(CompileError::UnexpectedToken)
        } else {
            parsed_binary_rest(t, p, level, left)
        },
    }
}

/// The links of a chain of comparisons from a place on.
pub open spec fn parsed_links(t: Seq<TokView>, pos: int, ops: Seq<CmpOp>, comparators: Seq<ExprView>) -> Result<
    (Seq<CmpOp>, Seq<ExprView>, int),
    CompileError,
>
    decreases t.len() - pos, 0int,
{
    match comparison_at(t, pos) {
        None => Ok((ops, comparators, pos)),
        Some((op, n)) => if n < 1 || pos < 0 || pos + n > t.len() {
            Err(CompileError::UnexpectedToken)
        } else {
            match parsed_binary(t, pos + n, 1) {
            Err(e) => Err(e),
            Ok((right, p)) => if p <= pos || p > t.len() {
                Err(CompileError::UnexpectedToken)
            } else {
                parsed_links(t, p, ops.push(op), comparators.push(right))
            },
            }
        },
    }
}

/// A comparison, which may be a chain.
pub open spec fn parsed_comparison(t: Seq<TokView>, pos: int) -> ParsedExpr
    decreases t.len() - pos, 5int,
{
    match parsed_binary(t, pos, 1) {
        Err(e) => Err(e),
        Ok((left, p)) => if p <= pos || p > t.len() {
            Err(CompileError::UnexpectedToken)
        } else {
            match parsed_links(t, p, Seq::empty(), Seq::empty()) {
                Err(e) => Err(e),
                Ok((ops, comparators, q)) => if ops.len() == 0 {
                    Ok((left, q))
                } else {
                    Ok(
                        (
                            ExprView::Compare { left: Box::new(left), ops, comparators, location: left.location() },
                            q,
                        ),
                    )
                },
            }
        },
    }
}

/// A comparison with `not` before it.
pub open spec fn parsed_not(t: Seq<TokView>, pos: int) -> ParsedExpr
    decreases t.len() - pos, 6int,
{
    if is_at(t, pos, TokKind::NAMEnot) {
        match parsed_not(t, pos + 1) {
            Err(e) => Err(e),
            Ok((operand, p)) => Ok(
                (
                    ExprView::UnaryOpE { op: UnaryOp::Not, operand: Box::new(operand), location: location_at(t, pos) },
                    p,
                ),
            ),
        }
    } else {
        parsed_comparison(t, pos)
    }
}

/// The operands of `and` or `or` behind a left operand: each operator has
/// two operands, and they group to the left.
pub open spec fn parsed_bool_rest(t: Seq<TokView>, pos: int, is_or: bool, left: ExprView) -> ParsedExpr
    decreases t.len() - pos, 0int,
{
    if is_at(
        t,
        pos,
        if is_or {
            TokKind::NAMEor
        } else {
            TokKind::NAMEand
        },
    ) {
        let right = if is_or {
            parsed_and(t, pos + 1)
        } else {
            parsed_not(t, pos + 1)
        };
        match right {
            Err(e) => Err(e),
            Ok((r, p)) => if p <= pos || p > t.len() {
                Err(CompileError::UnexpectedToken)
            } else {
                parsed_bool_rest(
                    t,
                    p,
                    is_or,
                    ExprView::BoolOpE {
                        op: if is_or {
                            BoolOp::Or
                        } else {
                            BoolOp::And
                        },
                        values: seq![left, r],
                        location: left.location(),
                    },
                )
            },
        }
    } else {
        Ok((left, pos))
    }
}

/// An expression of `and`.
pub open spec fn parsed_and(t: Seq<TokView>, pos: int) -> ParsedExpr
    decreases t.len() - pos, 7int,
{
    match parsed_not(t, pos) {
        Err(e) => Err(e),
        Ok((left, p)) => if p <= pos || p > t.len() {
            Err(CompileError::UnexpectedToken)
        } else {
            parsed_bool_rest(t, p, false, left)
        },
    }
}

/// An expression.
#[verifier::opaque]
pub open spec fn parsed_test(t: Seq<TokView>, pos: int) -> ParsedExpr
    decreases t.len() - pos, 8int,
{
    match parsed_and(t, pos) {
        Err(e) => Err(e),
        Ok((left, p)) => if p <= pos || p > t.len() {
            Err(CompileError::UnexpectedToken)
        } else {
            parsed_bool_rest(t, p, true, left)
        },
    }
}

/// Statements parsed, and the place behind them.
pub type ParsedStmts = Result<(Seq<StmtView>, int), CompileError>;

/// Names with commas between them, from a place on.
#[verifier::opaque]
pub open spec fn parsed_names(t: Seq<TokView>, pos: int, done: Seq<Seq<char>>) -> Result<
    (Seq<Seq<char>>, int),
    CompileError,
>
    decreases t.len() - pos,
{
    if !is_at(t, pos, TokKind::NAME) {
        Err(CompileError::UnexpectedToken)
    } else if is_at(t, pos + 1, TokKind::COMMA) {
        parsed_names(t, pos + 2, done.push(value_at(t, pos)))
    } else {
        Ok((done.push(value_at(t, pos)), pos + 1))
    }
}

/// An assignment, an assignment with an operator, or an expression that
/// stands as a statement.
#[verifier::opaque]
pub open spec fn parsed_assignment(t: Seq<TokView>, pos: int) -> Result<(StmtView, int), CompileError> {
    let location = location_at(t, pos);
    match parsed_list(t, pos) {
        Err(e) => Err(e),
        Ok((first, p)) => {
            let operator = match token_at(t, p) {
                Some(kind) => augmented_of(kind),
                None => None,
            };
            if is_at(t, p, TokKind::EQUAL) || operator is Some {
                match as_target(first) {
                    None => Err(CompileError::UnexpectedToken),
                    Some(target) => match parsed_list(t, p + 1) {
                        Err(e) => Err(e),
                        Ok((value, q)) => Ok(
                            (
                                match operator {
                                    Some(op) => StmtView::AugAssign {
                                        target: Box::new(target),
                                        op,
                                        value: Box::new(value),
                                        location,
                                    },
                                    None => StmtView::Assign {
                                        target: Box::new(target),
                                        value: Box::new(value),
                                        location,
                                    },
                                },
                                q,
                            ),
                        ),
                    },
                }
            } else {
                Ok((StmtView::Expr { value: Box::new(first), location }, p))
            }
        },
    }
}

/// A statement that stands on a line with others: `pass`, `break`,
/// `continue`, `return`, `global`, `nonlocal`, an assignment or an
/// expression.
#[verifier::opaque]
pub open spec fn parsed_small(t: Seq<TokView>, pos: int) -> Result<(StmtView, int), CompileError> {
    let location = location_at(t, pos);
    match token_at(t, pos) {
        None => Err(CompileError::UnexpectedToken),
        Some(TokKind::NAMEpass) => Ok((StmtView::Pass { location }, pos + 1)),
        Some(TokKind::NAMEbreak) => Ok((StmtView::Break { location }, pos + 1)),
        Some(TokKind::NAMEcontinue) => Ok((StmtView::Continue { location }, pos + 1)),
        Some(TokKind::NAMEreturn) => if is_at(t, pos + 1, TokKind::NEWLINE) || is_at(t, pos + 1, TokKind::SEMI)
            || pos + 1 >= t.len() {
            Ok((StmtView::Return { value: None, location }, pos + 1))
        } else {
            match parsed_list(t, pos + 1) {
                Err(e) => Err(e),
                Ok((value, p)) => Ok((StmtView::Return { value: Some(value), location }, p)),
            }
        },
        Some(TokKind::NAMEglobal) => match parsed_names(t, pos + 1, Seq::empty()) {
            Err(e) => Err(e),
            Ok((names, p)) => Ok((StmtView::Global { names, location }, p)),
        },
        Some(TokKind::NAMEnonlocal) => match parsed_names(t, pos + 1, Seq::empty()) {
            Err(e) => Err(e),
            Ok((names, p)) => Ok((StmtView::Nonlocal { names, location }, p)),
        },
        Some(_) => parsed_assignment(t, pos),
    }
}

/// The statements of a line, with semicolons between them, up to the end
/// of the line.
#[verifier::opaque]
pub open spec fn parsed_line(t: Seq<TokView>, pos: int, done: Seq<StmtView>) -> ParsedStmts
    decreases t.len() - pos,
{
    match parsed_small(t, pos) {
        Err(e) => Err(e),
        Ok((s, p)) => if p <= pos || p > t.len() {
            Err(CompileError::UnexpectedToken)
        } else if is_at(t, p, TokKind::NEWLINE) {
            Ok((done.push(s), p + 1))
        } else if is_at(t, p, TokKind::SEMI) {
            if is_at(t, p + 1, TokKind::NEWLINE) {
                Ok((done.push(s), p + 2))
            } else {
                parsed_line(t, p + 1, done.push(s))
            }
        } else {
            Err(CompileError::UnexpectedToken)
        },
    }
}

/// The statements of an indented block up to the token that ends it.
pub open spec fn parsed_block(t: Seq<TokView>, pos: int, done: Seq<StmtView>) -> ParsedStmts
    decreases t.len() - pos, 8int,
{
    if pos < 0 || pos >= t.len() {
        Err(CompileError::UnexpectedToken)
    } else if is_at(t, pos, TokKind::DEDENT) {
        Ok((done, pos + 1))
    } else {
        match parsed_statement(t, pos) {
            Err(e) => Err(e),
            Ok((more, p)) => if p <= pos || p > t.len() {
                Err(CompileError::UnexpectedToken)
            } else {
                parsed_block(t, p, done + more)
            },
        }
    }
}

/// What stands behind a colon: the rest of the line, or an indented
/// block on the lines that follow.
pub open spec fn parsed_suite(t: Seq<TokView>, pos: int) -> ParsedStmts
    decreases t.len() - pos, 4int,
{
    if is_at(t, pos, TokKind::NEWLINE) {
        if is_at(t, pos + 1, TokKind::INDENT) {
            parsed_block(t, pos + 2, Seq::empty())
        } else {
            Err(CompileError::UnexpectedToken)
        }
    } else {
        parsed_line(t, pos, Seq::empty())
    }
}

/// A condition, a colon and what stands behind it, from the place behind
/// the first word of the statement.
pub open spec fn parsed_head(t: Seq<TokView>, pos: int) -> Result<(ExprView, Seq<StmtView>, int), CompileError>
    decreases t.len() - pos, 5int,
{
    match parsed_test(t, pos) {
        Err(e) => Err(e),
        Ok((test, p)) => if p <= pos || p >= t.len() || !is_at(t, p, TokKind::COLON) {
            Err(CompileError::UnexpectedToken)
        } else {
            match parsed_suite(t, p + 1) {
                Err(e) => Err(e),
                Ok((body, q)) => if q <= p + 1 || q > t.len() {
                    Err(CompileError::UnexpectedToken)
                } else {
                    Ok((test, body, q))
                },
            }
        },
    }
}

/// What stands behind `else` and its colon, where the word is at the
/// place; nothing where it is not.
pub open spec fn parsed_else(t: Seq<TokView>, pos: int) -> ParsedStmts
    decreases t.len() - pos, 5int,
{
    if is_at(t, pos, TokKind::NAMEelse) {
        if is_at(t, pos + 1, TokKind::COLON) {
            parsed_suite(t, pos + 2)
        } else {
            Err(CompileError::UnexpectedToken)
        }
    } else {
        Ok((Seq::empty(), pos))
    }
}

/// An `if` statement from its first word on, `if` or `elif`: what
/// follows an `elif` is an `if` statement in the other branch.
pub open spec fn parsed_if(t: Seq<TokView>, pos: int) -> Result<(StmtView, int), CompileError>
    decreases t.len() - pos, 6int,
{
    let location = location_at(t, pos);
    if pos < 0 || pos >= t.len() {
        Err(CompileError::UnexpectedToken)
    } else {
        match parsed_head(t, pos + 1) {
            Err(e) => Err(e),
            Ok((test, body, p)) => if p <= pos + 1 || p > t.len() {
                Err(CompileError::UnexpectedToken)
            } else if is_at(t, p, TokKind::NAMEelif) {
                match parsed_if(t, p) {
                    Err(e) => Err(e),
                    Ok((other, q)) => Ok((StmtView::If { test: Box::new(test), body, orelse: seq![other], location }, q)),
                }
            } else {
                match parsed_else(t, p) {
                    Err(e) => Err(e),
                    Ok((orelse, q)) => Ok((StmtView::If { test: Box::new(test), body, orelse, location }, q)),
                }
            },
        }
    }
}

/// The names of the parameters between the parentheses of a definition,
/// from the place behind the opening one.
#[verifier::opaque]
pub open spec fn parsed_parameters(t: Seq<TokView>, pos: int) -> Result<(Seq<Seq<char>>, int), CompileError> {
    if is_at(t, pos, TokKind::RPAR) {
        Ok((Seq::empty(), pos + 1))
    } else {
        match parsed_names(t, pos, Seq::empty()) {
            Err(e) => Err(e),
            Ok((names, p)) => if is_at(t, p, TokKind::RPAR) {
                Ok((names, p + 1))
            } else {
                Err(CompileError::UnexpectedToken)
            },
        }
    }
}

/// What a definition says of its result, between the arrow and the
/// colon, if it says anything.
#[verifier::opaque]
pub open spec fn parsed_annotation(t: Seq<TokView>, pos: int) -> Result<(Option<ExprView>, int), CompileError> {
    if op_at(t, pos, "->"@) {
        match parsed_test(t, pos + 1) {
            Err(e) => Err(e),
            Ok((e, p)) => Ok((Some(e), p)),
        }
    } else {
        Ok((None, pos))
    }
}

/// The decorators before a definition: each an `@`, an expression and
/// the end of the line.
#[verifier::opaque]
pub open spec fn parsed_decorators(t: Seq<TokView>, pos: int, done: Seq<ExprView>) -> Result<
    (Seq<ExprView>, int),
    CompileError,
>
    decreases t.len() - pos,
{
    if !is_at(t, pos, TokKind::AT) {
        Ok((done, pos))
    } else {
        match parsed_test(t, pos + 1) {
            Err(e) => Err(e),
            Ok((e, p)) => if p <= pos || p >= t.len() || !is_at(t, p, TokKind::NEWLINE) {
                Err(CompileError::UnexpectedToken)
            } else {
                parsed_decorators(t, p + 1, done.push(e))
            },
        }
    }
}

/// A definition of a function from the word `def` on, with the
/// decorators that stand before it.
pub open spec fn parsed_def(t: Seq<TokView>, pos: int, decorators: Seq<ExprView>) -> Result<
    (StmtView, int),
    CompileError,
>
    decreases t.len() - pos, 6int,
{
    let location = location_at(t, pos);
    if !is_at(t, pos + 1, TokKind::NAME) || !is_at(t, pos + 2, TokKind::LPAR) {
        Err(CompileError::UnexpectedToken)
    } else {
        match parsed_parameters(t, pos + 3) {
            Err(e) => Err(e),
            Ok((args, p)) => match parsed_annotation(t, p) {
                Err(e) => Err(e),
                Ok((annotation, q)) => if q <= pos || q >= t.len() || !is_at(t, q, TokKind::COLON) {
                    Err(CompileError::UnexpectedToken)
                } else {
                    match parsed_suite(t, q + 1) {
                        Err(e) => Err(e),
                        Ok((body, r)) => Ok(
                            (
                                StmtView::FunctionDef {
                                    name: value_at(t, pos + 1),
                                    args,
                                    body,
                                    decorator_list: decorators,
                                    annotation,
                                    location,
                                },
                                r,
                            ),
                        ),
                    }
                },
            },
        }
    }
}

/// A `while` statement from its first word on.
pub open spec fn parsed_while(t: Seq<TokView>, pos: int) -> Result<(StmtView, int), CompileError>
    decreases t.len() - pos, 6int,
{
    let location = location_at(t, pos);
    if pos < 0 || pos >= t.len() {
        Err(CompileError::UnexpectedToken)
    } else {
        match parsed_head(t, pos + 1) {
            Err(e) => Err(e),
            Ok((test, body, p)) => if p <= pos + 1 || p > t.len() {
                Err(CompileError::UnexpectedToken)
            } else {
                match parsed_else(t, p) {
                    Err(e) => Err(e),
                    Ok((orelse, q)) => Ok((StmtView::While { test: Box::new(test), body, orelse, location }, q)),
                }
            },
        }
    }
}

/// The statements that begin at a place: one that spans lines, a
/// definition behind its decorators, or those of one line.
pub open spec fn parsed_statement(t: Seq<TokView>, pos: int) -> ParsedStmts
    decreases t.len() - pos, 7int,
{
    match token_at(t, pos) {
        Some(TokKind::NAMEif) => match parsed_if(t, pos) {
            Err(e) => Err(e),
            Ok((s, p)) => Ok((seq![s], p)),
        },
        Some(TokKind::NAMEwhile) => match parsed_while(t, pos) {
            Err(e) => Err(e),
            Ok((s, p)) => Ok((seq![s], p)),
        },
        Some(TokKind::NAMEdef) => match parsed_def(t, pos, Seq::empty()) {
            Err(e) => Err(e),
            Ok((s, p)) => Ok((seq![s], p)),
        },
        Some(TokKind::AT) => match parsed_decorators(t, pos, Seq::empty()) {
            Err(e) => Err(e),
            Ok((decorators, p)) => if p <= pos || p >= t.len() || !is_at(t, p, TokKind::NAMEdef) {
                Err(CompileError::UnexpectedToken)
            } else {
                match parsed_def(t, p, decorators) {
                    Err(e) => Err(e),
                    Ok((s, q)) => Ok((seq![s], q)),
                }
            },
        },
        _ => parsed_line(t, pos, Seq::empty()),
    }
}

/// The statements from a place to the end of the tokens, or to the mark
/// of the end.
pub open spec fn parsed_from(t: Seq<TokView>, pos: int, done: Seq<StmtView>) -> Result<Seq<StmtView>, CompileError>
    decreases t.len() - pos,
{
    if pos < 0 || pos >= t.len() || is_at(t, pos, TokKind::ENDMARKER) {
        Ok(done)
    } else {
        match parsed_statement(t, pos) {
            Err(e) => Err(e),
            Ok((more, p)) => if p <= pos || p > t.len() {
                Err(CompileError::UnexpectedToken)
            } else {
                parsed_from(t, p, done + more)
            },
        }
    }
}

/// The statements that a list of tokens spells, or the error where they
/// spell none.
pub open spec fn parsed(t: Seq<TokView>) -> Result<Seq<StmtView>, CompileError> {
    parsed_from(t, 0, Seq::empty())
}

/// What a parser of expressions hands back, as values.
pub open spec fn expr_result(r: Result<(Expr, usize), CompileError>) -> ParsedExpr {
    match r {
        Ok((e, p)) => Ok((e.model(), p as int)),
        Err(x) => Err(x),
    }
}

/// What a parser of a bound of a slice hands back, as values.
pub open spec fn bound_result(r: Result<(Option<Expr>, usize), CompileError>) -> Result<
    (Option<ExprView>, int),
    CompileError,
> {
    match r {
        Ok((e, p)) => Ok((bound_view(e), p as int)),
        Err(x) => Err(x),
    }
}

/// What a parser of several slices hands back, as values.
pub open spec fn dims_result(r: Result<(Vec<Slice>, usize), CompileError>) -> Result<
    (Seq<SliceView>, int),
    CompileError,
> {
    match r {
        Ok((v, p)) => Ok((slice_views(v@), p as int)),
        Err(x) => Err(x),
    }
}

/// What a parser of slices hands back, as values.
pub open spec fn slice_result(r: Result<(Slice, usize), CompileError>) -> Result<(SliceView, int), CompileError> {
    match r {
        Ok((s, p)) => Ok((s.model(), p as int)),
        Err(x) => Err(x),
    }
}

/// What a parser of lists of expressions hands back, as values.
pub open spec fn exprs_result(r: Result<(Vec<Expr>, usize), CompileError>) -> Result<
    (Seq<ExprView>, int),
    CompileError,
> {
    match r {
        Ok((v, p)) => Ok((expr_views(v@), p as int)),
        Err(x) => Err(x),
    }
}

/// What a parser of one statement hands back, as values.
pub open spec fn stmt_result(r: Result<(Stmt, usize), CompileError>) -> Result<(StmtView, int), CompileError> {
    match r {
        Ok((s, p)) => Ok((s.model(), p as int)),
        Err(x) => Err(x),
    }
}

/// What a parser of statements hands back, as values.
pub open spec fn stmts_result(r: Result<(Vec<Stmt>, usize), CompileError>) -> ParsedStmts {
    match r {
        Ok((v, p)) => Ok((stmt_views(v@), p as int)),
        Err(x) => Err(x),
    }
}

/// What a parser of names hands back, as values.
pub open spec fn names_result(r: Result<(Vec<String>, usize), CompileError>) -> Result<
    (Seq<Seq<char>>, int),
    CompileError,
> {
    match r {
        Ok((v, p)) => Ok((name_views(v@), p as int)),
        Err(x) => Err(x),
    }
}

proof fn lemma_exprs_push(v: Seq<Expr>, e: Expr)
    ensures
        expr_views(v.push(e)) == expr_views(v).push(e.model()),
{
    assert(expr_views(v.push(e)) =~= expr_views(v).push(e.model()));
}

proof fn lemma_stmts_append(a: Seq<Stmt>, b: Seq<Stmt>)
    ensures
        stmt_views(a + b) == stmt_views(a) + stmt_views(b),
{
    assert(stmt_views(a + b) =~= stmt_views(a) + stmt_views(b));
}

proof fn lemma_stmts_push(v: Seq<Stmt>, s: Stmt)
    ensures
        stmt_views(v.push(s)) == stmt_views(v).push(s.model()),
{
    assert(stmt_views(v.push(s)) =~= stmt_views(v).push(s.model()));
}

proof fn lemma_names_push(v: Seq<String>, s: String)
    ensures
        name_views(v.push(s)) == name_views(v).push(s@),
{
    assert(name_views(v.push(s)) =~= name_views(v).push(s@));
}

fn name(id: String, location: String) -> (r: Expr)
    ensures
        r.model() == (ExprView::Name { id: id@, ctx: ExprContext::Load, location: location@ }),
{
    Expr::Name { id, ctx: ExprContext::Load, location }
}

fn number(n: u32, location: String) -> (r: Expr)
    ensures
        r.model() == (ExprView::Num { n, location: location@ }),
{
    Expr::Num { n, location }
}

fn string(s: String, location: String) -> (r: Expr)
    ensures
        r.model() == (ExprView::Str { s: s@, location: location@ }),
{
    Expr::Str { s, location }
}

fn constant(value: u32, location: String) -> (r: Expr)
    ensures
        r.model() == (ExprView::NameConstant { value, location: location@ }),
{
    Expr::NameConstant { value, location }
}

fn ellipsis(location: String) -> (r: Expr)
    ensures
        r.model() == (ExprView::Ellipsis { location: location@ }),
{
    Expr::Ellipsis { location }
}

fn list(elts: Vec<Expr>, location: String) -> (r: Expr)
    ensures
        r.model() == (ExprView::List { elts: expr_views(elts@), ctx: ExprContext::Load, location: location@ }),
{
    Expr::List { elts, ctx: ExprContext::Load, location }
}

fn dict(keys: Vec<Expr>, values: Vec<Expr>, location: String) -> (r: Expr)
    ensures
        r.model() == (ExprView::Dict { keys: expr_views(keys@), values: expr_views(values@), location: location@ }),
{
    Expr::Dict { keys, values, location }
}

/// The name and the location of an expression that is a name.
pub open spec fn name_of(e: ExprView) -> Option<(Seq<char>, Seq<char>)> {
    match e {
        ExprView::Name { id, location, .. } => Some((id, location)),
        _ => None,
    }
}

fn as_name(e: Expr) -> (r: Option<(String, String)>)
    ensures
        match r {
            Some((id, location)) => name_of(e.model()) == Some((id@, location@)),
            None => name_of(e.model()) is None,
        },
{
    match e {
        Expr::Name { id, location, .. } => Some((id, location)),
        _ => None,
    }
}

/// The arguments of a call that were parsed so far.
struct Arguments {
    args: Vec<Expr>,
    keywords: Vec<Keyword>,
}

/// The arguments of a call as values.
#[verifier::opaque]
closed spec fn arguments_view(a: Arguments) -> Args {
    (expr_views(a.args@), keyword_views(a.keywords@))
}

/// What a parser of arguments hands back, as values.
closed spec fn arguments_result(r: Result<(Arguments, usize), CompileError>) -> Result<(Args, int), CompileError> {
    match r {
        Ok((a, p)) => Ok((arguments_view(a), p as int)),
        Err(x) => Err(x),
    }
}

fn no_arguments() -> (r: Arguments)
    ensures
        arguments_view(r) == (Seq::<ExprView>::empty(), Seq::<KeywordView>::empty()),
{
    reveal(arguments_view);
    let keywords: Vec<Keyword> = Vec::new();
    assert(keyword_views(keywords@) =~= Seq::<KeywordView>::empty());
    Arguments { args: no_exprs(), keywords }
}

fn with_argument(a: Arguments, value: Expr) -> (r: Arguments)
    ensures
        arguments_view(r) == (arguments_view(a).0.push(value.model()), arguments_view(a).1),
{
    reveal(arguments_view);
    Arguments { args: with_expr(a.args, value), keywords: a.keywords }
}

/// The keyword of an argument as a value, if it has one.
pub open spec fn keyword_name(arg: Option<String>) -> Option<Seq<char>> {
    match arg {
        Some(name) => Some(name@),
        None => None,
    }
}

fn with_keyword(a: Arguments, arg: Option<String>, value: Expr) -> (r: Arguments)
    ensures
        arguments_view(r) == (
            arguments_view(a).0,
            arguments_view(a).1.push(KeywordView { arg: keyword_name(arg), value: Box::new(value.model()) }),
        ),
{
    reveal(arguments_view);
    let mut keywords = a.keywords;
    let ghost before = keyword_views(keywords@);
    let ghost added = KeywordView { arg: keyword_name(arg), value: Box::new(value.model()) };
    keywords.push(Keyword { arg, value: Box::new(value) });
    assert(keyword_views(keywords@) =~= before.push(added));
    Arguments { args: a.args, keywords }
}

fn call(func: String, a: Arguments, location: String) -> (r: Expr)
    ensures
        r.model() == (ExprView::Call {
            func: func@,
            args: arguments_view(a).0,
            keywords: arguments_view(a).1,
            location: location@,
        }),
{
    reveal(arguments_view);
    Expr::Call { func, args: a.args, keywords: a.keywords, location }
}

fn attribute(value: Expr, attr: String) -> (r: Expr)
    ensures
        r.model() == (ExprView::Attribute {
            value: Box::new(value.model()),
            attr: attr@,
            ctx: ExprContext::Load,
            location: value.model().location(),
        }),
{
    let location = value.location();
    Expr::Attribute { value: Box::new(value), attr, ctx: ExprContext::Load, location }
}

fn binop(left: Expr, op: Operator, right: Expr) -> (r: Expr)
    ensures
        r.model() == (ExprView::BinOp {
            left: Box::new(left.model()),
            op,
            right: Box::new(right.model()),
            location: left.model().location(),
        }),
{
    let location = left.location();
    Expr::BinOp { left: Box::new(left), op, right: Box::new(right), location }
}

fn unary(op: UnaryOp, operand: Expr, location: String) -> (r: Expr)
    ensures
        r.model() == (ExprView::UnaryOpE { op, operand: Box::new(operand.model()), location: location@ }),
{
    Expr::UnaryOpE { op, operand: Box::new(operand), location }
}

fn compare(left: Expr, ops: Vec<CmpOp>, comparators: Vec<Expr>) -> (r: Expr)
    ensures
        r.model() == (ExprView::Compare {
            left: Box::new(left.model()),
            ops: ops@,
            comparators: expr_views(comparators@),
            location: left.model().location(),
        }),
{
    let location = left.location();
    Expr::Compare { left: Box::new(left), ops, comparators, location }
}

fn boolop(op: BoolOp, left: Expr, right: Expr) -> (r: Expr)
    ensures
        r.model() == (ExprView::BoolOpE {
            op,
            values: seq![left.model(), right.model()],
            location: left.model().location(),
        }),
{
    let location = left.location();
    let ghost first = left.model();
    let ghost second = right.model();
    let mut values: Vec<Expr> = Vec::new();
    values.push(left);
    values.push(right);
    assert(expr_views(values@) =~= seq![first, second]);
    Expr::BoolOpE { op, values, location }
}

fn starred(value: Expr, location: String) -> (r: Expr)
    ensures
        r.model() == (ExprView::Starred { value: Box::new(value.model()), ctx: ExprContext::Load, location: location@ }),
{
    Expr::Starred { value: Box::new(value), ctx: ExprContext::Load, location }
}

fn tuple(elts: Vec<Expr>, location: String) -> (r: Expr)
    ensures
        r.model() == (ExprView::Tuple { elts: expr_views(elts@), ctx: ExprContext::Load, location: location@ }),
{
    Expr::Tuple { elts, ctx: ExprContext::Load, location }
}

/// An option of an expression as a value.
pub open spec fn bound_view(e: Option<Expr>) -> Option<ExprView> {
    match e {
        Some(x) => Some(x.model()),
        None => None,
    }
}

fn index(value: Expr) -> (r: Slice)
    ensures
        r.model() == (SliceView::Index { value: Box::new(value.model()) }),
{
    Slice::Index { value: Box::new(value) }
}

fn range(lower: Option<Expr>, upper: Option<Expr>, step: Option<Expr>) -> (r: Slice)
    ensures
        r.model() == (SliceView::Slice { lower: bound_view(lower), upper: bound_view(upper), step: bound_view(step) }),
{
    reveal_with_fuel(Slice::model, 2);
    Slice::Slice { lower, upper, step }
}

fn dimensions(dims: Vec<Slice>) -> (r: Slice)
    ensures
        r.model() == (SliceView::ExtSlice { dims: slice_views(dims@) }),
{
    Slice::ExtSlice { dims }
}

fn sliced(value: Expr, slice: Slice) -> (r: Expr)
    ensures
        r.model() == (ExprView::Subscript {
            value: Box::new(value.model()),
            slice: Box::new(slice.model()),
            ctx: ExprContext::Load,
            location: value.model().location(),
        }),
{
    let location = value.location();
    Expr::Subscript { value: Box::new(value), slice: Box::new(slice), ctx: ExprContext::Load, location }
}

fn one_expr(e: Expr) -> (v: Vec<Expr>)
    ensures
        expr_views(v@) == seq![e.model()],
{
    let mut v: Vec<Expr> = Vec::new();
    v.push(e);
    assert(expr_views(v@) =~= seq![e.model()]);
    v
}

fn one_slice(s: Slice) -> (v: Vec<Slice>)
    ensures
        slice_views(v@) == seq![s.model()],
{
    let mut v: Vec<Slice> = Vec::new();
    v.push(s);
    assert(slice_views(v@) =~= seq![s.model()]);
    v
}

fn with_slice(v: Vec<Slice>, s: Slice) -> (r: Vec<Slice>)
    ensures
        slice_views(r@) == slice_views(v@).push(s.model()),
{
    let mut v = v;
    let ghost before = slice_views(v@);
    v.push(s);
    assert(slice_views(v@) =~= before.push(s.model()));
    v
}

fn with_expr(v: Vec<Expr>, e: Expr) -> (r: Vec<Expr>)
    ensures
        expr_views(r@) == expr_views(v@).push(e.model()),
{
    let mut v = v;
    proof {
        lemma_exprs_push(v@, e);
    }
    v.push(e);
    v
}

fn no_exprs() -> (v: Vec<Expr>)
    ensures
        expr_views(v@) == Seq::<ExprView>::empty(),
{
    let v: Vec<Expr> = Vec::new();
    assert(expr_views(v@) =~= Seq::<ExprView>::empty());
    v
}

fn kind_of(t: &Vec<Tok>, pos: usize) -> (k: Option<TokKind>)
    ensures
        k == token_at(tok_views(t@), pos as int),
        k is Some <==> pos < t.len(),
{
    reveal(kind_at);
    if pos < t.len() {
        Some(t[pos].kind())
    } else {
        None
    }
}

fn at(t: &Vec<Tok>, pos: usize, kind: TokKind) -> (b: bool)
    ensures
        b == is_at(tok_views(t@), pos as int, kind),
        b ==> pos < t.len(),
{
    reveal(kind_at);
    pos < t.len() && t[pos].kind() == kind
}

fn location_of(t: &Vec<Tok>, pos: usize) -> (s: String)
    ensures
        s@ == location_at(tok_views(t@), pos as int),
{
    reveal(location_at);
    if pos < t.len() {
        t[pos].location().clone()
    } else {
        String::new()
    }
}

/// The text of a name, a string or an operator.
fn text_at(t: &Vec<Tok>, pos: usize) -> (s: String)
    requires
        pos < t.len(),
        is_at(tok_views(t@), pos as int, TokKind::NAME) || is_at(tok_views(t@), pos as int, TokKind::STRING)
            || is_at(tok_views(t@), pos as int, TokKind::OP),
    ensures
        s@ == value_at(tok_views(t@), pos as int),
{
    reveal(kind_at);
    reveal(value_at);
    match &t[pos] {
        Tok::NAME { value, .. } => value.clone(),
        Tok::STRING { value, .. } => value.clone(),
        Tok::OP { value, .. } => value.clone(),
        _ => String::new(),
    }
}

fn number_of(t: &Vec<Tok>, pos: usize) -> (n: u32)
    requires
        pos < t.len(),
        is_at(tok_views(t@), pos as int, TokKind::NUMBER),
    ensures
        n == number_at(tok_views(t@), pos as int),
{
    reveal(kind_at);
    reveal(number_at);
    match &t[pos] {
        Tok::NUMBER { value, .. } => *value,
        _ => 0,
    }
}

fn binary(kind: TokKind) -> (r: Option<(Operator, u8)>)
    ensures
        match r {
            Some((op, binds)) => binary_of(kind) == Some((op, binds as int)) && binds <= 6,
            None => binary_of(kind) is None,
        },
{
    reveal(binary_of);
    match kind {
        TokKind::VBAR => Some((Operator::BitOr, 1)),
        TokKind::CIRCUMFLEX => Some((Operator::BitXor, 2)),
        TokKind::AMPER => Some((Operator::BitAnd, 3)),
        TokKind::LEFTSHIFT => Some((Operator::LShift, 4)),
        TokKind::RIGHTSHIFT => Some((Operator::RShift, 4)),
        TokKind::PLUS => Some((Operator::Add, 5)),
        TokKind::MINUS => Some((Operator::Sub, 5)),
        TokKind::STAR => Some((Operator::Mult, 6)),
        TokKind::SLASH => Some((Operator::Div, 6)),
        TokKind::PERCENT => Some((Operator::Mod, 6)),
        TokKind::DOUBLESLASH => Some((Operator::FloorDiv, 6)),
        TokKind::AT => Some((Operator::MatMult, 6)),
        _ => None,
    }
}

fn augmented(kind: TokKind) -> (r: Option<Operator>)
    ensures
        r == augmented_of(kind),
{
    reveal(augmented_of);
    match kind {
        TokKind::PLUSEQUAL => Some(Operator::Add),
        TokKind::MINEQUAL => Some(Operator::Sub),
        TokKind::STAREQUAL => Some(Operator::Mult),
        TokKind::SLASHEQUAL => Some(Operator::Div),
        TokKind::PERCENTEQUAL => Some(Operator::Mod),
        TokKind::AMPEREQUAL => Some(Operator::BitAnd),
        TokKind::VBAREQUAL => Some(Operator::BitOr),
        TokKind::CIRCUMFLEXEQUAL => Some(Operator::BitXor),
        TokKind::LEFTSHIFTEQUAL => Some(Operator::LShift),
        TokKind::RIGHTSHIFTEQUAL => Some(Operator::RShift),
        TokKind::DOUBLESTAREQUAL => Some(Operator::Pow),
        TokKind::DOUBLESLASHEQUAL => Some(Operator::FloorDiv),
        TokKind::ATEQUAL => Some(Operator::MatMult),
        _ => None,
    }
}

fn comparison(t: &Vec<Tok>, pos: usize) -> (r: Option<(CmpOp, usize)>)
    ensures
        match r {
            Some((op, n)) => comparison_at(tok_views(t@), pos as int) == Some((op, n as int)) && 1 <= n
                && pos + n <= t.len(),
            None => comparison_at(tok_views(t@), pos as int) is None,
        },
{
    reveal(comparison_at);
    match kind_of(t, pos) {
        Some(TokKind::LESS) => Some((CmpOp::Lt, 1)),
        Some(TokKind::GREATER) => Some((CmpOp::Gt, 1)),
        Some(TokKind::EQEQUAL) => Some((CmpOp::Eq, 1)),
        Some(TokKind::GREATEREQUAL) => Some((CmpOp::GtE, 1)),
        Some(TokKind::LESSEQUAL) => Some((CmpOp::LtE, 1)),
        Some(TokKind::NOTEQUAL) => Some((CmpOp::NotEq, 1)),
        Some(TokKind::NAMEin) => Some((CmpOp::In, 1)),
        Some(TokKind::NAMEnot) => if at(t, pos + 1, TokKind::NAMEin) {
            Some((CmpOp::NotIn, 2))
        } else {
            None
        },
        Some(TokKind::NAMEis) => if at(t, pos + 1, TokKind::NAMEnot) {
            Some((CmpOp::IsNot, 2))
        } else {
            Some((CmpOp::Is, 1))
        },
        _ => None,
    }
}

fn target_of(e: Expr) -> (r: Option<Expr>)
    ensures
        match r {
            Some(x) => as_target(e.model()) == Some(x.model()),
            None => as_target(e.model()) is None,
        },
{
    reveal_with_fuel(Expr::model, 2);
    match e {
        Expr::Name { id, location, .. } => Some(Expr::Name { id, ctx: ExprContext::Store, location }),
        Expr::Subscript { value, slice, location, .. } => {
            let inner = match *value {
                Expr::Name { id, location: l, .. } => Expr::Name { id, ctx: ExprContext::Store, location: l },
                other => other,
            };
            Some(Expr::Subscript { value: Box::new(inner), slice, ctx: ExprContext::Store, location })
        },
        Expr::Attribute { value, attr, location, .. } => Some(
            Expr::Attribute { value, attr, ctx: ExprContext::Store, location },
        ),
        Expr::Starred { value, location, .. } => Some(Expr::Starred { value, ctx: ExprContext::Store, location }),
        Expr::Tuple { elts, location, .. } => Some(Expr::Tuple { elts, ctx: ExprContext::Store, location }),
        Expr::List { elts, location, .. } => Some(Expr::List { elts, ctx: ExprContext::Store, location }),
        _ => None,
    }
}

fn parse_item(t: &Vec<Tok>, pos: usize) -> (r: Result<(Expr, usize), CompileError>)
    ensures
        expr_result(r) == parsed_item(tok_views(t@), pos as int),
    decreases t.len() - pos, 9int,
{
    reveal(parsed_test);
    if at(t, pos, TokKind::STAR) {
        match parse_binary(t, pos + 1, 1) {
            Err(e) => Err(e),
            Ok((value, p)) => Ok((starred(value, location_of(t, pos)), p)),
        }
    } else {
        parse_test(t, pos)
    }
}

fn list_ends(t: &Vec<Tok>, pos: usize) -> (b: bool)
    ensures
        b == ends_list(tok_views(t@), pos as int),
        !b ==> pos < t.len(),
{
    match kind_of(t, pos) {
        None => true,
        Some(kind) => kind == TokKind::NEWLINE || kind == TokKind::SEMI || kind == TokKind::RPAR || kind
            == TokKind::RSQB || kind == TokKind::RBRACE || kind == TokKind::EQUAL || kind == TokKind::COLON,
    }
}

fn parse_more(t: &Vec<Tok>, pos: usize, done: Vec<Expr>) -> (r: Result<(Vec<Expr>, usize), CompileError>)
    ensures
        exprs_result(r) == parsed_more(tok_views(t@), pos as int, expr_views(done@)),
    decreases t.len() - pos, 10int,
{
    if list_ends(t, pos) {
        return Ok((done, pos));
    }
    match parse_item(t, pos) {
        Err(e) => Err(e),
        Ok((item, p)) => {
            if p <= pos || p > t.len() {
                return Err(CompileError::UnexpectedToken);
            }
            let done = with_expr(done, item);
            if at(t, p, TokKind::COMMA) {
                parse_more(t, p + 1, done)
            } else {
                Ok((done, p))
            }
        },
    }
}

fn parse_list(t: &Vec<Tok>, pos: usize) -> (r: Result<(Expr, usize), CompileError>)
    ensures
        expr_result(r) == parsed_list(tok_views(t@), pos as int),
    decreases t.len() - pos, 10int,
{
    match parse_item(t, pos) {
        Err(e) => Err(e),
        Ok((first, p)) => {
            if p <= pos || p > t.len() {
                return Err(CompileError::UnexpectedToken);
            }
            if at(t, p, TokKind::COMMA) {
                let location = first.location();
                match parse_more(t, p + 1, one_expr(first)) {
                    Err(e) => Err(e),
                    Ok((elts, q)) => Ok((tuple(elts, location), q)),
                }
            } else {
                Ok((first, p))
            }
        },
    }
}

fn parse_items(t: &Vec<Tok>, pos: usize, close: TokKind, done: Vec<Expr>) -> (r: Result<
    (Vec<Expr>, usize),
    CompileError,
>)
    ensures
        exprs_result(r) == parsed_items(tok_views(t@), pos as int, close, expr_views(done@)),
    decreases t.len() - pos, 11int,
{
    if pos >= t.len() {
        return Err(CompileError::UnexpectedToken);
    }
    if at(t, pos, close) {
        return Ok((done, pos + 1));
    }
    match parse_item(t, pos) {
        Err(e) => Err(e),
        Ok((item, p)) => {
            if p <= pos || p > t.len() {
                return Err(CompileError::UnexpectedToken);
            }
            let done = with_expr(done, item);
            if at(t, p, TokKind::COMMA) {
                parse_items(t, p + 1, close, done)
            } else if at(t, p, close) {
                Ok((done, p + 1))
            } else {
                Err(CompileError::UnexpectedToken)
            }
        },
    }
}

/// The entries of a dict that were parsed so far.
struct Entries {
    keys: Vec<Expr>,
    values: Vec<Expr>,
}

/// The keys and the values of entries as values.
#[verifier::opaque]
closed spec fn entries_view(e: Entries) -> Pairs {
    (expr_views(e.keys@), expr_views(e.values@))
}

/// What a parser of entries hands back, as values.
closed spec fn entries_result(r: Result<(Entries, usize), CompileError>) -> Result<(Pairs, int), CompileError> {
    match r {
        Ok((e, p)) => Ok((entries_view(e), p as int)),
        Err(x) => Err(x),
    }
}

fn no_entries() -> (r: Entries)
    ensures
        entries_view(r) == (Seq::<ExprView>::empty(), Seq::<ExprView>::empty()),
{
    reveal(entries_view);
    Entries { keys: no_exprs(), values: no_exprs() }
}

fn with_entry(e: Entries, key: Expr, value: Expr) -> (r: Entries)
    ensures
        entries_view(r) == (entries_view(e).0.push(key.model()), entries_view(e).1.push(value.model())),
{
    reveal(entries_view);
    Entries { keys: with_expr(e.keys, key), values: with_expr(e.values, value) }
}

fn dict_of(e: Entries, location: String) -> (r: Expr)
    ensures
        r.model() == (ExprView::Dict { keys: entries_view(e).0, values: entries_view(e).1, location: location@ }),
{
    reveal(entries_view);
    dict(e.keys, e.values, location)
}

fn parse_entry(t: &Vec<Tok>, pos: usize, done: Entries) -> (r: Result<(Entries, usize), CompileError>)
    ensures
        entries_result(r) == parsed_entry(tok_views(t@), pos as int, entries_view(done)),
    decreases t.len() - pos, 9int,
{
    reveal(parsed_test);
    match parse_test(t, pos) {
        Err(e) => Err(e),
        Ok((key, p)) => {
            if p <= pos || p >= t.len() || !at(t, p, TokKind::COLON) {
                return Err(CompileError::UnexpectedToken);
            }
            match parse_test(t, p + 1) {
                Err(e) => Err(e),
                Ok((value, q)) => Ok((with_entry(done, key, value), q)),
            }
        },
    }
}

fn parse_entries(t: &Vec<Tok>, pos: usize, done: Entries) -> (r: Result<(Entries, usize), CompileError>)
    ensures
        entries_result(r) == parsed_entries(tok_views(t@), pos as int, entries_view(done)),
    decreases t.len() - pos, 10int,
{
    let mut entries = done;
    let mut at_pos = pos;
    while at_pos < t.len()
        invariant
            pos <= at_pos,
            parsed_entries(tok_views(t@), pos as int, entries_view(done)) == parsed_entries(
                tok_views(t@),
                at_pos as int,
                entries_view(entries),
            ),
        decreases t.len() - at_pos,
    {
        if at(t, at_pos, TokKind::RBRACE) {
            return Ok((entries, at_pos + 1));
        }
        match parse_entry(t, at_pos, entries) {
            Err(e) => {
                return Err(e);
            },
            Ok((more, q)) => {
                if q <= at_pos || q > t.len() {
                    return Err(CompileError::UnexpectedToken);
                }
                if at(t, q, TokKind::COMMA) {
                    entries = more;
                    at_pos = q + 1;
                } else if at(t, q, TokKind::RBRACE) {
                    return Ok((more, q + 1));
                } else {
                    return Err(CompileError::UnexpectedToken);
                }
            },
        }
    }
    Err(CompileError::UnexpectedToken)
}

fn parse_atom(t: &Vec<Tok>, pos: usize) -> (r: Result<(Expr, usize), CompileError>)
    ensures
        expr_result(r) == parsed_atom(tok_views(t@), pos as int),
    decreases t.len() - pos, 1int,
{
    let kind = match kind_of(t, pos) {
        None => {
            return Err(CompileError::UnexpectedToken);
        },
        Some(k) => k,
    };
    let location = location_of(t, pos);
    match kind {
        TokKind::NAME => Ok((name(text_at(t, pos), location), pos + 1)),
        TokKind::NUMBER => Ok((number(number_of(t, pos), location), pos + 1)),
        TokKind::STRING => Ok((string(text_at(t, pos), location), pos + 1)),
        TokKind::NAMENone => Ok((constant(0, location), pos + 1)),
        TokKind::NAMEFalse => Ok((constant(0, location), pos + 1)),
        TokKind::NAMETrue => Ok((constant(1, location), pos + 1)),
        TokKind::OP => {
            let text = text_at(t, pos);
            if text_is(text.as_str(), "...") {
                Ok((ellipsis(location), pos + 1))
            } else {
                Err(CompileError::UnexpectedToken)
            }
        },
        TokKind::LPAR => if at(t, pos + 1, TokKind::RPAR) {
            Ok((tuple(no_exprs(), location), pos + 2))
        } else {
            match parse_list(t, pos + 1) {
                Err(e) => Err(e),
                Ok((e, p)) => if at(t, p, TokKind::RPAR) {
                    Ok((e, p + 1))
                } else {
                    Err(CompileError::UnexpectedToken)
                },
            }
        },
        TokKind::LSQB => match parse_items(t, pos + 1, TokKind::RSQB, no_exprs()) {
            Err(e) => Err(e),
            Ok((elts, p)) => Ok((list(elts, location), p)),
        },
        TokKind::LBRACE => match parse_entries(t, pos + 1, no_entries()) {
            Err(e) => Err(e),
            Ok((entries, p)) => Ok((dict_of(entries, location), p)),
        },
        _ => Err(CompileError::UnexpectedToken),
    }
}

fn parse_argument(t: &Vec<Tok>, pos: usize, done: Arguments) -> (r: Result<(Arguments, usize), CompileError>)
    ensures
        arguments_result(r) == parsed_argument(tok_views(t@), pos as int, arguments_view(done)),
    decreases t.len() - pos, 10int,
{
    reveal(parsed_test);
    if at(t, pos, TokKind::NAME) && at(t, pos + 1, TokKind::EQUAL) {
        match parse_test(t, pos + 2) {
            Err(e) => Err(e),
            Ok((value, p)) => Ok((with_keyword(done, Some(text_at(t, pos)), value), p)),
        }
    } else if at(t, pos, TokKind::DOUBLESTAR) {
        match parse_test(t, pos + 1) {
            Err(e) => Err(e),
            Ok((value, p)) => Ok((with_keyword(done, None, value), p)),
        }
    } else {
        match parse_item(t, pos) {
            Err(e) => Err(e),
            Ok((value, p)) => Ok((with_argument(done, value), p)),
        }
    }
}

fn parse_arguments(t: &Vec<Tok>, pos: usize, done: Arguments) -> (r: Result<(Arguments, usize), CompileError>)
    ensures
        arguments_result(r) == parsed_arguments(tok_views(t@), pos as int, arguments_view(done)),
    decreases t.len() - pos, 11int,
{
    let mut all = done;
    let mut at_pos = pos;
    while at_pos < t.len()
        invariant
            pos <= at_pos,
            parsed_arguments(tok_views(t@), pos as int, arguments_view(done)) == parsed_arguments(
                tok_views(t@),
                at_pos as int,
                arguments_view(all),
            ),
        decreases t.len() - at_pos,
    {
        if at(t, at_pos, TokKind::RPAR) {
            return Ok((all, at_pos + 1));
        }
        match parse_argument(t, at_pos, all) {
            Err(e) => {
                return Err(e);
            },
            Ok((more, q)) => {
                if q <= at_pos || q > t.len() {
                    return Err(CompileError::UnexpectedToken);
                }
                if at(t, q, TokKind::COMMA) {
                    all = more;
                    at_pos = q + 1;
                } else if at(t, q, TokKind::RPAR) {
                    return Ok((more, q + 1));
                } else {
                    return Err(CompileError::UnexpectedToken);
                }
            },
        }
    }
    Err(CompileError::UnexpectedToken)
}

fn parse_call(t: &Vec<Tok>, pos: usize, e: Expr) -> (r: Result<(Expr, usize), CompileError>)
    ensures
        expr_result(r) == parsed_call(tok_views(t@), pos as int, e.model()),
    decreases t.len() - pos, 0int,
{
    if pos >= t.len() {
        return Err(CompileError::UnexpectedToken);
    }
    match as_name(e) {
        Some((id, location)) => match parse_arguments(t, pos + 1, no_arguments()) {
            Err(x) => Err(x),
            Ok((all, p)) => Ok((call(id, all, location), p)),
        },
        None => Err(CompileError::UnexpectedToken),
    }
}

fn parse_bound(t: &Vec<Tok>, pos: usize) -> (r: Result<(Option<Expr>, usize), CompileError>)
    ensures
        bound_result(r) == parsed_bound(tok_views(t@), pos as int),
    decreases t.len() - pos, 9int,
{
    reveal(parsed_test);
    if pos >= t.len() || at(t, pos, TokKind::COLON) || at(t, pos, TokKind::COMMA) || at(t, pos, TokKind::RSQB) {
        Ok((None, pos))
    } else {
        match parse_test(t, pos) {
            Err(e) => Err(e),
            Ok((e, p)) => Ok((Some(e), p)),
        }
    }
}

fn parse_range(t: &Vec<Tok>, pos: usize, lower: Option<Expr>) -> (r: Result<(Slice, usize), CompileError>)
    ensures
        slice_result(r) == parsed_range(tok_views(t@), pos as int, bound_view(lower)),
    decreases t.len() - pos, 10int,
{
    match parse_bound(t, pos) {
        Err(e) => Err(e),
        Ok((upper, q)) => {
            if q < pos || q > t.len() {
                return Err(CompileError::UnexpectedToken);
            }
            if at(t, q, TokKind::COLON) {
                match parse_bound(t, q + 1) {
                    Err(e) => Err(e),
                    Ok((step, r)) => Ok((range(lower, upper, step), r)),
                }
            } else {
                Ok((range(lower, upper, None), q))
            }
        },
    }
}

fn parse_slice(t: &Vec<Tok>, pos: usize) -> (r: Result<(Slice, usize), CompileError>)
    ensures
        slice_result(r) == parsed_slice(tok_views(t@), pos as int),
    decreases t.len() - pos, 10int,
{
    match parse_bound(t, pos) {
        Err(e) => Err(e),
        Ok((lower, p)) => {
            if p < pos || p > t.len() {
                return Err(CompileError::UnexpectedToken);
            }
            if at(t, p, TokKind::COLON) {
                parse_range(t, p + 1, lower)
            } else {
                match lower {
                    Some(e) => Ok((index(e), p)),
                    None => Err(CompileError::UnexpectedToken),
                }
            }
        },
    }
}

fn parse_dims(t: &Vec<Tok>, pos: usize, done: Vec<Slice>) -> (r: Result<(Vec<Slice>, usize), CompileError>)
    ensures
        dims_result(r) == parsed_dims(tok_views(t@), pos as int, slice_views(done@)),
    decreases t.len() - pos, 11int,
{
    let mut dims = done;
    let mut at_pos = pos;
    while at_pos < t.len()
        invariant
            pos <= at_pos,
            parsed_dims(tok_views(t@), pos as int, slice_views(done@)) == parsed_dims(
                tok_views(t@),
                at_pos as int,
                slice_views(dims@),
            ),
        decreases t.len() - at_pos,
    {
        if at(t, at_pos, TokKind::RSQB) {
            return Ok((dims, at_pos + 1));
        }
        match parse_slice(t, at_pos) {
            Err(e) => {
                return Err(e);
            },
            Ok((dim, p)) => {
                if p < at_pos || p > t.len() {
                    return Err(CompileError::UnexpectedToken);
                }
                dims = with_slice(dims, dim);
                if at(t, p, TokKind::COMMA) {
                    at_pos = p + 1;
                } else if at(t, p, TokKind::RSQB) {
                    return Ok((dims, p + 1));
                } else {
                    return Err(CompileError::UnexpectedToken);
                }
            },
        }
    }
    Err(CompileError::UnexpectedToken)
}

fn parse_index(t: &Vec<Tok>, pos: usize) -> (r: Result<(Slice, usize), CompileError>)
    ensures
        slice_result(r) == parsed_index(tok_views(t@), pos as int),
    decreases t.len() - pos, 12int,
{
    match parse_slice(t, pos) {
        Err(x) => Err(x),
        Ok((first, p)) => {
            if p < pos || p > t.len() {
                return Err(CompileError::UnexpectedToken);
            }
            if at(t, p, TokKind::RSQB) {
                Ok((first, p + 1))
            } else if at(t, p, TokKind::COMMA) {
                match parse_dims(t, p + 1, one_slice(first)) {
                    Err(x) => Err(x),
                    Ok((dims, q)) => Ok((dimensions(dims), q)),
                }
            } else {
                Err(CompileError::UnexpectedToken)
            }
        },
    }
}

fn parse_subscript(t: &Vec<Tok>, pos: usize, e: Expr) -> (r: Result<(Expr, usize), CompileError>)
    ensures
        expr_result(r) == parsed_subscript(tok_views(t@), pos as int, e.model()),
    decreases t.len() - pos, 0int,
{
    if pos >= t.len() {
        return Err(CompileError::UnexpectedToken);
    }
    match parse_index(t, pos + 1) {
        Err(x) => Err(x),
        Ok((slice, p)) => Ok((sliced(e, slice), p)),
    }
}

fn parse_attribute(t: &Vec<Tok>, pos: usize, e: Expr) -> (r: Result<(Expr, usize), CompileError>)
    requires
        pos < t.len(),
    ensures
        expr_result(r) == parsed_attribute(tok_views(t@), pos as int, e.model()),
{
    if at(t, pos + 1, TokKind::NAME) {
        Ok((attribute(e, text_at(t, pos + 1)), pos + 2))
    } else {
        Err(CompileError::UnexpectedToken)
    }
}

/// What `parse_trailer` found: nothing, with the expression handed
/// back, or what a call, a subscript or an attribute gave.
enum Trailer {
    Nothing(Expr),
    Found(Result<(Expr, usize), CompileError>),
}

fn parse_trailer(t: &Vec<Tok>, pos: usize, e: Expr) -> (r: Trailer)
    ensures
        match r {
            Trailer::Nothing(same) => parsed_trailer(tok_views(t@), pos as int, e.model()) is None && same.model()
                == e.model(),
            Trailer::Found(found) => parsed_trailer(tok_views(t@), pos as int, e.model()) == Some(expr_result(found)),
        },
    decreases t.len() - pos, 1int,
{
    if at(t, pos, TokKind::LPAR) {
        Trailer::Found(parse_call(t, pos, e))
    } else if at(t, pos, TokKind::LSQB) {
        Trailer::Found(parse_subscript(t, pos, e))
    } else if at(t, pos, TokKind::DOT) {
        Trailer::Found(parse_attribute(t, pos, e))
    } else {
        Trailer::Nothing(e)
    }
}

fn parse_trailers(t: &Vec<Tok>, pos: usize, e: Expr) -> (r: Result<(Expr, usize), CompileError>)
    ensures
        expr_result(r) == parsed_trailers(tok_views(t@), pos as int, e.model()),
    decreases t.len() - pos, 2int,
{
    match parse_trailer(t, pos, e) {
        Trailer::Nothing(same) => Ok((same, pos)),
        Trailer::Found(Err(x)) => Err(x),
        Trailer::Found(Ok((longer, p))) => {
            if p <= pos || p > t.len() {
                return Err(CompileError::UnexpectedToken);
            }
            parse_trailers(t, p, longer)
        },
    }
}

fn parse_power(t: &Vec<Tok>, pos: usize) -> (r: Result<(Expr, usize), CompileError>)
    ensures
        expr_result(r) == parsed_power(tok_views(t@), pos as int),
    decreases t.len() - pos, 2int,
{
    match parse_atom(t, pos) {
        Err(e) => Err(e),
        Ok((atom, p)) => {
            if p <= pos || p > t.len() {
                return Err(CompileError::UnexpectedToken);
            }
            match parse_trailers(t, p, atom) {
                Err(e) => Err(e),
                Ok((base, q)) => {
                    if q < p || q > t.len() {
                        return Err(CompileError::UnexpectedToken);
                    }
                    if at(t, q, TokKind::DOUBLESTAR) {
                        match parse_unary(t, q + 1) {
                            Err(e) => Err(e),
                            Ok((exponent, r)) => Ok((binop(base, Operator::Pow, exponent), r)),
                        }
                    } else {
                        Ok((base, q))
                    }
                },
            }
        },
    }
}

fn parse_unary(t: &Vec<Tok>, pos: usize) -> (r: Result<(Expr, usize), CompileError>)
    ensures
        expr_result(r) == parsed_unary(tok_views(t@), pos as int),
    decreases t.len() - pos, 3int,
{
    let sign = match kind_of(t, pos) {
        Some(TokKind::PLUS) => Some(UnaryOp::UAdd),
        Some(TokKind::MINUS) => Some(UnaryOp::USub),
        Some(TokKind::TILDE) => Some(UnaryOp::Invert),
        _ => None,
    };
    match sign {
        Some(op) => match parse_unary(t, pos + 1) {
            Err(e) => Err(e),
            Ok((operand, p)) => Ok((unary(op, operand, location_of(t, pos)), p)),
        },
        None => parse_power(t, pos),
    }
}

fn parse_binary_rest(t: &Vec<Tok>, pos: usize, level: u8, left: Expr) -> (r: Result<(Expr, usize), CompileError>)
    ensures
        expr_result(r) == parsed_binary_rest(tok_views(t@), pos as int, level as int, left.model()),
    decreases t.len() - pos, 0int,
{
    match kind_of(t, pos) {
        None => Ok((left, pos)),
        Some(kind) => match binary(kind) {
            None => Ok((left, pos)),
            Some((op, binds)) => {
                if binds < level {
                    return Ok((left, pos));
                }
                match parse_binary(t, pos + 1, binds + 1) {
                    Err(e) => Err(e),
                    Ok((right, p)) => {
                        if p <= pos || p > t.len() {
                            return Err(CompileError::UnexpectedToken);
                        }
                        parse_binary_rest(t, p, level, binop(left, op, right))
                    },
                }
            },
        },
    }
}

fn parse_binary(t: &Vec<Tok>, pos: usize, level: u8) -> (r: Result<(Expr, usize), CompileError>)
    ensures
        expr_result(r) == parsed_binary(tok_views(t@), pos as int, level as int),
    decreases t.len() - pos, 4int,
{
    match parse_unary(t, pos) {
        Err(e) => Err(e),
        Ok((left, p)) => {
            if p <= pos || p > t.len() {
                return Err(CompileError::UnexpectedToken);
            }
            parse_binary_rest(t, p, level, left)
        },
    }
}

fn parse_links(t: &Vec<Tok>, pos: usize, ops: Vec<CmpOp>, comparators: Vec<Expr>) -> (r: Result<
    (Vec<CmpOp>, Vec<Expr>, usize),
    CompileError,
>)
    ensures
        match r {
            Ok((o, c, p)) => parsed_links(tok_views(t@), pos as int, ops@, expr_views(comparators@)) == Ok::<
                _,
                CompileError,
            >((o@, expr_views(c@), p as int)),
            Err(x) => parsed_links(tok_views(t@), pos as int, ops@, expr_views(comparators@)) == Err::<
                (Seq<CmpOp>, Seq<ExprView>, int),
                _,
            >(x),
        },
    decreases t.len() - pos, 0int,
{
    let mut ops = ops;
    match comparison(t, pos) {
        None => Ok((ops, comparators, pos)),
        Some((op, n)) => match parse_binary(t, pos + n, 1) {
            Err(e) => Err(e),
            Ok((right, p)) => {
                if p <= pos || p > t.len() {
                    return Err(CompileError::UnexpectedToken);
                }
                ops.push(op);
                let comparators = with_expr(comparators, right);
                parse_links(t, p, ops, comparators)
            },
        },
    }
}

fn parse_comparison(t: &Vec<Tok>, pos: usize) -> (r: Result<(Expr, usize), CompileError>)
    ensures
        expr_result(r) == parsed_comparison(tok_views(t@), pos as int),
    decreases t.len() - pos, 5int,
{
    match parse_binary(t, pos, 1) {
        Err(e) => Err(e),
        Ok((left, p)) => {
            if p <= pos || p > t.len() {
                return Err(CompileError::UnexpectedToken);
            }
            match parse_links(t, p, Vec::new(), no_exprs()) {
                Err(e) => Err(e),
                Ok((ops, comparators, q)) => {
                    if ops.len() == 0 {
                        Ok((left, q))
                    } else {
                        Ok((compare(left, ops, comparators), q))
                    }
                },
            }
        },
    }
}

fn parse_not(t: &Vec<Tok>, pos: usize) -> (r: Result<(Expr, usize), CompileError>)
    ensures
        expr_result(r) == parsed_not(tok_views(t@), pos as int),
    decreases t.len() - pos, 6int,
{
    if at(t, pos, TokKind::NAMEnot) {
        match parse_not(t, pos + 1) {
            Err(e) => Err(e),
            Ok((operand, p)) => Ok((unary(UnaryOp::Not, operand, location_of(t, pos)), p)),
        }
    } else {
        parse_comparison(t, pos)
    }
}

fn parse_bool_rest(t: &Vec<Tok>, pos: usize, is_or: bool, left: Expr) -> (r: Result<(Expr, usize), CompileError>)
    ensures
        expr_result(r) == parsed_bool_rest(tok_views(t@), pos as int, is_or, left.model()),
    decreases t.len() - pos, 0int,
{
    let word = if is_or {
        TokKind::NAMEor
    } else {
        TokKind::NAMEand
    };
    if at(t, pos, word) {
        let right = if is_or {
            parse_and(t, pos + 1)
        } else {
            parse_not(t, pos + 1)
        };
        match right {
            Err(e) => Err(e),
            Ok((r, p)) => {
                if p <= pos || p > t.len() {
                    return Err(CompileError::UnexpectedToken);
                }
                let op = if is_or {
                    BoolOp::Or
                } else {
                    BoolOp::And
                };
                parse_bool_rest(t, p, is_or, boolop(op, left, r))
            },
        }
    } else {
        Ok((left, pos))
    }
}

fn parse_and(t: &Vec<Tok>, pos: usize) -> (r: Result<(Expr, usize), CompileError>)
    ensures
        expr_result(r) == parsed_and(tok_views(t@), pos as int),
    decreases t.len() - pos, 7int,
{
    match parse_not(t, pos) {
        Err(e) => Err(e),
        Ok((left, p)) => {
            if p <= pos || p > t.len() {
                return Err(CompileError::UnexpectedToken);
            }
            parse_bool_rest(t, p, false, left)
        },
    }
}

fn parse_test(t: &Vec<Tok>, pos: usize) -> (r: Result<(Expr, usize), CompileError>)
    ensures
        expr_result(r) == parsed_test(tok_views(t@), pos as int),
    decreases t.len() - pos, 8int,
{
    reveal(parsed_test);
    match parse_and(t, pos) {
        Err(e) => Err(e),
        Ok((left, p)) => {
            if p <= pos || p > t.len() {
                return Err(CompileError::UnexpectedToken);
            }
            parse_bool_rest(t, p, true, left)
        },
    }
}

fn with_stmts(v: Vec<Stmt>, more: Vec<Stmt>) -> (r: Vec<Stmt>)
    ensures
        stmt_views(r@) == stmt_views(v@) + stmt_views(more@),
{
    let mut v = v;
    let mut more = more;
    proof {
        lemma_stmts_append(v@, more@);
    }
    v.append(&mut more);
    v
}

fn with_stmt(v: Vec<Stmt>, s: Stmt) -> (r: Vec<Stmt>)
    ensures
        stmt_views(r@) == stmt_views(v@).push(s.model()),
{
    let mut v = v;
    proof {
        lemma_stmts_push(v@, s);
    }
    v.push(s);
    v
}

fn no_stmts() -> (v: Vec<Stmt>)
    ensures
        stmt_views(v@) == Seq::<StmtView>::empty(),
{
    let v: Vec<Stmt> = Vec::new();
    assert(stmt_views(v@) =~= Seq::<StmtView>::empty());
    v
}

fn one_stmt(s: Stmt) -> (v: Vec<Stmt>)
    ensures
        stmt_views(v@) == seq![s.model()],
{
    let mut v: Vec<Stmt> = Vec::new();
    v.push(s);
    assert(stmt_views(v@) =~= seq![s.model()]);
    v
}

fn with_name(v: Vec<String>, s: String) -> (r: Vec<String>)
    ensures
        name_views(r@) == name_views(v@).push(s@),
{
    let mut v = v;
    proof {
        lemma_names_push(v@, s);
    }
    v.push(s);
    v
}

fn no_names() -> (v: Vec<String>)
    ensures
        name_views(v@) == Seq::<Seq<char>>::empty(),
{
    let v: Vec<String> = Vec::new();
    assert(name_views(v@) =~= Seq::<Seq<char>>::empty());
    v
}

fn result_of(value: Option<Expr>, location: String) -> (r: Stmt)
    ensures
        r.model() == (StmtView::Return {
            value: match value {
                Some(e) => Some(e.model()),
                None => None,
            },
            location: location@,
        }),
{
    Stmt::Return { value, location }
}

fn assignment(target: Expr, operator: Option<Operator>, value: Expr, location: String) -> (r: Stmt)
    ensures
        r.model() == match operator {
            Some(op) => StmtView::AugAssign {
                target: Box::new(target.model()),
                op,
                value: Box::new(value.model()),
                location: location@,
            },
            None => StmtView::Assign {
                target: Box::new(target.model()),
                value: Box::new(value.model()),
                location: location@,
            },
        },
{
    match operator {
        Some(op) => Stmt::AugAssign { target: Box::new(target), op, value: Box::new(value), location },
        None => Stmt::Assign { target: Box::new(target), value: Box::new(value), location },
    }
}

fn expression(value: Expr, location: String) -> (r: Stmt)
    ensures
        r.model() == (StmtView::Expr { value: Box::new(value.model()), location: location@ }),
{
    Stmt::Expr { value: Box::new(value), location }
}

fn names_of(global: bool, names: Vec<String>, location: String) -> (r: Stmt)
    ensures
        r.model() == if global {
            StmtView::Global { names: name_views(names@), location: location@ }
        } else {
            StmtView::Nonlocal { names: name_views(names@), location: location@ }
        },
{
    if global {
        Stmt::Global { names, location }
    } else {
        Stmt::Nonlocal { names, location }
    }
}

fn word(kind: TokKind, location: String) -> (r: Stmt)
    requires
        kind == TokKind::NAMEpass || kind == TokKind::NAMEbreak || kind == TokKind::NAMEcontinue,
    ensures
        r.model() == if kind == TokKind::NAMEpass {
            StmtView::Pass { location: location@ }
        } else if kind == TokKind::NAMEbreak {
            StmtView::Break { location: location@ }
        } else {
            StmtView::Continue { location: location@ }
        },
{
    match kind {
        TokKind::NAMEpass => Stmt::Pass { location },
        TokKind::NAMEbreak => Stmt::Break { location },
        _ => Stmt::Continue { location },
    }
}

fn branch(test: Expr, body: Vec<Stmt>, orelse: Vec<Stmt>, location: String) -> (r: Stmt)
    ensures
        r.model() == (StmtView::If {
            test: Box::new(test.model()),
            body: stmt_views(body@),
            orelse: stmt_views(orelse@),
            location: location@,
        }),
{
    Stmt::If { test: Box::new(test), body, orelse, location }
}

fn repetition(test: Expr, body: Vec<Stmt>, orelse: Vec<Stmt>, location: String) -> (r: Stmt)
    ensures
        r.model() == (StmtView::While {
            test: Box::new(test.model()),
            body: stmt_views(body@),
            orelse: stmt_views(orelse@),
            location: location@,
        }),
{
    Stmt::While { test: Box::new(test), body, orelse, location }
}

fn definition(
    name: String,
    args: Vec<String>,
    body: Vec<Stmt>,
    decorator_list: Vec<Expr>,
    annotation: Option<Expr>,
    location: String,
) -> (r: Stmt)
    ensures
        r.model() == (StmtView::FunctionDef {
            name: name@,
            args: name_views(args@),
            body: stmt_views(body@),
            decorator_list: expr_views(decorator_list@),
            annotation: match annotation {
                Some(e) => Some(e.model()),
                None => None,
            },
            location: location@,
        }),
{
    Stmt::FunctionDef { name, args, body, decorator_list, annotation, location }
}

fn parse_names(t: &Vec<Tok>, pos: usize, done: Vec<String>) -> (r: Result<(Vec<String>, usize), CompileError>)
    ensures
        names_result(r) == parsed_names(tok_views(t@), pos as int, name_views(done@)),
    decreases t.len() - pos,
{
    reveal(parsed_names);
    if !at(t, pos, TokKind::NAME) {
        return Err(CompileError::UnexpectedToken);
    }
    let done = with_name(done, text_at(t, pos));
    if at(t, pos + 1, TokKind::COMMA) {
        parse_names(t, pos + 2, done)
    } else {
        Ok((done, pos + 1))
    }
}

fn parse_assignment(t: &Vec<Tok>, pos: usize) -> (r: Result<(Stmt, usize), CompileError>)
    ensures
        stmt_result(r) == parsed_assignment(tok_views(t@), pos as int),
{
    reveal(parsed_assignment);
    let location = location_of(t, pos);
    match parse_list(t, pos) {
        Err(e) => Err(e),
        Ok((first, p)) => {
            let operator = match kind_of(t, p) {
                Some(kind) => augmented(kind),
                None => None,
            };
            if at(t, p, TokKind::EQUAL) || operator.is_some() {
                match target_of(first) {
                    None => Err(CompileError::UnexpectedToken),
                    Some(target) => match parse_list(t, p + 1) {
                        Err(e) => Err(e),
                        Ok((value, q)) => Ok((assignment(target, operator, value, location), q)),
                    },
                }
            } else {
                Ok((expression(first, location), p))
            }
        },
    }
}

fn parse_small(t: &Vec<Tok>, pos: usize) -> (r: Result<(Stmt, usize), CompileError>)
    ensures
        stmt_result(r) == parsed_small(tok_views(t@), pos as int),
{
    reveal(parsed_small);
    let kind = match kind_of(t, pos) {
        None => {
            return Err(CompileError::UnexpectedToken);
        },
        Some(k) => k,
    };
    match kind {
        TokKind::NAMEpass => Ok((word(kind, location_of(t, pos)), pos + 1)),
        TokKind::NAMEbreak => Ok((word(kind, location_of(t, pos)), pos + 1)),
        TokKind::NAMEcontinue => Ok((word(kind, location_of(t, pos)), pos + 1)),
        TokKind::NAMEreturn => {
            if at(t, pos + 1, TokKind::NEWLINE) || at(t, pos + 1, TokKind::SEMI) || pos + 1 >= t.len() {
                Ok((result_of(None, location_of(t, pos)), pos + 1))
            } else {
                match parse_list(t, pos + 1) {
                    Err(e) => Err(e),
                    Ok((value, p)) => Ok((result_of(Some(value), location_of(t, pos)), p)),
                }
            }
        },
        TokKind::NAMEglobal => match parse_names(t, pos + 1, no_names()) {
            Err(e) => Err(e),
            Ok((names, p)) => Ok((names_of(true, names, location_of(t, pos)), p)),
        },
        TokKind::NAMEnonlocal => match parse_names(t, pos + 1, no_names()) {
            Err(e) => Err(e),
            Ok((names, p)) => Ok((names_of(false, names, location_of(t, pos)), p)),
        },
        _ => parse_assignment(t, pos),
    }
}

fn parse_line(t: &Vec<Tok>, pos: usize, done: Vec<Stmt>) -> (r: Result<(Vec<Stmt>, usize), CompileError>)
    ensures
        stmts_result(r) == parsed_line(tok_views(t@), pos as int, stmt_views(done@)),
    decreases t.len() - pos,
{
    reveal(parsed_line);
    match parse_small(t, pos) {
        Err(e) => Err(e),
        Ok((s, p)) => {
            if p <= pos || p > t.len() {
                return Err(CompileError::UnexpectedToken);
            }
            let done = with_stmt(done, s);
            if at(t, p, TokKind::NEWLINE) {
                Ok((done, p + 1))
            } else if at(t, p, TokKind::SEMI) {
                if at(t, p + 1, TokKind::NEWLINE) {
                    Ok((done, p + 2))
                } else {
                    parse_line(t, p + 1, done)
                }
            } else {
                Err(CompileError::UnexpectedToken)
            }
        },
    }
}

fn parse_block(t: &Vec<Tok>, pos: usize, done: Vec<Stmt>) -> (r: Result<(Vec<Stmt>, usize), CompileError>)
    ensures
        stmts_result(r) == parsed_block(tok_views(t@), pos as int, stmt_views(done@)),
    decreases t.len() - pos, 8int,
{
    let mut list = done;
    let mut at_pos = pos;
    while at_pos < t.len()
        invariant
            pos <= at_pos,
            parsed_block(tok_views(t@), pos as int, stmt_views(done@)) == parsed_block(
                tok_views(t@),
                at_pos as int,
                stmt_views(list@),
            ),
        decreases t.len() - at_pos,
    {
        if at(t, at_pos, TokKind::DEDENT) {
            return Ok((list, at_pos + 1));
        }
        match parse_statement(t, at_pos) {
            Err(e) => {
                return Err(e);
            },
            Ok((more, p)) => {
                if p <= at_pos || p > t.len() {
                    return Err(CompileError::UnexpectedToken);
                }
                list = with_stmts(list, more);
                at_pos = p;
            },
        }
    }
    Err(CompileError::UnexpectedToken)
}

fn parse_suite(t: &Vec<Tok>, pos: usize) -> (r: Result<(Vec<Stmt>, usize), CompileError>)
    ensures
        stmts_result(r) == parsed_suite(tok_views(t@), pos as int),
    decreases t.len() - pos, 4int,
{
    if at(t, pos, TokKind::NEWLINE) {
        if at(t, pos + 1, TokKind::INDENT) {
            parse_block(t, pos + 2, no_stmts())
        } else {
            Err(CompileError::UnexpectedToken)
        }
    } else {
        parse_line(t, pos, no_stmts())
    }
}

fn parse_head(t: &Vec<Tok>, pos: usize) -> (r: Result<(Expr, Vec<Stmt>, usize), CompileError>)
    ensures
        match r {
            Ok((test, body, p)) => parsed_head(tok_views(t@), pos as int) == Ok::<_, CompileError>(
                (test.model(), stmt_views(body@), p as int),
            ),
            Err(x) => parsed_head(tok_views(t@), pos as int) == Err::<(ExprView, Seq<StmtView>, int), _>(x),
        },
    decreases t.len() - pos, 5int,
{
    match parse_test(t, pos) {
        Err(e) => Err(e),
        Ok((test, p)) => {
            if p <= pos || p >= t.len() || !at(t, p, TokKind::COLON) {
                return Err(CompileError::UnexpectedToken);
            }
            match parse_suite(t, p + 1) {
                Err(e) => Err(e),
                Ok((body, q)) => {
                    if q <= p + 1 || q > t.len() {
                        return Err(CompileError::UnexpectedToken);
                    }
                    Ok((test, body, q))
                },
            }
        },
    }
}

fn parse_else(t: &Vec<Tok>, pos: usize) -> (r: Result<(Vec<Stmt>, usize), CompileError>)
    ensures
        stmts_result(r) == parsed_else(tok_views(t@), pos as int),
    decreases t.len() - pos, 5int,
{
    if at(t, pos, TokKind::NAMEelse) {
        if at(t, pos + 1, TokKind::COLON) {
            parse_suite(t, pos + 2)
        } else {
            Err(CompileError::UnexpectedToken)
        }
    } else {
        Ok((no_stmts(), pos))
    }
}

fn parse_if(t: &Vec<Tok>, pos: usize) -> (r: Result<(Stmt, usize), CompileError>)
    ensures
        stmt_result(r) == parsed_if(tok_views(t@), pos as int),
    decreases t.len() - pos, 6int,
{
    if pos >= t.len() {
        return Err(CompileError::UnexpectedToken);
    }
    match parse_head(t, pos + 1) {
        Err(e) => Err(e),
        Ok((test, body, p)) => {
            if p <= pos + 1 || p > t.len() {
                return Err(CompileError::UnexpectedToken);
            }
            if at(t, p, TokKind::NAMEelif) {
                match parse_if(t, p) {
                    Err(e) => Err(e),
                    Ok((other, q)) => Ok((branch(test, body, one_stmt(other), location_of(t, pos)), q)),
                }
            } else {
                match parse_else(t, p) {
                    Err(e) => Err(e),
                    Ok((orelse, q)) => Ok((branch(test, body, orelse, location_of(t, pos)), q)),
                }
            }
        },
    }
}

fn parse_parameters(t: &Vec<Tok>, pos: usize) -> (r: Result<(Vec<String>, usize), CompileError>)
    ensures
        names_result(r) == parsed_parameters(tok_views(t@), pos as int),
{
    reveal(parsed_parameters);
    if at(t, pos, TokKind::RPAR) {
        Ok((no_names(), pos + 1))
    } else {
        match parse_names(t, pos, no_names()) {
            Err(e) => Err(e),
            Ok((names, p)) => if at(t, p, TokKind::RPAR) {
                Ok((names, p + 1))
            } else {
                Err(CompileError::UnexpectedToken)
            },
        }
    }
}

fn parse_annotation(t: &Vec<Tok>, pos: usize) -> (r: Result<(Option<Expr>, usize), CompileError>)
    ensures
        match r {
            Ok((e, p)) => parsed_annotation(tok_views(t@), pos as int) == Ok::<_, CompileError>(
                (
                    match e {
                        Some(x) => Some(x.model()),
                        None => None,
                    },
                    p as int,
                ),
            ),
            Err(x) => parsed_annotation(tok_views(t@), pos as int) == Err::<(Option<ExprView>, int), _>(x),
        },
{
    reveal(parsed_annotation);
    let arrow = at(t, pos, TokKind::OP) && text_is(text_at(t, pos).as_str(), "->");
    if arrow {
        match parse_test(t, pos + 1) {
            Err(e) => Err(e),
            Ok((e, p)) => Ok((Some(e), p)),
        }
    } else {
        Ok((None, pos))
    }
}

fn parse_decorators(t: &Vec<Tok>, pos: usize, done: Vec<Expr>) -> (r: Result<(Vec<Expr>, usize), CompileError>)
    ensures
        exprs_result(r) == parsed_decorators(tok_views(t@), pos as int, expr_views(done@)),
    decreases t.len() - pos,
{
    reveal(parsed_decorators);
    if !at(t, pos, TokKind::AT) {
        return Ok((done, pos));
    }
    match parse_test(t, pos + 1) {
        Err(e) => Err(e),
        Ok((e, p)) => {
            if p <= pos || p >= t.len() || !at(t, p, TokKind::NEWLINE) {
                return Err(CompileError::UnexpectedToken);
            }
            parse_decorators(t, p + 1, with_expr(done, e))
        },
    }
}

fn parse_def(t: &Vec<Tok>, pos: usize, decorators: Vec<Expr>) -> (r: Result<(Stmt, usize), CompileError>)
    requires
        pos < t.len(),
    ensures
        stmt_result(r) == parsed_def(tok_views(t@), pos as int, expr_views(decorators@)),
    decreases t.len() - pos, 6int,
{
    if !at(t, pos + 1, TokKind::NAME) || !at(t, pos + 2, TokKind::LPAR) {
        return Err(CompileError::UnexpectedToken);
    }
    match parse_parameters(t, pos + 3) {
        Err(e) => Err(e),
        Ok((args, p)) => match parse_annotation(t, p) {
            Err(e) => Err(e),
            Ok((annotation, q)) => {
                if q <= pos || q >= t.len() || !at(t, q, TokKind::COLON) {
                    return Err(CompileError::UnexpectedToken);
                }
                match parse_suite(t, q + 1) {
                    Err(e) => Err(e),
                    Ok((body, r)) => Ok(
                        (
                            definition(text_at(t, pos + 1), args, body, decorators, annotation, location_of(t, pos)),
                            r,
                        ),
                    ),
                }
            },
        },
    }
}

fn parse_while(t: &Vec<Tok>, pos: usize) -> (r: Result<(Stmt, usize), CompileError>)
    ensures
        stmt_result(r) == parsed_while(tok_views(t@), pos as int),
    decreases t.len() - pos, 6int,
{
    if pos >= t.len() {
        return Err(CompileError::UnexpectedToken);
    }
    match parse_head(t, pos + 1) {
        Err(e) => Err(e),
        Ok((test, body, p)) => {
            if p <= pos + 1 || p > t.len() {
                return Err(CompileError::UnexpectedToken);
            }
            match parse_else(t, p) {
                Err(e) => Err(e),
                Ok((orelse, q)) => Ok((repetition(test, body, orelse, location_of(t, pos)), q)),
            }
        },
    }
}

fn parse_statement(t: &Vec<Tok>, pos: usize) -> (r: Result<(Vec<Stmt>, usize), CompileError>)
    ensures
        stmts_result(r) == parsed_statement(tok_views(t@), pos as int),
    decreases t.len() - pos, 7int,
{
    let one = match kind_of(t, pos) {
        Some(TokKind::NAMEif) => parse_if(t, pos),
        Some(TokKind::NAMEwhile) => parse_while(t, pos),
        Some(TokKind::NAMEdef) => parse_def(t, pos, no_exprs()),
        Some(TokKind::AT) => match parse_decorators(t, pos, no_exprs()) {
            Err(e) => Err(e),
            Ok((decorators, p)) => {
                if p <= pos || p >= t.len() || !at(t, p, TokKind::NAMEdef) {
                    return Err(CompileError::UnexpectedToken);
                }
                parse_def(t, p, decorators)
            },
        },
        _ => {
            return parse_line(t, pos, no_stmts());
        },
    };
    match one {
        Err(e) => Err(e),
        Ok((s, p)) => Ok((one_stmt(s), p)),
    }
}

/// Parses the tokens of a section into its statements: the grammar is
/// that of `parsed`, and what does not follow it is an unexpected token.
pub fn parse_program(tokens: &Vec<Tok>) -> (r: Result<Vec<Stmt>, CompileError>)
    ensures
        match r {
            Ok(stmts) => parsed(tok_views(tokens@)) == Ok::<_, CompileError>(stmt_views(stmts@)),
            Err(x) => parsed(tok_views(tokens@)) == Err::<Seq<StmtView>, _>(x),
        },
{
    let mut done = no_stmts();
    let mut pos: usize = 0;
    while pos < tokens.len()
        invariant
            parsed(tok_views(tokens@)) == parsed_from(tok_views(tokens@), pos as int, stmt_views(done@)),
        decreases tokens.len() - pos,
    {
        if at(tokens, pos, TokKind::ENDMARKER) {
            return Ok(done);
        }
        match parse_statement(tokens, pos) {
            Err(e) => {
                return Err(e);
            },
            Ok((more, p)) => {
                if p <= pos || p > tokens.len() {
                    return Err(CompileError::UnexpectedToken);
                }
                done = with_stmts(done, more);
                pos = p;
            },
        }
    }
    Ok(done)
}

} // verus!
