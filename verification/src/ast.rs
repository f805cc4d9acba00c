//! The syntax tree of a program, with a view of each node as a value.

use vstd::prelude::*;

verus! {

pub type Identifier = String;

/// A statement. The location is "line,column-line,column".
#[derive(Debug)]
#[allow(inconsistent_fields)]
pub enum Stmt {
    FunctionDef {
        name: Identifier,
        args: Vec<String>,
        body: Vec<Stmt>,
        decorator_list: Vec<Expr>,
        /// The annotation of what the function returns.
        annotation: Option<Expr>,
        location: String,
    },
    Return { value: Option<Expr>, location: String },
    Assign { target: Box<Expr>, value: Box<Expr>, location: String },
    AugAssign { target: Box<Expr>, op: Operator, value: Box<Expr>, location: String },
    While { test: Box<Expr>, body: Vec<Stmt>, orelse: Vec<Stmt>, location: String },
    If { test: Box<Expr>, body: Vec<Stmt>, orelse: Vec<Stmt>, location: String },
    Global { names: Vec<Identifier>, location: String },
    /// Parsed for the sake of its diagnostic only.
    Nonlocal { names: Vec<Identifier>, location: String },
    Expr { value: Box<Expr>, location: String },
    Pass { location: String },
    Break { location: String },
    Continue { location: String },
}

/// An expression.
#[derive(Debug)]
#[allow(inconsistent_fields)]
pub enum Expr {
    BoolOpE { op: BoolOp, values: Vec<Expr>, location: String },
    BinOp { left: Box<Expr>, op: Operator, right: Box<Expr>, location: String },
    UnaryOpE { op: UnaryOp, operand: Box<Expr>, location: String },
    /// Has a meaning in the header only.
    Dict { keys: Vec<Expr>, values: Vec<Expr>, location: String },
    Compare { left: Box<Expr>, ops: Vec<CmpOp>, comparators: Vec<Expr>, location: String },
    Call { func: Identifier, args: Vec<Expr>, keywords: Vec<Keyword>, location: String },
    Str { s: String, location: String },
    Num { n: u32, location: String },
    NameConstant { value: u32, location: String },
    Ellipsis { location: String },
    Attribute { value: Box<Expr>, attr: Identifier, ctx: ExprContext, location: String },
    Subscript { value: Box<Expr>, slice: Box<Slice>, ctx: ExprContext, location: String },
    Starred { value: Box<Expr>, ctx: ExprContext, location: String },
    Name { id: Identifier, ctx: ExprContext, location: String },
    List { elts: Vec<Expr>, ctx: ExprContext, location: String },
    Tuple { elts: Vec<Expr>, ctx: ExprContext, location: String },
}

/// How a name or a subscript is used. Only loads and stores occur.
#[derive(Debug, Clone, Copy, PartialEq, Eq, Structural)]
pub enum ExprContext {
    Load,
    Store,
    Del,
    AugLoad,
    AugStore,
    Param,
}

/// What stands between the brackets of a subscript. Only a single index is
/// compiled.
#[derive(Debug)]
#[allow(inconsistent_fields)]
pub enum Slice {
    Slice { lower: Option<Expr>, upper: Option<Expr>, step: Option<Expr> },
    ExtSlice { dims: Vec<Slice> },
    Index { value: Box<Expr> },
}

#[derive(Debug, Clone, Copy, PartialEq, Eq, Structural)]
pub enum BoolOp {
    And,
    Or,
}

#[derive(Debug, Clone, Copy, PartialEq, Eq, Structural)]
pub enum Operator {
    Add,
    Sub,
    Mult,
    MatMult,
    Div,
    Mod,
    Pow,
    LShift,
    RShift,
    BitOr,
    BitXor,
    BitAnd,
    FloorDiv,
}

#[derive(Debug, Clone, Copy, PartialEq, Eq, Structural)]
pub enum UnaryOp {
    Invert,
    Not,
    UAdd,
    USub,
}

#[derive(Debug, Clone, Copy, PartialEq, Eq, Structural)]
pub enum CmpOp {
    Eq,
    NotEq,
    Lt,
    LtE,
    Gt,
    GtE,
    Is,
    IsNot,
    In,
    NotIn,
}

#[derive(Debug, Clone)]
pub struct Comprehension {
    pub target: Box<Expr>,
    pub iter: Box<Expr>,
    pub ifs: Vec<Expr>,
}

#[derive(Debug, Clone)]
pub struct ExceptHandler {
    pub etype: Option<Expr>,
    pub name: Option<Identifier>,
    pub body: Vec<Stmt>,
    pub location: String,
}

#[derive(Debug, Clone)]
pub struct Arguments {
    pub args: Vec<Arg>,
    pub vararg: Option<Arg>,
    pub kwonlyargs: Vec<Arg>,
    pub kw_defaults: Vec<Expr>,
    pub kwarg: Option<Arg>,
    pub defaults: Vec<Expr>,
}

#[derive(Debug, Clone)]
pub struct Arg {
    pub arg: Identifier,
    pub annotation: Option<Expr>,
    pub location: String,
}

#[derive(Debug)]
pub struct Keyword {
    pub arg: Option<Identifier>,
    pub value: Box<Expr>,
}

/// An expression as a value.
#[allow(inconsistent_fields)]
pub enum ExprView {
    BoolOpE { op: BoolOp, values: Seq<ExprView>, location: Seq<char> },
    BinOp { left: Box<ExprView>, op: Operator, right: Box<ExprView>, location: Seq<char> },
    UnaryOpE { op: UnaryOp, operand: Box<ExprView>, location: Seq<char> },
    Dict { keys: Seq<ExprView>, values: Seq<ExprView>, location: Seq<char> },
    Compare { left: Box<ExprView>, ops: Seq<CmpOp>, comparators: Seq<ExprView>, location: Seq<char> },
    Call { func: Seq<char>, args: Seq<ExprView>, keywords: Seq<KeywordView>, location: Seq<char> },
    Str { s: Seq<char>, location: Seq<char> },
    Num { n: u32, location: Seq<char> },
    NameConstant { value: u32, location: Seq<char> },
    Ellipsis { location: Seq<char> },
    Attribute { value: Box<ExprView>, attr: Seq<char>, ctx: ExprContext, location: Seq<char> },
    Subscript { value: Box<ExprView>, slice: Box<SliceView>, ctx: ExprContext, location: Seq<char> },
    Starred { value: Box<ExprView>, ctx: ExprContext, location: Seq<char> },
    Name { id: Seq<char>, ctx: ExprContext, location: Seq<char> },
    List { elts: Seq<ExprView>, ctx: ExprContext, location: Seq<char> },
    Tuple { elts: Seq<ExprView>, ctx: ExprContext, location: Seq<char> },
}

/// A slice as a value.
#[allow(inconsistent_fields)]
pub enum SliceView {
    Slice { lower: Option<ExprView>, upper: Option<ExprView>, step: Option<ExprView> },
    ExtSlice { dims: Seq<SliceView> },
    Index { value: Box<ExprView> },
}

/// A keyword argument as a value.
pub struct KeywordView {
    pub arg: Option<Seq<char>>,
    pub value: Box<ExprView>,
}

/// A statement as a value.
#[allow(inconsistent_fields)]
pub enum StmtView {
    FunctionDef {
        name: Seq<char>,
        args: Seq<Seq<char>>,
        body: Seq<StmtView>,
        decorator_list: Seq<ExprView>,
        annotation: Option<ExprView>,
        location: Seq<char>,
    },
    Return { value: Option<ExprView>, location: Seq<char> },
    Assign { target: Box<ExprView>, value: Box<ExprView>, location: Seq<char> },
    AugAssign { target: Box<ExprView>, op: Operator, value: Box<ExprView>, location: Seq<char> },
    While { test: Box<ExprView>, body: Seq<StmtView>, orelse: Seq<StmtView>, location: Seq<char> },
    If { test: Box<ExprView>, body: Seq<StmtView>, orelse: Seq<StmtView>, location: Seq<char> },
    Global { names: Seq<Seq<char>>, location: Seq<char> },
    Nonlocal { names: Seq<Seq<char>>, location: Seq<char> },
    Expr { value: Box<ExprView>, location: Seq<char> },
    Pass { location: Seq<char> },
    Break { location: Seq<char> },
    Continue { location: Seq<char> },
}

/// The expressions of a list as values.
pub open spec fn expr_views(v: Seq<Expr>) -> Seq<ExprView>
    decreases v,
{
    Seq::new(
        v.len(),
        |i: int|
            if 0 <= i < v.len() {
                proof {
                    assert(decreases_to!(v => v[i]));
                }
                v[i].model()
            } else {
                ExprView::Ellipsis { location: Seq::empty() }
            },
    )
}

/// The slices of a list as values.
pub open spec fn slice_views(v: Seq<Slice>) -> Seq<SliceView>
    decreases v,
{
    Seq::new(
        v.len(),
        |i: int|
            if 0 <= i < v.len() {
                proof {
                    assert(decreases_to!(v => v[i]));
                }
                v[i].model()
            } else {
                SliceView::ExtSlice { dims: Seq::empty() }
            },
    )
}

/// The keyword arguments of a list as values.
pub open spec fn keyword_views(v: Seq<Keyword>) -> Seq<KeywordView>
    decreases v,
{
    Seq::new(
        v.len(),
        |i: int|
            if 0 <= i < v.len() {
                proof {
                    assert(decreases_to!(v => v[i]));
                }
                KeywordView {
                    arg: match v[i].arg {
                        Some(a) => Some(a@),
                        None => None,
                    },
                    value: Box::new((*v[i].value).model()),
                }
            } else {
                KeywordView { arg: None, value: Box::new(ExprView::Ellipsis { location: Seq::empty() }) }
            },
    )
}

/// The statements of a list as values.
pub open spec fn stmt_views(v: Seq<Stmt>) -> Seq<StmtView>
    decreases v,
{
    Seq::new(
        v.len(),
        |i: int|
            if 0 <= i < v.len() {
                proof {
                    assert(decreases_to!(v => v[i]));
                }
                v[i].model()
            } else {
                StmtView::Pass { location: Seq::empty() }
            },
    )
}

/// An expression that may be missing, as a value.
pub open spec fn option_view(e: Option<Expr>) -> Option<ExprView>
    decreases e,
{
    match e {
        Some(x) => Some(x.model()),
        None => None,
    }
}

/// The names of a list as values.
pub open spec fn name_views(v: Seq<String>) -> Seq<Seq<char>> {
    Seq::new(v.len(), |i: int| v[i]@)
}

impl Slice {
    /// The slice as a value.
    pub open spec fn model(self) -> SliceView
        decreases self,
    {
        match self {
            Slice::Slice { lower, upper, step } => SliceView::Slice {
                lower: option_view(lower),
                upper: option_view(upper),
                step: option_view(step),
            },
            Slice::ExtSlice { dims } => {
                proof {
                    assert(decreases_to!(dims => dims@));
                }
                SliceView::ExtSlice { dims: slice_views(dims@) }
            },
            Slice::Index { value } => SliceView::Index { value: Box::new((*value).model()) },
        }
    }
}

impl Expr {
    /// The expression as a value.
    pub open spec fn model(self) -> ExprView
        decreases self,
    {
        match self {
            Expr::BoolOpE { op, values, location } => {
                proof {
                    assert(decreases_to!(values => values@));
                }
                ExprView::BoolOpE { op, values: expr_views(values@), location: location@ }
            },
            Expr::BinOp { left, op, right, location } => ExprView::BinOp {
                left: Box::new((*left).model()),
                op,
                right: Box::new((*right).model()),
                location: location@,
            },
            Expr::UnaryOpE { op, operand, location } => ExprView::UnaryOpE {
                op,
                operand: Box::new((*operand).model()),
                location: location@,
            },
            Expr::Dict { keys, values, location } => {
                proof {
                    assert(decreases_to!(keys => keys@));
                    assert(decreases_to!(values => values@));
                }
                ExprView::Dict { keys: expr_views(keys@), values: expr_views(values@), location: location@ }
            },
            Expr::Compare { left, ops, comparators, location } => {
                proof {
                    assert(decreases_to!(comparators => comparators@));
                }
                ExprView::Compare {
                    left: Box::new((*left).model()),
                    ops: ops@,
                    comparators: expr_views(comparators@),
                    location: location@,
                }
            },
            Expr::Call { func, args, keywords, location } => {
                proof {
                    assert(decreases_to!(args => args@));
                    assert(decreases_to!(keywords => keywords@));
                }
                ExprView::Call {
                    func: func@,
                    args: expr_views(args@),
                    keywords: keyword_views(keywords@),
                    location: location@,
                }
            },
            Expr::Str { s, location } => ExprView::Str { s: s@, location: location@ },
            Expr::Num { n, location } => ExprView::Num { n, location: location@ },
            Expr::NameConstant { value, location } => ExprView::NameConstant { value, location: location@ },
            Expr::Ellipsis { location } => ExprView::Ellipsis { location: location@ },
            Expr::Attribute { value, attr, ctx, location } => ExprView::Attribute {
                value: Box::new((*value).model()),
                attr: attr@,
                ctx,
                location: location@,
            },
            Expr::Subscript { value, slice, ctx, location } => ExprView::Subscript {
                value: Box::new((*value).model()),
                slice: Box::new((*slice).model()),
                ctx,
                location: location@,
            },
            Expr::Starred { value, ctx, location } => ExprView::Starred {
                value: Box::new((*value).model()),
                ctx,
                location: location@,
            },
            Expr::Name { id, ctx, location } => ExprView::Name { id: id@, ctx, location: location@ },
            Expr::List { elts, ctx, location } => {
                proof {
                    assert(decreases_to!(elts => elts@));
                }
                ExprView::List { elts: expr_views(elts@), ctx, location: location@ }
            },
            Expr::Tuple { elts, ctx, location } => {
                proof {
                    assert(decreases_to!(elts => elts@));
                }
                ExprView::Tuple { elts: expr_views(elts@), ctx, location: location@ }
            },
        }
    }

    /// Where the expression stands in the source.
    pub fn location(&self) -> (s: String)
        ensures
            s@ == self.deep_view().location(),
    {
        match self {
            Expr::BoolOpE { location, .. } => location.clone(),
            Expr::BinOp { location, .. } => location.clone(),
            Expr::UnaryOpE { location, .. } => location.clone(),
            Expr::Dict { location, .. } => location.clone(),
            Expr::Compare { location, .. } => location.clone(),
            Expr::Call { location, .. } => location.clone(),
            Expr::Str { location, .. } => location.clone(),
            Expr::Num { location, .. } => location.clone(),
            Expr::NameConstant { location, .. } => location.clone(),
            Expr::Ellipsis { location } => location.clone(),
            Expr::Attribute { location, .. } => location.clone(),
            Expr::Subscript { location, .. } => location.clone(),
            Expr::Starred { location, .. } => location.clone(),
            Expr::Name { location, .. } => location.clone(),
            Expr::List { location, .. } => location.clone(),
            Expr::Tuple { location, .. } => location.clone(),
        }
    }
}

impl ExprView {
    /// Where the expression stands in the source.
    pub open spec fn location(self) -> Seq<char> {
        match self {
            ExprView::BoolOpE { location, .. } => location,
            ExprView::BinOp { location, .. } => location,
            ExprView::UnaryOpE { location, .. } => location,
            ExprView::Dict { location, .. } => location,
            ExprView::Compare { location, .. } => location,
            ExprView::Call { location, .. } => location,
            ExprView::Str { location, .. } => location,
            ExprView::Num { location, .. } => location,
            ExprView::NameConstant { location, .. } => location,
            ExprView::Ellipsis { location } => location,
            ExprView::Attribute { location, .. } => location,
            ExprView::Subscript { location, .. } => location,
            ExprView::Starred { location, .. } => location,
            ExprView::Name { location, .. } => location,
            ExprView::List { location, .. } => location,
            ExprView::Tuple { location, .. } => location,
        }
    }
}

impl StmtView {
    /// Where the statement stands in the source.
    pub open spec fn location(self) -> Seq<char> {
        match self {
            StmtView::FunctionDef { location, .. } => location,
            StmtView::Return { location, .. } => location,
            StmtView::Assign { location, .. } => location,
            StmtView::AugAssign { location, .. } => location,
            StmtView::While { location, .. } => location,
            StmtView::If { location, .. } => location,
            StmtView::Global { location, .. } => location,
            StmtView::Nonlocal { location, .. } => location,
            StmtView::Expr { location, .. } => location,
            StmtView::Pass { location } => location,
            StmtView::Break { location } => location,
            StmtView::Continue { location } => location,
        }
    }
}

impl Stmt {
    /// The statement as a value.
    pub open spec fn model(self) -> StmtView
        decreases self,
    {
        match self {
            Stmt::FunctionDef { name, args, body, decorator_list, annotation, location } => {
                proof {
                    assert(decreases_to!(body => body@));
                }
                StmtView::FunctionDef {
                    name: name@,
                    args: name_views(args@),
                    body: stmt_views(body@),
                    decorator_list: expr_views(decorator_list@),
                    annotation: option_view(annotation),
                    location: location@,
                }
            },
            Stmt::Return { value, location } => StmtView::Return { value: option_view(value), location: location@ },
            Stmt::Assign { target, value, location } => StmtView::Assign {
                target: Box::new((*target).model()),
                value: Box::new((*value).model()),
                location: location@,
            },
            Stmt::AugAssign { target, op, value, location } => StmtView::AugAssign {
                target: Box::new((*target).model()),
                op,
                value: Box::new((*value).model()),
                location: location@,
            },
            Stmt::While { test, body, orelse, location } => {
                proof {
                    assert(decreases_to!(body => body@));
                    assert(decreases_to!(orelse => orelse@));
                }
                StmtView::While {
                    test: Box::new((*test).model()),
                    body: stmt_views(body@),
                    orelse: stmt_views(orelse@),
                    location: location@,
                }
            },
            Stmt::If { test, body, orelse, location } => {
                proof {
                    assert(decreases_to!(body => body@));
                    assert(decreases_to!(orelse => orelse@));
                }
                StmtView::If {
                    test: Box::new((*test).model()),
                    body: stmt_views(body@),
                    orelse: stmt_views(orelse@),
                    location: location@,
                }
            },
            Stmt::Global { names, location } => StmtView::Global { names: name_views(names@), location: location@ },
            Stmt::Nonlocal { names, location } => StmtView::Nonlocal {
                names: name_views(names@),
                location: location@,
            },
            Stmt::Expr { value, location } => StmtView::Expr {
                value: Box::new((*value).model()),
                location: location@,
            },
            Stmt::Pass { location } => StmtView::Pass { location: location@ },
            Stmt::Break { location } => StmtView::Break { location: location@ },
            Stmt::Continue { location } => StmtView::Continue { location: location@ },
        }
    }

    /// Where the statement stands in the source.
    pub fn location(&self) -> (s: String)
        ensures
            s@ == self.deep_view().location(),
    {
        match self {
            Stmt::FunctionDef { location, .. } => location.clone(),
            Stmt::Return { location, .. } => location.clone(),
            Stmt::Assign { location, .. } => location.clone(),
            Stmt::AugAssign { location, .. } => location.clone(),
            Stmt::While { location, .. } => location.clone(),
            Stmt::If { location, .. } => location.clone(),
            Stmt::Global { location, .. } => location.clone(),
            Stmt::Nonlocal { location, .. } => location.clone(),
            Stmt::Expr { location, .. } => location.clone(),
            Stmt::Pass { location } => location.clone(),
            Stmt::Break { location } => location.clone(),
            Stmt::Continue { location } => location.clone(),
        }
    }
}

impl DeepView for Expr {
    type V = ExprView;

    open spec fn deep_view(&self) -> ExprView {
        self.model()
    }
}

impl DeepView for Slice {
    type V = SliceView;

    open spec fn deep_view(&self) -> SliceView {
        self.model()
    }
}

impl DeepView for Stmt {
    type V = StmtView;

    open spec fn deep_view(&self) -> StmtView {
        self.model()
    }
}

/// A copy of a list of expressions.
pub fn clone_exprs(v: &Vec<Expr>) -> (r: Vec<Expr>)
    ensures
        expr_views(r@) == expr_views(v@),
    decreases v,
{
    let mut out: Vec<Expr> = Vec::new();
    let mut i: usize = 0;
    while i < v.len()
        invariant
            i <= v.len(),
            out.len() == i,
            forall|j: int| 0 <= j < i ==> out@[j].deep_view() == v@[j].deep_view(),
        decreases v.len() - i,
    {
        out.push(v[i].clone());
        i += 1;
    }
    assert(expr_views(out@) =~= expr_views(v@));
    out
}

fn clone_slices(v: &Vec<Slice>) -> (r: Vec<Slice>)
    ensures
        slice_views(r@) == slice_views(v@),
    decreases v,
{
    let mut out: Vec<Slice> = Vec::new();
    let mut i: usize = 0;
    while i < v.len()
        invariant
            i <= v.len(),
            out.len() == i,
            forall|j: int| 0 <= j < i ==> out@[j].deep_view() == v@[j].deep_view(),
        decreases v.len() - i,
    {
        out.push(v[i].clone());
        i += 1;
    }
    assert(slice_views(out@) =~= slice_views(v@));
    out
}

fn clone_keywords(v: &Vec<Keyword>) -> (r: Vec<Keyword>)
    ensures
        keyword_views(r@) == keyword_views(v@),
    decreases v,
{
    let mut out: Vec<Keyword> = Vec::new();
    let mut i: usize = 0;
    while i < v.len()
        invariant
            i <= v.len(),
            out.len() == i,
            forall|j: int| 0 <= j < i ==> keyword_views(out@)[j] == keyword_views(v@)[j],
        decreases v.len() - i,
    {
        let k = &v[i];
        let arg = match &k.arg {
            Some(a) => Some(a.clone()),
            None => None,
        };
        let ghost before = out@;
        out.push(Keyword { arg, value: Box::new((*k.value).clone()) });
        assert forall|j: int| 0 <= j < i + 1 implies keyword_views(out@)[j] == keyword_views(v@)[j] by {
            if j < i {
                assert(keyword_views(before)[j] == keyword_views(v@)[j]);
                assert(out@[j] == before[j]);
            }
        }
        i += 1;
    }
    assert(keyword_views(out@) =~= keyword_views(v@));
    out
}

/// A copy of a list of statements.
pub fn clone_stmts(v: &Vec<Stmt>) -> (r: Vec<Stmt>)
    ensures
        stmt_views(r@) == stmt_views(v@),
    decreases v,
{
    let mut out: Vec<Stmt> = Vec::new();
    let mut i: usize = 0;
    while i < v.len()
        invariant
            i <= v.len(),
            out.len() == i,
            forall|j: int| 0 <= j < i ==> out@[j].deep_view() == v@[j].deep_view(),
        decreases v.len() - i,
    {
        out.push(v[i].clone());
        i += 1;
    }
    assert(stmt_views(out@) =~= stmt_views(v@));
    out
}

fn clone_names(v: &Vec<String>) -> (r: Vec<String>)
    ensures
        name_views(r@) == name_views(v@),
{
    let mut out: Vec<String> = Vec::new();
    let mut i: usize = 0;
    while i < v.len()
        invariant
            i <= v.len(),
            out.len() == i,
            forall|j: int| 0 <= j < i ==> out@[j]@ == v@[j]@,
        decreases v.len() - i,
    {
        out.push(v[i].clone());
        i += 1;
    }
    assert(name_views(out@) =~= name_views(v@));
    out
}

fn clone_option(e: &Option<Expr>) -> (r: Option<Expr>)
    ensures
        option_view(r) == option_view(*e),
    decreases e,
{
    match e {
        Some(x) => Some(x.clone()),
        None => None,
    }
}

impl Clone for Slice {
    fn clone(&self) -> (r: Slice)
        ensures
            r.deep_view() == self.deep_view(),
        decreases self,
    {
        match self {
            Slice::Slice { lower, upper, step } => Slice::Slice {
                lower: clone_option(lower),
                upper: clone_option(upper),
                step: clone_option(step),
            },
            Slice::ExtSlice { dims } => Slice::ExtSlice { dims: clone_slices(dims) },
            Slice::Index { value } => Slice::Index { value: Box::new((**value).clone()) },
        }
    }
}

impl Clone for Expr {
    fn clone(&self) -> (r: Expr)
        ensures
            r.deep_view() == self.deep_view(),
        decreases self,
    {
        match self {
            Expr::BoolOpE { op, values, location } => Expr::BoolOpE {
                op: *op,
                values: clone_exprs(values),
                location: location.clone(),
            },
            Expr::BinOp { left, op, right, location } => Expr::BinOp {
                left: Box::new((**left).clone()),
                op: *op,
                right: Box::new((**right).clone()),
                location: location.clone(),
            },
            Expr::UnaryOpE { op, operand, location } => Expr::UnaryOpE {
                op: *op,
                operand: Box::new((**operand).clone()),
                location: location.clone(),
            },
            Expr::Dict { keys, values, location } => Expr::Dict {
                keys: clone_exprs(keys),
                values: clone_exprs(values),
                location: location.clone(),
            },
            Expr::Compare { left, ops, comparators, location } => {
                let o = ops.clone();
                assert(o@ =~= ops@);
                Expr::Compare {
                    left: Box::new((**left).clone()),
                    ops: o,
                    comparators: clone_exprs(comparators),
                    location: location.clone(),
                }
            },
            Expr::Call { func, args, keywords, location } => Expr::Call {
                func: func.clone(),
                args: clone_exprs(args),
                keywords: clone_keywords(keywords),
                location: location.clone(),
            },
            Expr::Str { s, location } => Expr::Str { s: s.clone(), location: location.clone() },
            Expr::Num { n, location } => Expr::Num { n: *n, location: location.clone() },
            Expr::NameConstant { value, location } => Expr::NameConstant {
                value: *value,
                location: location.clone(),
            },
            Expr::Ellipsis { location } => Expr::Ellipsis { location: location.clone() },
            Expr::Attribute { value, attr, ctx, location } => Expr::Attribute {
                value: Box::new((**value).clone()),
                attr: attr.clone(),
                ctx: *ctx,
                location: location.clone(),
            },
            Expr::Subscript { value, slice, ctx, location } => Expr::Subscript {
                value: Box::new((**value).clone()),
                slice: Box::new((**slice).clone()),
                ctx: *ctx,
                location: location.clone(),
            },
            Expr::Starred { value, ctx, location } => Expr::Starred {
                value: Box::new((**value).clone()),
                ctx: *ctx,
                location: location.clone(),
            },
            Expr::Name { id, ctx, location } => Expr::Name { id: id.clone(), ctx: *ctx, location: location.clone() },
            Expr::List { elts, ctx, location } => Expr::List {
                elts: clone_exprs(elts),
                ctx: *ctx,
                location: location.clone(),
            },
            Expr::Tuple { elts, ctx, location } => Expr::Tuple {
                elts: clone_exprs(elts),
                ctx: *ctx,
                location: location.clone(),
            },
        }
    }
}

impl Clone for Keyword {
    fn clone(&self) -> (r: Keyword) {
        let arg = match &self.arg {
            Some(a) => Some(a.clone()),
            None => None,
        };
        Keyword { arg, value: Box::new((*self.value).clone()) }
    }
}

impl Clone for Stmt {
    fn clone(&self) -> (r: Stmt)
        ensures
            r.deep_view() == self.deep_view(),
        decreases self,
    {
        match self {
            Stmt::FunctionDef { name, args, body, decorator_list, annotation, location } => Stmt::FunctionDef {
                name: name.clone(),
                args: clone_names(args),
                body: clone_stmts(body),
                decorator_list: clone_exprs(decorator_list),
                annotation: clone_option(annotation),
                location: location.clone(),
            },
            Stmt::Return { value, location } => Stmt::Return {
                value: clone_option(value),
                location: location.clone(),
            },
            Stmt::Assign { target, value, location } => Stmt::Assign {
                target: Box::new((**target).clone()),
                value: Box::new((**value).clone()),
                location: location.clone(),
            },
            Stmt::AugAssign { target, op, value, location } => Stmt::AugAssign {
                target: Box::new((**target).clone()),
                op: *op,
                value: Box::new((**value).clone()),
                location: location.clone(),
            },
            Stmt::While { test, body, orelse, location } => Stmt::While {
                test: Box::new((**test).clone()),
                body: clone_stmts(body),
                orelse: clone_stmts(orelse),
                location: location.clone(),
            },
            Stmt::If { test, body, orelse, location } => Stmt::If {
                test: Box::new((**test).clone()),
                body: clone_stmts(body),
                orelse: clone_stmts(orelse),
                location: location.clone(),
            },
            Stmt::Global { names, location } => Stmt::Global {
                names: clone_names(names),
                location: location.clone(),
            },
            Stmt::Nonlocal { names, location } => Stmt::Nonlocal {
                names: clone_names(names),
                location: location.clone(),
            },
            Stmt::Expr { value, location } => Stmt::Expr {
                value: Box::new((**value).clone()),
                location: location.clone(),
            },
            Stmt::Pass { location } => Stmt::Pass { location: location.clone() },
            Stmt::Break { location } => Stmt::Break { location: location.clone() },
            Stmt::Continue { location } => Stmt::Continue { location: location.clone() },
        }
    }
}

} // verus!
