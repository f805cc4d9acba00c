use zpaqlpy::ast::{BoolOp, CmpOp, Expr, ExprContext, Operator, Slice, Stmt, UnaryOp};
use zpaqlpy::error::CompileError;
use zpaqlpy::parser::parse_program;
use zpaqlpy::rtok::tokenize;

fn parse(source: &str) -> Result<Vec<Stmt>, CompileError> {
    let tokens = tokenize(source).unwrap();
    parse_program(&tokens)
}

fn statements(source: &str) -> Vec<Stmt> {
    match parse(source) {
        Ok(s) => s,
        Err(e) => panic!("{:?} was refused: {:?}", source, e),
    }
}

fn expression(source: &str) -> Expr {
    let mut all = statements(&format!("{}\n", source));
    assert_eq!(all.len(), 1);
    match all.pop().unwrap() {
        Stmt::Expr { value, .. } => *value,
        other => panic!("{:?} is no expression", other),
    }
}

fn bound(e: &Option<Expr>) -> String {
    e.as_ref().map(shape).unwrap_or_default()
}

fn slice_shape(s: &Slice) -> String {
    match s {
        Slice::Index { value } => shape(value),
        Slice::Slice { lower, upper, step } => format!("{}:{}:{}", bound(lower), bound(upper), bound(step)),
        Slice::ExtSlice { dims } => dims.iter().map(slice_shape).collect::<Vec<_>>().join("; "),
    }
}

/// The expression in prefix form, to compare the shape of trees.
fn shape(e: &Expr) -> String {
    match e {
        Expr::BoolOpE { op, values, .. } => {
            let word = match op {
                BoolOp::And => "and",
                BoolOp::Or => "or",
            };
            format!("({} {})", word, values.iter().map(shape).collect::<Vec<_>>().join(" "))
        }
        Expr::BinOp { left, op, right, .. } => format!("({:?} {} {})", op, shape(left), shape(right)),
        Expr::UnaryOpE { op, operand, .. } => format!("({:?} {})", op, shape(operand)),
        Expr::Dict { keys, values, .. } => format!(
            "{{{}}}",
            keys.iter().zip(values.iter()).map(|(k, v)| format!("{}: {}", shape(k), shape(v))).collect::<Vec<_>>().join(", ")
        ),
        Expr::Compare { left, ops, comparators, .. } => format!(
            "(cmp {} {})",
            shape(left),
            ops.iter().zip(comparators.iter()).map(|(o, c)| format!("{:?} {}", o, shape(c))).collect::<Vec<_>>().join(" ")
        ),
        Expr::Call { func, args, keywords, .. } => {
            let mut all: Vec<String> = args.iter().map(shape).collect();
            for k in keywords {
                all.push(match &k.arg {
                    Some(name) => format!("{}={}", name, shape(&k.value)),
                    None => format!("**{}", shape(&k.value)),
                });
            }
            format!("{}({})", func, all.join(", "))
        }
        Expr::Str { s, .. } => format!("{:?}", s),
        Expr::Num { n, .. } => format!("{}", n),
        Expr::NameConstant { value, .. } => format!("const{}", value),
        Expr::Ellipsis { .. } => "...".to_string(),
        Expr::Attribute { value, attr, .. } => format!("{}.{}", shape(value), attr),
        Expr::Subscript { value, slice, .. } => format!("{}[{}]", shape(value), slice_shape(slice)),
        Expr::Starred { value, .. } => format!("*{}", shape(value)),
        Expr::Name { id, .. } => id.clone(),
        Expr::List { elts, .. } => format!("[{}]", elts.iter().map(shape).collect::<Vec<_>>().join(", ")),
        Expr::Tuple { elts, .. } => format!("({},)", elts.iter().map(shape).collect::<Vec<_>>().join(", ")),
    }
}

#[test]
fn products_bind_more_tightly_than_sums() {
    assert_eq!(shape(&expression("1 + c * 2")), "(Add 1 (Mult c 2))");
    assert_eq!(shape(&expression("(1 + c) * 2")), "(Mult (Add 1 c) 2)");
    assert_eq!(shape(&expression("a - b - c")), "(Sub (Sub a b) c)");
    assert_eq!(shape(&expression("a / b % c // d")), "(FloorDiv (Mod (Div a b) c) d)");
}

#[test]
fn shifts_and_bit_operators_have_their_levels() {
    assert_eq!(shape(&expression("a | b ^ c & d << e + f")), "(BitOr a (BitXor b (BitAnd c (LShift d (Add e f)))))");
    assert_eq!(shape(&expression("a << 1 | 1")), "(BitOr (LShift a 1) 1)");
    assert_eq!(shape(&expression("a >> b >> c")), "(RShift (RShift a b) c)");
}

#[test]
fn a_power_groups_to_the_right_and_beats_a_sign_before_it() {
    assert_eq!(shape(&expression("2 ** 3 ** 2")), "(Pow 2 (Pow 3 2))");
    assert_eq!(shape(&expression("-a ** 2")), "(USub (Pow a 2))");
    assert_eq!(shape(&expression("a ** -b")), "(Pow a (USub b))");
    assert_eq!(shape(&expression("~a + +b")), "(Add (Invert a) (UAdd b))");
}

#[test]
fn comparisons_chain() {
    assert_eq!(shape(&expression("1 < x <= 10")), "(cmp 1 Lt x LtE 10)");
    assert_eq!(shape(&expression("a == b")), "(cmp a Eq b)");
    assert_eq!(shape(&expression("a != b > c >= d")), "(cmp a NotEq b Gt c GtE d)");
    assert_eq!(shape(&expression("a + 1 < b * 2")), "(cmp (Add a 1) Lt (Mult b 2))");
    match expression("a is not b in c not in d is e") {
        Expr::Compare { ops, .. } => assert_eq!(ops, vec![CmpOp::IsNot, CmpOp::In, CmpOp::NotIn, CmpOp::Is]),
        other => panic!("{:?}", other),
    }
}

#[test]
fn not_and_or_bind_in_that_order() {
    assert_eq!(shape(&expression("a or b and not c")), "(or a (and b (Not c)))");
    assert_eq!(shape(&expression("a or b or c")), "(or (or a b) c)");
    assert_eq!(shape(&expression("a and b and c")), "(and (and a b) c)");
    assert_eq!(shape(&expression("not a == b")), "(Not (cmp a Eq b))");
    assert_eq!(shape(&expression("(a or b) and c")), "(and (or a b) c)");
}

#[test]
fn calls_subscripts_and_attributes_follow_an_atom() {
    assert_eq!(shape(&expression("f(a, b + 1)")), "f(a, (Add b 1))");
    assert_eq!(shape(&expression("f()")), "f()");
    assert_eq!(shape(&expression("hH[i + 1]")), "hH[(Add i 1)]");
    assert_eq!(shape(&expression("a[b][c]")), "a[b][c]");
    assert_eq!(shape(&expression("f(x)[0]")), "f(x)[0]");
    assert_eq!(shape(&expression("a.b.c")), "a.b.c");
    assert_eq!(shape(&expression("len(hH) - f(g(1,), 2)")), "(Sub len(hH) f(g(1), 2))");
}

#[test]
fn atoms() {
    assert_eq!(shape(&expression("\"cm 19 22\"")), "\"cm 19 22\"");
    assert_eq!(shape(&expression("0x10")), "16");
    assert_eq!(shape(&expression("True")), "const1");
    assert_eq!(shape(&expression("False")), "const0");
    assert_eq!(shape(&expression("None")), "const0");
    assert_eq!(shape(&expression("...")), "...");
    assert_eq!(shape(&expression("[1, a, [2]]")), "[1, a, [2]]");
    assert_eq!(shape(&expression("[]")), "[]");
    assert_eq!(shape(&expression("{}")), "{}");
    assert_eq!(shape(&expression("{0: \"a\", 1: \"b\",}")), "{0: \"a\", 1: \"b\"}");
    assert_eq!(shape(&expression("((a))")), "a");
}

#[test]
fn names_are_loaded_and_targets_are_stored() {
    match expression("x") {
        Expr::Name { id, ctx, location } => {
            assert_eq!(id, "x");
            assert_eq!(ctx, ExprContext::Load);
            assert_eq!(location, "1,0-1,1");
        }
        other => panic!("{:?}", other),
    }
    match statements("x = y\n").pop().unwrap() {
        Stmt::Assign { target, value, location } => {
            assert!(matches!(*target, Expr::Name { ctx: ExprContext::Store, .. }));
            assert!(matches!(*value, Expr::Name { ctx: ExprContext::Load, .. }));
            assert_eq!(location, "1,0-1,1");
        }
        other => panic!("{:?}", other),
    }
    match statements("hH[i] = y\n").pop().unwrap() {
        Stmt::Assign { target, .. } => match *target {
            Expr::Subscript { value, slice, ctx, .. } => {
                assert_eq!(ctx, ExprContext::Store);
                assert!(matches!(*value, Expr::Name { ctx: ExprContext::Store, .. }));
                match *slice {
                    Slice::Index { value } => assert!(matches!(*value, Expr::Name { ctx: ExprContext::Load, .. })),
                    other => panic!("{:?}", other),
                }
            }
            other => panic!("{:?}", other),
        },
        other => panic!("{:?}", other),
    }
}

#[test]
fn assignments_with_an_operator() {
    let ops = [
        ("+=", Operator::Add),
        ("-=", Operator::Sub),
        ("*=", Operator::Mult),
        ("/=", Operator::Div),
        ("%=", Operator::Mod),
        ("&=", Operator::BitAnd),
        ("|=", Operator::BitOr),
        ("^=", Operator::BitXor),
        ("<<=", Operator::LShift),
        (">>=", Operator::RShift),
        ("**=", Operator::Pow),
        ("//=", Operator::FloorDiv),
    ];
    for (text, expected) in ops {
        match statements(&format!("x {} 2\n", text)).pop().unwrap() {
            Stmt::AugAssign { target, op, value, .. } => {
                assert!(matches!(*target, Expr::Name { ctx: ExprContext::Store, .. }));
                assert_eq!(op, expected);
                assert_eq!(shape(&value), "2");
            }
            other => panic!("{:?}", other),
        }
    }
}

#[test]
fn simple_statements() {
    let all = statements("pass; break; continue\nreturn\nreturn a + 1\nglobal a, b\nnonlocal c\nf(1);\n");
    assert_eq!(all.len(), 8);
    assert!(matches!(all[0], Stmt::Pass { .. }));
    assert!(matches!(all[1], Stmt::Break { .. }));
    assert!(matches!(all[2], Stmt::Continue { .. }));
    assert!(matches!(all[3], Stmt::Return { value: None, .. }));
    match &all[4] {
        Stmt::Return { value: Some(v), location } => {
            assert_eq!(shape(v), "(Add a 1)");
            assert_eq!(location, "3,0-3,6");
        }
        other => panic!("{:?}", other),
    }
    match &all[5] {
        Stmt::Global { names, .. } => assert_eq!(names, &vec!["a".to_string(), "b".to_string()]),
        other => panic!("{:?}", other),
    }
    match &all[6] {
        Stmt::Nonlocal { names, .. } => assert_eq!(names, &vec!["c".to_string()]),
        other => panic!("{:?}", other),
    }
    assert!(matches!(all[7], Stmt::Expr { .. }));
}

#[test]
fn an_elif_is_an_if_in_the_other_branch() {
    let all = statements("if a:\n  x = 1\nelif b:\n  x = 2\nelif c:\n  x = 3\nelse:\n  x = 4\n  y = 5\nz\n");
    assert_eq!(all.len(), 2);
    match &all[0] {
        Stmt::If { test, body, orelse, location } => {
            assert_eq!(shape(test), "a");
            assert_eq!(body.len(), 1);
            assert_eq!(location, "1,0-1,2");
            assert_eq!(orelse.len(), 1);
            match &orelse[0] {
                Stmt::If { test, body, orelse, location } => {
                    assert_eq!(shape(test), "b");
                    assert_eq!(body.len(), 1);
                    assert_eq!(location, "3,0-3,4");
                    assert_eq!(orelse.len(), 1);
                    match &orelse[0] {
                        Stmt::If { test, body, orelse, .. } => {
                            assert_eq!(shape(test), "c");
                            assert_eq!(body.len(), 1);
                            assert_eq!(orelse.len(), 2);
                        }
                        other => panic!("{:?}", other),
                    }
                }
                other => panic!("{:?}", other),
            }
        }
        other => panic!("{:?}", other),
    }
}

#[test]
fn loops_and_definitions() {
    let all = statements("def f(a, b) -> c:\n  while a > 0:\n    a -= 1\n  else:\n    pass\n  return b\ndef g(): return 1\nwhile x: x -= 1; y = 2\n");
    assert_eq!(all.len(), 3);
    match &all[0] {
        Stmt::FunctionDef { name, args, body, decorator_list, annotation, location } => {
            assert_eq!(name, "f");
            assert_eq!(args, &vec!["a".to_string(), "b".to_string()]);
            assert!(decorator_list.is_empty());
            assert_eq!(annotation.as_ref().map(shape), Some("c".to_string()));
            assert_eq!(location, "1,0-1,3");
            assert_eq!(body.len(), 2);
            match &body[0] {
                Stmt::While { test, body, orelse, .. } => {
                    assert_eq!(shape(test), "(cmp a Gt 0)");
                    assert_eq!(body.len(), 1);
                    assert_eq!(orelse.len(), 1);
                }
                other => panic!("{:?}", other),
            }
        }
        other => panic!("{:?}", other),
    }
    match &all[1] {
        Stmt::FunctionDef { name, args, body, annotation, .. } => {
            assert_eq!(name, "g");
            assert!(args.is_empty());
            assert!(annotation.is_none());
            assert_eq!(body.len(), 1);
        }
        other => panic!("{:?}", other),
    }
    match &all[2] {
        Stmt::While { body, orelse, .. } => {
            assert_eq!(body.len(), 2);
            assert!(orelse.is_empty());
        }
        other => panic!("{:?}", other),
    }
}

#[test]
fn an_empty_program_has_no_statements() {
    assert!(statements("").is_empty());
    assert!(parse_program(&Vec::new()).unwrap().is_empty());
}

#[test]
fn what_follows_no_rule_is_refused() {
    for source in [
        "x = = 1\n",
        "x +\n",
        "1 = x\n",
        "f(x) = 1\n",
        "a + b = 1\n",
        "(a + 1)(b)\n",
        "if x\n  pass\n",
        "if x:\npass\n",
        "while:\n  pass\n",
        "def f(a:\n  pass\n",
        "def (a):\n  pass\n",
        "def f(1):\n  pass\n",
        "global 1\n",
        "global\n",
        "x = [1, 2\n]]\n",
        "x = {1}\n",
        "x = {1: }\n",
        "a.1\n",
        "else:\n  pass\n",
        "x = 1 2\n",
        "import sys\n",
        "x = (1, 2\n",
        "x = a[]\n",
        "x = a[1 2]\n",
        "x = a[1:2:3:4]\n",
        "@d\nx = 1\n",
        "@d def f(): pass\n",
        "@\ndef f(): pass\n",
        "x = *\n",
        "x = ,\n",
        "not x = 1\n",
    ] {
        let tokens = match tokenize(source) {
            Ok(t) => t,
            Err(_) => continue,
        };
        assert_eq!(parse_program(&tokens).err(), Some(CompileError::UnexpectedToken), "{:?}", source);
    }
}

#[test]
fn items_with_commas_between_them_are_a_tuple() {
    assert_eq!(shape(&expression("(a, b + 1)")), "(a, (Add b 1),)");
    assert_eq!(shape(&expression("(a,)")), "(a,)");
    assert_eq!(shape(&expression("()")), "(,)");
    assert_eq!(shape(&expression("(a)")), "a");
    assert_eq!(shape(&expression("a, b, c")), "(a, b, c,)");
    assert_eq!(shape(&expression("a,")), "(a,)");
    assert_eq!(shape(&expression("f((a, b), c)")), "f((a, b,), c)");
    assert_eq!(shape(&expression("[(1, 2), 3]")), "[(1, 2,), 3]");
    match expression("a, b") {
        Expr::Tuple { elts, ctx, location } => {
            assert_eq!(elts.len(), 2);
            assert_eq!(ctx, ExprContext::Load);
            assert_eq!(location, "1,0-1,1");
        }
        other => panic!("{:?}", other),
    }
    match statements("return a, b\n").pop().unwrap() {
        Stmt::Return { value: Some(v), .. } => assert_eq!(shape(&v), "(a, b,)"),
        other => panic!("{:?}", other),
    }
}

#[test]
fn a_star_before_an_item_makes_it_starred() {
    assert_eq!(shape(&expression("f(*a, b)")), "f(*a, b)");
    assert_eq!(shape(&expression("[*a]")), "[*a]");
    assert_eq!(shape(&expression("*a, b")), "(*a, b,)");
    assert_eq!(shape(&expression("*a + 1,")), "(*(Add a 1),)");
    match expression("*a") {
        Expr::Starred { ctx, location, .. } => {
            assert_eq!(ctx, ExprContext::Load);
            assert_eq!(location, "1,0-1,1");
        }
        other => panic!("{:?}", other),
    }
}

#[test]
fn tuples_lists_attributes_and_starred_items_can_be_targets() {
    match statements("a, b = b, a\n").pop().unwrap() {
        Stmt::Assign { target, value, .. } => {
            assert!(matches!(*target, Expr::Tuple { ctx: ExprContext::Store, .. }));
            assert_eq!(shape(&target), "(a, b,)");
            assert!(matches!(*value, Expr::Tuple { ctx: ExprContext::Load, .. }));
        }
        other => panic!("{:?}", other),
    }
    match statements("[a, b] = c\n").pop().unwrap() {
        Stmt::Assign { target, .. } => assert!(matches!(*target, Expr::List { ctx: ExprContext::Store, .. })),
        other => panic!("{:?}", other),
    }
    match statements("a.b = c\n").pop().unwrap() {
        Stmt::Assign { target, .. } => assert!(matches!(*target, Expr::Attribute { ctx: ExprContext::Store, .. })),
        other => panic!("{:?}", other),
    }
    match statements("*a, = c\n").pop().unwrap() {
        Stmt::Assign { target, .. } => assert_eq!(shape(&target), "(*a,)"),
        other => panic!("{:?}", other),
    }
    match statements("a, b += 1\n").pop().unwrap() {
        Stmt::AugAssign { target, .. } => assert!(matches!(*target, Expr::Tuple { ctx: ExprContext::Store, .. })),
        other => panic!("{:?}", other),
    }
}

#[test]
fn slices_have_bounds_that_may_be_missing() {
    assert_eq!(shape(&expression("a[i:j]")), "a[i:j:]");
    assert_eq!(shape(&expression("a[i:j:k]")), "a[i:j:k]");
    assert_eq!(shape(&expression("a[:]")), "a[::]");
    assert_eq!(shape(&expression("a[::]")), "a[::]");
    assert_eq!(shape(&expression("a[1:]")), "a[1::]");
    assert_eq!(shape(&expression("a[:n - 1]")), "a[:(Sub n 1):]");
    assert_eq!(shape(&expression("a[::2]")), "a[::2]");
    assert_eq!(shape(&expression("a[i]")), "a[i]");
    assert_eq!(shape(&expression("a[i, j]")), "a[i; j]");
    assert_eq!(shape(&expression("a[1:2, 3]")), "a[1:2:; 3]");
    assert_eq!(shape(&expression("a[i,]")), "a[i]");
    assert_eq!(shape(&expression("a[i:j][k]")), "a[i:j:][k]");
    match expression("a[i:j]") {
        Expr::Subscript { slice, ctx, .. } => {
            assert_eq!(ctx, ExprContext::Load);
            assert!(matches!(*slice, Slice::Slice { lower: Some(_), upper: Some(_), step: None }));
        }
        other => panic!("{:?}", other),
    }
    match expression("a[i, j]") {
        Expr::Subscript { slice, .. } => assert!(matches!(*slice, Slice::ExtSlice { .. })),
        other => panic!("{:?}", other),
    }
}

#[test]
fn decorators_stand_before_a_definition() {
    let all = statements("@first\n@second(1, x)\ndef f(a):\n  return a\ndef g(): pass\n");
    assert_eq!(all.len(), 2);
    match &all[0] {
        Stmt::FunctionDef { name, args, body, decorator_list, location, .. } => {
            assert_eq!(name, "f");
            assert_eq!(args, &vec!["a".to_string()]);
            assert_eq!(body.len(), 1);
            assert_eq!(decorator_list.iter().map(shape).collect::<Vec<_>>(), vec!["first", "second(1, x)"]);
            assert_eq!(location, "3,0-3,3");
        }
        other => panic!("{:?}", other),
    }
    match &all[1] {
        Stmt::FunctionDef { decorator_list, .. } => assert!(decorator_list.is_empty()),
        other => panic!("{:?}", other),
    }
    let inner = statements("if x:\n  @d\n  def f(): pass\n");
    match &inner[0] {
        Stmt::If { body, .. } => match &body[0] {
            Stmt::FunctionDef { decorator_list, .. } => assert_eq!(decorator_list.len(), 1),
            other => panic!("{:?}", other),
        },
        other => panic!("{:?}", other),
    }
}

#[test]
fn arguments_may_have_keywords() {
    assert_eq!(shape(&expression("f(a, b=1, *c, **d)")), "f(a, *c, b=1, **d)");
    assert_eq!(shape(&expression("f(x=y + 1,)")), "f(x=(Add y 1))");
    assert_eq!(shape(&expression("f(a == b)")), "f((cmp a Eq b))");
    match expression("f(a, k=2)") {
        Expr::Call { args, keywords, .. } => {
            assert_eq!(args.len(), 1);
            assert_eq!(keywords.len(), 1);
            assert_eq!(keywords[0].arg, Some("k".to_string()));
            assert_eq!(shape(&keywords[0].value), "2");
        }
        other => panic!("{:?}", other),
    }
    for source in ["f(a=)\n", "f(=1)\n", "f(**)\n", "f(1=2)\n", "f(a b)\n"] {
        let tokens = tokenize(source).unwrap();
        assert_eq!(parse_program(&tokens).err(), Some(CompileError::UnexpectedToken), "{:?}", source);
    }
}
