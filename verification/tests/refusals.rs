use zpaqlpy::ast::{BoolOp, Expr, ExprContext, Slice, Stmt};
use zpaqlpy::cache::Cache;
use zpaqlpy::compiler::compile;
use zpaqlpy::error::{CompileError, ErrorKind};
use zpaqlpy::gen_ir::{evaluate, traverse};
use zpaqlpy::gen_zpaql::{assign_loc_to_var, assign_var_to_loc, calc_number, emit_zpaql, gen_loc_for_var};
use zpaqlpy::ir::{IRVar, IR};
use zpaqlpy::options::Options;
use zpaqlpy::symbols::SymbolTable;
use zpaqlpy::zpaql::{Loc, OtherReg, Reg, ZPAQLOp};

fn refused(hcomp_body: &str) -> CompileError {
    let source = format!(
        "pass\n### BEGIN OF EDITABLE SECTION\nhh = 2\nhm = 2\nph = 0\npm = 0\nn = len({{\n0: \"cm 19 22\",\n}})\npcomp_invocation = \"\"\n\npass\n### END OF EDITABLE SECTION\npass\n### BEGIN OF EDITABLE SECTION\ndef hcomp(c):\n{}\npass\n### END OF EDITABLE SECTION\n### BEGIN OF EDITABLE SECTION\ndef pcomp(c):\n  pass\n\npass\n### END OF EDITABLE SECTION\n",
        hcomp_body
    );
    match compile(&Options::new(), source) {
        Ok((text, _)) => panic!("{:?} was compiled to:\n{}", hcomp_body, text),
        Err(e) => e,
    }
}

fn here() -> String {
    "1,0-1,1".to_string()
}

fn name(id: &str, ctx: ExprContext) -> Expr {
    Expr::Name { id: id.to_string(), ctx, location: here() }
}

fn number(n: u32) -> Expr {
    Expr::Num { n, location: here() }
}

fn evaluated(e: &Expr) -> Result<(Vec<IR>, IRVar), CompileError> {
    let mut st = SymbolTable::new();
    evaluate(e, &mut st, &Options::new())
}

#[test]
fn what_the_language_does_not_have_is_refused() {
    assert_eq!(refused("  hH[0] = c.real\n"), CompileError::UnsupportedAttribute);
    assert_eq!(refused("  hH[0] = [c]\n"), CompileError::UnsupportedList);
    assert_eq!(refused("  hH[0] = {1: c}\n"), CompileError::UnsupportedDict);
    assert_eq!(refused("  nonlocal c\n"), CompileError::UnsupportedNonlocal);
    assert_eq!(refused("  hH[0] = c @ 2\n"), CompileError::UnsupportedOperator);
    assert_eq!(refused("  hH[0] = c in c\n"), CompileError::UnsupportedComparison);
    assert_eq!(refused("  hH[0] = c not in c\n"), CompileError::UnsupportedComparison);
}

#[test]
fn what_is_parsed_but_not_compiled_is_a_semantic_error() {
    assert_eq!(refused("  hH[0] = (c, 1)\n"), CompileError::UnsupportedTuple);
    assert_eq!(refused("  hH[0] = c, 1\n"), CompileError::UnsupportedTuple);
    assert_eq!(refused("  hH[0] = ()\n"), CompileError::UnsupportedTuple);
    assert_eq!(refused("  hH[0] = *c\n"), CompileError::UnsupportedStarred);
    assert_eq!(refused("  hH[0] = hH[0:1]\n"), CompileError::UnsupportedSubscript);
    assert_eq!(refused("  hH[0] = hH[:]\n"), CompileError::UnsupportedSubscript);
    assert_eq!(refused("  hH[0] = hH[0, 1]\n"), CompileError::UnsupportedSubscript);
    assert_eq!(refused("  c, d = 1, 2\n"), CompileError::UnsupportedTuple);
    assert_eq!(refused("  c, d = 1\n"), CompileError::UnsupportedTarget);
    assert_eq!(refused("  [c, d] = 1\n"), CompileError::UnsupportedTarget);
    assert_eq!(refused("  c.real = 1\n"), CompileError::UnsupportedTarget);
    assert_eq!(refused("  hH[0:1] = 1\n").kind(), ErrorKind::Semantic);
    for e in [
        CompileError::UnsupportedTuple,
        CompileError::UnsupportedStarred,
        CompileError::UnsupportedSubscript,
        CompileError::UnsupportedTarget,
    ] {
        assert_eq!(e.kind(), ErrorKind::Semantic);
    }
}

#[test]
fn jumps_out_of_a_loop_need_a_loop() {
    assert_eq!(refused("  continue\n"), CompileError::ContinueOutsideLoop);
    assert_eq!(refused("  break\n"), CompileError::BreakOutsideLoop);
    assert_eq!(refused("  if c:\n    break\n"), CompileError::BreakOutsideLoop);
}

#[test]
fn names_have_to_be_known() {
    assert_eq!(refused("  hH[0] = nowhere\n"), CompileError::UnknownVariable);
    assert_eq!(refused("  global nowhere\n"), CompileError::UnknownGlobal);
    assert_eq!(refused("  global hh\n"), CompileError::ReadOnlyGlobal);
    assert_eq!(refused("  global n\n"), CompileError::ReadOnlyGlobal);
    assert_eq!(refused("  hH[0] = len(c)\n"), CompileError::LenOfNonArray);
    assert_eq!(refused("  hH[0] = len(5)\n"), CompileError::LenOfNonArray);
}

#[test]
fn every_refusal_has_its_kind() {
    for e in [
        CompileError::UnsupportedAttribute,
        CompileError::UnsupportedList,
        CompileError::UnsupportedDict,
        CompileError::UnsupportedTuple,
        CompileError::UnsupportedStarred,
        CompileError::UnsupportedNonlocal,
        CompileError::UnsupportedOperator,
        CompileError::UnsupportedComparison,
        CompileError::UnsupportedContext,
        CompileError::UnsupportedSubscript,
        CompileError::UnsupportedTarget,
        CompileError::MalformedBoolOp,
        CompileError::WrongArgumentCount,
        CompileError::LenOfNonArray,
        CompileError::NotAssignable,
        CompileError::ReadOnlyGlobal,
        CompileError::UnknownGlobal,
        CompileError::ContinueOutsideLoop,
        CompileError::BreakOutsideLoop,
        CompileError::NotExpanded,
        CompileError::BadOperand,
        CompileError::RegisterClash,
        CompileError::OffsetTooLarge,
        CompileError::CodeTooLong,
        CompileError::OversizeArray,
        CompileError::AlreadyFinalised,
    ] {
        assert_eq!(e.kind(), ErrorKind::Semantic, "{:?}", e);
    }
    for e in [CompileError::MissingHeader, CompileError::BadSections] {
        assert_eq!(e.kind(), ErrorKind::Input, "{:?}", e);
    }
    for e in [CompileError::EofInString, CompileError::EofInStatement, CompileError::Unindent, CompileError::BadPattern] {
        assert_eq!(e.kind(), ErrorKind::Lex, "{:?}", e);
    }
}

#[test]
fn expressions_built_by_hand_are_refused_too() {
    assert_eq!(evaluated(&name("x", ExprContext::Del)).err(), Some(CompileError::UnsupportedContext));
    assert_eq!(
        evaluated(&Expr::Starred { value: Box::new(number(1)), ctx: ExprContext::Load, location: here() }).err(),
        Some(CompileError::UnsupportedStarred)
    );
    assert_eq!(
        evaluated(&Expr::Tuple { elts: vec![number(1)], ctx: ExprContext::Load, location: here() }).err(),
        Some(CompileError::UnsupportedTuple)
    );
    assert_eq!(
        evaluated(&Expr::BoolOpE { op: BoolOp::And, values: vec![number(1), number(2), number(3)], location: here() })
            .err(),
        Some(CompileError::MalformedBoolOp)
    );
    assert_eq!(
        evaluated(&Expr::Subscript {
            value: Box::new(name("hH", ExprContext::Load)),
            slice: Box::new(Slice::Slice { lower: None, upper: None, step: None }),
            ctx: ExprContext::Load,
            location: here(),
        })
        .err(),
        Some(CompileError::UnsupportedSubscript)
    );
    assert_eq!(
        evaluated(&Expr::Subscript {
            value: Box::new(name("hH", ExprContext::Load)),
            slice: Box::new(Slice::Index { value: Box::new(number(0)) }),
            ctx: ExprContext::Del,
            location: here(),
        })
        .err(),
        Some(CompileError::UnsupportedContext)
    );
    assert_eq!(
        evaluated(&Expr::Call { func: "free_pM".to_string(), args: vec![], keywords: vec![], location: here() }).err(),
        Some(CompileError::WrongArgumentCount)
    );
}

#[test]
fn a_constant_evaluates_to_itself_without_code() {
    let (code, v) = evaluated(&number(7)).unwrap();
    assert!(code.is_empty());
    assert_eq!(v, IRVar::Number { value: 7 });
    let (code, v) = evaluated(&Expr::NameConstant { value: 1, location: here() }).unwrap();
    assert!(code.is_empty());
    assert_eq!(v, IRVar::Number { value: 1 });
    let (code, v) = evaluated(&name("NONE", ExprContext::Load)).unwrap();
    assert!(code.is_empty());
    assert_eq!(v, IRVar::Number { value: 4294967295 });
}

#[test]
fn targets_have_to_be_names_or_elements() {
    let mut st = SymbolTable::new();
    let assign = |target: Expr| Stmt::Assign { target: Box::new(target), value: Box::new(number(1)), location: here() };
    assert_eq!(traverse(&[assign(number(3))], &mut st, &Options::new()).err(), Some(CompileError::UnsupportedTarget));
    let mut st = SymbolTable::new();
    st.symbols.insert("x".to_string(), IRVar::Var { varid: 9 });
    assert_eq!(
        traverse(&[assign(name("x", ExprContext::Store))], &mut st, &Options::new()).err(),
        Some(CompileError::NotAssignable)
    );
}

#[test]
fn statements_without_code_compile_to_nothing() {
    let mut st = SymbolTable::new();
    assert_eq!(traverse(&[], &mut st, &Options::new()), Ok(vec![]));
    let mut quiet = Options::new();
    quiet.comments = false;
    assert_eq!(traverse(&[Stmt::Pass { location: here() }], &mut st, &quiet), Ok(vec![]));
}

fn a() -> Loc {
    Loc::Reg(Reg::A)
}

#[test]
fn the_emitter_refuses_operands_it_cannot_reach() {
    let o = Options::new();
    let mut ch = Cache::new();
    let bad = IR::Assign { target: IRVar::Number { value: 1 }, source: IRVar::Number { value: 2 } };
    assert_eq!(emit_zpaql(&[bad], &mut ch, &o), Err(CompileError::BadOperand));
    let mut ch = Cache::new();
    let far = IRVar::Ht { stack_offset: 256, local: true, orig_name: "x".to_string() };
    assert_eq!(assign_var_to_loc(&far, &a(), &mut ch), Err(CompileError::OffsetTooLarge));
    let mut ch = Cache::new();
    let cell = IRVar::H { index_varid: 3, orig_name: "x".to_string() };
    assert_eq!(assign_var_to_loc(&cell, &Loc::HD, &mut ch), Err(CompileError::RegisterClash));
    let mut ch = Cache::new();
    assert_eq!(gen_loc_for_var(&IRVar::Number { value: 1 }, &mut ch).err(), Some(CompileError::BadOperand));
    let mut ch = Cache::new();
    assert_eq!(emit_zpaql(&[IR::StoreTempVars { ti: vec![1], stack_pos: u32::MAX }], &mut ch, &o), Err(CompileError::LimitExceeded));
}

#[test]
fn constants_are_built_from_bytes() {
    let mut ch = Cache::new();
    assert_eq!(calc_number(0, &a(), &mut ch), vec![ZPAQLOp::Zero(a())]);
    let mut ch = Cache::new();
    assert_eq!(calc_number(200, &a(), &mut ch), vec![ZPAQLOp::SetN { target: a(), n: 200 }]);
    assert!(ch.is_loc(&a(), &IRVar::Number { value: 200 }));
    assert_eq!(calc_number(200, &a(), &mut ch), vec![]);
}

#[test]
fn slots_are_moved_through_the_registers() {
    let mut ch = Cache::new();
    let v = IRVar::Var { varid: 7 };
    let b = Loc::Reg(Reg::OtherReg(OtherReg::B));
    assert_eq!(assign_var_to_loc(&v, &b, &mut ch), Ok(vec![ZPAQLOp::SetR { target: Reg::OtherReg(OtherReg::B), r: 7 }]));
    assert!(ch.is_loc(&b, &v));
    assert_eq!(assign_var_to_loc(&v, &b, &mut ch), Ok(vec![]));
    let mut ch = Cache::new();
    assert_eq!(assign_loc_to_var(&v, &a(), &mut ch), Ok(vec![ZPAQLOp::RsetA { n: 7 }]));
    assert!(ch.is_loc(&a(), &v));
    let (code, loc) = gen_loc_for_var(&IRVar::M { index_varid: 7 }, &mut Cache::new()).unwrap();
    assert_eq!(loc, Loc::MC);
    assert_eq!(code, vec![ZPAQLOp::SetR { target: Reg::OtherReg(OtherReg::C), r: 7 }]);
}

#[test]
fn a_halt_in_the_intermediate_code_is_a_halt() {
    let mut quiet = Options::new();
    quiet.comments = false;
    let mut ch = Cache::new();
    assert_eq!(emit_zpaql(&[IR::Halt, IR::Error], &mut ch, &quiet), Ok(vec![ZPAQLOp::Halt, ZPAQLOp::Error]));
    let mut ch = Cache::new();
    assert_eq!(
        emit_zpaql(&[IR::Label { label: "x".to_string() }, IR::GoTo { label: "x".to_string() }], &mut ch, &quiet),
        Ok(vec![ZPAQLOp::Label { label: "x".to_string(), position: 0 }, ZPAQLOp::GoTo { label: "x".to_string() }])
    );
    let mut ch = Cache::new();
    assert_eq!(emit_zpaql(&[], &mut ch, &Options::new()), Ok(vec![]));
}
