use zpaqlpy::compiler::{parse, prepare};
use zpaqlpy::error::{CompileError, ErrorKind};
use zpaqlpy::ir::{block_text, clone_irs, num, return_label_text, var, IROp, IRUOp, IRVar, IR};
use zpaqlpy::options::Options;
use zpaqlpy::post_ir::{deblock, lighten_save_load, optimise, remove_unused_assignments, remove_unused_functions};
use zpaqlpy::sections::xcomp_ir_string;

fn cell(stack_offset: u32, local: bool, name: &str) -> IRVar {
    IRVar::Ht { stack_offset, local, orig_name: name.to_string() }
}

fn label(name: &str) -> IR {
    IR::Label { label: name.to_string() }
}

fn goto(name: &str) -> IR {
    IR::GoTo { label: name.to_string() }
}

fn assign(target: IRVar, source: IRVar) -> IR {
    IR::Assign { target, source }
}

fn call(name: &str, ret_id: u32) -> IR {
    IR::Call { label: name.to_string(), args: vec![var(1)], stack_pos: 3, ret_id }
}

#[test]
fn operands_are_written_as_in_a_listing() {
    assert_eq!(num(42).to_string(), "42");
    assert_eq!(var(7).to_string(), "t7");
    assert_eq!(IRVar::H { index_varid: 3, orig_name: "hH".to_string() }.to_string(), "H[t3](hH)");
    assert_eq!(cell(5, true, "x").to_string(), "H[t0+5](x)");
    assert_eq!(cell(5, false, "g").to_string(), "H[t252+5](g)");
    assert_eq!(IRVar::M { index_varid: 9 }.to_string(), "M[t9]");
    assert_eq!(IRVar::Hx { addr: 1000 }.to_string(), "H[1000]");
    assert_eq!(IRVar::Mx { addr: 0 }.to_string(), "M[0]");
    assert_eq!(IRVar::VH(Box::new(var(2))).to_string(), "t2");
    assert_eq!(IRVar::VM(Box::new(IRVar::VH(Box::new(num(1))))).to_string(), "1");
}

#[test]
fn the_mark_of_a_pointer_is_taken_off() {
    assert_eq!(IRVar::VH(Box::new(var(2))).tovar(), var(2));
    assert_eq!(IRVar::VM(Box::new(cell(1, true, "x"))).tovar(), cell(1, true, "x"));
    assert_eq!(var(2).tovar(), var(2));
    assert!(var(2).same(&var(2)));
    assert!(!var(2).same(&var(3)));
    assert!(!cell(1, true, "x").same(&cell(1, true, "y")));
}

#[test]
fn operators_are_written_as_in_the_source() {
    let all = [
        (IROp::Add, "+"),
        (IROp::Sub, "-"),
        (IROp::Mult, "*"),
        (IROp::Div, "/"),
        (IROp::Pow, "**"),
        (IROp::Mod, "%"),
        (IROp::LShift, "<<"),
        (IROp::RShift, ">>"),
        (IROp::BitOr, "|"),
        (IROp::BitXor, "^"),
        (IROp::BitAnd, "&"),
        (IROp::Or, "or"),
        (IROp::And, "and"),
        (IROp::Eq, "=="),
        (IROp::NotEq, "!="),
        (IROp::Lt, "<"),
        (IROp::LtE, "<="),
        (IROp::Gt, ">"),
        (IROp::GtE, ">="),
    ];
    for (op, text) in all {
        assert_eq!(op.to_string(), text);
    }
    assert_eq!(IRUOp::USub.to_string(), "-");
}

#[test]
fn instructions_are_written_as_in_a_listing() {
    assert_eq!(assign(var(1), num(2)).to_string(), " t1 = 2");
    assert_eq!(
        IR::Assign2Op { target: var(1), val1: var(2), op: IROp::LShift, val2: num(3) }.to_string(),
        " t1 = t2 << 3"
    );
    assert_eq!(IR::Assign1Op { target: var(1), uop: IRUOp::USub, source: var(2) }.to_string(), " t1 = - t2");
    assert_eq!(goto("there").to_string(), " goto there");
    assert_eq!(label("there").to_string(), ":there:");
    assert_eq!(IR::Halt.to_string(), " halt");
    assert_eq!(IR::Error.to_string(), " error");
    assert_eq!(IR::Out { var: var(1) }.to_string(), " out t1");
    assert_eq!(IR::If { cond_var: var(1), goto_label: "l".to_string() }.to_string(), " if t1 goto l");
    assert_eq!(IR::IfN { cond_var: var(1), goto_label: "l".to_string() }.to_string(), " ifN t1 goto l");
    assert_eq!(
        IR::IfEq { val1: var(1), val2: num(0), goto_label: "l".to_string() }.to_string(),
        " ifEq t1 0 goto l"
    );
    assert_eq!(
        IR::IfNeq { val1: var(1), val2: num(0), goto_label: "l".to_string() }.to_string(),
        " ifNeq t1 0 goto l"
    );
    assert_eq!(IR::Comment { comment: "why".to_string() }.to_string(), " # why");
    assert_eq!(IR::MarkTempVarStart.to_string(), " MarkTempVarStart");
    assert_eq!(IR::MarkTempVarEnd.to_string(), " MarkTempVarEnd");
    assert_eq!(IR::InitialCode { bsp: 4 }.to_string(), " InitialCode (bsp: 4)");
    assert_eq!(IR::StoreTempVars { ti: vec![1, 2], stack_pos: 3 }.to_string(), " StoreTempVars(t[1, 2], stack_pos: 3)");
    assert_eq!(IR::LoadTempVars { ti: vec![], stack_pos: 3 }.to_string(), " LoadTempVars(t[], stack_pos: 3)");
    assert_eq!(
        IR::JumpCode { ret_ids: vec![0, 1], stackend: 1048580 }.to_string(),
        " JumpCode(ret_ids: [0, 1], stackend: 1048580)"
    );
    assert_eq!(
        IR::Call { label: "f".to_string(), args: vec![var(255), num(1)], stack_pos: 0, ret_id: 7 }.to_string(),
        " t1 = f(t255, 1) # stack_pos: 0 return id: 7"
    );
    assert_eq!(IR::Return { var: Some(var(3)) }.to_string(), " return t3");
    assert_eq!(IR::Return { var: None }.to_string(), " return ");
}

#[test]
fn a_block_is_written_with_its_lines_indented() {
    let block = IR::Block { stmts: vec![assign(var(1), num(2)), label("l"), IR::Halt] };
    assert_eq!(block.to_string(), "    t1 = 2\n  :l:\n   halt");
    assert_eq!(block_text(&vec![assign(var(1), num(2)), IR::Halt]), "   t1 = 2\n   halt");
}

#[test]
fn a_return_label_is_made_of_its_id() {
    assert_eq!(return_label_text(0), "return_id_0");
    assert_eq!(return_label_text(4294967295), "return_id_4294967295");
}

#[test]
fn plain_instructions_expand_to_themselves() {
    for op in [IR::Halt, IR::Error, goto("x"), label("x"), assign(var(1), num(2)), IR::MarkTempVarStart] {
        assert!(op.fits());
        assert_eq!(op.convert(), op);
    }
}

#[test]
fn saves_and_restores_expand_to_copies() {
    let frame = |k: u32| cell(k, true, "");
    assert_eq!(
        IR::StoreTempVars { ti: vec![4, 9], stack_pos: 3 }.convert(),
        IR::Block { stmts: vec![assign(frame(4), var(4)), assign(frame(5), var(9))] }
    );
    assert_eq!(
        IR::LoadTempVars { ti: vec![4, 9], stack_pos: 3 }.convert(),
        IR::Block { stmts: vec![assign(var(4), frame(4)), assign(var(9), frame(5))] }
    );
    assert_eq!(IR::StoreTempVars { ti: vec![], stack_pos: 0 }.convert(), IR::Block { stmts: vec![] });
}

#[test]
fn a_return_expands_to_the_way_back() {
    let base = || IRVar::H { index_varid: 0, orig_name: String::new() };
    let tail = || {
        vec![
            assign(var(2), base()),
            IR::Assign2Op { target: var(0), val1: var(0), op: IROp::Sub, val2: num(1) },
            assign(var(0), base()),
            goto("find_label_ret_id"),
        ]
    };
    assert_eq!(IR::Return { var: None }.convert(), IR::Block { stmts: tail() });
    let mut with_value = vec![assign(var(1), var(7))];
    with_value.extend(tail());
    assert_eq!(IR::Return { var: Some(var(7)) }.convert(), IR::Block { stmts: with_value });
}

#[test]
fn a_call_expands_to_the_jump_and_its_return_label() {
    let frame = |k: u32| cell(k, true, "");
    let c = IR::Call { label: "f".to_string(), args: vec![var(5), num(6)], stack_pos: 3, ret_id: 2 };
    assert!(c.fits());
    assert_eq!(
        c.convert(),
        IR::Block {
            stmts: vec![
                assign(frame(4), var(0)),
                IR::Comment { comment: "saved bsp, return id:".to_string() },
                assign(frame(5), num(2)),
                IR::Comment { comment: "push arguments:".to_string() },
                assign(frame(6), var(5)),
                assign(frame(7), num(6)),
                IR::Assign2Op { target: var(0), val1: var(0), op: IROp::Add, val2: num(5) },
                goto("f"),
                label("return_id_2"),
            ]
        }
    );
}

#[test]
fn what_does_not_fit_in_32_bits_is_not_expanded() {
    assert!(!IR::Call { label: "f".to_string(), args: vec![], stack_pos: u32::MAX - 1, ret_id: 0 }.fits());
    assert!(IR::Call { label: "f".to_string(), args: vec![], stack_pos: u32::MAX - 2, ret_id: 0 }.fits());
    assert!(!IR::StoreTempVars { ti: vec![1], stack_pos: u32::MAX }.fits());
    assert!(!IR::LoadTempVars { ti: vec![1], stack_pos: u32::MAX }.fits());
    assert!(!IR::JumpCode { ret_ids: vec![], stackend: 199 }.fits());
    assert!(IR::JumpCode { ret_ids: vec![], stackend: 200 }.fits());
    let code = vec![IR::Halt, IR::StoreTempVars { ti: vec![1], stack_pos: u32::MAX }];
    assert_eq!(xcomp_ir_string(true, &code), Err(CompileError::LimitExceeded));
    assert_eq!(
        xcomp_ir_string(false, &code),
        Ok(" halt\n StoreTempVars(t[1], stack_pos: 4294967295)".to_string())
    );
    assert_eq!(CompileError::LimitExceeded.kind(), ErrorKind::Semantic);
}

#[test]
fn a_listing_has_one_instruction_to_a_line() {
    let code = vec![label("a"), assign(var(1), num(2)), IR::LoadTempVars { ti: vec![3], stack_pos: 1 }];
    assert_eq!(xcomp_ir_string(false, &code), Ok(":a:\n t1 = 2\n LoadTempVars(t[3], stack_pos: 1)".to_string()));
    assert_eq!(xcomp_ir_string(true, &code), Ok(":a:\n t1 = 2\n    t3 = H[t0+2]()".to_string()));
    assert_eq!(xcomp_ir_string(true, &[]), Ok(String::new()));
}

#[test]
fn blocks_are_flattened_to_any_depth() {
    let code = vec![
        IR::Halt,
        IR::Block { stmts: vec![label("a"), IR::Block { stmts: vec![label("b"), IR::Block { stmts: vec![] }] }, label("c")] },
        IR::Error,
    ];
    assert_eq!(deblock(code), vec![IR::Halt, label("a"), label("b"), label("c"), IR::Error]);
    assert_eq!(deblock(vec![]), vec![]);
}

#[test]
fn copies_of_a_slot_to_itself_are_dropped() {
    let code = vec![
        assign(var(1), var(1)),
        assign(var(1), var(2)),
        assign(cell(1, true, "x"), cell(1, true, "x")),
        assign(var(255), var(255)),
        IR::Halt,
    ];
    assert_eq!(
        remove_unused_assignments(code),
        vec![assign(var(1), var(2)), assign(cell(1, true, "x"), cell(1, true, "x")), IR::Halt]
    );
}

fn function(name: &str, body: Vec<IR>) -> Vec<IR> {
    let mut code = vec![goto(&format!("{}_end~", name)), label(name), IR::MarkTempVarStart];
    code.extend(body);
    code.push(IR::MarkTempVarEnd);
    code.push(label(&format!("{}_end~", name)));
    code
}

#[test]
fn a_function_that_nothing_calls_is_dropped() {
    let mut code = vec![IR::InitialCode { bsp: 4 }];
    code.extend(function("unused", vec![call("used", 0), IR::Return { var: None }]));
    code.extend(function("used", vec![IR::Return { var: Some(num(1)) }]));
    code.push(call("used", 1));
    code.push(IR::JumpCode { ret_ids: vec![0, 1], stackend: 1000 });
    let mut expected = vec![IR::InitialCode { bsp: 4 }];
    expected.extend(function("used", vec![IR::Return { var: Some(num(1)) }]));
    expected.push(call("used", 1));
    expected.push(IR::JumpCode { ret_ids: vec![1], stackend: 1000 });
    assert_eq!(remove_unused_functions(code), expected);
}

#[test]
fn functions_that_only_dropped_functions_call_are_dropped_too() {
    let mut code = vec![IR::InitialCode { bsp: 4 }];
    code.extend(function("inner", vec![IR::Return { var: None }]));
    code.extend(function("outer", vec![call("inner", 0), IR::Return { var: None }]));
    code.extend(function("main", vec![IR::Return { var: None }]));
    code.push(call("main", 1));
    code.push(IR::JumpCode { ret_ids: vec![0, 1], stackend: 1000 });
    let mut expected = vec![IR::InitialCode { bsp: 4 }];
    expected.extend(function("main", vec![IR::Return { var: None }]));
    expected.push(call("main", 1));
    expected.push(IR::JumpCode { ret_ids: vec![1], stackend: 1000 });
    assert_eq!(remove_unused_functions(code), expected);
}

#[test]
fn a_function_within_a_function_is_refused() {
    let code = vec![IR::MarkTempVarStart, IR::MarkTempVarStart, IR::MarkTempVarEnd, IR::MarkTempVarEnd];
    assert_eq!(lighten_save_load(code, &Options::new()), Err(CompileError::NestedFunction));
    assert_eq!(CompileError::NestedFunction.kind(), ErrorKind::Semantic);
}

#[test]
fn only_the_slots_that_are_read_again_are_saved() {
    let body = vec![
        IR::MarkTempVarStart,
        assign(var(1), num(1)),
        assign(var(2), num(2)),
        assign(var(3), num(3)),
        IR::StoreTempVars { ti: vec![1, 2, 3], stack_pos: 0 },
        call("f", 0),
        IR::LoadTempVars { ti: vec![1, 2, 3], stack_pos: 0 },
        IR::Out { var: var(2) },
        assign(var(3), num(0)),
        IR::Out { var: var(3) },
        IR::MarkTempVarEnd,
    ];
    let done = lighten_save_load(body, &Options::new()).unwrap();
    assert_eq!(
        done,
        vec![
            IR::MarkTempVarStart,
            assign(var(1), num(1)),
            assign(var(2), num(2)),
            assign(var(3), num(3)),
            IR::StoreTempVars { ti: vec![2], stack_pos: 0 },
            call("f", 0),
            IR::LoadTempVars { ti: vec![2], stack_pos: 0 },
            IR::Out { var: var(2) },
            assign(var(3), num(0)),
            IR::Out { var: var(3) },
            IR::MarkTempVarEnd,
        ]
    );
}

const SOURCE: &str = "pass\n### BEGIN OF EDITABLE SECTION\nhh = 2\nhm = 4\nph = 0\npm = 0\nn = len({\n0: \"cm 19 22\",\n})\npcomp_invocation = \"\"\n\ndef f(a):\n  return a + 1\n\ndef g(a, b):\n  x = f(a) * f(b)\n  return x - f(f(a) + b)\n\ndef never(a):\n  return g(a, a)\n\npass\n### END OF EDITABLE SECTION\npass\n### BEGIN OF EDITABLE SECTION\ntotal = 0\n\ndef hcomp(c):\n  global total\n  i = 0\n  while i < 3:\n    total += g(c, i) + f(total)\n    i += 1\n  if 1 < c <= 10 and not total == 5:\n    hH[0] = f(c) + g(f(1), f(c) + 2) * 3\n  else:\n    hH[1] = total\n  hM[i] = c\n\npass\n### END OF EDITABLE SECTION\n### BEGIN OF EDITABLE SECTION\ndef pcomp(c):\n  pass\n\npass\n### END OF EDITABLE SECTION\n";

fn compiled(options: &Options) -> Vec<IR> {
    let (parsed_hcomp, parsed_pcomp) = parse(options, SOURCE).unwrap();
    let (_, hir, _) = prepare(options, parsed_hcomp, parsed_pcomp, SOURCE.to_string()).unwrap();
    hir
}

fn count<F: Fn(&IR) -> bool>(code: &[IR], hit: &F) -> usize {
    code.iter()
        .map(|op| match op {
            IR::Block { stmts } => count(stmts, hit),
            other => usize::from(hit(other)),
        })
        .sum()
}

#[test]
fn optimising_twice_changes_nothing() {
    for disable in [false, true] {
        let mut o = Options::new();
        o.disable_optim = disable;
        let once = compiled(&o);
        let twice = optimise(clone_irs(&once), &o).unwrap();
        assert_eq!(once, twice);
        let thrice = optimise(clone_irs(&twice), &o).unwrap();
        assert_eq!(twice, thrice);
    }
}

#[test]
fn optimised_code_has_no_blocks_and_no_unused_function() {
    let code = compiled(&Options::new());
    assert!(code.iter().all(|op| !matches!(op, IR::Block { .. })));
    assert!(code.iter().any(|op| matches!(op, IR::Label { label } if label == "g")));
    assert!(code.iter().all(|op| !matches!(op, IR::Label { label } if label.starts_with("never"))));
    assert!(code.iter().all(|op| !matches!(op, IR::Assign { target: IRVar::Var { varid: a }, source: IRVar::Var { varid: b } } if a == b)));
}

#[test]
fn every_save_has_its_restore_of_slots_that_were_saved() {
    let code = compiled(&Options::new());
    let mut saves = 0;
    for (i, op) in code.iter().enumerate() {
        if let IR::StoreTempVars { ti, stack_pos } = op {
            saves += 1;
            let restore = code[i + 1..].iter().find_map(|later| match later {
                IR::LoadTempVars { ti: back, stack_pos: sp } if sp == stack_pos => Some(back),
                IR::MarkTempVarEnd => Some(ti).filter(|_| false),
                _ => None,
            });
            let back = restore.expect("a save without a restore");
            assert!(back.iter().all(|slot| ti.contains(slot)), "{:?} is not within {:?}", back, ti);
        }
    }
    assert!(saves > 0);
}

#[test]
fn every_call_has_one_return_label_and_a_place_in_the_jump_code() {
    let code = compiled(&Options::new());
    let ids: Vec<u32> = code
        .iter()
        .filter_map(|op| match op {
            IR::Call { ret_id, .. } => Some(*ret_id),
            _ => None,
        })
        .collect();
    assert!(ids.len() >= 8);
    let mut sorted = ids.clone();
    sorted.sort();
    sorted.dedup();
    assert_eq!(sorted.len(), ids.len());
    let expanded: Vec<IR> = code.iter().map(|op| op.convert()).collect();
    for id in &ids {
        let name = return_label_text(*id);
        assert_eq!(count(&expanded, &|op| matches!(op, IR::Label { label } if *label == name)), 1);
    }
    let listed: Vec<u32> = code
        .iter()
        .filter_map(|op| match op {
            IR::JumpCode { ret_ids, .. } => Some(ret_ids.clone()),
            _ => None,
        })
        .next()
        .unwrap();
    assert_eq!(listed, sorted);
    assert_eq!(count(&code, &|op| matches!(op, IR::JumpCode { .. })), 1);
}
