use zpaqlpy::compiler::{compile, parse};
use zpaqlpy::error::{CompileError, ErrorKind};
use zpaqlpy::options::Options;
use zpaqlpy::zpaqcfg::ZPAQCfgFile;
use zpaqlpy::zpaqlvm::ZPAQLVM;

const BEGIN: &str = "### BEGIN OF EDITABLE SECTION - do not remove the markers or place anything before/after them\n";
const END: &str = "### END OF EDITABLE SECTION - do not remove the markers or place anything before/after them\n";

fn header(hh: u8, hm: u8, ph: u8, pm: u8, model: &str) -> String {
    format!(
        "# sizes\nhh = {}  # size of hH[] is 2**hh\nhm = {}\nph = {}\npm = {}\nn = len({{  # the components\n{}}})\npcomp_invocation = \"\"  # nothing\n",
        hh, hm, ph, pm, model
    )
}

fn program(head: &str, shared: &str, hcomp: &str, pcomp: &str) -> String {
    let mut s = String::from("#!/usr/bin/env python3\n# a line before the first section\n");
    s += BEGIN;
    s += head;
    s += shared;
    s += "\npass\n";
    s += END;
    s += "\nimport sys, array\ninput_c = NONE = 4294967295\nclass Thing:\n  def __init__(self, a):\n    self.a = a\n\npass\n";
    s += BEGIN;
    s += hcomp;
    s += "\n\npass\n";
    s += END;
    s += "\n";
    s += BEGIN;
    s += pcomp;
    s += "\n\npass\n";
    s += END;
    s += "\nif __name__ == '__main__':\n  print('done')\n";
    s
}

const PASS_HCOMP: &str = "def hcomp(c):\n  pass\n";
const PASS_PCOMP: &str = "def pcomp(c):\n  pass\n";

fn compiled(options: &Options, source: String) -> (String, ZPAQCfgFile) {
    match compile(options, source) {
        Ok((text, Some(cfg))) => (text, cfg),
        Ok((text, None)) => panic!("no configuration came back, the text was:\n{}", text),
        Err(e) => panic!("the program was refused: {:?}", e),
    }
}

fn quiet() -> Options {
    let mut o = Options::new();
    o.comments = false;
    o.pc_as_comment = false;
    o
}

#[test]
fn empty_configuration_is_header_halt_and_end() {
    let source = program(&header(0, 0, 0, 0, ""), "", PASS_HCOMP, PASS_PCOMP);
    let (text, cfg) = compiled(&Options::new(), source);
    assert_eq!(text, "comp 0 0 0 0 0 (hh hm ph pm n)\nhcomp\n  halt\nend\n");
    assert_eq!(cfg.n, 0);
    assert!(cfg.hcomp.is_empty());
    assert!(cfg.pcomp.is_empty());
    assert!(cfg.finalised);
}

#[test]
fn sections_of_pass_leave_no_pcomp_whatever_the_model() {
    let source = program(&header(3, 2, 1, 4, "0: \"cm 19 22\",\n"), "", PASS_HCOMP, PASS_PCOMP);
    let (text, _) = compiled(&Options::new(), source);
    assert_eq!(text, "comp 3 2 1 4 1 (hh hm ph pm n)\n  0 cm 19 22\nhcomp\n  halt\nend\n");
    assert!(text.contains("hcomp\n  halt\n"));
    assert!(!text.contains("pcomp"));
}

#[test]
fn single_component_stores_the_byte_in_h() {
    let source = program(
        &header(2, 0, 0, 0, "0: \"cm 19 22\",  # one context model\n"),
        "",
        "def hcomp(c):\n  hH[0] = c\n",
        PASS_PCOMP,
    );
    let (text, cfg) = compiled(&quiet(), source);
    assert!(text.starts_with("comp 21 0 0 0 1 (hh hm ph pm n)\n  0 cm 19 22\nhcomp\n  r=a 255\n"), "{}", text);
    assert!(text.ends_with("end\n"));
    assert!(!text.contains("pcomp"));
    assert_eq!(cfg.hh, 21);
    let (mut hvm, _) = ZPAQLVM::new(&cfg).unwrap();
    for byte in [65u32, 0, 255, 7] {
        hvm.run(byte, 1_000_000).unwrap();
        assert_eq!(hvm.h[0], byte);
        assert_eq!(hvm.r[255], byte);
    }
}

const RLE_SHARED: &str = "";
const RLE_PCOMP: &str = "case_loading = False\nlast = NONE\n\ndef pcomp(c):\n  global case_loading, last\n  if c == NONE:  # start of new segment, so restart our code\n    case_loading = False\n    last = NONE\n    return\n  if not case_loading:  # c is byte to load\n    case_loading = True\n    last = c\n  else:  # write out content of last c times\n    case_loading = False\n    while c > 0:\n      c-= 1\n      out(last)\n";

fn run_rle(options: &Options) -> Vec<u8> {
    let source = program(&header(0, 0, 0, 0, ""), RLE_SHARED, PASS_HCOMP, RLE_PCOMP);
    let (text, cfg) = compiled(options, source);
    assert!(text.contains("\npcomp  ;\n"), "{}", text);
    let (_, mut pvm) = ZPAQLVM::new(&cfg).unwrap();
    for c in [65u32, 3, 66, 2, 0xFFFF_FFFF] {
        pvm.run(c, 1_000_000).unwrap();
    }
    pvm.outbuf.clone()
}

#[test]
fn run_length_decoder_writes_the_runs() {
    assert_eq!(run_rle(&Options::new()), b"AAABB".to_vec());
}

#[test]
fn run_length_decoder_is_the_same_without_the_optimisations() {
    let mut o = quiet();
    o.disable_optim = true;
    o.no_post_zpaql = true;
    o.fixed_global_access = true;
    assert_eq!(run_rle(&o), b"AAABB".to_vec());
}

fn chained(x: u32) -> u32 {
    let source = program(
        &header(0, 0, 0, 0, "0: \"cm 19 22\",\n"),
        "",
        "def hcomp(c):\n  x = c\n  if 1 < x <= 10:\n    hH[0] = 1\n  else:\n    hH[0] = 2\n",
        PASS_PCOMP,
    );
    let (_, cfg) = compiled(&Options::new(), source);
    let (mut hvm, _) = ZPAQLVM::new(&cfg).unwrap();
    hvm.run(x, 1_000_000).unwrap();
    hvm.h[0]
}

#[test]
fn chained_comparison_takes_the_true_branch_inside() {
    assert_eq!(chained(5), 1);
    assert_eq!(chained(2), 1);
    assert_eq!(chained(10), 1);
}

#[test]
fn chained_comparison_takes_the_false_branch_outside() {
    assert_eq!(chained(11), 2);
    assert_eq!(chained(1), 2);
    assert_eq!(chained(0), 2);
}

fn listing(hcomp: &str) -> String {
    let mut o = quiet();
    o.emit_ir = true;
    let source = program(&header(0, 0, 0, 0, "0: \"cm 19 22\",\n"), "", hcomp, PASS_PCOMP);
    match compile(&o, source) {
        Ok((text, None)) => text,
        Ok((_, Some(_))) => panic!("a configuration came back with the listing"),
        Err(e) => panic!("the program was refused: {:?}", e),
    }
}

#[test]
fn a_function_that_is_never_called_leaves_no_code() {
    let unused = listing("def helper(a):\n  return a + 1\n\ndef hcomp(c):\n  hH[0] = c\n");
    let used = listing("def helper(a):\n  return a + 1\n\ndef hcomp(c):\n  hH[0] = helper(c)\n");
    let without = listing("def hcomp(c):\n  hH[0] = c\n");
    assert!(used.contains("helper"), "{}", used);
    assert!(!unused.contains("helper"), "{}", unused);
    assert_eq!(unused, without);
}

#[test]
fn calls_return_what_the_function_computes() {
    let source = program(
        &header(0, 0, 0, 0, "0: \"cm 19 22\",\n"),
        "def twice(a):\n  return a + a\n",
        "def hcomp(c):\n  hH[0] = twice(c) + twice(1)\n",
        PASS_PCOMP,
    );
    let (_, cfg) = compiled(&Options::new(), source);
    let (mut hvm, _) = ZPAQLVM::new(&cfg).unwrap();
    hvm.run(20, 1_000_000).unwrap();
    assert_eq!(hvm.h[0], 42);
    hvm.run(0, 1_000_000).unwrap();
    assert_eq!(hvm.h[0], 2);
}

#[test]
fn arithmetic_follows_precedence() {
    let source = program(
        &header(2, 0, 0, 0, "0: \"cm 19 22\",\n"),
        "",
        "def hcomp(c):\n  hH[0] = 1 + c * 2\n  hH[1] = (1 + c) * 2\n  hH[2] = c - 1 - 1\n  hH[3] = 2 ** 3 ** 2 % 1000 + (c << 1 | 1)\n",
        PASS_PCOMP,
    );
    let (_, cfg) = compiled(&Options::new(), source);
    let (mut hvm, _) = ZPAQLVM::new(&cfg).unwrap();
    hvm.run(5, 10_000_000).unwrap();
    assert_eq!(hvm.h[0], 11);
    assert_eq!(hvm.h[1], 12);
    assert_eq!(hvm.h[2], 3);
    assert_eq!(hvm.h[3], 512 + 11);
}

#[test]
fn the_listing_of_an_empty_program_has_no_code() {
    let mut o = Options::new();
    o.emit_ir = true;
    let source = program(&header(0, 0, 0, 0, ""), "", PASS_HCOMP, PASS_PCOMP);
    match compile(&o, source) {
        Ok((text, None)) => assert_eq!(text, "comp 0 0 0 0 0 (hh hm ph pm n)\nhcomp\nend\n"),
        Ok((_, Some(_))) => panic!("a configuration came back with the listing"),
        Err(e) => panic!("the program was refused: {:?}", e),
    }
}

#[test]
fn without_components_the_first_section_is_left_out() {
    let mut o = quiet();
    o.disable_comp = true;
    let source = program(
        &header(2, 0, 0, 0, "0: \"cm 19 22\",\n"),
        "",
        "def hcomp(c):\n  hH[0] = c\n",
        PASS_PCOMP,
    );
    let (text, cfg) = compiled(&o, source);
    assert_eq!(cfg.n, 0);
    assert_eq!(text, "comp 2 0 0 0 0 (hh hm ph pm n)\nhcomp\n  halt\nend\n");
}

#[test]
fn a_suppressed_section_stays_empty() {
    let mut o = quiet();
    o.suppress_hcomp = true;
    let source = program(
        &header(2, 0, 0, 0, "0: \"cm 19 22\",\n"),
        "",
        "def hcomp(c):\n  hH[0] = c\n",
        PASS_PCOMP,
    );
    let (text, cfg) = compiled(&o, source);
    assert!(cfg.hcomp.is_empty());
    assert_eq!(text, "comp 2 0 0 0 1 (hh hm ph pm n)\n  0 cm 19 22\nhcomp\n  halt\nend\n");
}

#[test]
fn a_text_without_sections_is_refused() {
    let o = Options::new();
    assert_eq!(parse(&o, "x = 1\n").err(), Some(CompileError::BadSections));
    assert_eq!(CompileError::BadSections.kind(), ErrorKind::Input);
    assert!(matches!(compile(&o, String::from("x = 1\n")), Err(CompileError::BadSections)));
}

#[test]
fn a_section_that_ends_inside_a_block_is_refused() {
    let o = Options::new();
    let mut source = String::from(BEGIN);
    source += &header(0, 0, 0, 0, "");
    source += END;
    source += BEGIN;
    source += "def hcomp(c):\n  pass\n";
    source += END;
    source += BEGIN;
    source += "def pcomp(c):\n  pass\n";
    source += END;
    assert!(matches!(compile(&o, source), Err(CompileError::UnexpectedToken)));
}

#[test]
fn a_decorated_function_is_compiled_like_any_other() {
    let plain = program(
        &header(0, 0, 0, 0, "0: \"cm 19 22\",\n"),
        "def twice(a):\n  return a + a\n",
        "def hcomp(c):\n  hH[0] = twice(c) + 1\n",
        PASS_PCOMP,
    );
    let decorated = program(
        &header(0, 0, 0, 0, "0: \"cm 19 22\",\n"),
        "@inline\n@cached(2)\ndef twice(a):\n  return a + a\n",
        "def hcomp(c):\n  hH[0] = twice(c) + 1\n",
        PASS_PCOMP,
    );
    let (_, cfg) = compiled(&quiet(), decorated);
    let (_, expected) = compiled(&quiet(), plain);
    assert_eq!(cfg.hcomp, expected.hcomp);
    let (mut hvm, _) = ZPAQLVM::new(&cfg).unwrap();
    hvm.run(20, 1_000_000).unwrap();
    assert_eq!(hvm.h[0], 41);
}

#[test]
fn keywords_of_arguments_are_passed_over() {
    let plain = program(
        &header(0, 0, 0, 0, "0: \"cm 19 22\",\n"),
        "def twice(a):\n  return a + a\n",
        "def hcomp(c):\n  hH[0] = twice(c) + 1\n",
        PASS_PCOMP,
    );
    let with_keyword = program(
        &header(0, 0, 0, 0, "0: \"cm 19 22\",\n"),
        "def twice(a):\n  return a + a\n",
        "def hcomp(c):\n  hH[0] = twice(c, times=2) + 1\n",
        PASS_PCOMP,
    );
    let (_, cfg) = compiled(&quiet(), with_keyword);
    let (_, expected) = compiled(&quiet(), plain);
    assert_eq!(cfg.hcomp, expected.hcomp);
}

#[test]
fn a_header_has_to_set_each_of_its_six_names_once() {
    let o = Options::new();
    let good = "hh = 0\nhm = 0\nph = 0\npm = 0\nn = len({})\npcomp_invocation = \"\"\n";
    assert!(compile(&o, program(good, "", PASS_HCOMP, PASS_PCOMP)).is_ok());
    let reordered = "pcomp_invocation = \"x\"\nn = len({})\npm = 1\nph = 2\nhm = 3\nhh = 4\n";
    match compile(&o, program(reordered, "", PASS_HCOMP, PASS_PCOMP)) {
        Ok((text, _)) => assert!(text.starts_with("comp 4 3 2 1 0 (hh hm ph pm n)\n"), "{}", text),
        Err(e) => panic!("{:?}", e),
    }
    for bad in [
        "hh = 0\nhh = 0\nph = 0\npm = 0\nn = len({})\npcomp_invocation = \"\"\n",
        "hh = 0\nhm = 0\nph = 0\npm = 0\nn = 1\npcomp_invocation = \"\"\n",
        "hh = 0\nhm = 0\nph = 0\npm = 0\nn = len({})\npcomp_invocation = 5\n",
        "hh = \"0\"\nhm = 0\nph = 0\npm = 0\nn = len({})\npcomp_invocation = \"\"\n",
        "hh = 0\nhm = 0\nph = 0\npm = 0\nn = len({})\nother = \"\"\n",
        "hh = 0\nhm = 0\nph = 0\npm = hh\nn = len({})\npcomp_invocation = \"\"\n",
        "pass\nhh = 0\nhm = 0\nph = 0\npm = 0\nn = len({})\n",
        "hh += 0\nhm = 0\nph = 0\npm = 0\nn = len({})\npcomp_invocation = \"\"\n",
    ] {
        let mut head = String::from(bad);
        head += "extra = 1\n";
        assert!(
            matches!(compile(&o, program(&head, "", PASS_HCOMP, PASS_PCOMP)), Err(CompileError::MissingHeader)),
            "{:?}",
            bad
        );
    }
}

#[test]
fn a_header_that_is_too_short_is_refused() {
    let o = Options::new();
    let source = program("hh = 0\nhm = 0\n", "", "", "");
    assert!(matches!(compile(&o, source), Err(CompileError::MissingHeader)));
}

#[test]
fn a_statement_that_is_no_statement_is_refused() {
    let o = Options::new();
    let source = program(&header(0, 0, 0, 0, ""), "", "def hcomp(c):\n  x = = 1\n", PASS_PCOMP);
    assert!(matches!(compile(&o, source), Err(CompileError::UnexpectedToken)));
    assert_eq!(CompileError::UnexpectedToken.kind(), ErrorKind::Parse);
}

#[test]
fn an_unknown_name_is_refused() {
    let o = Options::new();
    let source = program(
        &header(0, 0, 0, 0, "0: \"cm 19 22\",\n"),
        "",
        "def hcomp(c):\n  hH[0] = nowhere\n",
        PASS_PCOMP,
    );
    assert!(matches!(compile(&o, source), Err(CompileError::UnknownVariable)));
    assert_eq!(CompileError::UnknownVariable.kind(), ErrorKind::Semantic);
}

#[test]
fn break_outside_a_loop_is_refused() {
    let o = Options::new();
    let source = program(&header(0, 0, 0, 0, "0: \"cm 19 22\",\n"), "", "def hcomp(c):\n  break\n", PASS_PCOMP);
    assert!(matches!(compile(&o, source), Err(CompileError::BreakOutsideLoop)));
}

#[test]
fn compiling_twice_gives_the_same_text() {
    let source = program(&header(0, 0, 0, 0, ""), RLE_SHARED, PASS_HCOMP, RLE_PCOMP);
    let (a, _) = compiled(&Options::new(), source.clone());
    let (b, _) = compiled(&Options::new(), source);
    assert_eq!(a, b);
}
