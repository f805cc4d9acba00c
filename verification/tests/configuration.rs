use zpaqlpy::error::CompileError;
use zpaqlpy::options::{Options, DEFAULT_STACKSIZE};
use zpaqlpy::zpaqcfg::{calc_xh_size, power_of_two, ZPAQCfgFile};
use zpaqlpy::zpaql::{Loc, Reg, ZPAQLOp};

fn lenient() -> Options {
    let mut o = Options::new();
    o.ignore_errors = true;
    o
}

fn cfg(hh: u8, ph: u8, n: u8, hcomp: Vec<ZPAQLOp>, pcomp: Vec<ZPAQLOp>) -> ZPAQCfgFile {
    ZPAQCfgFile {
        hh,
        hm: 3,
        ph,
        pm: 4,
        n,
        model: vec![(0, "cm 19 22".to_string()), (1, "icm 5".to_string())],
        pcomp_invocation: "./pre".to_string(),
        stacksize: 100,
        hcomp,
        pcomp,
        finalised: false,
    }
}

#[test]
fn options_defaults() {
    let o = Options::new();
    assert!(!o.emit_ir);
    assert!(!o.suppress_hcomp);
    assert!(!o.suppress_pcomp);
    assert!(!o.disable_comp);
    assert!(!o.extern_tokenizer);
    assert!(o.comments);
    assert_eq!(o.stacksize, 1048576);
    assert_eq!(DEFAULT_STACKSIZE, 1 << 20);
    assert!(!o.disable_optim);
    assert!(!o.fixed_global_access);
    assert!(!o.ignore_errors);
    assert!(o.pc_as_comment);
    assert!(!o.no_post_zpaql);
    assert!(o.temp_debug_cfg);
}

#[test]
fn powers_of_two() {
    assert_eq!(power_of_two(0), 1);
    assert_eq!(power_of_two(1), 2);
    assert_eq!(power_of_two(20), 1048576);
    assert_eq!(power_of_two(32), 4294967296);
}

#[test]
fn the_array_grows_to_the_least_power_that_holds_the_stack() {
    let o = Options::new();
    assert_eq!(calc_xh_size(0, 0, &o), Ok(0));
    assert_eq!(calc_xh_size(5, 0, &o), Ok(5));
    assert_eq!(calc_xh_size(0, 1, &o), Ok(1));
    assert_eq!(calc_xh_size(3, 8, &o), Ok(4));
    assert_eq!(calc_xh_size(3, 9, &o), Ok(5));
    assert_eq!(calc_xh_size(2, 1048576, &o), Ok(21));
    assert_eq!(calc_xh_size(20, 1048576, &o), Ok(21));
    assert_eq!(calc_xh_size(21, 1048576, &o), Ok(22));
    assert_eq!(calc_xh_size(31, 1 << 31, &o), Ok(32));
    assert_eq!(calc_xh_size(0, u32::MAX, &o), Ok(32));
}

#[test]
fn the_grown_array_holds_array_and_stack() {
    let o = Options::new();
    for (hlog, stack) in [(0u8, 0u32), (1, 1), (2, 1048576), (7, 129), (10, 3), (16, 65536), (16, 65537)] {
        let k = calc_xh_size(hlog, stack, &o).unwrap();
        assert!(power_of_two(k) >= power_of_two(hlog) + stack as u64);
        assert!(k == 0 || power_of_two(k - 1) < power_of_two(hlog) + stack as u64);
    }
}

#[test]
fn more_than_two_to_32_cells_are_refused() {
    assert_eq!(calc_xh_size(32, 1, &Options::new()), Err(CompileError::OversizeArray));
    assert_eq!(calc_xh_size(31, (1 << 31) + 1, &Options::new()), Err(CompileError::OversizeArray));
    assert_eq!(calc_xh_size(40, 0, &Options::new()), Err(CompileError::OversizeArray));
    assert_eq!(calc_xh_size(32, 1, &lenient()), Ok(32));
    assert_eq!(calc_xh_size(40, 0, &lenient()), Ok(32));
}

#[test]
fn finalising_grows_the_arrays_and_assembles_the_code() {
    let hcomp = vec![
        ZPAQLOp::Label { label: "top".to_string(), position: 0 },
        ZPAQLOp::Inc(Loc::Reg(Reg::A)),
        ZPAQLOp::GoTo { label: "top".to_string() },
    ];
    let mut c = cfg(2, 3, 2, hcomp, vec![ZPAQLOp::Halt]);
    assert_eq!(c.finalise(&Options::new()), Ok(()));
    assert!(c.finalised);
    assert_eq!(c.hh, 7);
    assert_eq!(c.ph, 7);
    assert_eq!(c.hm, 3);
    assert_eq!(c.pm, 4);
    assert_eq!(c.hcomp, vec![ZPAQLOp::Inc(Loc::Reg(Reg::A)), ZPAQLOp::LJ { n: 0 }]);
    assert_eq!(c.pcomp, vec![ZPAQLOp::Halt]);
    assert_eq!(c.header_text(), "comp 7 3 7 4 2 (hh hm ph pm n)\n  0 cm 19 22\n  1 icm 5\n");
    assert_eq!(c.hcomp_text(&Options::new()), "hcomp\n  a++        (0)\n  lj 0        (1)\n");
    assert_eq!(c.pcomp_text(&Options::new()), "pcomp ./pre ;\n  halt        (0)\n");
    assert_eq!(c.end_text(), "end\n");
    let mut plain = Options::new();
    plain.pc_as_comment = false;
    assert_eq!(
        c.to_string(&plain),
        "comp 7 3 7 4 2 (hh hm ph pm n)\n  0 cm 19 22\n  1 icm 5\nhcomp\n  a++\n  lj 0\npcomp ./pre ;\n  halt\nend\n"
    );
}

#[test]
fn a_section_without_code_needs_no_stack() {
    let mut c = cfg(2, 3, 2, vec![], vec![]);
    assert_eq!(c.finalise(&Options::new()), Ok(()));
    assert_eq!(c.hh, 2);
    assert_eq!(c.ph, 3);
    assert_eq!(
        c.to_string(&Options::new()),
        "comp 2 3 3 4 2 (hh hm ph pm n)\n  0 cm 19 22\n  1 icm 5\nhcomp\n  halt\nend\n"
    );
}

#[test]
fn without_components_the_first_section_is_a_halt() {
    let mut c = cfg(2, 3, 0, vec![ZPAQLOp::Out, ZPAQLOp::Halt], vec![]);
    assert_eq!(c.finalise(&Options::new()), Ok(()));
    assert_eq!(c.hh, 2);
    assert_eq!(c.to_string(&Options::new()), "comp 2 3 3 4 0 (hh hm ph pm n)\nhcomp\n  halt\nend\n");
}

#[test]
fn a_configuration_is_finalised_once() {
    let mut c = cfg(2, 3, 1, vec![ZPAQLOp::Halt], vec![]);
    assert_eq!(c.finalise(&Options::new()), Ok(()));
    let hh = c.hh;
    assert_eq!(c.finalise(&Options::new()), Err(CompileError::AlreadyFinalised));
    assert_eq!(c.hh, hh);
}

#[test]
fn arrays_that_are_too_large_are_refused_and_nothing_changes() {
    let mut c = cfg(32, 3, 1, vec![ZPAQLOp::Halt], vec![]);
    assert_eq!(c.finalise(&Options::new()), Err(CompileError::OversizeArray));
    assert!(!c.finalised);
    assert_eq!(c.hh, 32);
    assert_eq!(c.finalise(&lenient()), Ok(()));
    assert_eq!(c.hh, 32);
}

#[test]
fn a_missing_label_is_refused_and_nothing_changes() {
    let mut c = cfg(2, 3, 1, vec![ZPAQLOp::GoTo { label: "gone".to_string() }], vec![]);
    assert_eq!(c.finalise(&Options::new()), Err(CompileError::UnknownLabel));
    assert!(!c.finalised);
    assert_eq!(c.hh, 2);
    assert_eq!(c.hcomp, vec![ZPAQLOp::GoTo { label: "gone".to_string() }]);
}
