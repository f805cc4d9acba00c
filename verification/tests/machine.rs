use zpaqlpy::zpaqcfg::ZPAQCfgFile;
use zpaqlpy::zpaql::{Loc, OtherReg, Reg, SwapLoc, ZPAQLOp};
use zpaqlpy::zpaqlvm::{zadd, zdiv, zlshift, zmod, zmul, zops_to_vmops, zrshift, zsub, VmError, ZPAQLVM};

fn a() -> Loc {
    Loc::Reg(Reg::A)
}

fn b() -> Loc {
    Loc::Reg(Reg::OtherReg(OtherReg::B))
}

fn c() -> Loc {
    Loc::Reg(Reg::OtherReg(OtherReg::C))
}

fn d() -> Loc {
    Loc::Reg(Reg::OtherReg(OtherReg::D))
}

fn set(target: Loc, n: u8) -> ZPAQLOp {
    ZPAQLOp::SetN { target, n }
}

fn cfg(hcomp: Vec<ZPAQLOp>) -> ZPAQCfgFile {
    ZPAQCfgFile {
        hh: 2,
        hm: 2,
        ph: 0,
        pm: 0,
        n: 1,
        model: vec![],
        pcomp_invocation: String::new(),
        stacksize: 0,
        hcomp,
        pcomp: vec![ZPAQLOp::Halt],
        finalised: true,
    }
}

fn machine(code: Vec<ZPAQLOp>) -> ZPAQLVM {
    let (hvm, _) = ZPAQLVM::new(&cfg(code)).unwrap();
    hvm
}

fn run(code: Vec<ZPAQLOp>, input: u32) -> ZPAQLVM {
    let mut vm = machine(code);
    vm.run(input, 1000).unwrap();
    vm
}

#[test]
fn arithmetic_is_modulo_two_to_32() {
    assert_eq!(zadd(1, 2), 3);
    assert_eq!(zadd(u32::MAX, 1), 0);
    assert_eq!(zadd(u32::MAX, u32::MAX), u32::MAX - 1);
    assert_eq!(zsub(5, 3), 2);
    assert_eq!(zsub(0, 1), u32::MAX);
    assert_eq!(zsub(3, 5), u32::MAX - 1);
    assert_eq!(zmul(6, 7), 42);
    assert_eq!(zmul(1 << 16, 1 << 16), 0);
    assert_eq!(zmul(u32::MAX, 2), u32::MAX - 1);
}

#[test]
fn division_by_zero_gives_zero() {
    assert_eq!(zdiv(7, 2), 3);
    assert_eq!(zdiv(7, 0), 0);
    assert_eq!(zdiv(0, 0), 0);
    assert_eq!(zmod(7, 4), 3);
    assert_eq!(zmod(7, 0), 0);
}

#[test]
fn shifts_take_their_count_modulo_32() {
    assert_eq!(zlshift(1, 4), 16);
    assert_eq!(zlshift(1, 32), 1);
    assert_eq!(zlshift(1, 33), 2);
    assert_eq!(zlshift(u32::MAX, 31), 1 << 31);
    assert_eq!(zrshift(16, 4), 1);
    assert_eq!(zrshift(8, 35), 1);
    assert_eq!(zrshift(u32::MAX, 31), 1);
}

#[test]
fn a_fresh_machine_is_empty() {
    let (hvm, pvm) = ZPAQLVM::new(&cfg(vec![ZPAQLOp::Halt])).unwrap();
    assert_eq!(hvm.h, vec![0; 4]);
    assert_eq!(hvm.m, vec![0; 4]);
    assert_eq!(pvm.h, vec![0; 1]);
    assert_eq!(pvm.m, vec![0; 1]);
    assert_eq!(hvm.r, vec![0; 256]);
    assert_eq!((hvm.a, hvm.b, hvm.c, hvm.d, hvm.f, hvm.pc), (0, 0, 0, 0, false, 0));
    assert!(hvm.outbuf.is_empty());
    assert_eq!(hvm.code, vec![Some(ZPAQLOp::Halt)]);
}

#[test]
fn arrays_of_two_to_32_cells_are_refused() {
    let mut big = cfg(vec![ZPAQLOp::Halt]);
    big.hh = 32;
    assert!(matches!(ZPAQLVM::new(&big), Err(VmError::TooLarge)));
    let mut big = cfg(vec![ZPAQLOp::Halt]);
    big.pm = 40;
    assert!(matches!(ZPAQLVM::new(&big), Err(VmError::TooLarge)));
}

#[test]
fn code_is_laid_out_byte_by_byte() {
    let code = vec![
        ZPAQLOp::Comment { comment: "start".to_string() },
        ZPAQLOp::Label { label: "l".to_string(), position: 0 },
        set(a(), 1),
        ZPAQLOp::LJ { n: 0 },
        ZPAQLOp::Halt,
    ];
    assert_eq!(
        zops_to_vmops(&code),
        vec![Some(set(a(), 1)), None, Some(ZPAQLOp::LJ { n: 0 }), None, None, Some(ZPAQLOp::Halt)]
    );
    assert!(zops_to_vmops(&[]).is_empty());
}

#[test]
fn the_input_goes_to_a_and_the_run_ends_at_halt() {
    let vm = run(vec![ZPAQLOp::AaddN { n: 1 }, ZPAQLOp::Halt, ZPAQLOp::AaddN { n: 1 }], 41);
    assert_eq!(vm.a, 42);
    assert_eq!(vm.pc, 2);
}

#[test]
fn arithmetic_with_constants() {
    let vm = run(
        vec![
            set(a(), 5),
            ZPAQLOp::AaddN { n: 3 },
            ZPAQLOp::AmultN { n: 4 },
            ZPAQLOp::AsubN { n: 2 },
            ZPAQLOp::AdivN { n: 3 },
            ZPAQLOp::AmodN { n: 7 },
            ZPAQLOp::Halt,
        ],
        0,
    );
    assert_eq!(vm.a, 3);
    let vm = run(vec![ZPAQLOp::AsubN { n: 1 }, ZPAQLOp::Halt], 0);
    assert_eq!(vm.a, u32::MAX);
    let vm = run(vec![ZPAQLOp::AdivN { n: 0 }, ZPAQLOp::Halt], 9);
    assert_eq!(vm.a, 0);
    let vm = run(vec![ZPAQLOp::AmodN { n: 0 }, ZPAQLOp::Halt], 9);
    assert_eq!(vm.a, 0);
    let vm = run(vec![ZPAQLOp::AlshiftN { n: 33 }, ZPAQLOp::Halt], 3);
    assert_eq!(vm.a, 6);
    let vm = run(vec![ZPAQLOp::ArshiftN { n: 1 }, ZPAQLOp::Halt], 7);
    assert_eq!(vm.a, 3);
    let vm = run(vec![ZPAQLOp::AandN { n: 6 }, ZPAQLOp::AorN { n: 8 }, ZPAQLOp::AxorN { n: 1 }, ZPAQLOp::Halt], 7);
    assert_eq!(vm.a, 15);
    let vm = run(vec![ZPAQLOp::AandnotN { n: 5 }, ZPAQLOp::Halt], 7);
    assert_eq!(vm.a, 2);
}

#[test]
fn arithmetic_with_registers() {
    let vm = run(
        vec![
            set(b(), 10),
            ZPAQLOp::Aadd(b()),
            ZPAQLOp::Amult(b()),
            ZPAQLOp::Asub(b()),
            ZPAQLOp::Adiv(b()),
            ZPAQLOp::Amod(b()),
            ZPAQLOp::Halt,
        ],
        5,
    );
    assert_eq!(vm.a, ((5 + 10) * 10 - 10) / 10 % 10);
    let vm = run(vec![set(c(), 2), ZPAQLOp::Alshift(c()), ZPAQLOp::Aor(c()), ZPAQLOp::Halt], 1);
    assert_eq!(vm.a, 6);
    let vm = run(vec![ZPAQLOp::Not(a()), ZPAQLOp::Halt], 0xFFFF_FF00);
    assert_eq!(vm.a, 0xFF);
}

#[test]
fn pointers_wrap_at_the_size_of_their_array() {
    let vm = run(
        vec![
            set(b(), 6),
            set(Loc::MB, 200),
            set(c(), 3),
            ZPAQLOp::Mov { target: Loc::MC, source: a() },
            set(d(), 5),
            ZPAQLOp::Mov { target: Loc::HD, source: a() },
            ZPAQLOp::Halt,
        ],
        0x1234,
    );
    assert_eq!(vm.m, vec![0, 0, 200, 0x34]);
    assert_eq!(vm.h, vec![0, 0x1234, 0, 0]);
    assert_eq!(vm.get_value(&Loc::MB), 200);
    assert_eq!(vm.get_value(&Loc::MC), 0x34);
    assert_eq!(vm.get_value(&Loc::HD), 0x1234);
    assert_eq!(vm.get_value(&b()), 6);
}

#[test]
fn a_byte_of_m_counts_modulo_256() {
    let vm = run(vec![set(Loc::MB, 255), ZPAQLOp::Inc(Loc::MB), ZPAQLOp::Halt], 0);
    assert_eq!(vm.m[0], 0);
    let vm = run(vec![ZPAQLOp::Dec(Loc::MB), ZPAQLOp::Halt], 0);
    assert_eq!(vm.m[0], 255);
    let vm = run(vec![ZPAQLOp::Dec(Loc::HD), ZPAQLOp::Halt], 0);
    assert_eq!(vm.h[0], u32::MAX);
    let vm = run(vec![ZPAQLOp::Inc(a()), ZPAQLOp::Zero(b()), ZPAQLOp::Halt], u32::MAX);
    assert_eq!((vm.a, vm.b), (0, 0));
}

#[test]
fn values_are_set_and_read_by_place() {
    let mut vm = machine(vec![ZPAQLOp::Halt]);
    vm.set_value(&d(), 7);
    vm.set_value(&Loc::HD, 99);
    vm.set_value(&b(), 1);
    vm.set_value(&Loc::MB, 0x1FF);
    assert_eq!(vm.h[3], 99);
    assert_eq!(vm.m[1], 0xFF);
    assert_eq!(vm.get_value(&d()), 7);
    assert_eq!(vm.get_value(&Loc::HD), 99);
    assert_eq!(vm.get_value(&Loc::MB), 0xFF);
}

#[test]
fn the_slots_of_r_are_written_and_read() {
    let vm = run(vec![ZPAQLOp::RsetA { n: 7 }, ZPAQLOp::Zero(a()), ZPAQLOp::SetR { target: Reg::OtherReg(OtherReg::B), r: 7 }, ZPAQLOp::Halt], 55);
    assert_eq!(vm.r[7], 55);
    assert_eq!(vm.b, 55);
    assert_eq!(vm.a, 0);
}

#[test]
fn swaps() {
    let vm = run(vec![set(b(), 9), ZPAQLOp::SwapA(SwapLoc::OtherReg(OtherReg::B)), ZPAQLOp::Halt], 3);
    assert_eq!((vm.a, vm.b), (9, 3));
    let vm = run(vec![set(Loc::MB, 9), ZPAQLOp::SwapA(SwapLoc::MB), ZPAQLOp::Halt], 0x103);
    assert_eq!(vm.m[0], 3);
    assert_eq!(vm.a, 0x109);
}

#[test]
fn comparisons_set_the_flag_and_jumps_read_it() {
    let vm = run(vec![ZPAQLOp::AeqN { n: 0 }, ZPAQLOp::JT { n: 2 }, set(a(), 9), ZPAQLOp::Halt], 0);
    assert_eq!(vm.a, 0);
    assert!(vm.f);
    let vm = run(vec![ZPAQLOp::AeqN { n: 0 }, ZPAQLOp::JT { n: 2 }, set(a(), 9), ZPAQLOp::Halt], 1);
    assert_eq!(vm.a, 9);
    assert!(!vm.f);
    let vm = run(vec![ZPAQLOp::AltN { n: 5 }, ZPAQLOp::JF { n: 2 }, set(a(), 9), ZPAQLOp::Halt], 7);
    assert_eq!(vm.a, 7);
    let vm = run(vec![ZPAQLOp::AgtN { n: 5 }, ZPAQLOp::JF { n: 2 }, set(a(), 9), ZPAQLOp::Halt], 7);
    assert_eq!(vm.a, 9);
    let vm = run(vec![set(b(), 7), ZPAQLOp::Aeq(b()), ZPAQLOp::Halt], 7);
    assert!(vm.f);
    let vm = run(vec![set(b(), 7), ZPAQLOp::Alt(b()), ZPAQLOp::Halt], 7);
    assert!(!vm.f);
    let vm = run(vec![set(b(), 7), ZPAQLOp::Agt(b()), ZPAQLOp::Halt], 8);
    assert!(vm.f);
}

#[test]
fn a_loop_counts_down() {
    let vm = run(
        vec![set(a(), 3), ZPAQLOp::Dec(a()), ZPAQLOp::Inc(b()), ZPAQLOp::AgtN { n: 0 }, ZPAQLOp::JT { n: -6 }, ZPAQLOp::Halt],
        0,
    );
    assert_eq!(vm.a, 0);
    assert_eq!(vm.b, 3);
}

#[test]
fn jumps() {
    let vm = run(vec![ZPAQLOp::JMP { n: 1 }, ZPAQLOp::Error, ZPAQLOp::Halt], 0);
    assert_eq!(vm.pc, 3);
    let vm = run(vec![ZPAQLOp::LJ { n: 4 }, ZPAQLOp::Error, ZPAQLOp::Halt], 0);
    assert_eq!(vm.pc, 4);
}

#[test]
fn output_is_the_low_byte_of_a() {
    let mut vm = machine(vec![ZPAQLOp::Out, ZPAQLOp::Inc(a()), ZPAQLOp::Out, ZPAQLOp::Halt]);
    vm.run(0x141, 100).unwrap();
    vm.run(0x30, 100).unwrap();
    assert_eq!(vm.outbuf, vec![0x41, 0x42, 0x30, 0x31]);
}

#[test]
fn hashes() {
    let vm = run(vec![set(Loc::MB, 2), ZPAQLOp::Hash, ZPAQLOp::Halt], 1);
    assert_eq!(vm.a, (1 + 2 + 512) * 773);
    let vm = run(vec![set(Loc::HD, 2), ZPAQLOp::HashD, ZPAQLOp::Halt], 1);
    assert_eq!(vm.h[0], (1 + 2 + 512) * 773);
    let vm = run(vec![ZPAQLOp::Hash, ZPAQLOp::Halt], u32::MAX);
    assert_eq!(vm.a, 511u32.wrapping_mul(773));
}

#[test]
fn one_instruction_at_a_time() {
    let mut vm = machine(vec![set(a(), 5), ZPAQLOp::Inc(a()), ZPAQLOp::Halt]);
    assert_eq!(vm.step(), Ok(()));
    assert_eq!((vm.a, vm.pc), (5, 2));
    assert_eq!(vm.step(), Ok(()));
    assert_eq!((vm.a, vm.pc), (6, 3));
    assert_eq!(vm.step(), Err(VmError::HaltExecuted));
    assert_eq!((vm.a, vm.pc), (6, 3));
}

#[test]
fn the_error_instruction_ends_the_run() {
    let mut vm = machine(vec![ZPAQLOp::Inc(a()), ZPAQLOp::Error, ZPAQLOp::Halt]);
    assert_eq!(vm.run(0, 100), Err(VmError::ErrorInstruction));
}

#[test]
fn a_run_without_halt_runs_out_of_steps() {
    let mut vm = machine(vec![ZPAQLOp::JMP { n: -2 }]);
    assert_eq!(vm.run(0, 10), Err(VmError::OutOfSteps));
    let mut vm = machine(vec![ZPAQLOp::Inc(a()), ZPAQLOp::Inc(a()), ZPAQLOp::Halt]);
    assert_eq!(vm.run(0, 1), Err(VmError::OutOfSteps));
    assert_eq!(vm.run(0, 2), Ok(()));
    let mut vm = machine(vec![ZPAQLOp::Halt]);
    assert_eq!(vm.run(0, 0), Ok(()));
}

#[test]
fn a_program_counter_outside_an_instruction_is_refused() {
    let mut vm = machine(vec![ZPAQLOp::LJ { n: 1 }, ZPAQLOp::Halt]);
    assert_eq!(vm.run(0, 100), Err(VmError::InvalidPc));
    let mut vm = machine(vec![ZPAQLOp::LJ { n: 100 }, ZPAQLOp::Halt]);
    assert_eq!(vm.run(0, 100), Err(VmError::InvalidPc));
    let mut vm = machine(vec![ZPAQLOp::Inc(a())]);
    assert_eq!(vm.run(0, 100), Err(VmError::InvalidPc));
    let mut vm = machine(vec![]);
    assert_eq!(vm.run(0, 100), Err(VmError::InvalidPc));
}

#[test]
fn pseudo_instructions_cannot_be_executed() {
    let mut vm = machine(vec![ZPAQLOp::GoTo { label: "x".to_string() }, ZPAQLOp::Halt]);
    assert_eq!(vm.run(0, 100), Err(VmError::NotExecutable));
}

#[test]
fn a_machine_without_cells_is_refused() {
    let mut vm = machine(vec![ZPAQLOp::Halt]);
    vm.h.clear();
    assert_eq!(vm.run(0, 100), Err(VmError::BadMachine));
    let mut vm = machine(vec![ZPAQLOp::Halt]);
    vm.r.pop();
    assert_eq!(vm.run(0, 100), Err(VmError::BadMachine));
}

#[test]
fn the_same_bytes_give_the_same_states() {
    let code = || {
        vec![
            ZPAQLOp::Aadd(Loc::HD),
            ZPAQLOp::HashD,
            ZPAQLOp::Inc(d()),
            ZPAQLOp::Mov { target: Loc::HD, source: a() },
            ZPAQLOp::Out,
            ZPAQLOp::Halt,
        ]
    };
    let input = [3u32, 1, 4, 1, 5, 9, 2, 6, 5, 3, 5];
    let mut first = machine(code());
    let mut second = machine(code());
    let mut snapshots = Vec::new();
    for byte in input {
        first.run(byte, 100).unwrap();
        snapshots.push(first.h.clone());
    }
    for (i, byte) in input.iter().enumerate() {
        second.run(*byte, 100).unwrap();
        assert_eq!(second.h, snapshots[i]);
    }
    assert_eq!(first.outbuf, second.outbuf);
    assert_eq!(first.h, second.h);
    assert_ne!(snapshots[0], snapshots[1]);
}
