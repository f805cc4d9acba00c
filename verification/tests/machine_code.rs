use zpaqlpy::error::{CompileError, ErrorKind};
use zpaqlpy::options::Options;
use zpaqlpy::post_zpaql::replace_array_assignment;
use zpaqlpy::zpaql::{set_positions, Loc, OtherReg, Reg, SwapLoc, ZPAQLOp};

fn a() -> Loc {
    Loc::Reg(Reg::A)
}

fn c() -> Loc {
    Loc::Reg(Reg::OtherReg(OtherReg::C))
}

fn label(name: &str) -> ZPAQLOp {
    ZPAQLOp::Label { label: name.to_string(), position: 0 }
}

fn goto(name: &str) -> ZPAQLOp {
    ZPAQLOp::GoTo { label: name.to_string() }
}

fn bytes(code: &[ZPAQLOp]) -> u32 {
    code.iter().map(|op| op.size() as u32).sum()
}

#[test]
fn places_are_written_as_in_a_configuration() {
    assert_eq!(Loc::MB.to_string(), "*b");
    assert_eq!(Loc::MC.to_string(), "*c");
    assert_eq!(Loc::HD.to_string(), "*d");
    assert_eq!(a().to_string(), "a");
    assert_eq!(Loc::Reg(Reg::OtherReg(OtherReg::B)).to_string(), "b");
    assert_eq!(c().to_string(), "c");
    assert_eq!(Reg::OtherReg(OtherReg::D).to_string(), "d");
    assert_eq!(SwapLoc::HD.to_string(), "*d");
    assert_eq!(SwapLoc::OtherReg(OtherReg::B).to_string(), "b");
}

#[test]
fn instructions_are_written_as_in_a_configuration() {
    assert_eq!(ZPAQLOp::Error.to_string(), "error");
    assert_eq!(ZPAQLOp::Halt.to_string(), "halt");
    assert_eq!(ZPAQLOp::Out.to_string(), "out");
    assert_eq!(ZPAQLOp::Hash.to_string(), "hash");
    assert_eq!(ZPAQLOp::HashD.to_string(), "hashd");
    assert_eq!(ZPAQLOp::Inc(a()).to_string(), "a++");
    assert_eq!(ZPAQLOp::Dec(Loc::MB).to_string(), "*b--");
    assert_eq!(ZPAQLOp::Not(c()).to_string(), "c!");
    assert_eq!(ZPAQLOp::Zero(Loc::HD).to_string(), "*d=0");
    assert_eq!(ZPAQLOp::Mov { target: c(), source: a() }.to_string(), "c=a");
    assert_eq!(ZPAQLOp::SwapA(SwapLoc::MC).to_string(), "*c<>a");
    assert_eq!(ZPAQLOp::SetN { target: Loc::MC, n: 200 }.to_string(), "*c= 200");
    assert_eq!(ZPAQLOp::SetR { target: Reg::A, r: 7 }.to_string(), "a=r 7");
    assert_eq!(ZPAQLOp::Aadd(Loc::HD).to_string(), "a+=*d");
    assert_eq!(ZPAQLOp::Asub(c()).to_string(), "a-=c");
    assert_eq!(ZPAQLOp::Amult(c()).to_string(), "a*=c");
    assert_eq!(ZPAQLOp::Adiv(c()).to_string(), "a/=c");
    assert_eq!(ZPAQLOp::Amod(c()).to_string(), "a%=c");
    assert_eq!(ZPAQLOp::Aand(c()).to_string(), "a&=c");
    assert_eq!(ZPAQLOp::Aandnot(c()).to_string(), "a&~c");
    assert_eq!(ZPAQLOp::Aor(c()).to_string(), "a|=c");
    assert_eq!(ZPAQLOp::Axor(c()).to_string(), "a^=c");
    assert_eq!(ZPAQLOp::Alshift(c()).to_string(), "a<<=c");
    assert_eq!(ZPAQLOp::Arshift(c()).to_string(), "a>>=c");
    assert_eq!(ZPAQLOp::Aeq(c()).to_string(), "a==c");
    assert_eq!(ZPAQLOp::Alt(c()).to_string(), "a<c");
    assert_eq!(ZPAQLOp::Agt(c()).to_string(), "a>c");
    assert_eq!(ZPAQLOp::JT { n: -3 }.to_string(), "jt -3");
    assert_eq!(ZPAQLOp::JF { n: 127 }.to_string(), "jf 127");
    assert_eq!(ZPAQLOp::JMP { n: -128 }.to_string(), "jmp -128");
    assert_eq!(ZPAQLOp::RsetA { n: 255 }.to_string(), "r=a 255");
    assert_eq!(ZPAQLOp::AaddN { n: 1 }.to_string(), "a+= 1");
    assert_eq!(ZPAQLOp::AsubN { n: 2 }.to_string(), "a-= 2");
    assert_eq!(ZPAQLOp::AmultN { n: 3 }.to_string(), "a*= 3");
    assert_eq!(ZPAQLOp::AdivN { n: 4 }.to_string(), "a/= 4");
    assert_eq!(ZPAQLOp::AmodN { n: 5 }.to_string(), "a%= 5");
    assert_eq!(ZPAQLOp::AandN { n: 6 }.to_string(), "a&= 6");
    assert_eq!(ZPAQLOp::AandnotN { n: 7 }.to_string(), "a&~ 7");
    assert_eq!(ZPAQLOp::AorN { n: 8 }.to_string(), "a|= 8");
    assert_eq!(ZPAQLOp::AxorN { n: 9 }.to_string(), "a^= 9");
    assert_eq!(ZPAQLOp::AlshiftN { n: 10 }.to_string(), "a<<= 10");
    assert_eq!(ZPAQLOp::ArshiftN { n: 11 }.to_string(), "a>>= 11");
    assert_eq!(ZPAQLOp::AeqN { n: 12 }.to_string(), "a== 12");
    assert_eq!(ZPAQLOp::AltN { n: 13 }.to_string(), "a< 13");
    assert_eq!(ZPAQLOp::AgtN { n: 14 }.to_string(), "a> 14");
    assert_eq!(ZPAQLOp::LJ { n: 65535 }.to_string(), "lj 65535");
    assert_eq!(goto("there").to_string(), "goto there");
}

#[test]
fn instructions_take_one_two_three_or_no_bytes() {
    assert_eq!(ZPAQLOp::Halt.size(), 1);
    assert_eq!(ZPAQLOp::Inc(a()).size(), 1);
    assert_eq!(ZPAQLOp::Mov { target: c(), source: a() }.size(), 1);
    assert_eq!(ZPAQLOp::Aadd(Loc::HD).size(), 1);
    assert_eq!(ZPAQLOp::SetN { target: a(), n: 0 }.size(), 2);
    assert_eq!(ZPAQLOp::SetR { target: Reg::A, r: 0 }.size(), 2);
    assert_eq!(ZPAQLOp::AaddN { n: 1 }.size(), 2);
    assert_eq!(ZPAQLOp::JT { n: 1 }.size(), 2);
    assert_eq!(ZPAQLOp::JF { n: 1 }.size(), 2);
    assert_eq!(ZPAQLOp::JMP { n: 1 }.size(), 2);
    assert_eq!(ZPAQLOp::RsetA { n: 1 }.size(), 2);
    assert_eq!(ZPAQLOp::LJ { n: 1 }.size(), 3);
    assert_eq!(goto("x").size(), 3);
    assert_eq!(label("x").size(), 0);
    assert_eq!(ZPAQLOp::Comment { comment: "x".to_string() }.size(), 0);
}

#[test]
fn assembling_turns_jumps_to_labels_into_long_jumps() {
    let code = vec![
        goto("end"),
        label("start"),
        ZPAQLOp::Inc(a()),
        ZPAQLOp::AaddN { n: 3 },
        goto("start"),
        label("end"),
        ZPAQLOp::Halt,
    ];
    let done = set_positions(&code, &Options::new()).unwrap();
    assert_eq!(
        done,
        vec![
            ZPAQLOp::LJ { n: 9 },
            ZPAQLOp::Inc(a()),
            ZPAQLOp::AaddN { n: 3 },
            ZPAQLOp::LJ { n: 3 },
            ZPAQLOp::Halt,
        ]
    );
}

#[test]
fn assembling_keeps_the_number_of_bytes() {
    let code = vec![
        ZPAQLOp::Comment { comment: "a loop".to_string() },
        label("again"),
        ZPAQLOp::Dec(a()),
        ZPAQLOp::AgtN { n: 0 },
        ZPAQLOp::JF { n: 3 },
        goto("again"),
        ZPAQLOp::Halt,
    ];
    let done = set_positions(&code, &Options::new()).unwrap();
    assert_eq!(bytes(&code), 9);
    assert_eq!(bytes(&done), 9);
    assert!(bytes(&done) <= 65535);
}

#[test]
fn a_jump_to_a_label_that_is_missing_is_refused() {
    let code = vec![goto("nowhere"), ZPAQLOp::Halt];
    assert_eq!(set_positions(&code, &Options::new()), Err(CompileError::UnknownLabel));
    let mut lenient = Options::new();
    lenient.ignore_errors = true;
    assert_eq!(set_positions(&code, &lenient), Err(CompileError::UnknownLabel));
    assert_eq!(CompileError::UnknownLabel.kind(), ErrorKind::Semantic);
}

#[test]
fn code_of_more_than_65535_bytes_is_refused() {
    let mut code = vec![label("top")];
    for _ in 0..21846 {
        code.push(goto("top"));
    }
    assert_eq!(bytes(&code), 65538);
    assert_eq!(set_positions(&code, &Options::new()), Err(CompileError::CodeTooLong));
    let mut lenient = Options::new();
    lenient.ignore_errors = true;
    let done = set_positions(&code, &lenient).unwrap();
    assert_eq!(done.len(), 21846);
    assert_eq!(done[0], ZPAQLOp::LJ { n: 0 });
    code.pop();
    assert_eq!(bytes(&code), 65535);
    assert!(set_positions(&code, &Options::new()).is_ok());
}

fn window(k: u8) -> Vec<ZPAQLOp> {
    vec![
        ZPAQLOp::Inc(a()),
        ZPAQLOp::RsetA { n: 1 },
        ZPAQLOp::Mov { target: c(), source: a() },
        ZPAQLOp::SetN { target: Loc::MC, n: k },
    ]
}

#[test]
fn sixteen_stores_in_a_row_are_fused() {
    let mut code = Vec::new();
    for k in 0..16u8 {
        code.extend(window(k + 1));
    }
    assert_eq!(bytes(&code), 16 * 6);
    let fused = replace_array_assignment(code, &Options::new());
    let mut expected = Vec::new();
    for k in 0..16u8 {
        expected.push(ZPAQLOp::Inc(c()));
        expected.push(ZPAQLOp::SetN { target: Loc::MC, n: k + 1 });
    }
    expected.push(ZPAQLOp::Mov { target: a(), source: c() });
    expected.push(ZPAQLOp::RsetA { n: 1 });
    assert_eq!(fused, expected);
    assert_eq!(bytes(&fused), 16 * 3 + 3);
    let stores: u32 = fused.iter().filter(|op| matches!(op, ZPAQLOp::SetN { .. })).map(|op| op.size() as u32).sum();
    assert_eq!(stores, 16 * 2);
}

#[test]
fn stores_with_comments_between_are_fused_too() {
    let remark = |t: &str| ZPAQLOp::Comment { comment: t.to_string() };
    let mut code = vec![ZPAQLOp::Out];
    for k in 0..2u8 {
        code.push(remark("first"));
        code.push(remark("second"));
        code.push(ZPAQLOp::Inc(a()));
        code.push(ZPAQLOp::RsetA { n: 1 });
        code.push(remark("third"));
        code.push(ZPAQLOp::Mov { target: c(), source: a() });
        code.push(if k == 0 { ZPAQLOp::Zero(Loc::MC) } else { ZPAQLOp::SetN { target: Loc::MC, n: 9 } });
    }
    code.push(ZPAQLOp::Halt);
    let fused = replace_array_assignment(code, &Options::new());
    assert_eq!(
        fused,
        vec![
            ZPAQLOp::Out,
            remark("first"),
            ZPAQLOp::Inc(c()),
            ZPAQLOp::Zero(Loc::MC),
            remark("first"),
            ZPAQLOp::Inc(c()),
            ZPAQLOp::SetN { target: Loc::MC, n: 9 },
            ZPAQLOp::Mov { target: a(), source: c() },
            ZPAQLOp::RsetA { n: 1 },
            ZPAQLOp::Halt,
        ]
    );
}

#[test]
fn the_pass_over_stores_can_be_switched_off() {
    let mut o = Options::new();
    o.no_post_zpaql = true;
    assert_eq!(replace_array_assignment(window(3), &o), window(3));
    assert_eq!(
        replace_array_assignment(window(3), &Options::new()),
        vec![
            ZPAQLOp::Inc(c()),
            ZPAQLOp::SetN { target: Loc::MC, n: 3 },
            ZPAQLOp::Mov { target: a(), source: c() },
            ZPAQLOp::RsetA { n: 1 },
        ]
    );
}

#[test]
fn other_code_is_left_as_it_is() {
    let code = || {
        vec![
            ZPAQLOp::Inc(a()),
            ZPAQLOp::RsetA { n: 2 },
            ZPAQLOp::Mov { target: c(), source: a() },
            ZPAQLOp::SetN { target: Loc::MC, n: 3 },
            ZPAQLOp::Inc(a()),
            ZPAQLOp::RsetA { n: 1 },
            ZPAQLOp::Mov { target: c(), source: a() },
            ZPAQLOp::SetN { target: Loc::MB, n: 3 },
        ]
    };
    assert_eq!(replace_array_assignment(code(), &Options::new()), code());
    assert_eq!(replace_array_assignment(Vec::new(), &Options::new()), Vec::new());
}
