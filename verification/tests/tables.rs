use zpaqlpy::cache::Cache;
use zpaqlpy::error::{CompileError, ErrorKind};
use zpaqlpy::ir::IRVar;
use zpaqlpy::names::NameMap;
use zpaqlpy::options::Options;
use zpaqlpy::slots::SlotSet;
use zpaqlpy::symbols::{line_number, SymbolTable};
use zpaqlpy::zpaql::{Loc, OtherReg, Reg};

fn a() -> Loc {
    Loc::Reg(Reg::A)
}

fn b() -> Loc {
    Loc::Reg(Reg::OtherReg(OtherReg::B))
}

fn c() -> Loc {
    Loc::Reg(Reg::OtherReg(OtherReg::C))
}

fn d() -> Loc {
    Loc::Reg(Reg::OtherReg(OtherReg::D))
}

fn var(varid: u8) -> IRVar {
    IRVar::Var { varid }
}

fn cell(stack_offset: u32, local: bool, name: &str) -> IRVar {
    IRVar::Ht { stack_offset, local, orig_name: name.to_string() }
}

const PLACES: [fn() -> Loc; 4] = [a, b, c, d];

#[test]
fn a_new_cache_holds_nothing() {
    let ch = Cache::new();
    for place in PLACES {
        assert!(!ch.is_loc(&place(), &var(1)));
        assert!(!ch.is_loc(&place(), &IRVar::Number { value: 0 }));
    }
    assert!(!ch.is_loc(&Loc::MB, &IRVar::M { index_varid: 1 }));
}

#[test]
fn a_place_holds_what_was_noted_last() {
    let mut ch = Cache::new();
    ch.last_hold.insert(a(), var(3));
    assert!(ch.is_loc(&a(), &var(3)));
    assert!(!ch.is_loc(&a(), &var(4)));
    assert!(!ch.is_loc(&b(), &var(3)));
    ch.last_hold.insert(a(), IRVar::Number { value: 3 });
    assert!(!ch.is_loc(&a(), &var(3)));
    assert!(ch.is_loc(&a(), &IRVar::Number { value: 3 }));
}

#[test]
fn a_write_to_a_place_forgets_what_it_held() {
    let mut ch = Cache::new();
    ch.last_hold.insert(a(), var(3));
    ch.last_hold.insert(b(), var(3));
    ch.remove_reg(&a());
    assert!(!ch.is_loc(&a(), &var(3)));
    assert!(ch.is_loc(&b(), &var(3)));
}

#[test]
fn a_write_to_a_pointer_forgets_what_it_pointed_to() {
    let mut ch = Cache::new();
    ch.last_hold.insert(c(), var(5));
    ch.last_hold.insert(Loc::MC, IRVar::M { index_varid: 5 });
    ch.last_hold.insert(d(), var(6));
    ch.last_hold.insert(Loc::HD, IRVar::H { index_varid: 6, orig_name: "x".to_string() });
    ch.last_hold.insert(b(), var(7));
    ch.last_hold.insert(Loc::MB, IRVar::M { index_varid: 7 });
    ch.remove_reg(&c());
    assert!(!ch.is_loc(&c(), &var(5)));
    assert!(!ch.is_loc(&Loc::MC, &IRVar::M { index_varid: 5 }));
    assert!(ch.is_loc(&Loc::HD, &IRVar::H { index_varid: 6, orig_name: "x".to_string() }));
    ch.remove_reg(&d());
    assert!(!ch.is_loc(&d(), &var(6)));
    assert!(!ch.is_loc(&Loc::HD, &IRVar::H { index_varid: 6, orig_name: "x".to_string() }));
    ch.remove_reg(&Loc::MB);
    assert!(ch.is_loc(&b(), &var(7)));
    assert!(!ch.is_loc(&Loc::MB, &IRVar::M { index_varid: 7 }));
}

#[test]
fn cells_of_the_frame_are_the_same_whatever_their_name() {
    let mut ch = Cache::new();
    ch.last_hold.insert(Loc::HD, cell(2, true, "x"));
    assert!(ch.is_loc(&Loc::HD, &cell(2, true, "y")));
    assert!(!ch.is_loc(&Loc::HD, &cell(3, true, "x")));
    assert!(!ch.is_loc(&Loc::HD, &cell(2, false, "x")));
    ch.last_hold.insert(Loc::HD, IRVar::H { index_varid: 4, orig_name: "x".to_string() });
    assert!(ch.is_loc(&Loc::HD, &IRVar::H { index_varid: 4, orig_name: "other".to_string() }));
    assert!(!ch.is_loc(&Loc::HD, &IRVar::H { index_varid: 5, orig_name: "x".to_string() }));
}

#[test]
fn a_write_to_a_slot_forgets_what_is_found_through_it() {
    let mut ch = Cache::new();
    ch.last_hold.insert(a(), var(5));
    ch.last_hold.insert(Loc::MC, IRVar::M { index_varid: 5 });
    ch.last_hold.insert(Loc::HD, IRVar::H { index_varid: 5, orig_name: "x".to_string() });
    ch.last_hold.insert(Loc::MB, IRVar::M { index_varid: 6 });
    ch.delete_references(5);
    assert!(ch.is_loc(&a(), &var(5)));
    assert!(!ch.is_loc(&Loc::MC, &IRVar::M { index_varid: 5 }));
    assert!(!ch.is_loc(&Loc::HD, &IRVar::H { index_varid: 5, orig_name: "x".to_string() }));
    assert!(ch.is_loc(&Loc::MB, &IRVar::M { index_varid: 6 }));
}

#[test]
fn a_write_to_a_base_pointer_forgets_the_cells_of_its_frame() {
    let mut ch = Cache::new();
    ch.last_hold.insert(a(), cell(1, true, "x"));
    ch.last_hold.insert(b(), cell(1, false, "g"));
    ch.delete_references(0);
    assert!(!ch.is_loc(&a(), &cell(1, true, "x")));
    assert!(ch.is_loc(&b(), &cell(1, false, "g")));
    ch.delete_references(252);
    assert!(!ch.is_loc(&b(), &cell(1, false, "g")));
}

#[test]
fn a_write_to_a_variable_forgets_its_copies() {
    let mut ch = Cache::new();
    ch.last_hold.insert(a(), var(3));
    ch.last_hold.insert(b(), var(3));
    ch.last_hold.insert(c(), var(4));
    ch.delete(&var(3));
    assert!(!ch.is_loc(&a(), &var(3)));
    assert!(!ch.is_loc(&b(), &var(3)));
    assert!(ch.is_loc(&c(), &var(4)));
}

#[test]
fn the_copy_that_was_written_can_be_kept() {
    let mut ch = Cache::new();
    ch.last_hold.insert(a(), var(3));
    ch.last_hold.insert(b(), var(3));
    ch.delete_not(&var(3), &b());
    assert!(!ch.is_loc(&a(), &var(3)));
    assert!(ch.is_loc(&b(), &var(3)));
}

#[test]
fn slots_are_a_set() {
    let mut s = SlotSet::new();
    assert!(!s.contains(0));
    s.insert(7);
    s.insert(7);
    s.insert(255);
    assert!(s.contains(7) && s.contains(255) && !s.contains(8));
    s.remove(7);
    assert!(!s.contains(7));
    let mut t = SlotSet::new();
    t.insert(1);
    t.add_all(&s);
    assert!(t.contains(1) && t.contains(255));
    t.clear();
    assert!(!t.contains(1) && !t.contains(255));
}

#[test]
fn names_map_to_what_was_inserted_last() {
    let mut m: NameMap<u32> = NameMap::new();
    assert!(!m.contains_key("x"));
    assert_eq!(m.get("x"), None);
    m.insert("x".to_string(), 1);
    m.insert("y".to_string(), 2);
    m.insert("x".to_string(), 3);
    assert_eq!(m.get("x"), Some(&3));
    assert_eq!(m.get("y"), Some(&2));
    assert!(m.contains_key("y"));
    assert!(!m.contains_key(""));
}

#[test]
fn temporaries_take_the_lowest_free_slot_from_one() {
    let mut st = SymbolTable::new();
    assert_eq!(st.make_temp_var(), Ok(1));
    assert_eq!(st.make_temp_var(), Ok(2));
    assert_eq!(st.make_temp_var(), Ok(3));
    assert_eq!(st.live_ids, vec![1, 2, 3]);
    st.try_removing_varid(2);
    assert_eq!(st.live_ids, vec![1, 3]);
    assert_eq!(st.make_temp_var(), Ok(2));
    assert_eq!(st.make_temp_var(), Ok(4));
    st.try_removing_varid(9);
    assert_eq!(st.live_ids.len(), 4);
}

#[test]
fn a_temporary_that_is_given_out_is_in_use_and_was_not_before() {
    let mut st = SymbolTable::new();
    for _ in 0..40 {
        let before = st.live_ids.clone();
        let v = st.make_temp_var().unwrap();
        assert!(!before.contains(&v));
        assert!(st.live_ids.contains(&v));
        assert!((1..=251).contains(&v));
        if v % 3 == 0 {
            st.try_removing_varid(v - 1);
            assert!(!st.live_ids.contains(&(v - 1)));
        }
    }
}

#[test]
fn there_are_251_temporaries() {
    let mut st = SymbolTable::new();
    for expected in 1..=251u8 {
        assert_eq!(st.make_temp_var(), Ok(expected));
    }
    assert_eq!(st.make_temp_var(), Err(CompileError::OutOfTemporaries));
    assert_eq!(CompileError::OutOfTemporaries.kind(), ErrorKind::Semantic);
    st.try_removing_varid(100);
    assert_eq!(st.make_temp_var(), Ok(100));
}

#[test]
fn the_slot_of_an_operand_is_freed() {
    let mut st = SymbolTable::new();
    for _ in 0..4 {
        st.make_temp_var().unwrap();
    }
    st.try_freeing_varid(&var(1));
    st.try_freeing_varid(&IRVar::M { index_varid: 2 });
    st.try_freeing_varid(&IRVar::VH(Box::new(IRVar::H { index_varid: 3, orig_name: "x".to_string() })));
    st.try_freeing_varid(&IRVar::Number { value: 4 });
    st.try_freeing_varid(&cell(4, true, "x"));
    assert_eq!(st.live_ids, vec![4]);
}

#[test]
fn labels_return_ids_and_cells_are_counted() {
    let mut st = SymbolTable::new();
    assert_eq!(st.get_new_label("while"), Ok("while_1".to_string()));
    assert_eq!(st.get_new_label("else"), Ok("else_2".to_string()));
    assert_eq!(st.make_new_return_id(), Ok(0));
    assert_eq!(st.make_new_return_id(), Ok(1));
    assert_eq!(st.make_stack_var(), Ok(1));
    assert_eq!(st.make_stack_var(), Ok(2));
    st.label_id = u32::MAX;
    st.return_id = u32::MAX;
    st.stack_pos = u32::MAX;
    assert_eq!(st.get_new_label("x"), Err(CompileError::LimitExceeded));
    assert_eq!(st.make_new_return_id(), Err(CompileError::LimitExceeded));
    assert_eq!(st.make_stack_var(), Err(CompileError::LimitExceeded));
}

#[test]
fn a_scope_is_entered_and_left() {
    let mut st = SymbolTable::new();
    st.symbols.insert("g".to_string(), cell(1, true, "g"));
    st.make_stack_var().unwrap();
    st.make_temp_var().unwrap();
    st.push();
    assert!(!st.symbols.contains_key("g"));
    assert_eq!(st.stack_pos, 0);
    assert!(st.live_ids.is_empty());
    st.symbols.insert("l".to_string(), cell(1, true, "l"));
    st.make_temp_var().unwrap();
    st.make_temp_var().unwrap();
    st.get_new_label("l").unwrap();
    st.make_new_return_id().unwrap();
    assert!(st.in_scope());
    st.pop();
    assert!(!st.in_scope());
    assert_eq!(st.label_id, 1);
    assert_eq!(st.return_id, 1);
    assert!(st.previous.is_empty() && st.previous_ids.is_empty() && st.previous_stack_pos.is_empty());
    assert!(st.symbols.contains_key("g"));
    assert!(!st.symbols.contains_key("l"));
    assert_eq!(st.stack_pos, 1);
    assert_eq!(st.live_ids, vec![1]);
}

#[test]
fn names_are_looked_up_in_the_scope_and_in_the_header() {
    let o = Options::new();
    let mut st = SymbolTable::new();
    st.hh = 2;
    st.pm = 9;
    st.n = 3;
    st.symbols.insert("x".to_string(), cell(4, true, "x"));
    let (v, code) = st.get_value("x", &o).unwrap();
    assert_eq!(v, cell(4, true, "x"));
    assert!(code.is_empty());
    assert_eq!(st.get_value("hh", &o).unwrap().0, IRVar::Number { value: 2 });
    assert_eq!(st.get_value("hm", &o).unwrap().0, IRVar::Number { value: 0 });
    assert_eq!(st.get_value("pm", &o).unwrap().0, IRVar::Number { value: 9 });
    assert_eq!(st.get_value("n", &o).unwrap().0, IRVar::Number { value: 3 });
    assert_eq!(st.get_value("NONE", &o).unwrap().0, IRVar::Number { value: 4294967295 });
    assert_eq!(st.get_value("y", &o), Err(CompileError::UnknownVariable));
}

#[test]
fn a_line_of_the_source_is_given_once() {
    let mut st = SymbolTable::new();
    st.source = vec!["a = 1".to_string(), "b = 2".to_string()];
    assert_eq!(st.source_line("2,0-2,1".to_string()), Some("                    2: b = 2".to_string()));
    assert_eq!(st.source_line("2,4-2,5".to_string()), None);
    assert_eq!(st.source_line("1,0-1,1".to_string()), Some("                    1: a = 1".to_string()));
    assert_eq!(st.source_line("2,0-2,1".to_string()), Some("                    2: b = 2".to_string()));
    assert_eq!(st.source_line("3,0-3,1".to_string()), None);
    assert_eq!(st.source_line("0,0-0,1".to_string()), None);
    assert_eq!(st.source_line("nowhere".to_string()), None);
}

#[test]
fn the_line_is_the_number_before_the_first_comma() {
    assert_eq!(line_number("12,3-12,5"), Some(12));
    assert_eq!(line_number("1,0-2,0"), Some(1));
    assert_eq!(line_number("x,0"), None);
    assert_eq!(line_number(""), None);
}
