use jvm::jclass::method::ExceptionTableEntry;
use jvm::runtime::entry::{
    ClassEntry, FieldEntry, FieldEntryView, MethodEntry, MethodEntryView, NameAndTypeEntry,
    NameAndTypeEntryView, StringEntry, Utf8Entry,
};
use jvm::runtime::interpreter::{Executed, Flow, Frame, Interpreter};

fn entry(start_pc: u16, end_pc: u16, handler_pc: u16, catch_type: u16) -> ExceptionTableEntry {
    ExceptionTableEntry { start_pc, end_pc, handler_pc, catch_type }
}

#[test]
fn branch_targets() {
    assert_eq!(Interpreter::branch16(10, -4), 6);
    assert_eq!(Interpreter::branch16(10, 7), 17);
    assert_eq!(Interpreter::branch16(0, 0), 0);
    assert_eq!(Interpreter::branch32(100, -100), 0);
    assert_eq!(Interpreter::branch32(5, 70000), 70005);
}

#[test]
fn pc_ranges_are_half_open() {
    let e = entry(4, 8, 20, 0);
    assert!(!Interpreter::pc_in_range(3, &e));
    assert!(Interpreter::pc_in_range(4, &e));
    assert!(Interpreter::pc_in_range(7, &e));
    assert!(!Interpreter::pc_in_range(8, &e));
}

#[test]
fn method_args_come_off_the_stack_in_order() {
    let mut operands = vec![1, 2, 3, 4, 5];
    let args = Interpreter::prepare_method_args(&mut operands, 2, true);
    assert_eq!(args, Some(vec![4, 5]));
    assert_eq!(operands, vec![1, 2, 3]);

    let args = Interpreter::prepare_method_args(&mut operands, 2, false);
    assert_eq!(args, Some(vec![1, 2, 3]));
    assert!(operands.is_empty());

    let mut operands = vec![7];
    assert_eq!(Interpreter::prepare_method_args(&mut operands, 0, true), Some(vec![]));
    assert_eq!(operands, vec![7]);
}

#[test]
fn method_args_short_stack_empties_it() {
    let mut operands = vec![1, 2];
    assert_eq!(Interpreter::prepare_method_args(&mut operands, 2, false), None);
    assert!(operands.is_empty());
}

#[test]
fn catch_all_entry_catches_without_asking() {
    let asked = std::cell::Cell::new(false);
    let instance_of = |_c: u16| -> Result<bool, String> {
        asked.set(true);
        Ok(false)
    };
    assert_eq!(Interpreter::is_exception_caught(&entry(0, 5, 9, 0), &instance_of), Ok(true));
    assert!(!asked.get());
    assert_eq!(Interpreter::is_exception_caught(&entry(0, 5, 9, 3), &instance_of), Ok(false));
    assert!(asked.get());
}

#[test]
fn handler_search_takes_first_matching_entry() {
    let table = vec![entry(0, 4, 40, 7), entry(2, 10, 50, 8), entry(0, 10, 60, 0)];
    let instance_of = |c: u16| -> Result<bool, String> { Ok(c == 8) };
    assert_eq!(Interpreter::find_exception_handler(&table, 3, &instance_of), Ok(Some(50)));
    assert_eq!(Interpreter::find_exception_handler(&table, 1, &instance_of), Ok(Some(60)));
    assert_eq!(Interpreter::find_exception_handler(&table, 10, &instance_of), Ok(None));
    assert_eq!(Interpreter::find_exception_handler(&[], 0, &instance_of), Ok(None));
}

#[test]
fn handler_search_stops_on_error() {
    let table = vec![entry(0, 4, 40, 7), entry(0, 4, 60, 0)];
    let instance_of = |c: u16| -> Result<bool, String> { Err(format!("class #{} not loaded", c)) };
    assert_eq!(
        Interpreter::find_exception_handler(&table, 1, &instance_of),
        Err("class #7 not loaded".to_string())
    );
    assert_eq!(Interpreter::find_exception_handler(&table, 5, &instance_of), Ok(None));
}

#[test]
fn entries_start_unresolved() {
    let u = Utf8Entry::new("java/lang/Object".to_string());
    assert_eq!(u.value, "java/lang/Object");
    assert!(u.utf8_sym.get().is_none());
    let c = ClassEntry::new(3);
    assert_eq!(c.name_idx, 3);
    assert!(c.name_sym.get().is_none());
    let s = StringEntry::new(4);
    assert_eq!(s.string_idx, 4);
    assert!(s.string_sym.get().is_none());
    let m = MethodEntry::new(5, 6);
    assert_eq!((m.class_idx, m.nat_idx), (5, 6));
    let f = FieldEntry::new(7, 8);
    assert_eq!((f.class_idx, f.nat_idx), (7, 8));
    assert!(f.class_sym.get().is_none());
    let n = NameAndTypeEntry::new(9, 10);
    assert_eq!((n.name_idx, n.descriptor_idx), (9, 10));
    assert!(n.name_sym.get().is_none() && n.descriptor_sym.get().is_none());
}

#[test]
fn entry_views_hold_their_symbols() {
    let nat = NameAndTypeEntryView::new(11, 12);
    assert_eq!((nat.name_sym, nat.descriptor_sym), (11, 12));
    let mv = MethodEntryView::new(13, nat);
    assert_eq!(mv.class_sym, 13);
    assert_eq!(mv.name_and_type.name_sym, 11);
    let fv = FieldEntryView::new(14, nat);
    assert_eq!(fv.class_sym, 14);
    assert_eq!(fv.name_and_type.descriptor_sym, 12);
}

#[test]
fn caught_exception_is_pushed_and_pc_jumps() {
    let table = vec![entry(0, 4, 40, 7), entry(2, 10, 50, 8)];
    let instance_of = |c: u16| -> Result<bool, String> { Ok(c == 8) };
    let mut frame = Frame { pc: 3, operands: vec![1u32, 2] };
    assert_eq!(Interpreter::catch_exception(&mut frame, &table, 99, &instance_of), Ok(true));
    assert_eq!(frame.pc, 50);
    assert_eq!(frame.operands, vec![1, 2, 99]);

    let mut frame = Frame { pc: 12, operands: vec![5u32] };
    assert_eq!(Interpreter::catch_exception(&mut frame, &table, 99, &instance_of), Ok(false));
    assert_eq!(frame.pc, 12);
    assert_eq!(frame.operands, vec![5]);

    let failing = |_c: u16| -> Result<bool, String> { Err("no class".to_string()) };
    let mut frame = Frame { pc: 1, operands: vec![] };
    assert_eq!(
        Interpreter::catch_exception(&mut frame, &table, 99u32, &failing),
        Err("no class".to_string())
    );
    assert_eq!(frame.pc, 1);
    assert!(frame.operands.is_empty());
}

#[test]
fn instruction_step_advances_or_returns() {
    let mut frame = Frame { pc: 10, operands: vec![3i64] };
    let flow = Interpreter::finish_instruction(&mut frame, false, 3, Executed::Done);
    assert!(matches!(flow, Flow::Continue));
    assert_eq!(frame.pc, 13);

    let flow = Interpreter::finish_instruction(&mut frame, true, 3, Executed::Done);
    assert!(matches!(flow, Flow::Continue));
    assert_eq!(frame.pc, 13);

    let flow = Interpreter::finish_instruction(&mut frame, false, 1, Executed::Returned(Some(7)));
    assert!(matches!(flow, Flow::Return(Some(7))));
    assert_eq!(frame.pc, 13);
    assert_eq!(frame.operands, vec![3]);

    let flow = Interpreter::finish_instruction(&mut frame, false, 1, Executed::Returned(None));
    assert!(matches!(flow, Flow::Return(None)));
}
