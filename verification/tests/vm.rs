use lem::err::VmError;
use lem::machine::{Fault, Lem};
use lem::tag::{ADD, BND, DIV, EQ, GO, HLT, NOP, NOT, ORR, RAD, SUB, TAE, UND, WIE, XOR};

#[test]
fn empty_program_finishes_at_once() {
    let mut vm = Lem::new(vec![]);
    assert_eq!(vm.run(), Ok(()));
    assert_eq!(vm.pointer, 0);
    assert!(vm.outputs.is_empty());
}

#[test]
fn nop_program_runs_off_the_end() {
    let mut vm = Lem::new(vec![NOP, NOP, NOP]);
    assert_eq!(vm.run(), Ok(()));
    assert_eq!(vm.pointer, 3);
}

#[test]
fn arithmetic_composition_reads_fifty_two() {
    // bind; write(0,1,42); add(0,1,10); read(0,1) yields 52
    let mut vm = Lem::new(vec![BND, WIE, 0, 1, 42, ADD, 0, 1, 10, RAD, 0, 1, HLT]);
    assert_eq!(vm.run(), Ok(()));
    assert_eq!(vm.outputs, vec![52]);
}

#[test]
fn example_end_to_end_program() {
    let instrs = vec![
        BND, // create a block
        WIE, 0, 1, 42, // write 42 at index 1 of block 0
        RAD, 0, 1, // read index 1 of block 0
        ADD, 0, 1, 10, // add 10 to the value at index 1 of block 0
        RAD, 0, 1,   // read the updated value
        HLT,
    ];
    let mut vm = Lem::new(instrs);
    assert_eq!(vm.run(), Ok(()));
    // first read 42, second read 52, counter left at the halt tag
    assert_eq!(vm.outputs, vec![42, 52]);
    assert_eq!(vm.pointer, 15);
}

#[test]
fn instructions_after_halt_are_never_executed() {
    let prefix = vec![BND, WIE, 0, 0, 7, RAD, 0, 0, HLT];
    let mut plain = Lem::new(prefix.clone());
    assert_eq!(plain.run(), Ok(()));

    let mut extended = prefix.clone();
    // a write and a read that would change the outputs, then garbage
    extended.extend_from_slice(&[WIE, 0, 0, 9, RAD, 0, 0, 0x99]);
    let mut vm = Lem::new(extended);
    assert_eq!(vm.run(), Ok(()));
    assert_eq!(vm.outputs, plain.outputs);
    assert_eq!(vm.outputs, vec![7]);
    assert_eq!(vm.pointer, 8); // the halt tag's position
    assert_eq!(vm.read_string(0).is_some(), true); // block 0 still live, untouched
}

#[test]
fn out_of_bounds_write_faults_and_corrupts_nothing() {
    // a bound block has ten slots; index 10 is out of range
    let mut vm = Lem::new(vec![BND, WIE, 0, 2, 5, WIE, 0, 10, 9, RAD, 0, 2, HLT]);
    let r = vm.run();
    assert_eq!(r, Err(Fault { pc: 5, kind: VmError::OutOfBoundsIndex }));
    // the failing instruction is reported and the machine stopped there
    assert_eq!(vm.pointer, 5);
    // the earlier write is intact, nothing else was touched
    assert_eq!(vm.outputs, Vec::<u32>::new());
}

#[test]
fn out_of_bounds_arithmetic_faults() {
    let mut vm = Lem::new(vec![BND, ADD, 0, 200, 1, HLT]);
    assert_eq!(vm.run(), Err(Fault { pc: 1, kind: VmError::OutOfBoundsIndex }));
}

#[test]
fn missing_operands_are_a_malformed_program() {
    let mut vm = Lem::new(vec![BND, WIE, 0, 1]);
    assert_eq!(vm.run(), Err(Fault { pc: 1, kind: VmError::MalformedProgram }));
}

#[test]
fn truncated_unbind_is_a_malformed_program() {
    let mut vm = Lem::new(vec![UND]);
    assert_eq!(vm.run(), Err(Fault { pc: 0, kind: VmError::MalformedProgram }));
}

#[test]
fn unknown_opcode_is_reported_not_fatal() {
    let mut vm = Lem::new(vec![NOP, 0x99]);
    assert_eq!(vm.run(), Err(Fault { pc: 1, kind: VmError::UnknownOpcode }));
}

#[test]
fn reserved_control_tag_is_an_unknown_opcode() {
    let mut vm = Lem::new(vec![GO, 0]);
    assert_eq!(vm.run(), Err(Fault { pc: 0, kind: VmError::UnknownOpcode }));
}

#[test]
fn unknown_block_identifier_is_reported() {
    let mut vm = Lem::new(vec![WIE, 3, 0, 1]);
    assert_eq!(vm.run(), Err(Fault { pc: 0, kind: VmError::UnknownBlockIdentifier }));
}

#[test]
fn freed_block_is_unknown_afterwards() {
    let mut vm = Lem::new(vec![BND, UND, 0, RAD, 0, 0, HLT]);
    assert_eq!(vm.run(), Err(Fault { pc: 3, kind: VmError::UnknownBlockIdentifier }));
}

#[test]
fn take_frees_exactly_like_unbind() {
    let mut vm = Lem::new(vec![BND, TAE, 0, RAD, 0, 0, HLT]);
    assert_eq!(vm.run(), Err(Fault { pc: 3, kind: VmError::UnknownBlockIdentifier }));
}

#[test]
fn division_by_zero_is_reported() {
    let mut vm = Lem::new(vec![BND, WIE, 0, 0, 8, DIV, 0, 0, 0, HLT]);
    assert_eq!(vm.run(), Err(Fault { pc: 5, kind: VmError::DivisionByZero }));
}

#[test]
fn division_applies_when_the_divisor_is_nonzero() {
    let mut vm = Lem::new(vec![BND, WIE, 0, 0, 84, DIV, 0, 0, 2, RAD, 0, 0, HLT]);
    assert_eq!(vm.run(), Ok(()));
    assert_eq!(vm.outputs, vec![42]);
}

#[test]
fn subtraction_wraps_below_zero() {
    let mut vm = Lem::new(vec![BND, SUB, 0, 0, 1, RAD, 0, 0, HLT]);
    assert_eq!(vm.run(), Ok(()));
    assert_eq!(vm.outputs, vec![u32::MAX]);
}

#[test]
fn comparison_stores_one_or_zero() {
    let mut vm = Lem::new(vec![BND, WIE, 0, 0, 7, EQ, 0, 0, 7, RAD, 0, 0, HLT]);
    assert_eq!(vm.run(), Ok(()));
    assert_eq!(vm.outputs, vec![1]);

    let mut vm2 = Lem::new(vec![BND, WIE, 0, 0, 7, EQ, 0, 0, 8, RAD, 0, 0, HLT]);
    assert_eq!(vm2.run(), Ok(()));
    assert_eq!(vm2.outputs, vec![0]);
}

#[test]
fn bitwise_family_combines_slots() {
    let mut vm = Lem::new(vec![BND, WIE, 0, 0, 12, ORR, 0, 0, 3, XOR, 0, 0, 5, RAD, 0, 0, HLT]);
    assert_eq!(vm.run(), Ok(()));
    assert_eq!(vm.outputs, vec![(12u32 | 3) ^ 5]);
}

#[test]
fn not_inverts_a_slot_in_place() {
    let mut vm = Lem::new(vec![BND, NOT, 0, 0, RAD, 0, 0, HLT]);
    assert_eq!(vm.run(), Ok(()));
    assert_eq!(vm.outputs, vec![!0u32]);
}

#[test]
fn string_round_trip_through_a_block() {
    let mut vm = Lem::new(vec![BND, HLT]);
    assert_eq!(vm.run(), Ok(()));
    assert_eq!(vm.write_string(0, 0, "hello, machine"), Ok(()));
    assert_eq!(vm.read_string(0).as_deref(), Some("hello, machine"));
}

#[test]
fn write_string_to_unknown_block_is_reported() {
    let mut vm = Lem::new(vec![]);
    assert_eq!(vm.write_string(5, 0, "x"), Err(VmError::UnknownBlockIdentifier));
    assert_eq!(vm.read_string(5), None);
}

#[test]
fn array_round_trip_through_child_blocks() {
    let mut vm = Lem::new(vec![BND, HLT]);
    assert_eq!(vm.run(), Ok(()));
    let arrays = vec![vec![1, 2, 3], vec![], vec![9, 8]];
    assert_eq!(vm.write_array(0, arrays.clone()), Ok(()));
    assert_eq!(vm.read_array(0), arrays);
}

#[test]
fn read_array_of_unknown_block_is_empty() {
    let vm = Lem::new(vec![]);
    assert_eq!(vm.read_array(4), Vec::<Vec<u32>>::new());
}
