use brainfuck_rs::{BrainfuckError, VirtualMachine};

#[test]
fn fresh_run_reports_no_program() {
    let mut vm = VirtualMachine::new();
    assert!(matches!(vm.run(), Err(BrainfuckError::NoProgramLoaded)));
}

#[test]
fn empty_load_reports_no_program() {
    let mut vm = VirtualMachine::new();
    assert!(vm.load(Vec::new()).is_ok());
    assert!(matches!(vm.run(), Err(BrainfuckError::NoProgramLoaded)));
}

#[test]
fn sole_left_underflows() {
    let mut vm = VirtualMachine::new();
    vm.load(b"<".to_vec()).unwrap();
    assert!(matches!(vm.run(), Err(BrainfuckError::MemoryUnderflow)));
}

#[test]
fn full_right_sweep_overflows_at_last_step() {
    let mut vm = VirtualMachine::new();
    vm.load(vec![b'>'; 65536]).unwrap();
    assert!(matches!(vm.run(), Err(BrainfuckError::MemoryOverflow)));
}

#[test]
fn right_sweep_to_last_cell_succeeds() {
    let mut vm = VirtualMachine::new();
    vm.load(vec![b'>'; 65535]).unwrap();
    assert_eq!(vm.run().unwrap(), Vec::<u8>::new());
}

#[test]
fn cell_wraparound_produces_zero() {
    let mut vm = VirtualMachine::new();
    let mut program = vec![b'+'; 256];
    program.push(b'.');
    vm.load(program).unwrap();
    assert_eq!(vm.run().unwrap(), vec![0u8]);
}

#[test]
fn decrement_wraps_to_255() {
    let mut vm = VirtualMachine::new();
    vm.load(b"-.".to_vec()).unwrap();
    assert_eq!(vm.run().unwrap(), vec![255u8]);
}

#[test]
fn classic_loop_doubles() {
    let mut vm = VirtualMachine::new();
    vm.load(b"++[>++<-]>.".to_vec()).unwrap();
    assert_eq!(vm.run().unwrap(), vec![4u8]);
}

#[test]
fn nested_loops_multiply() {
    let mut vm = VirtualMachine::new();
    vm.load(b"++[>++[>++<-]<-]>>.".to_vec()).unwrap();
    assert_eq!(vm.run().unwrap(), vec![8u8]);
}

#[test]
fn unmatched_open_fails() {
    let mut vm = VirtualMachine::new();
    vm.load(b"[".to_vec()).unwrap();
    assert!(matches!(vm.run(), Err(BrainfuckError::UnmatchedJump)));
}

#[test]
fn unmatched_close_fails_when_cell_nonzero() {
    let mut vm = VirtualMachine::new();
    vm.load(b"+]".to_vec()).unwrap();
    assert!(matches!(vm.run(), Err(BrainfuckError::UnmatchedJump)));
}

#[test]
fn close_with_zero_cell_falls_through() {
    // With the current cell at 0 a `]` does not jump at all, so its match
    // is never looked for and the run ends successfully.
    let mut vm = VirtualMachine::new();
    vm.load(b"]".to_vec()).unwrap();
    assert_eq!(vm.run().unwrap(), Vec::<u8>::new());
}

#[test]
fn input_exhaustion_yields_zero() {
    let mut vm = VirtualMachine::new();
    vm.load(b",.".to_vec()).unwrap();
    assert_eq!(vm.run().unwrap(), vec![0u8]);
}

#[test]
fn echo_round_trip() {
    let mut vm = VirtualMachine::new();
    vm.load(b",.".to_vec()).unwrap();
    vm.input(&[0x41]);
    assert_eq!(vm.run().unwrap(), vec![0x41]);
}

#[test]
fn input_queue_is_consumed_in_order() {
    let mut vm = VirtualMachine::new();
    vm.load(b",.,.".to_vec()).unwrap();
    vm.input(&[1]);
    vm.input(&[2]);
    assert_eq!(vm.run().unwrap(), vec![1u8, 2u8]);
}

#[test]
fn bad_input_reports_the_character() {
    let mut vm = VirtualMachine::new();
    vm.load(b"x".to_vec()).unwrap();
    assert!(matches!(vm.run(), Err(BrainfuckError::BadInput('x'))));
}

#[test]
fn load_replaces_the_program_wholesale() {
    let mut vm = VirtualMachine::new();
    vm.load(b"<".to_vec()).unwrap();
    vm.load(b",.".to_vec()).unwrap();
    vm.input(&[0x41]);
    assert_eq!(vm.run().unwrap(), vec![0x41]);
}

#[test]
fn set_pointer_relocates_the_active_cell() {
    // From address 1 a single `<` is in bounds, where a fresh machine
    // would underflow.
    let mut vm = VirtualMachine::new();
    vm.set_pointer(1);
    vm.load(b"<.".to_vec()).unwrap();
    assert_eq!(vm.run().unwrap(), vec![0u8]);
}

#[test]
fn set_pointer_to_top_then_right_overflows() {
    let mut vm = VirtualMachine::new();
    vm.set_pointer(65535);
    vm.load(b">".to_vec()).unwrap();
    assert!(matches!(vm.run(), Err(BrainfuckError::MemoryOverflow)));
}

#[test]
fn counter_is_not_reset_by_load() {
    // A load resets neither the program counter nor the tape, so a second
    // run picks up at the counter the first run ended with.
    let mut vm = VirtualMachine::new();
    vm.load(b"+".to_vec()).unwrap();
    assert_eq!(vm.run().unwrap(), Vec::<u8>::new());
    vm.load(b"++.".to_vec()).unwrap();
    assert_eq!(vm.run().unwrap(), vec![2u8]);
}

#[test]
fn second_run_halts_immediately() {
    // Output is scoped to a single run: a rerun whose counter already
    // stands at the end of the program halts at once with no output.
    let mut vm = VirtualMachine::new();
    vm.load(b".".to_vec()).unwrap();
    assert_eq!(vm.run().unwrap(), vec![0u8]);
    assert_eq!(vm.run().unwrap(), Vec::<u8>::new());
}
