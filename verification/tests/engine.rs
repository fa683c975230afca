use rum::fault::Fault;
use rum::rumdis::{cycle, disassemble, run, Effect, Execution, Status};
use rum::state::UniversalMachine;

const CMOV: u32 = 0;
const SEG_LOAD: u32 = 1;
const SEG_STORE: u32 = 2;
const ADD: u32 = 3;
const MUL: u32 = 4;
const DIV: u32 = 5;
const NAND: u32 = 6;
const HALT: u32 = 7;
const MAP_SEG: u32 = 8;
const UNMAP_SEG: u32 = 9;
const OUTPUT: u32 = 10;
const INPUT: u32 = 11;
const LOAD_PROG: u32 = 12;

fn three(opcode: u32, a: u32, b: u32, c: u32) -> u32 {
    (opcode << 28) | (a << 6) | (b << 3) | c
}

fn load_value(a: u32, value: u32) -> u32 {
    (13 << 28) | (a << 25) | value
}

fn fresh_run(program: Vec<u32>, input: &[u8], limit: u64) -> (UniversalMachine, Execution) {
    let mut machine = UniversalMachine::new();
    let execution = run(&mut machine, program, input, limit);
    (machine, execution)
}

#[test]
fn halt_only_program_halts_without_output() {
    let (machine, execution) = fresh_run(vec![0x7000_0000], &[], 1_000);
    assert_eq!(execution.status, Status::Halted);
    assert!(execution.output.is_empty());
    assert_eq!(execution.consumed, 0);
    assert_eq!(machine.registers(), [0; 8]);
    assert_eq!(machine.program_counter(), 1);
}

#[test]
fn halt_needs_exactly_one_cycle() {
    let (_, execution) = fresh_run(vec![three(HALT, 0, 0, 0)], &[], 1);
    assert_eq!(execution.status, Status::Halted);
    let (machine, execution) = fresh_run(vec![three(HALT, 0, 0, 0)], &[], 0);
    assert_eq!(execution.status, Status::Running);
    assert_eq!(machine.program_counter(), 0);
}

#[test]
fn hello_program_emits_hello() {
    let mut program = Vec::new();
    for byte in [72u32, 101, 108, 108, 111] {
        program.push(load_value(1, byte));
        program.push(three(OUTPUT, 0, 0, 1));
    }
    program.push(three(HALT, 0, 0, 0));
    let (machine, execution) = fresh_run(program, &[], 1_000);
    assert_eq!(execution.status, Status::Halted);
    assert_eq!(execution.output, b"Hello".to_vec());
    assert_eq!(execution.consumed, 0);
    assert_eq!(machine.registers()[1], 111);
}

#[test]
fn nothing_executes_after_halt() {
    let program = vec![
        load_value(1, 65),
        three(OUTPUT, 0, 0, 1),
        three(HALT, 0, 0, 0),
        three(OUTPUT, 0, 0, 1),
        three(OUTPUT, 0, 0, 1),
    ];
    let (machine, execution) = fresh_run(program, &[], 1_000);
    assert_eq!(execution.status, Status::Halted);
    assert_eq!(execution.output, vec![65]);
    assert_eq!(machine.program_counter(), 3);
}

#[test]
fn load_value_zero_extends_the_immediate() {
    let mut machine = UniversalMachine::new();
    machine.load_value(1, 0xFFFF_FFFF);
    assert_eq!(disassemble(load_value(1, 72), &mut machine), Ok(Effect::Continue));
    assert_eq!(machine.registers()[1], 72);
    assert_eq!(machine.registers()[1] >> 25, 0);
    machine.load_value(7, 0xFFFF_FFFF);
    assert_eq!(disassemble(load_value(7, 0x1FF_FFFF), &mut machine), Ok(Effect::Continue));
    assert_eq!(machine.registers()[7], 0x1FF_FFFF);
    assert_eq!(machine.registers()[7] >> 25, 0);
    assert_eq!(disassemble(load_value(7, 0), &mut machine), Ok(Effect::Continue));
    assert_eq!(machine.registers()[7], 0);
}

#[test]
fn disassemble_dispatches_every_register_operation() {
    let mut machine = UniversalMachine::new();
    disassemble(load_value(1, 6), &mut machine).unwrap();
    disassemble(load_value(2, 7), &mut machine).unwrap();
    assert_eq!(disassemble(three(ADD, 3, 1, 2), &mut machine), Ok(Effect::Continue));
    assert_eq!(disassemble(three(MUL, 4, 1, 2), &mut machine), Ok(Effect::Continue));
    assert_eq!(disassemble(three(DIV, 5, 4, 2), &mut machine), Ok(Effect::Continue));
    assert_eq!(disassemble(three(NAND, 6, 1, 2), &mut machine), Ok(Effect::Continue));
    assert_eq!(disassemble(three(CMOV, 7, 4, 1), &mut machine), Ok(Effect::Continue));
    assert_eq!(machine.registers(), [0, 6, 7, 13, 42, 6, !(6 & 7), 42]);
    assert_eq!(disassemble(three(CMOV, 1, 2, 0), &mut machine), Ok(Effect::Continue));
    assert_eq!(machine.registers()[1], 6);
}

#[test]
fn disassemble_dispatches_every_memory_operation() {
    let mut machine = UniversalMachine::new();
    disassemble(load_value(2, 3), &mut machine).unwrap();
    assert_eq!(disassemble(three(MAP_SEG, 0, 1, 2), &mut machine), Ok(Effect::Continue));
    assert_eq!(machine.registers()[1], 1);
    disassemble(load_value(3, 2), &mut machine).unwrap();
    disassemble(load_value(4, 1234), &mut machine).unwrap();
    assert_eq!(disassemble(three(SEG_STORE, 1, 3, 4), &mut machine), Ok(Effect::Continue));
    assert_eq!(machine.memory().segment(1), Some(&vec![0, 0, 1234]));
    assert_eq!(disassemble(three(SEG_LOAD, 5, 1, 3), &mut machine), Ok(Effect::Continue));
    assert_eq!(machine.registers()[5], 1234);
    assert_eq!(disassemble(three(LOAD_PROG, 0, 1, 3), &mut machine), Ok(Effect::Continue));
    assert_eq!(machine.memory().segment(0), Some(&vec![0, 0, 1234]));
    assert_eq!(machine.program_counter(), 2);
    assert_eq!(disassemble(three(UNMAP_SEG, 0, 0, 1), &mut machine), Ok(Effect::Continue));
    assert!(!machine.memory().is_mapped(1));
}

#[test]
fn disassemble_reports_what_is_left_to_the_caller() {
    let mut machine = UniversalMachine::new();
    machine.load_value(3, 200);
    let before = machine.clone();
    assert_eq!(disassemble(three(HALT, 0, 0, 0), &mut machine), Ok(Effect::Halt));
    assert_eq!(disassemble(three(OUTPUT, 0, 0, 3), &mut machine), Ok(Effect::Output(200)));
    assert_eq!(disassemble(three(INPUT, 0, 0, 5), &mut machine), Ok(Effect::Input(5)));
    assert_eq!(machine, before);
}

#[test]
fn disassemble_ignores_unused_bits() {
    let mut machine = UniversalMachine::new();
    assert_eq!(disassemble(three(HALT, 5, 6, 7) | 0x0FFF_FE00, &mut machine), Ok(Effect::Halt));
    assert_eq!(disassemble(three(INPUT, 7, 7, 2) | 0x00AB_C000, &mut machine), Ok(Effect::Input(2)));
    assert_eq!(disassemble(three(ADD, 0, 0, 0) | 0x0123_4000, &mut machine), Ok(Effect::Continue));
    assert_eq!(machine.registers(), [0; 8]);
}

#[test]
fn unknown_opcodes_abort() {
    let mut machine = UniversalMachine::new();
    machine.load_value(1, 5);
    let before = machine.clone();
    assert_eq!(disassemble(14 << 28, &mut machine), Err(Fault::InvalidOpcode));
    assert_eq!(disassemble(0xFFFF_FFFF, &mut machine), Err(Fault::InvalidOpcode));
    assert_eq!(machine, before);
    let (_, execution) = fresh_run(vec![load_value(1, 65), 0xE000_0000, three(HALT, 0, 0, 0)], &[], 100);
    assert_eq!(execution.status, Status::Aborted(Fault::InvalidOpcode));
}

#[test]
fn division_by_zero_aborts_and_modifies_no_register() {
    let mut machine = UniversalMachine::new();
    machine.load_value(1, 10);
    machine.load_value(3, 33);
    let before = machine.clone();
    assert_eq!(disassemble(three(DIV, 3, 1, 2), &mut machine), Err(Fault::DivisionByZero));
    assert_eq!(machine, before);
}

#[test]
fn output_before_a_fault_is_kept() {
    let program = vec![
        load_value(1, 79),
        three(OUTPUT, 0, 0, 1),
        load_value(1, 75),
        three(OUTPUT, 0, 0, 1),
        three(DIV, 3, 1, 2),
        three(OUTPUT, 0, 0, 1),
        three(HALT, 0, 0, 0),
    ];
    let (machine, execution) = fresh_run(program, &[], 1_000);
    assert_eq!(execution.status, Status::Aborted(Fault::DivisionByZero));
    assert_eq!(execution.output, b"OK".to_vec());
    assert_eq!(machine.registers(), [0, 75, 0, 0, 0, 0, 0, 0]);
    // the faulting instruction had been fetched
    assert_eq!(machine.program_counter(), 5);
}

#[test]
fn output_above_255_aborts() {
    let program = vec![load_value(1, 256), three(OUTPUT, 0, 0, 1), three(HALT, 0, 0, 0)];
    let (_, execution) = fresh_run(program, &[], 1_000);
    assert_eq!(execution.status, Status::Aborted(Fault::InvalidOutputValue));
    assert!(execution.output.is_empty());
}

#[test]
fn running_off_the_end_of_the_program_aborts() {
    let (machine, execution) = fresh_run(vec![load_value(1, 1), load_value(2, 2)], &[], 1_000);
    assert_eq!(execution.status, Status::Aborted(Fault::SegmentFault));
    assert_eq!(machine.registers(), [0, 1, 2, 0, 0, 0, 0, 0]);
    assert_eq!(machine.program_counter(), 2);
    let (_, execution) = fresh_run(Vec::new(), &[], 1_000);
    assert_eq!(execution.status, Status::Aborted(Fault::SegmentFault));
}

#[test]
fn segment_faults_abort_the_run() {
    // load from segment 5, which is not mapped
    let program = vec![load_value(1, 5), three(SEG_LOAD, 0, 1, 2), three(HALT, 0, 0, 0)];
    let (_, execution) = fresh_run(program, &[], 1_000);
    assert_eq!(execution.status, Status::Aborted(Fault::SegmentFault));
    // store past the end of the program segment
    let program = vec![load_value(1, 3), three(SEG_STORE, 0, 1, 2), three(HALT, 0, 0, 0)];
    let (_, execution) = fresh_run(program, &[], 1_000);
    assert_eq!(execution.status, Status::Aborted(Fault::SegmentFault));
    // unmap the program
    let program = vec![three(UNMAP_SEG, 0, 0, 0), three(HALT, 0, 0, 0)];
    let (machine, execution) = fresh_run(program, &[], 1_000);
    assert_eq!(execution.status, Status::Aborted(Fault::SegmentFault));
    assert!(machine.memory().is_mapped(0));
}

#[test]
fn the_cycle_limit_stops_an_endless_loop() {
    // jump to offset 0 forever
    let program = vec![three(LOAD_PROG, 0, 0, 0)];
    let (machine, execution) = fresh_run(program, &[], 10_000);
    assert_eq!(execution.status, Status::Running);
    assert!(execution.output.is_empty());
    assert_eq!(machine.program_counter(), 0);
}

fn echo_program() -> Vec<u32> {
    vec![
        three(INPUT, 0, 0, 0),
        three(NAND, 1, 0, 0),
        load_value(2, 8),
        load_value(3, 6),
        three(CMOV, 2, 3, 1),
        three(LOAD_PROG, 0, 7, 2),
        three(OUTPUT, 0, 0, 0),
        three(LOAD_PROG, 0, 7, 6),
        three(HALT, 0, 0, 0),
    ]
}

#[test]
fn echo_program_copies_input_to_output() {
    let (machine, execution) = fresh_run(echo_program(), b"hi there\n", 1_000);
    assert_eq!(execution.status, Status::Halted);
    assert_eq!(execution.output, b"hi there\n".to_vec());
    assert_eq!(execution.consumed, 9);
    // the end of the stream arrived as all ones
    assert_eq!(machine.registers()[0], 0xFFFF_FFFF);
}

#[test]
fn echo_program_on_empty_input() {
    let (machine, execution) = fresh_run(echo_program(), &[], 1_000);
    assert_eq!(execution.status, Status::Halted);
    assert!(execution.output.is_empty());
    assert_eq!(execution.consumed, 0);
    assert_eq!(machine.registers()[0], 0xFFFF_FFFF);
}

#[test]
fn echo_program_counts_its_cycles() {
    // eight cycles for each byte, seven to see the end and halt
    let (_, execution) = fresh_run(echo_program(), b"hi", 23);
    assert_eq!(execution.status, Status::Halted);
    assert_eq!(execution.output, b"hi".to_vec());
    let (_, execution) = fresh_run(echo_program(), b"hi", 22);
    assert_eq!(execution.status, Status::Running);
    assert_eq!(execution.output, b"hi".to_vec());
    assert_eq!(execution.consumed, 2);
    let (_, execution) = fresh_run(echo_program(), b"hi", 7);
    assert_eq!(execution.status, Status::Running);
    assert_eq!(execution.output, b"h".to_vec());
    assert_eq!(execution.consumed, 1);
}

#[test]
fn input_bytes_above_127_arrive_unchanged() {
    let (_, execution) = fresh_run(echo_program(), &[0, 128, 255], 1_000);
    assert_eq!(execution.status, Status::Halted);
    assert_eq!(execution.output, vec![0, 128, 255]);
}

#[test]
fn same_program_and_input_give_the_same_run() {
    let (first_machine, first) = fresh_run(echo_program(), b"again", 1_000);
    let (second_machine, second) = fresh_run(echo_program(), b"again", 1_000);
    assert_eq!(first, second);
    assert_eq!(first_machine, second_machine);
}

#[test]
fn load_program_switches_to_the_copied_segment() {
    // Segment 1 gets the two words "output r1; halt"; the program then
    // jumps into it at offset 0. Had the jump stayed in the old program,
    // 'N' would have been emitted.
    let program = vec![
        load_value(2, 2),
        three(MAP_SEG, 0, 3, 2),      // r3 := new segment of 2 words
        load_value(4, 0x4000),
        three(MUL, 4, 4, 4),          // r4 := 2^28
        load_value(5, 10),
        three(MUL, 5, 5, 4),          // r5 := opcode 10 in place
        load_value(6, 1),
        three(ADD, 5, 5, 6),          // r5 := "output r1"
        three(SEG_STORE, 3, 0, 5),    // segment[0] := r5   (r0 == 0)
        load_value(5, 7),
        three(MUL, 5, 5, 4),          // r5 := "halt"
        three(SEG_STORE, 3, 6, 5),    // segment[1] := r5   (r6 == 1)
        load_value(1, 89),            // 'Y'
        three(LOAD_PROG, 0, 3, 0),    // run the copy from offset 0
        load_value(1, 78),            // 'N'
        three(OUTPUT, 0, 0, 1),
        three(HALT, 0, 0, 0),
    ];
    let (machine, execution) = fresh_run(program, &[], 1_000);
    assert_eq!(execution.status, Status::Halted);
    assert_eq!(execution.output, vec![89]);
    assert_eq!(machine.memory().segment(0), Some(&vec![0xA000_0001, 0x7000_0000]));
    assert_eq!(machine.memory().segment(1), Some(&vec![0xA000_0001, 0x7000_0000]));
    assert_eq!(machine.program_counter(), 2);
}

#[test]
fn load_program_can_start_in_the_middle_of_the_copy() {
    let mut machine = UniversalMachine::new();
    machine.install(vec![three(LOAD_PROG, 0, 1, 2), three(HALT, 0, 0, 0)]);
    machine.load_value(7, 3);
    machine.map_seg(1, 7).unwrap();
    machine.load_value(3, 0);
    machine.load_value(4, load_value(5, 11));
    machine.store(1, 3, 4).unwrap();
    machine.load_value(3, 1);
    machine.load_value(4, load_value(5, 22));
    machine.store(1, 3, 4).unwrap();
    machine.load_value(3, 2);
    machine.load_value(4, three(HALT, 0, 0, 0));
    machine.store(1, 3, 4).unwrap();
    machine.load_value(2, 1);
    assert_eq!(cycle(&mut machine), Ok(Effect::Continue));
    assert_eq!(machine.program_counter(), 1);
    // the next cycle executes word 1 of the copy: r5 := 22
    assert_eq!(cycle(&mut machine), Ok(Effect::Continue));
    assert_eq!(machine.registers()[5], 22);
    assert_eq!(cycle(&mut machine), Ok(Effect::Halt));
}

#[test]
fn cycle_hands_input_and_output_to_the_caller() {
    let mut machine = UniversalMachine::new();
    machine.install(vec![three(INPUT, 0, 0, 4), three(OUTPUT, 0, 0, 4), three(HALT, 0, 0, 0)]);
    assert_eq!(cycle(&mut machine), Ok(Effect::Input(4)));
    assert_eq!(machine.registers()[4], 0);
    machine.input(4, Some(33));
    assert_eq!(cycle(&mut machine), Ok(Effect::Output(33)));
    assert_eq!(cycle(&mut machine), Ok(Effect::Halt));
    assert_eq!(machine.program_counter(), 3);
}

#[test]
fn faulting_cycle_moves_only_the_program_counter() {
    let mut machine = UniversalMachine::new();
    machine.install(vec![three(DIV, 1, 2, 3)]);
    machine.load_value(1, 5);
    machine.load_value(2, 6);
    let before = machine.clone();
    assert_eq!(cycle(&mut machine), Err(Fault::DivisionByZero));
    assert_eq!(machine.registers(), before.registers());
    assert_eq!(machine.memory(), before.memory());
    assert_eq!(machine.program_counter(), 1);
    // the fetch past the end changes nothing at all
    let before = machine.clone();
    assert_eq!(cycle(&mut machine), Err(Fault::SegmentFault));
    assert_eq!(machine, before);
}

#[test]
fn run_installs_the_program_and_keeps_the_rest_of_the_machine() {
    let mut machine = UniversalMachine::new();
    machine.load_value(1, 90);
    let execution = run(&mut machine, vec![three(OUTPUT, 0, 0, 1), three(HALT, 0, 0, 0)], &[], 10);
    assert_eq!(execution.status, Status::Halted);
    assert_eq!(execution.output, vec![90]);
    assert_eq!(machine.memory().segment(0), Some(&vec![0xA000_0001, 0x7000_0000]));
    // a second run goes on from the program counter where the first one stopped
    let execution = run(
        &mut machine,
        vec![three(HALT, 0, 0, 0), three(HALT, 0, 0, 0), three(OUTPUT, 0, 0, 1), three(HALT, 0, 0, 0)],
        &[],
        10,
    );
    assert_eq!(execution.status, Status::Halted);
    assert_eq!(execution.output, vec![90]);
    assert_eq!(machine.program_counter(), 4);
}
