use brainfuck::engine::{Brainfuck, RunResult, StepOutcome};
use brainfuck::semantics::{Config, Fault, MEM_LENGTH};

fn interactive() -> Config {
    Config { allow_input: true, strict: false }
}

fn strict_batch() -> Config {
    Config { allow_input: false, strict: true }
}

fn run(program: &[u8], config: Config, input: &[u8]) -> (Brainfuck, RunResult, Vec<u8>) {
    let mut engine = Brainfuck::from_bytes(program.to_vec(), config);
    let (result, output) = engine.interpret(&input.to_vec(), 10_000_000);
    (engine, result, output)
}

#[test]
fn cursor_wraps_left_from_zero() {
    let (engine, result, _) = run(b"<", strict_batch(), &[]);
    assert_eq!(result, RunResult::Finished);
    assert_eq!(engine.cursor(), MEM_LENGTH - 1);
}

#[test]
fn cursor_wraps_right_from_last_cell() {
    let program: Vec<u8> = vec![b'>'; MEM_LENGTH];
    let mut engine = Brainfuck::from_bytes(program, strict_batch());
    let (result, _) = engine.interpret(&Vec::new(), 100_000);
    assert_eq!(result, RunResult::Finished);
    assert_eq!(engine.cursor(), 0);
}

#[test]
fn cell_wraps_on_decrement_from_zero() {
    let (engine, result, _) = run(b"-", strict_batch(), &[]);
    assert_eq!(result, RunResult::Finished);
    assert_eq!(engine.cell(), 255);
}

#[test]
fn cell_wraps_on_increment_from_255() {
    let program: Vec<u8> = vec![b'+'; 256];
    let mut engine = Brainfuck::from_bytes(program, strict_batch());
    let (result, _) = engine.interpret(&Vec::new(), 1_000);
    assert_eq!(result, RunResult::Finished);
    assert_eq!(engine.cell(), 0);
}

#[test]
fn clear_loop_zeroes_cell() {
    let (engine, result, output) = run(b"+++++[-]", strict_batch(), &[]);
    assert_eq!(result, RunResult::Finished);
    assert_eq!(engine.cell(), 0);
    assert!(output.is_empty());
}

#[test]
fn clear_loop_on_already_zero_cell() {
    let (engine, result, output) = run(b"[-]", strict_batch(), &[]);
    assert_eq!(result, RunResult::Finished);
    assert_eq!(engine.cell(), 0);
    assert!(output.is_empty());
}

#[test]
fn sixty_five_increments_print_a() {
    let mut program: Vec<u8> = vec![b'+'; 65];
    program.push(b'.');
    let mut engine = Brainfuck::from_bytes(program, strict_batch());
    let (result, output) = engine.interpret(&Vec::new(), 1_000);
    assert_eq!(result, RunResult::Finished);
    assert_eq!(output, b"A".to_vec());
}

#[test]
fn unmatched_close_faults_on_zero_cell() {
    let (_, result, output) = run(b"]", strict_batch(), &[]);
    assert_eq!(result, RunResult::Faulted(Fault::UnmatchedClose));
    assert!(output.is_empty());
}

#[test]
fn unmatched_close_faults_on_nonzero_cell() {
    let (_, result, output) = run(b"+.]", interactive(), &[]);
    assert_eq!(result, RunResult::Faulted(Fault::UnmatchedClose));
    assert_eq!(output, vec![1u8]);
}

#[test]
fn echo_round_trip() {
    let (engine, result, output) = run(b",.", interactive(), b"X");
    assert_eq!(result, RunResult::Finished);
    assert_eq!(output, b"X".to_vec());
    assert_eq!(engine.cell(), b'X');
}

#[test]
fn unknown_byte_faults_under_strict_policy() {
    let (_, result, output) = run(b"+x+.", strict_batch(), &[]);
    assert_eq!(result, RunResult::Faulted(Fault::UnexpectedByte));
    assert!(output.is_empty());
}

#[test]
fn unknown_byte_ignored_under_lenient_policy() {
    let (_, result, output) = run(b"+x+.", interactive(), &[]);
    assert_eq!(result, RunResult::Finished);
    assert_eq!(output, vec![2u8]);
}

#[test]
fn line_breaks_tolerated_under_strict_policy() {
    let (_, result, output) = run(b"+\n+\r+.", strict_batch(), &[]);
    assert_eq!(result, RunResult::Finished);
    assert_eq!(output, vec![3u8]);
}

#[test]
fn nested_loops_multiply() {
    let (engine, result, _) = run(b"++[>+++[>++<-]<-]", strict_batch(), &[]);
    assert_eq!(result, RunResult::Finished);
    assert_eq!(engine.cell_at(2), 12);
    assert_eq!(engine.cursor(), 0);
    assert_eq!(engine.cell(), 0);
}

#[test]
fn missing_close_faults() {
    let (_, result, _) = run(b"[", strict_batch(), &[]);
    assert_eq!(result, RunResult::Faulted(Fault::MissingClose));
}

#[test]
fn open_loop_at_end_of_program_finishes() {
    let (_, result, _) = run(b"+[", strict_batch(), &[]);
    assert_eq!(result, RunResult::Finished);
}

#[test]
fn input_fault_when_queue_is_empty() {
    let (_, result, _) = run(b",", interactive(), &[]);
    assert_eq!(result, RunResult::Faulted(Fault::InputUnavailable));
}

#[test]
fn input_fault_when_input_is_disallowed() {
    let (_, result, _) = run(b",", strict_batch(), b"X");
    assert_eq!(result, RunResult::Faulted(Fault::InputUnavailable));
}

#[test]
fn infinite_loop_runs_out_of_steps() {
    let (_, result, _) = run(b"+[]", strict_batch(), &[]);
    assert_eq!(result, RunResult::OutOfSteps);
}

#[test]
fn false_loop_skip_is_a_flat_scan() {
    // The skip for a false loop condition stops at the first close byte, with
    // no awareness of nesting, so the outer close is then unmatched.
    let (_, result, _) = run(b"[[-]]", strict_batch(), &[]);
    assert_eq!(result, RunResult::Faulted(Fault::UnmatchedClose));
}

#[test]
fn step_by_step_echo() {
    let mut engine = Brainfuck::from_bytes(b",.".to_vec(), interactive());
    assert_eq!(engine.step(), StepOutcome::AwaitingInput);
    engine.feed_input(7);
    assert_eq!(engine.step(), StepOutcome::Emitted(7));
    assert_eq!(engine.step(), StepOutcome::Finished);
    assert!(engine.finished());
}

#[test]
fn engine_from_program_text() {
    let mut engine = Brainfuck::new(String::from("+."));
    let (result, output) = engine.interpret(&Vec::new(), 1_000);
    assert_eq!(result, RunResult::Finished);
    assert_eq!(output, vec![1u8]);
}

#[test]
fn fresh_engine_starts_zeroed() {
    let engine = Brainfuck::from_bytes(Vec::new(), interactive());
    assert_eq!(engine.cursor(), 0);
    assert_eq!(engine.cell(), 0);
    assert_eq!(engine.cell_at(MEM_LENGTH - 1), 0);
    assert!(engine.finished());
}
