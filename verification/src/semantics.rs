//! The mathematical model of the machine.
//!
//! [`MachineState`] is the abstract state: program text, tape, cursor,
//! instruction pointer and control stack. [`step_spec`] gives the meaning of
//! one instruction as a total function from a state to a [`Transition`], and
//! [`batch_run`] iterates it against a queue of input bytes, accumulating the
//! output. The executable engine is specified entirely in terms of these
//! functions.

use vstd::prelude::*;

verus! {

/// Number of byte cells on the tape.
pub const MEM_LENGTH: usize = 65535;

/// Per-engine policy choices: whether the input instruction may consume a
/// byte, and whether a byte outside the recognized instruction set is fatal.
#[derive(Clone, Copy, PartialEq, Eq, Structural, Debug)]
pub struct Config {
    /// When false, the input instruction faults instead of reading a byte.
    pub allow_input: bool,
    /// When true, a byte that is no instruction (and not a line break) faults;
    /// when false it is skipped as a comment character.
    pub strict: bool,
}

/// The ways a run can fail. Every failure is fatal: the machine stops where
/// it stands and keeps the output emitted so far.
#[derive(Clone, Copy, PartialEq, Eq, Structural, Debug)]
pub enum Fault {
    /// A loop-closing instruction was reached while no loop was open.
    UnmatchedClose,
    /// A loop-opening instruction with a zero cell found no closing
    /// instruction anywhere at or after it.
    MissingClose,
    /// A byte outside the instruction set was met under the strict policy.
    UnexpectedByte,
    /// The input instruction ran where no input byte could be supplied.
    InputUnavailable,
}

/// The abstract machine state.
#[verifier::ext_equal]
pub ghost struct MachineState {
    /// The program text, immutable for the machine's lifetime.
    pub program: Seq<u8>,
    /// The tape: `MEM_LENGTH` byte cells.
    pub tape: Seq<u8>,
    /// Index of the currently selected cell, always below `MEM_LENGTH`.
    pub cursor: nat,
    /// Index into the program of the next instruction; the machine has halted
    /// once it reaches the program's length.
    pub ip: nat,
    /// Positions of the currently open loop starts, innermost last.
    pub stack: Seq<nat>,
}

/// What one step does: move to a next state, move and emit a byte, wait for
/// an input byte, halt, or fail.
#[verifier::ext_equal]
pub ghost enum Transition {
    /// Quiet advance to the given state.
    Step(MachineState),
    /// Advance to the given state and emit the byte.
    Emit(MachineState, u8),
    /// The machine is at an input instruction and needs one byte; the state
    /// is unchanged until the byte is supplied (see [`consume_input`]).
    Read,
    /// The instruction pointer stands at the end of the program.
    Halt,
    /// Fatal failure; the state is unchanged.
    Fault(Fault),
}

impl MachineState {
    /// Well-formedness: the tape has its fixed length, the cursor and the
    /// instruction pointer are in range, and the control stack holds only
    /// positions of loop-opening instructions.
    pub open spec fn wf(self) -> bool {
        &&& self.tape.len() == MEM_LENGTH
        &&& self.cursor < MEM_LENGTH
        &&& self.ip <= self.program.len()
        &&& forall|i: int|
            0 <= i < self.stack.len() ==> self.stack[i] < self.program.len()
                && self.program[self.stack[i] as int] == 91u8
    }

    /// The byte in the currently selected cell.
    pub open spec fn cell(self) -> u8 {
        self.tape[self.cursor as int]
    }
}

/// The state a machine starts in: all cells zero, cursor and instruction
/// pointer at zero, no open loops.
pub open spec fn init_state(program: Seq<u8>) -> MachineState {
    MachineState {
        program,
        tape: Seq::new(MEM_LENGTH as nat, |i: int| 0u8),
        cursor: 0,
        ip: 0,
        stack: Seq::empty(),
    }
}

/// Cell increment with wraparound: 255 goes to 0.
pub open spec fn wrap_inc(v: u8) -> u8 {
    if v == 255 {
        0
    } else {
        (v + 1) as u8
    }
}

/// Cell decrement with wraparound: 0 goes to 255.
pub open spec fn wrap_dec(v: u8) -> u8 {
    if v == 0 {
        255
    } else {
        (v - 1) as u8
    }
}

/// Cursor advance with wraparound: the last cell goes to cell 0.
pub open spec fn cursor_right(c: nat) -> nat {
    if c + 1 == MEM_LENGTH {
        0
    } else {
        c + 1
    }
}

/// Cursor retreat with wraparound: cell 0 goes to the last cell.
pub open spec fn cursor_left(c: nat) -> nat {
    if c == 0 {
        (MEM_LENGTH - 1) as nat
    } else {
        (c - 1) as nat
    }
}

/// Position of the first loop-closing byte at or after `from`, if any. This
/// is the flat forward scan used to skip a loop whose condition is false: it
/// deliberately pays no attention to nesting, as the instruction table
/// prescribes.
pub open spec fn next_close(program: Seq<u8>, from: nat) -> Option<nat>
    decreases program.len() - from,
{
    if from >= program.len() {
        None
    } else if program[from as int] == 93u8 {
        Some(from)
    } else {
        next_close(program, from + 1)
    }
}

/// The state after an input instruction consumes the byte `b`: the byte is
/// stored in the current cell and the instruction pointer advances.
pub open spec fn consume_input(s: MachineState, b: u8) -> MachineState {
    MachineState { tape: s.tape.update(s.cursor as int, b), ip: s.ip + 1, ..s }
}

/// One step of the machine. Each instruction performs its effect and then
/// the instruction pointer advances by one, except where a jump repositions
/// it. Loop semantics: a loop-opening instruction with a nonzero cell pushes
/// its position and enters the body; with a zero cell it skips to just after
/// the next loop-closing byte (flat scan). A loop-closing instruction with a
/// nonzero cell jumps back to just after the innermost open loop start; with
/// a zero cell it closes that loop. A loop-closing instruction with no open
/// loop is fatal either way.
pub open spec fn step_spec(cfg: Config, s: MachineState) -> Transition {
    if s.ip >= s.program.len() {
        Transition::Halt
    } else {
        let b = s.program[s.ip as int];
        if b == 62u8 {  // `>`
            Transition::Step(MachineState { cursor: cursor_right(s.cursor), ip: s.ip + 1, ..s })
        } else if b == 60u8 {  // `<`
            Transition::Step(MachineState { cursor: cursor_left(s.cursor), ip: s.ip + 1, ..s })
        } else if b == 43u8 {  // `+`
            Transition::Step(
                MachineState {
                    tape: s.tape.update(s.cursor as int, wrap_inc(s.cell())),
                    ip: s.ip + 1,
                    ..s
                },
            )
        } else if b == 45u8 {  // `-`
            Transition::Step(
                MachineState {
                    tape: s.tape.update(s.cursor as int, wrap_dec(s.cell())),
                    ip: s.ip + 1,
                    ..s
                },
            )
        } else if b == 46u8 {  // `.`
            Transition::Emit(MachineState { ip: s.ip + 1, ..s }, s.cell())
        } else if b == 44u8 {  // `,`
            if cfg.allow_input {
                Transition::Read
            } else {
                Transition::Fault(Fault::InputUnavailable)
            }
        } else if b == 91u8 {  // `[`
            if s.cell() == 0 {
                match next_close(s.program, s.ip) {
                    Some(close) => Transition::Step(MachineState { ip: close + 1, ..s }),
                    None => Transition::Fault(Fault::MissingClose),
                }
            } else {
                Transition::Step(MachineState { stack: s.stack.push(s.ip), ip: s.ip + 1, ..s })
            }
        } else if b == 93u8 {  // `]`
            if s.stack.len() == 0 {
                Transition::Fault(Fault::UnmatchedClose)
            } else if s.cell() != 0 {
                Transition::Step(MachineState { ip: s.stack.last() + 1, ..s })
            } else {
                Transition::Step(MachineState { stack: s.stack.drop_last(), ip: s.ip + 1, ..s })
            }
        } else if b == 10u8 || b == 13u8 {  // line breaks are always skipped
            Transition::Step(MachineState { ip: s.ip + 1, ..s })
        } else if cfg.strict {
            Transition::Fault(Fault::UnexpectedByte)
        } else {
            Transition::Step(MachineState { ip: s.ip + 1, ..s })
        }
    }
}

/// A run observed after a given number of steps: still running, halted
/// normally, or stopped by a fault. `pending` is the input not yet consumed
/// and `output` the bytes emitted so far.
#[verifier::ext_equal]
pub ghost enum RunOutcome {
    /// The step budget ran out with the machine still live.
    Running { state: MachineState, pending: Seq<u8>, output: Seq<u8> },
    /// The instruction pointer reached the end of the program.
    Halted { state: MachineState, pending: Seq<u8>, output: Seq<u8> },
    /// A fatal failure; everything emitted before it stands.
    Faulted { fault: Fault, state: MachineState, pending: Seq<u8>, output: Seq<u8> },
}

/// Run the machine for at most `fuel` steps against a queue of input bytes.
/// An input instruction takes the front of the queue, or faults with
/// [`Fault::InputUnavailable`] once the queue is empty.
pub open spec fn batch_run(
    cfg: Config,
    s: MachineState,
    pending: Seq<u8>,
    output: Seq<u8>,
    fuel: nat,
) -> RunOutcome
    decreases fuel,
{
    if fuel == 0 {
        RunOutcome::Running { state: s, pending, output }
    } else {
        match step_spec(cfg, s) {
            Transition::Step(s2) => batch_run(cfg, s2, pending, output, (fuel - 1) as nat),
            Transition::Emit(s2, b) => batch_run(cfg, s2, pending, output.push(b), (fuel - 1) as nat),
            Transition::Read => {
                if pending.len() > 0 {
                    batch_run(
                        cfg,
                        consume_input(s, pending[0]),
                        pending.drop_first(),
                        output,
                        (fuel - 1) as nat,
                    )
                } else {
                    RunOutcome::Faulted { fault: Fault::InputUnavailable, state: s, pending, output }
                }
            },
            Transition::Halt => RunOutcome::Halted { state: s, pending, output },
            Transition::Fault(fault) => RunOutcome::Faulted { fault, state: s, pending, output },
        }
    }
}

/// Every step out of a well-formed state lands in a well-formed state with
/// the same program, and input consumption does the same: the cursor stays in
/// range and the control stack keeps pointing at loop-opening instructions.
pub proof fn lemma_step_preserves_wf(cfg: Config, s: MachineState)
    requires
        s.wf(),
    ensures
        match step_spec(cfg, s) {
            Transition::Step(s2) => s2.wf() && s2.program == s.program,
            Transition::Emit(s2, _) => s2.wf() && s2.program == s.program,
            _ => true,
        },
        step_spec(cfg, s) is Read ==> forall|b: u8|
            (#[trigger] consume_input(s, b)).wf() && consume_input(s, b).program == s.program,
{
    if s.ip < s.program.len() {
        let b = s.program[s.ip as int];
        if b == 91u8 && s.cell() == 0 {
            lemma_next_close_in_range(s.program, s.ip);
        }
    }
}

/// A successful flat scan lands on a loop-closing byte inside the program,
/// at or after where it started.
pub proof fn lemma_next_close_in_range(program: Seq<u8>, from: nat)
    requires
        from <= program.len(),
    ensures
        match next_close(program, from) {
            Some(close) => from <= close < program.len() && program[close as int] == 93u8,
            None => true,
        },
    decreases program.len() - from,
{
    if from < program.len() && program[from as int] != 93u8 {
        lemma_next_close_in_range(program, from + 1);
    }
}

} // verus!
