//! The executable engine.
//!
//! [`Brainfuck`] carries the concrete machine: program bytes, tape, cursor,
//! instruction pointer and control stack. Its view is a
//! [`semantics::MachineState`], and every method is proved against
//! [`semantics::step_spec`] and [`semantics::batch_run`].

use vstd::prelude::*;

use crate::semantics::{
    batch_run, consume_input, init_state, lemma_step_preserves_wf, next_close, step_spec, Config,
    Fault, MachineState, RunOutcome, Transition, MEM_LENGTH,
};

verus! {

/// What one call of [`Brainfuck::step`] did, mirroring the transition that
/// [`step_spec`] prescribes for the state the machine was in.
#[derive(Clone, Copy, PartialEq, Eq, Structural, Debug)]
pub enum StepOutcome {
    /// One instruction ran quietly.
    Stepped,
    /// One instruction ran and emitted this byte.
    Emitted(u8),
    /// The machine stands at an input instruction and waits for one byte.
    AwaitingInput,
    /// The instruction pointer has reached the end of the program.
    Finished,
    /// Fatal failure; the machine did not move.
    Faulted(Fault),
}

/// How a bounded batch run ended.
#[derive(Clone, Copy, PartialEq, Eq, Structural, Debug)]
pub enum RunResult {
    /// The program ran to completion.
    Finished,
    /// The run stopped on this fatal failure.
    Faulted(Fault),
    /// The step budget ran out first.
    OutOfSteps,
}

/// The interpreter: a program together with the machine state it drives.
/// One instance supports one run, started from the initial state.
pub struct Brainfuck {
    program: Vec<u8>,
    memory: Vec<u8>,
    mem_ptr: usize,
    src_ptr: usize,
    jump_table: Vec<usize>,
    config: Config,
}

impl View for Brainfuck {
    type V = MachineState;

    closed spec fn view(&self) -> MachineState {
        MachineState {
            program: self.program@,
            tape: self.memory@,
            cursor: self.mem_ptr as nat,
            ip: self.src_ptr as nat,
            stack: self.jump_table@.map_values(|p: usize| p as nat),
        }
    }
}

impl Brainfuck {
    /// The policy this engine was built with.
    pub closed spec fn cfg(&self) -> Config {
        self.config
    }

    /// Abstract well-formedness of the machine state, established by every
    /// constructor and preserved by every method.
    pub open spec fn wf(&self) -> bool {
        self@.wf()
    }

    /// Build an engine from raw program bytes under the given policy. The
    /// tape starts all zero, the cursor and instruction pointer at zero, and
    /// no loop is open.
    pub fn from_bytes(program: Vec<u8>, config: Config) -> (engine: Brainfuck)
        ensures
            engine.wf(),
            engine@ == init_state(program@),
            engine.cfg() == config,
    {
        let mut memory: Vec<u8> = Vec::new();
        let mut i: usize = 0;
        while i < MEM_LENGTH
            invariant
                i <= MEM_LENGTH,
                memory@ =~= Seq::new(i as nat, |j: int| 0u8),
            decreases MEM_LENGTH - i,
        {
            memory.push(0u8);
            i = i + 1;
        }
        let engine = Brainfuck {
            program,
            memory,
            mem_ptr: 0,
            src_ptr: 0,
            jump_table: Vec::new(),
            config,
        };
        proof {
            assert(engine@ =~= init_state(engine.program@));
        }
        engine
    }

    /// Build an engine from program text under the given policy.
    pub fn with_config(src: String, config: Config) -> (engine: Brainfuck)
        ensures
            engine.wf(),
            engine@ == init_state(vstd::utf8::encode_utf8(src@)),
            engine.cfg() == config,
    {
        let bytes = vstd::slice::slice_to_vec(src.as_str().as_bytes());
        Self::from_bytes(bytes, config)
    }

    /// Build an engine from program text under the interactive policy: the
    /// input instruction may consume a byte, and unrecognized bytes are
    /// skipped as comments.
    pub fn new(src: String) -> (engine: Brainfuck)
        ensures
            engine.wf(),
            engine@ == init_state(vstd::utf8::encode_utf8(src@)),
            engine.cfg() == (Config { allow_input: true, strict: false }),
    {
        Self::with_config(src, Config { allow_input: true, strict: false })
    }

    /// Execute one instruction, exactly as [`step_spec`] prescribes for the
    /// current state: the returned [`StepOutcome`] mirrors the transition,
    /// and the state moves if and only if the transition says so. A request
    /// for input leaves the state unchanged; supply the byte with
    /// [`Brainfuck::feed_input`].
    pub fn step(&mut self) -> (outcome: StepOutcome)
        requires
            old(self).wf(),
        ensures
            final(self).wf(),
            final(self).cfg() == old(self).cfg(),
            match step_spec(old(self).cfg(), old(self)@) {
                Transition::Step(s2) => outcome == StepOutcome::Stepped && final(self)@ == s2,
                Transition::Emit(s2, b) => outcome == StepOutcome::Emitted(b) && final(self)@
                    == s2,
                Transition::Read => outcome == StepOutcome::AwaitingInput && final(self)@ == old(
                    self,
                )@,
                Transition::Halt => outcome == StepOutcome::Finished && final(self)@ == old(self)@,
                Transition::Fault(f) => outcome == StepOutcome::Faulted(f) && final(self)@ == old(
                    self,
                )@,
            },
    {
        proof {
            lemma_step_preserves_wf(self.cfg(), self@);
        }
        if self.src_ptr >= self.program.len() {
            return StepOutcome::Finished;
        }
        let instruction = self.program[self.src_ptr];
        match instruction {
            62u8 => {  // `>`
                if self.mem_ptr == MEM_LENGTH - 1 {
                    self.mem_ptr = 0;
                } else {
                    self.mem_ptr = self.mem_ptr + 1;
                }
                self.src_ptr = self.src_ptr + 1;
                StepOutcome::Stepped
            },
            60u8 => {  // `<`
                if self.mem_ptr == 0 {
                    self.mem_ptr = MEM_LENGTH - 1;
                } else {
                    self.mem_ptr = self.mem_ptr - 1;
                }
                self.src_ptr = self.src_ptr + 1;
                StepOutcome::Stepped
            },
            43u8 => {  // `+`
                let v = self.memory[self.mem_ptr];
                let incremented: u8 = if v == 255 {
                    0
                } else {
                    v + 1
                };
                self.memory.set(self.mem_ptr, incremented);
                self.src_ptr = self.src_ptr + 1;
                StepOutcome::Stepped
            },
            45u8 => {  // `-`
                let v = self.memory[self.mem_ptr];
                let decremented: u8 = if v == 0 {
                    255
                } else {
                    v - 1
                };
                self.memory.set(self.mem_ptr, decremented);
                self.src_ptr = self.src_ptr + 1;
                StepOutcome::Stepped
            },
            46u8 => {  // `.`
                let emitted = self.memory[self.mem_ptr];
                self.src_ptr = self.src_ptr + 1;
                StepOutcome::Emitted(emitted)
            },
            44u8 => {  // `,`
                if self.config.allow_input {
                    StepOutcome::AwaitingInput
                } else {
                    StepOutcome::Faulted(Fault::InputUnavailable)
                }
            },
            91u8 => {  // `[`
                if self.memory[self.mem_ptr] == 0 {
                    let mut scan: usize = self.src_ptr;
                    while scan < self.program.len() && self.program[scan] != 93u8
                        invariant
                            self@.ip <= scan <= self@.program.len(),
                            next_close(self@.program, self@.ip) == next_close(
                                self@.program,
                                scan as nat,
                            ),
                        decreases self@.program.len() - scan,
                    {
                        scan = scan + 1;
                    }
                    if scan == self.program.len() {
                        StepOutcome::Faulted(Fault::MissingClose)
                    } else {
                        self.src_ptr = scan + 1;
                        StepOutcome::Stepped
                    }
                } else {
                    self.jump_table.push(self.src_ptr);
                    proof {
                        assert(self@.stack =~= old(self)@.stack.push(old(self)@.ip));
                    }
                    self.src_ptr = self.src_ptr + 1;
                    StepOutcome::Stepped
                }
            },
            93u8 => {  // `]`
                if self.jump_table.len() == 0 {
                    StepOutcome::Faulted(Fault::UnmatchedClose)
                } else if self.memory[self.mem_ptr] != 0 {
                    let target = self.jump_table[self.jump_table.len() - 1];
                    self.src_ptr = target + 1;
                    StepOutcome::Stepped
                } else {
                    self.jump_table.pop();
                    proof {
                        assert(self@.stack =~= old(self)@.stack.drop_last());
                    }
                    self.src_ptr = self.src_ptr + 1;
                    StepOutcome::Stepped
                }
            },
            10u8 | 13u8 => {  // line breaks are always skipped
                self.src_ptr = self.src_ptr + 1;
                StepOutcome::Stepped
            },
            _ => {
                if self.config.strict {
                    StepOutcome::Faulted(Fault::UnexpectedByte)
                } else {
                    self.src_ptr = self.src_ptr + 1;
                    StepOutcome::Stepped
                }
            },
        }
    }

    /// Supply the one byte an input instruction is waiting for: it is stored
    /// in the current cell and execution moves past the instruction.
    pub fn feed_input(&mut self, byte: u8)
        requires
            old(self).wf(),
            step_spec(old(self).cfg(), old(self)@) is Read,
        ensures
            final(self).wf(),
            final(self).cfg() == old(self).cfg(),
            final(self)@ == consume_input(old(self)@, byte),
    {
        proof {
            lemma_step_preserves_wf(self.cfg(), self@);
        }
        let program_len = self.program.len();
        assert(self.src_ptr < program_len);
        self.memory.set(self.mem_ptr, byte);
        self.src_ptr = self.src_ptr + 1;
    }

    /// Run the machine for at most `max_steps` instructions against a queue
    /// of input bytes, collecting the emitted bytes. The result and the
    /// machine's final state are exactly what [`batch_run`] prescribes for
    /// the starting state with `max_steps` of fuel: completion, the first
    /// fault (input faults with [`Fault::InputUnavailable`] once the queue is
    /// empty), or an exhausted budget, each with all output emitted up to
    /// that point.
    pub fn interpret(&mut self, input: &Vec<u8>, max_steps: u64) -> (result: (
        RunResult,
        Vec<u8>,
    ))
        requires
            old(self).wf(),
        ensures
            final(self).wf(),
            final(self).cfg() == old(self).cfg(),
            match batch_run(
                old(self).cfg(),
                old(self)@,
                input@,
                Seq::empty(),
                max_steps as nat,
            ) {
                RunOutcome::Halted { state, output, .. } => result.0 == RunResult::Finished
                    && result.1@ == output && final(self)@ == state,
                RunOutcome::Faulted { fault, state, output, .. } => result.0 == RunResult::Faulted(
                    fault,
                ) && result.1@ == output && final(self)@ == state,
                RunOutcome::Running { state, output, .. } => result.0 == RunResult::OutOfSteps
                    && result.1@ == output && final(self)@ == state,
            },
    {
        let ghost cfg = self.cfg();
        let ghost start = self@;
        let mut output: Vec<u8> = Vec::new();
        let mut consumed: usize = 0;
        let mut steps: u64 = 0;
        proof {
            assert(input@.skip(0) =~= input@);
            assert(output@ =~= Seq::<u8>::empty());
        }
        while steps < max_steps
            invariant
                self.wf(),
                cfg == old(self).cfg(),
                start == old(self)@,
                self.cfg() == cfg,
                steps <= max_steps,
                consumed <= input@.len(),
                batch_run(cfg, start, input@, Seq::empty(), max_steps as nat) == batch_run(
                    cfg,
                    self@,
                    input@.skip(consumed as int),
                    output@,
                    (max_steps - steps) as nat,
                ),
            decreases max_steps - steps,
        {
            let ghost fuel = (max_steps - steps) as nat;
            let ghost pending = input@.skip(consumed as int);
            match self.step() {
                StepOutcome::Stepped => {},
                StepOutcome::Emitted(byte) => {
                    output.push(byte);
                },
                StepOutcome::AwaitingInput => {
                    if consumed < input.len() {
                        let byte = input[consumed];
                        proof {
                            assert(pending[0] == input@[consumed as int]);
                            assert(pending.drop_first() =~= input@.skip(consumed as int + 1));
                        }
                        consumed = consumed + 1;
                        self.feed_input(byte);
                    } else {
                        proof {
                            assert(pending.len() == 0);
                            assert(batch_run(cfg, self@, pending, output@, fuel)
                                == (RunOutcome::Faulted {
                                fault: Fault::InputUnavailable,
                                state: self@,
                                pending,
                                output: output@,
                            }));
                        }
                        return (RunResult::Faulted(Fault::InputUnavailable), output);
                    }
                },
                StepOutcome::Finished => {
                    proof {
                        assert(batch_run(cfg, self@, pending, output@, fuel)
                            == (RunOutcome::Halted { state: self@, pending, output: output@ }));
                    }
                    return (RunResult::Finished, output);
                },
                StepOutcome::Faulted(fault) => {
                    proof {
                        assert(batch_run(cfg, self@, pending, output@, fuel)
                            == (RunOutcome::Faulted {
                            fault,
                            state: self@,
                            pending,
                            output: output@,
                        }));
                    }
                    return (RunResult::Faulted(fault), output);
                },
            }
            steps = steps + 1;
        }
        (RunResult::OutOfSteps, output)
    }

    /// The current cursor position.
    pub fn cursor(&self) -> (position: usize)
        ensures
            position == self@.cursor,
    {
        self.mem_ptr
    }

    /// The byte in the currently selected cell.
    pub fn cell(&self) -> (value: u8)
        requires
            self.wf(),
        ensures
            value == self@.cell(),
    {
        self.memory[self.mem_ptr]
    }

    /// The byte in the cell at the given position.
    pub fn cell_at(&self, position: usize) -> (value: u8)
        requires
            self.wf(),
            position < MEM_LENGTH,
        ensures
            value == self@.tape[position as int],
    {
        self.memory[position]
    }

    /// Whether the instruction pointer stands at the end of the program, so
    /// that the next step halts.
    pub fn finished(&self) -> (done: bool)
        requires
            self.wf(),
        ensures
            done == (self@.ip == self@.program.len()),
    {
        self.src_ptr == self.program.len()
    }
}

} // verus!
