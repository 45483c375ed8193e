//! Language-level guarantees, stated and proved against the semantics.
//!
//! Each theorem here speaks about every machine state (and, where input is
//! involved, every input byte), not about chosen examples: cursor and cell
//! wraparound, the clearing loop, detection of an unmatched loop close, the
//! echo round trip, and the two policies for unrecognized bytes.

use vstd::prelude::*;

use crate::semantics::{
    batch_run, consume_input, step_spec, wrap_dec, Config, Fault, MachineState, RunOutcome,
    Transition, MEM_LENGTH,
};

verus! {

/// Cursor wraparound: moving right from the last cell lands on cell 0, and
/// moving left from cell 0 lands on the last cell.
pub proof fn lemma_cursor_wraparound(cfg: Config, s: MachineState)
    requires
        s.wf(),
        s.ip < s.program.len(),
    ensures
        s.program[s.ip as int] == 62u8 && s.cursor == MEM_LENGTH - 1 ==> step_spec(cfg, s)
            == Transition::Step(MachineState { cursor: 0, ip: s.ip + 1, ..s }),
        s.program[s.ip as int] == 60u8 && s.cursor == 0 ==> step_spec(cfg, s) == Transition::Step(
            MachineState { cursor: (MEM_LENGTH - 1) as nat, ip: s.ip + 1, ..s },
        ),
{
}

/// Cell wraparound: incrementing a cell holding 255 yields 0, and
/// decrementing a cell holding 0 yields 255.
pub proof fn lemma_cell_wraparound(cfg: Config, s: MachineState)
    requires
        s.wf(),
        s.ip < s.program.len(),
    ensures
        s.program[s.ip as int] == 43u8 && s.cell() == 255 ==> step_spec(cfg, s)
            == Transition::Step(
            MachineState { tape: s.tape.update(s.cursor as int, 0u8), ip: s.ip + 1, ..s },
        ),
        s.program[s.ip as int] == 45u8 && s.cell() == 0 ==> step_spec(cfg, s) == Transition::Step(
            MachineState { tape: s.tape.update(s.cursor as int, 255u8), ip: s.ip + 1, ..s },
        ),
{
}

/// The program that clears the current cell: a loop whose body decrements.
pub open spec fn clear_loop() -> Seq<u8> {
    seq![91u8, 45u8, 93u8]
}

/// One pass of the clearing loop, inside the body: from just after the loop
/// start with the cell holding `k >= 1`, the machine halts after exactly
/// `2 * k + 1` further steps (decrement and close per pass, then the final
/// halt observation), leaves the cell at 0 and everything else in place, and
/// emits nothing. With one step less it is still running.
proof fn lemma_clear_loop_body(cfg: Config, s: MachineState, k: u8)
    requires
        s.wf(),
        s.program == clear_loop(),
        s.ip == 1,
        s.stack == seq![0nat],
        s.cell() == k,
        k >= 1,
    ensures
        batch_run(cfg, s, Seq::empty(), Seq::empty(), (2 * k + 1) as nat) == (RunOutcome::Halted {
            state: MachineState {
                tape: s.tape.update(s.cursor as int, 0u8),
                ip: 3,
                stack: Seq::empty(),
                ..s
            },
            pending: Seq::<u8>::empty(),
            output: Seq::<u8>::empty(),
        }),
        batch_run(cfg, s, Seq::empty(), Seq::empty(), (2 * k) as nat) is Running,
    decreases k,
{
    let empty = Seq::<u8>::empty();
    let s2 = MachineState { tape: s.tape.update(s.cursor as int, wrap_dec(k)), ip: 2, ..s };
    assert(step_spec(cfg, s) == Transition::Step(s2));
    assert(s2.cell() == (k - 1) as u8);
    if k == 1 {
        let s3 = MachineState { stack: s2.stack.drop_last(), ip: 3, ..s2 };
        assert(step_spec(cfg, s2) == Transition::Step(s3));
        assert(step_spec(cfg, s3) == Transition::Halt);
        assert(batch_run(cfg, s, empty, empty, 3) == batch_run(cfg, s2, empty, empty, 2));
        assert(batch_run(cfg, s2, empty, empty, 2) == batch_run(cfg, s3, empty, empty, 1));
        assert(batch_run(cfg, s3, empty, empty, 1) == (RunOutcome::Halted {
            state: s3,
            pending: empty,
            output: empty,
        }));
        assert(s3 =~= (MachineState {
            tape: s.tape.update(s.cursor as int, 0u8),
            ip: 3,
            stack: Seq::empty(),
            ..s
        }));
        assert(batch_run(cfg, s, empty, empty, 2) == batch_run(cfg, s2, empty, empty, 1));
        assert(batch_run(cfg, s2, empty, empty, 1) == batch_run(cfg, s3, empty, empty, 0));
        assert(batch_run(cfg, s3, empty, empty, 0) is Running);
    } else {
        let s3 = MachineState { ip: (s2.stack.last() + 1) as nat, ..s2 };
        assert(s2.stack.last() == 0nat);
        assert(step_spec(cfg, s2) == Transition::Step(s3));
        assert(s3.ip == 1 && s3.cell() == (k - 1) as u8 && s3.stack == seq![0nat]);
        lemma_clear_loop_body(cfg, s3, (k - 1) as u8);
        assert(batch_run(cfg, s, empty, empty, (2 * k + 1) as nat) == batch_run(
            cfg,
            s2,
            empty,
            empty,
            (2 * k) as nat,
        ));
        assert(batch_run(cfg, s2, empty, empty, (2 * k) as nat) == batch_run(
            cfg,
            s3,
            empty,
            empty,
            (2 * (k - 1) + 1) as nat,
        ));
        assert(s3.tape.update(s3.cursor as int, 0u8) =~= s.tape.update(s.cursor as int, 0u8));
        assert((MachineState {
            tape: s3.tape.update(s3.cursor as int, 0u8),
            ip: 3,
            stack: Seq::empty(),
            ..s3
        }) =~= (MachineState {
            tape: s.tape.update(s.cursor as int, 0u8),
            ip: 3,
            stack: Seq::empty(),
            ..s
        }));
        assert(batch_run(cfg, s, empty, empty, (2 * k) as nat) == batch_run(
            cfg,
            s2,
            empty,
            empty,
            (2 * k - 1) as nat,
        ));
        assert(batch_run(cfg, s2, empty, empty, (2 * k - 1) as nat) == batch_run(
            cfg,
            s3,
            empty,
            empty,
            (2 * (k - 1)) as nat,
        ));
    }
}

/// Loop semantics of the clearing loop: run on a cell holding `v`, it emits
/// nothing and halts with that cell at 0 after exactly `v` passes of the body
/// (`2 * v + 2` small steps, the final halt observation included: with one
/// step less the machine is still running).
pub proof fn lemma_clear_loop_zeroes_cell(cfg: Config, s: MachineState, v: u8)
    requires
        s.wf(),
        s.program == clear_loop(),
        s.ip == 0,
        s.stack.len() == 0,
        s.cell() == v,
    ensures
        batch_run(cfg, s, Seq::empty(), Seq::empty(), (2 * v + 2) as nat) == (RunOutcome::Halted {
            state: MachineState { tape: s.tape.update(s.cursor as int, 0u8), ip: 3, ..s },
            pending: Seq::<u8>::empty(),
            output: Seq::<u8>::empty(),
        }),
        batch_run(cfg, s, Seq::empty(), Seq::empty(), (2 * v + 1) as nat) is Running,
{
    let empty = Seq::<u8>::empty();
    let p = clear_loop();
    assert(p[0] == 91u8 && p[1] == 45u8 && p[2] == 93u8 && p.len() == 3);
    if v == 0 {
        assert(crate::semantics::next_close(p, 2) == Some(2nat));
        assert(crate::semantics::next_close(p, 1) == Some(2nat));
        assert(crate::semantics::next_close(p, 0) == Some(2nat));
        let s1 = MachineState { ip: 3, ..s };
        assert(step_spec(cfg, s) == Transition::Step(s1));
        assert(step_spec(cfg, s1) == Transition::Halt);
        assert(batch_run(cfg, s, empty, empty, 2) == batch_run(cfg, s1, empty, empty, 1));
        assert(batch_run(cfg, s1, empty, empty, 1) == (RunOutcome::Halted {
            state: s1,
            pending: empty,
            output: empty,
        }));
        assert(s1 =~= (MachineState { tape: s.tape.update(s.cursor as int, 0u8), ip: 3, ..s }));
        assert(batch_run(cfg, s, empty, empty, 1) == batch_run(cfg, s1, empty, empty, 0));
    } else {
        let s1 = MachineState { stack: s.stack.push(s.ip), ip: 1, ..s };
        assert(step_spec(cfg, s) == Transition::Step(s1));
        assert(s1.stack =~= seq![0nat]);
        lemma_clear_loop_body(cfg, s1, v);
        assert(batch_run(cfg, s, empty, empty, (2 * v + 2) as nat) == batch_run(
            cfg,
            s1,
            empty,
            empty,
            (2 * v + 1) as nat,
        ));
        assert((MachineState {
            tape: s1.tape.update(s1.cursor as int, 0u8),
            ip: 3,
            stack: Seq::empty(),
            ..s1
        }) =~= (MachineState { tape: s.tape.update(s.cursor as int, 0u8), ip: 3, ..s }));
        assert(batch_run(cfg, s, empty, empty, (2 * v + 1) as nat) == batch_run(
            cfg,
            s1,
            empty,
            empty,
            (2 * v) as nat,
        ));
    }
}

/// A loop-closing instruction reached while no loop is open is fatal,
/// whatever the current cell holds and before anything further is emitted:
/// the machine does not move past it.
pub proof fn lemma_unmatched_close_faults(cfg: Config, s: MachineState)
    requires
        s.wf(),
        s.ip < s.program.len(),
        s.program[s.ip as int] == 93u8,
        s.stack.len() == 0,
    ensures
        step_spec(cfg, s) == Transition::Fault(Fault::UnmatchedClose),
{
}

/// Echo round trip: the two-instruction program that reads one byte and
/// writes it back, run on the single input byte `x`, halts with output
/// exactly `x` (and `x` stored in the current cell).
pub proof fn lemma_echo_round_trip(cfg: Config, s: MachineState, x: u8)
    requires
        s.wf(),
        cfg.allow_input,
        s.program == seq![44u8, 46u8],
        s.ip == 0,
    ensures
        batch_run(cfg, s, seq![x], Seq::empty(), 3) == (RunOutcome::Halted {
            state: MachineState { tape: s.tape.update(s.cursor as int, x), ip: 2, ..s },
            pending: Seq::<u8>::empty(),
            output: seq![x],
        }),
{
    let empty = Seq::<u8>::empty();
    assert(s.program[0] == 44u8 && s.program[1] == 46u8 && s.program.len() == 2);
    assert(step_spec(cfg, s) == Transition::Read);
    let sc = consume_input(s, x);
    assert(seq![x][0] == x);
    assert(seq![x].drop_first() =~= empty);
    assert(batch_run(cfg, s, seq![x], empty, 3) == batch_run(cfg, sc, empty, empty, 2));
    assert(sc.cell() == x);
    let s2 = MachineState { ip: 2, ..sc };
    assert(step_spec(cfg, sc) == Transition::Emit(s2, x));
    assert(empty.push(x) =~= seq![x]);
    assert(batch_run(cfg, sc, empty, empty, 2) == batch_run(cfg, s2, empty, seq![x], 1));
    assert(step_spec(cfg, s2) == Transition::Halt);
    assert(batch_run(cfg, s2, empty, seq![x], 1) == (RunOutcome::Halted {
        state: s2,
        pending: empty,
        output: seq![x],
    }));
    assert(s2 =~= (MachineState { tape: s.tape.update(s.cursor as int, x), ip: 2, ..s }));
}

/// The bytes the machine gives meaning to: the eight instructions and the
/// two line breaks it always skips.
pub open spec fn recognized(b: u8) -> bool {
    b == 62u8 || b == 60u8 || b == 43u8 || b == 45u8 || b == 46u8 || b == 44u8 || b == 91u8 || b
        == 93u8 || b == 10u8 || b == 13u8
}

/// Comment tolerance: on a byte outside the recognized set, the strict
/// policy faults, while the lenient policy skips the byte and changes
/// nothing else.
pub proof fn lemma_unknown_byte_policy(cfg: Config, s: MachineState)
    requires
        s.wf(),
        s.ip < s.program.len(),
        !recognized(s.program[s.ip as int]),
    ensures
        cfg.strict ==> step_spec(cfg, s) == Transition::Fault(Fault::UnexpectedByte),
        !cfg.strict ==> step_spec(cfg, s) == Transition::Step(
            MachineState { ip: s.ip + 1, ..s },
        ),
{
}

} // verus!
