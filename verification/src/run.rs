//! A whole run: a program executed on a fresh tape, with the input given
//! as a sequence of bytes and the output collected in one.

use vstd::prelude::*;
use crate::instruction::Instruction;
use crate::machine::{ExecutionOutcome, Interpreter, MachineState, Next};

verus! {

/// An interpreter together with its place in the input and the output
/// written so far.
pub struct RunState {
    /// The interpreter.
    pub machine: MachineState,
    /// The number of input bytes read so far.
    pub consumed: int,
    /// The bytes written so far.
    pub output: Seq<u8>,
}

/// The byte that a read stores when `consumed` bytes of `input` have been
/// read: the next byte, and 0 once the input is used up.
pub open spec fn next_input(input: Seq<u8>, consumed: int) -> u8 {
    if 0 <= consumed < input.len() {
        input[consumed]
    } else {
        0
    }
}

/// The state at the start of a run.
pub open spec fn start(cycle_max: int) -> RunState {
    RunState { machine: MachineState::initial(cycle_max), consumed: 0, output: Seq::empty() }
}

/// The state one cycle later. A run that has ended stays as it is.
pub open spec fn advance(program: Seq<Instruction>, input: Seq<u8>, state: RunState) -> RunState {
    RunState {
        machine: state.machine.step(program, next_input(input, state.consumed)),
        consumed: if state.machine.wants_input(program) && state.consumed < input.len() {
            state.consumed + 1
        } else {
            state.consumed
        },
        output: match state.machine.emits(program) {
            Some(byte) => state.output.push(byte),
            None => state.output,
        },
    }
}

/// The state of a run with budget `cycle_max` after `cycles` cycles.
pub open spec fn state_after(
    program: Seq<Instruction>,
    cycle_max: int,
    input: Seq<u8>,
    cycles: nat,
) -> RunState
    decreases cycles,
{
    if cycles == 0 {
        start(cycle_max)
    } else {
        advance(program, input, state_after(program, cycle_max, input, (cycles - 1) as nat))
    }
}

/// The outcome of a run that has ended in `machine`.
pub open spec fn outcome_of(program: Seq<Instruction>, machine: MachineState) -> ExecutionOutcome {
    if !machine.exhausted() && machine.halted(program) {
        ExecutionOutcome::Completed(machine.cycles as usize)
    } else {
        ExecutionOutcome::Incomplete(machine.cycle_max as usize)
    }
}

/// How the run of `program` with budget `cycle_max` on `input` ends.
pub open spec fn outcome(program: Seq<Instruction>, cycle_max: nat, input: Seq<u8>)
    -> ExecutionOutcome {
    outcome_of(program, state_after(program, cycle_max as int, input, cycle_max).machine)
}

/// What the run of `program` with budget `cycle_max` on `input` writes.
pub open spec fn output(program: Seq<Instruction>, cycle_max: nat, input: Seq<u8>) -> Seq<u8> {
    state_after(program, cycle_max as int, input, cycle_max).output
}

/// What a run leaves behind.
#[derive(Debug)]
pub struct RunReport {
    /// How the run ended.
    pub outcome: ExecutionOutcome,
    /// The bytes written, in order.
    pub output: Vec<u8>,
}

/// Every state of a run is well formed: the pointer is on the tape, the
/// place in the input is within it, and no more cycles are used than have
/// passed or than the budget allows.
pub proof fn lemma_run_stays_well_formed(
    program: Seq<Instruction>,
    cycle_max: nat,
    input: Seq<u8>,
    cycles: nat,
)
    ensures
        ({
            let state = state_after(program, cycle_max as int, input, cycles);
            &&& state.machine.well_formed()
            &&& state.machine.cycle_max == cycle_max
            &&& state.machine.cycles <= cycles
            &&& 0 <= state.consumed <= input.len()
        }),
    decreases cycles,
{
    if cycles > 0 {
        lemma_run_stays_well_formed(program, cycle_max, input, (cycles - 1) as nat);
    }
}

/// A run that has ended does not change any more.
pub proof fn lemma_ended_run_stays(
    program: Seq<Instruction>,
    cycle_max: int,
    input: Seq<u8>,
    ended: nat,
    later: nat,
)
    requires
        ended <= later,
        !state_after(program, cycle_max, input, ended).machine.running(program),
    ensures
        state_after(program, cycle_max, input, later) == state_after(
            program,
            cycle_max,
            input,
            ended,
        ),
    decreases later,
{
    if ended < later {
        lemma_ended_run_stays(program, cycle_max, input, ended, (later - 1) as nat);
    }
}

/// Runs `program` on a fresh tape for at most `cycle_max` cycles.
///
/// Each read takes the next byte of `input`; once the input is used up a
/// read stores 0. The report holds the bytes written and tells whether the
/// program counter left the program within the budget, and after how many
/// cycles, or the budget ran out first.
pub fn run(program: &[Instruction], cycle_max: usize, input: &[u8]) -> (report: RunReport)
    ensures
        report.outcome == outcome(program@, cycle_max as nat, input@),
        report.output@ == output(program@, cycle_max as nat, input@),
        report.outcome matches ExecutionOutcome::Completed(cycles) ==> cycles < cycle_max,
        report.outcome matches ExecutionOutcome::Incomplete(cycles) ==> cycles == cycle_max,
{
    let mut interpreter = Interpreter::new(cycle_max);
    let mut written: Vec<u8> = Vec::new();
    let mut consumed: usize = 0;
    loop
        invariant
            interpreter@.well_formed(),
            interpreter@.cycle_max == cycle_max,
            consumed <= input.len(),
            state_after(program@, cycle_max as int, input@, interpreter@.cycles as nat) == (RunState {
                machine: interpreter@,
                consumed: consumed as int,
                output: written@,
            }),
        decreases cycle_max - interpreter@.cycles,
    {
        let ghost before = state_after(
            program@,
            cycle_max as int,
            input@,
            interpreter@.cycles as nat,
        );
        match interpreter.next(program) {
            Next::Stop(outcome) => {
                proof {
                    lemma_ended_run_stays(
                        program@,
                        cycle_max as int,
                        input@,
                        interpreter@.cycles as nat,
                        cycle_max as nat,
                    );
                }
                return RunReport { outcome, output: written };
            },
            Next::ReadInput => {
                let byte = if consumed < input.len() {
                    consumed = consumed + 1;
                    input[consumed - 1]
                } else {
                    0
                };
                interpreter.step(program, byte);
            },
            Next::Execute => {
                if let Some(byte) = interpreter.step(program, 0) {
                    written.push(byte);
                }
            },
        }
        assert(state_after(program@, cycle_max as int, input@, interpreter@.cycles as nat)
            == advance(program@, input@, before));
    }
}

} // verus!
