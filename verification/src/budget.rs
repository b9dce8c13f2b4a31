//! How the end of a run depends on its cycle budget.

use vstd::prelude::*;
use crate::compiler::jumps_paired;
use crate::instruction::Instruction;
use crate::machine::{ExecutionOutcome, MachineState, HEAP_SIZE};
use crate::run::{lemma_ended_run_stays, outcome, output, state_after, RunState};

verus! {

/// The state `state` as it would be in a run with the budget `cycle_max`.
pub open spec fn with_budget(state: RunState, cycle_max: int) -> RunState {
    RunState { machine: MachineState { cycle_max, ..state.machine }, ..state }
}

/// The state after `cycles` cycles is the state in which the run had used
/// as many cycles as that state counts, and if it counts fewer than
/// `cycles` the run had ended there.
pub proof fn lemma_cycles_count_steps(
    program: Seq<Instruction>,
    cycle_max: int,
    input: Seq<u8>,
    cycles: nat,
)
    ensures
        ({
            let state = state_after(program, cycle_max, input, cycles);
            &&& 0 <= state.machine.cycles <= cycles
            &&& state.machine.cycle_max == cycle_max
            &&& state_after(program, cycle_max, input, state.machine.cycles as nat) == state
            &&& state.machine.cycles < cycles ==> !state.machine.running(program)
        }),
    decreases cycles,
{
    if cycles > 0 {
        lemma_cycles_count_steps(program, cycle_max, input, (cycles - 1) as nat);
    }
}

/// Two runs that differ in their budget only are in the same state, but for
/// the budget, as long as neither budget is used up.
pub proof fn lemma_budget_unseen_within(
    program: Seq<Instruction>,
    input: Seq<u8>,
    first: int,
    second: int,
    cycles: nat,
)
    requires
        cycles <= first,
        cycles <= second,
    ensures
        state_after(program, second, input, cycles) == with_budget(
            state_after(program, first, input, cycles),
            second,
        ),
    decreases cycles,
{
    if cycles > 0 {
        let before = (cycles - 1) as nat;
        lemma_budget_unseen_within(program, input, first, second, before);
        lemma_cycles_count_steps(program, first, input, before);
        lemma_cycles_count_steps(program, second, input, before);
    }
}

/// A run that completes does so after the same number of cycles, and with
/// the same output, under every budget above that number; under every
/// budget up to that number it is incomplete.
pub proof fn lemma_completion_ignores_budget(
    program: Seq<Instruction>,
    input: Seq<u8>,
    cycle_max: nat,
    other: nat,
)
    requires
        cycle_max <= usize::MAX,
        other <= usize::MAX,
        outcome(program, cycle_max, input) is Completed,
    ensures
        other > outcome(program, cycle_max, input)->Completed_0 ==> {
            &&& outcome(program, other, input) == outcome(program, cycle_max, input)
            &&& output(program, other, input) == output(program, cycle_max, input)
        },
        other <= outcome(program, cycle_max, input)->Completed_0 ==> outcome(program, other, input)
            == ExecutionOutcome::Incomplete(other as usize),
{
    let end = state_after(program, cycle_max as int, input, cycle_max);
    let used = end.machine.cycles as nat;
    lemma_cycles_count_steps(program, cycle_max as int, input, cycle_max);
    if other > used {
        lemma_budget_unseen_within(program, input, cycle_max as int, other as int, used);
        lemma_ended_run_stays(program, other as int, input, used, other);
    } else {
        lemma_cycles_count_steps(program, other as int, input, other);
        if outcome(program, other, input) is Completed {
            // Then the run with the first budget would complete as soon.
            let sooner = state_after(program, other as int, input, other).machine.cycles as nat;
            lemma_budget_unseen_within(program, input, other as int, cycle_max as int, sooner);
            lemma_ended_run_stays(program, cycle_max as int, input, sooner, cycle_max);
        }
    }
}

/// A run that has not left the program before its budget is used up is
/// incomplete, and has used the whole budget.
pub proof fn lemma_unended_run_is_incomplete(
    program: Seq<Instruction>,
    input: Seq<u8>,
    cycle_max: nat,
)
    requires
        cycle_max <= usize::MAX,
        forall|cycles: nat|
            cycles < cycle_max ==> !(#[trigger] state_after(
                program,
                cycle_max as int,
                input,
                cycles,
            )).machine.halted(program),
    ensures
        outcome(program, cycle_max, input) == ExecutionOutcome::Incomplete(cycle_max as usize),
        state_after(program, cycle_max as int, input, cycle_max).machine.cycles == cycle_max,
{
    lemma_cycles_count_steps(program, cycle_max as int, input, cycle_max);
}

/// No instruction of `program` is a jump.
pub open spec fn jump_free(program: Seq<Instruction>) -> bool {
    forall|i: int|
        0 <= i < program.len() ==> !((#[trigger] program[i]) is JumpAhead) && !(program[i] is JumpBack)
}

/// Without jumps the program counter counts the cycles.
pub proof fn lemma_jump_free_counter(
    program: Seq<Instruction>,
    input: Seq<u8>,
    cycle_max: nat,
    cycles: nat,
)
    requires
        jump_free(program),
        cycles <= cycle_max,
        cycles <= program.len(),
    ensures
        state_after(program, cycle_max as int, input, cycles).machine.program_counter == cycles,
        state_after(program, cycle_max as int, input, cycles).machine.cycles == cycles,
        state_after(program, cycle_max as int, input, cycles).machine.cycle_max == cycle_max,
    decreases cycles,
{
    if cycles > 0 {
        lemma_jump_free_counter(program, input, cycle_max, (cycles - 1) as nat);
    }
}

/// A program without jumps that is at least as long as the budget is
/// incomplete after the whole budget; a shorter one completes after as many
/// cycles as it has instructions.
pub proof fn lemma_jump_free_outcome(program: Seq<Instruction>, input: Seq<u8>, cycle_max: nat)
    requires
        jump_free(program),
        cycle_max <= usize::MAX,
    ensures
        outcome(program, cycle_max, input) == if program.len() >= cycle_max {
            ExecutionOutcome::Incomplete(cycle_max as usize)
        } else {
            ExecutionOutcome::Completed(program.len() as usize)
        },
{
    if program.len() >= cycle_max {
        lemma_jump_free_counter(program, input, cycle_max, cycle_max);
    } else {
        lemma_jump_free_counter(program, input, cycle_max, program.len());
        lemma_ended_run_stays(program, cycle_max as int, input, program.len(), cycle_max);
    }
}

/// No instruction of `program` changes a cell.
pub open spec fn leaves_cells(program: Seq<Instruction>) -> bool {
    forall|i: int|
        0 <= i < program.len() ==> {
            &&& (#[trigger] program[i]) != Instruction::IncreaseValue
            &&& program[i] != Instruction::DecreaseValue
            &&& program[i] != Instruction::Input
        }
}

/// Every `JumpAhead` of `program` points further on.
pub open spec fn jumps_ahead_go_forward(program: Seq<Instruction>) -> bool {
    forall|i: int|
        0 <= i < program.len() ==> ((#[trigger] program[i]) matches Instruction::JumpAhead(target)
            ==> target > i)
}

/// In a program whose jumps are paired every `JumpAhead` points further on.
pub proof fn lemma_paired_jumps_go_forward(program: Seq<Instruction>)
    requires
        jumps_paired(program),
    ensures
        jumps_ahead_go_forward(program),
{
}

/// While no cell is changed every cell stays zero, so every `JumpAhead` is
/// taken and no `JumpBack` is: the program counter grows in every cycle.
pub proof fn lemma_zero_tape_progress(
    program: Seq<Instruction>,
    input: Seq<u8>,
    cycle_max: nat,
    cycles: nat,
)
    requires
        leaves_cells(program),
        jumps_ahead_go_forward(program),
        cycles <= cycle_max,
    ensures
        ({
            let state = state_after(program, cycle_max as int, input, cycles);
            &&& state.machine.well_formed()
            &&& state.machine.cycle_max == cycle_max
            &&& forall|i: int| 0 <= i < HEAP_SIZE ==> state.machine.tape[i] == 0
            &&& state.machine.halted(program) || (state.machine.cycles == cycles
                && state.machine.program_counter >= cycles)
        }),
    decreases cycles,
{
    if cycles > 0 {
        lemma_zero_tape_progress(program, input, cycle_max, (cycles - 1) as nat);
    }
}

/// A program that changes no cell and whose `JumpAhead`s point further on
/// completes after at most as many cycles as it has instructions, under
/// every budget above that number.
pub proof fn lemma_zero_tape_program_completes(
    program: Seq<Instruction>,
    input: Seq<u8>,
    cycle_max: nat,
)
    requires
        leaves_cells(program),
        jumps_ahead_go_forward(program),
        program.len() < cycle_max <= usize::MAX,
    ensures
        outcome(program, cycle_max, input) is Completed,
        outcome(program, cycle_max, input)->Completed_0 <= program.len(),
{
    lemma_zero_tape_progress(program, input, cycle_max, program.len());
    lemma_cycles_count_steps(program, cycle_max as int, input, program.len());
    lemma_ended_run_stays(program, cycle_max as int, input, program.len(), cycle_max);
}

} // verus!
