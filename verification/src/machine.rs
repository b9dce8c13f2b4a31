//! The interpreter: a tape of byte cells, a pointer into it, a program
//! counter and a cycle counter, advanced one instruction at a time.

use vstd::prelude::*;
use crate::instruction::Instruction;

verus! {

/// The number of cells of the tape.
pub const HEAP_SIZE: usize = 30000;

/// The pointer after a move forward: one further, and from the last cell
/// back to the first.
pub open spec fn pointer_after_forward(pointer: int) -> int {
    (pointer + 1) % (HEAP_SIZE as int)
}

/// The pointer after a move backward: one back, and from the first cell on
/// to the last.
pub open spec fn pointer_after_backward(pointer: int) -> int {
    (pointer - 1) % (HEAP_SIZE as int)
}

/// A cell after an increase: one more, and 0 after 255.
pub open spec fn cell_after_increase(value: u8) -> u8 {
    ((value + 1) % 256) as u8
}

/// A cell after a decrease: one less, and 255 after 0.
pub open spec fn cell_after_decrease(value: u8) -> u8 {
    ((value - 1) % 256) as u8
}

/// Moving the pointer keeps it on the tape and wraps at both ends: forward
/// from the last cell is the first cell, backward from the first cell is the
/// last, and each move undoes the other.
pub proof fn lemma_pointer_wraps(pointer: int)
    requires
        0 <= pointer < HEAP_SIZE,
    ensures
        0 <= pointer_after_forward(pointer) < HEAP_SIZE,
        0 <= pointer_after_backward(pointer) < HEAP_SIZE,
        pointer_after_forward(pointer) == if pointer == HEAP_SIZE - 1 {
            0
        } else {
            pointer + 1
        },
        pointer_after_backward(pointer) == if pointer == 0 {
            HEAP_SIZE - 1
        } else {
            pointer - 1
        },
        pointer_after_backward(pointer_after_forward(pointer)) == pointer,
        pointer_after_forward(pointer_after_backward(pointer)) == pointer,
{
}

/// Cell arithmetic wraps: 255 increased is 0, 0 decreased is 255, and each
/// operation undoes the other.
pub proof fn lemma_cell_wraps(value: u8)
    ensures
        cell_after_increase(value) == if value == 255 {
            0
        } else {
            value + 1
        },
        cell_after_decrease(value) == if value == 0 {
            255
        } else {
            value - 1
        },
        cell_after_decrease(cell_after_increase(value)) == value,
        cell_after_increase(cell_after_decrease(value)) == value,
{
}

/// Moves a pointer one cell forward, wrapping at the end of the tape.
pub fn move_forward(pointer: usize) -> (moved: usize)
    requires
        pointer < HEAP_SIZE,
    ensures
        moved == pointer_after_forward(pointer as int),
        moved < HEAP_SIZE,
{
    (pointer + 1) % HEAP_SIZE
}

/// Moves a pointer one cell backward, wrapping at the start of the tape.
pub fn move_backward(pointer: usize) -> (moved: usize)
    requires
        pointer < HEAP_SIZE,
    ensures
        moved == pointer_after_backward(pointer as int),
        moved < HEAP_SIZE,
{
    match pointer.checked_sub(1) {
        Some(moved) => moved,
        None => HEAP_SIZE - 1,
    }
}

/// Adds one to a cell, wrapping from 255 to 0.
pub fn increase(value: u8) -> (increased: u8)
    ensures
        increased == cell_after_increase(value),
{
    value.wrapping_add(1)
}

/// Subtracts one from a cell, wrapping from 0 to 255.
pub fn decrease(value: u8) -> (decreased: u8)
    ensures
        decreased == cell_after_decrease(value),
{
    value.wrapping_sub(1)
}

/// How a run ended.
#[derive(Clone, Copy, Debug, PartialEq, Eq, Structural)]
pub enum ExecutionOutcome {
    /// The program counter left the program after this many cycles.
    Completed(usize),
    /// The cycle budget, which is the number given, ran out first.
    Incomplete(usize),
}

impl ExecutionOutcome {
    /// The number of instructions that were executed.
    pub open spec fn spec_cycles_used(self) -> usize {
        match self {
            ExecutionOutcome::Completed(cycles) => cycles,
            ExecutionOutcome::Incomplete(cycles) => cycles,
        }
    }

    /// The number of cycles that a report of the run names: for a completed
    /// run the cycle in which the end of the program was found counts too.
    pub open spec fn spec_reported_cycles(self) -> int {
        match self {
            ExecutionOutcome::Completed(cycles) => cycles + 1,
            ExecutionOutcome::Incomplete(cycles) => cycles as int,
        }
    }

    /// Whether the program counter left the program within the budget.
    pub fn is_completed(self) -> (completed: bool)
        ensures
            completed == (self is Completed),
    {
        match self {
            ExecutionOutcome::Completed(_) => true,
            ExecutionOutcome::Incomplete(_) => false,
        }
    }

    /// The number of instructions that were executed.
    #[verifier::when_used_as_spec(spec_cycles_used)]
    pub fn cycles_used(self) -> (cycles: usize)
        ensures
            cycles == self.spec_cycles_used(),
    {
        match self {
            ExecutionOutcome::Completed(cycles) => cycles,
            ExecutionOutcome::Incomplete(cycles) => cycles,
        }
    }

    /// The number of cycles to name in a report of the run: one more than
    /// were used if the run completed, and the budget if it did not.
    pub fn reported_cycles(self) -> (cycles: usize)
        requires
            self.spec_reported_cycles() <= usize::MAX,
        ensures
            cycles == self.spec_reported_cycles(),
    {
        match self {
            ExecutionOutcome::Completed(cycles) => cycles + 1,
            ExecutionOutcome::Incomplete(cycles) => cycles,
        }
    }
}

/// What the interpreter is about to do.
#[derive(Clone, Copy, Debug, PartialEq, Eq, Structural)]
pub enum Next {
    /// Execute an instruction that needs no input.
    Execute,
    /// Execute an instruction that reads one byte of input.
    ReadInput,
    /// Nothing more: the run has ended.
    Stop(ExecutionOutcome),
}

/// The state of an interpreter as mathematics.
pub struct MachineState {
    /// The cells of the tape.
    pub tape: Seq<u8>,
    /// The index of the addressed cell.
    pub pointer: int,
    /// The index of the next instruction.
    pub program_counter: int,
    /// The number of instructions executed so far.
    pub cycles: int,
    /// The number of instructions that may be executed at most.
    pub cycle_max: int,
}

impl MachineState {
    /// The tape has its fixed length, the pointer is on it, and no more
    /// cycles were used than the budget allows.
    pub open spec fn well_formed(self) -> bool {
        &&& self.tape.len() == HEAP_SIZE
        &&& 0 <= self.pointer < HEAP_SIZE
        &&& 0 <= self.program_counter
        &&& 0 <= self.cycles <= self.cycle_max
    }

    /// The state at the start of a run: all cells zero, pointer and program
    /// counter at 0, no cycle used.
    pub open spec fn initial(cycle_max: int) -> MachineState {
        MachineState {
            tape: Seq::new(HEAP_SIZE as nat, |i: int| 0u8),
            pointer: 0,
            program_counter: 0,
            cycles: 0,
            cycle_max,
        }
    }

    /// The value of the addressed cell.
    pub open spec fn cell(self) -> u8 {
        self.tape[self.pointer]
    }

    /// The program counter is outside the program.
    pub open spec fn halted(self, program: Seq<Instruction>) -> bool {
        self.program_counter >= program.len()
    }

    /// The cycle budget is used up.
    pub open spec fn exhausted(self) -> bool {
        self.cycles >= self.cycle_max
    }

    /// There is an instruction to execute and a cycle left to execute it in.
    pub open spec fn running(self, program: Seq<Instruction>) -> bool {
        !self.exhausted() && !self.halted(program)
    }

    /// What the interpreter does next in this state. The budget is looked at
    /// first: a run that has used it up is incomplete, wherever its program
    /// counter stands.
    pub open spec fn next(self, program: Seq<Instruction>) -> Next {
        if self.exhausted() {
            Next::Stop(ExecutionOutcome::Incomplete(self.cycle_max as usize))
        } else if self.halted(program) {
            Next::Stop(ExecutionOutcome::Completed(self.cycles as usize))
        } else if program[self.program_counter] == Instruction::Input {
            Next::ReadInput
        } else {
            Next::Execute
        }
    }

    /// The state after executing `instruction`, with `input` as the byte
    /// read if it reads one. A jump that is taken sets the program counter
    /// to its target, which is executed in the next cycle; every other
    /// instruction moves the program counter on by one.
    pub open spec fn apply(self, instruction: Instruction, input: u8) -> MachineState {
        let moved_on = MachineState {
            program_counter: self.program_counter + 1,
            cycles: self.cycles + 1,
            ..self
        };
        match instruction {
            Instruction::IncrementPointer => MachineState {
                pointer: pointer_after_forward(self.pointer),
                ..moved_on
            },
            Instruction::DecrementPointer => MachineState {
                pointer: pointer_after_backward(self.pointer),
                ..moved_on
            },
            Instruction::IncreaseValue => MachineState {
                tape: self.tape.update(self.pointer, cell_after_increase(self.cell())),
                ..moved_on
            },
            Instruction::DecreaseValue => MachineState {
                tape: self.tape.update(self.pointer, cell_after_decrease(self.cell())),
                ..moved_on
            },
            Instruction::Output => moved_on,
            Instruction::Input => MachineState {
                tape: self.tape.update(self.pointer, input),
                ..moved_on
            },
            Instruction::JumpAhead(target) => if self.cell() == 0 {
                MachineState { program_counter: target as int, ..moved_on }
            } else {
                moved_on
            },
            Instruction::JumpBack(target) => if self.cell() != 0 {
                MachineState { program_counter: target as int, ..moved_on }
            } else {
                moved_on
            },
        }
    }

    /// The state one cycle later: the instruction at the program counter
    /// applied while the run goes on, and the same state once it has ended.
    pub open spec fn step(self, program: Seq<Instruction>, input: u8) -> MachineState {
        if self.running(program) {
            self.apply(program[self.program_counter], input)
        } else {
            self
        }
    }

    /// The byte that the next cycle writes to the output, if it writes one.
    pub open spec fn emits(self, program: Seq<Instruction>) -> Option<u8> {
        if self.running(program) && program[self.program_counter] == Instruction::Output {
            Some(self.cell())
        } else {
            None
        }
    }

    /// The next cycle reads a byte of input.
    pub open spec fn wants_input(self, program: Seq<Instruction>) -> bool {
        self.running(program) && program[self.program_counter] == Instruction::Input
    }
}

/// An interpreter in the middle of a run.
pub struct Interpreter {
    heap: [u8; HEAP_SIZE],
    pointer: usize,
    program_counter: usize,
    cycles: usize,
    cycle_max: usize,
}

impl View for Interpreter {
    type V = MachineState;

    closed spec fn view(&self) -> MachineState {
        MachineState {
            tape: self.heap@,
            pointer: self.pointer as int,
            program_counter: self.program_counter as int,
            cycles: self.cycles as int,
            cycle_max: self.cycle_max as int,
        }
    }
}

impl Interpreter {
    #[verifier::type_invariant]
    spec fn valid(self) -> bool {
        self.pointer < HEAP_SIZE && self.cycles <= self.cycle_max
    }

    /// An interpreter at the start of a run of at most `cycle_max` cycles.
    pub fn new(cycle_max: usize) -> (interpreter: Interpreter)
        ensures
            interpreter@ == MachineState::initial(cycle_max as int),
            interpreter@.well_formed(),
    {
        let interpreter = Interpreter {
            heap: [0u8; HEAP_SIZE],
            pointer: 0,
            program_counter: 0,
            cycles: 0,
            cycle_max,
        };
        assert(interpreter.heap@ =~= Seq::new(HEAP_SIZE as nat, |i: int| 0u8));
        interpreter
    }

    /// Tells what the interpreter does next: stop, with the outcome of the
    /// run, or execute an instruction, with or without a byte of input.
    pub fn next(&self, program: &[Instruction]) -> (next: Next)
        ensures
            next == self@.next(program@),
            self@.well_formed(),
    {
        proof {
            use_type_invariant(self);
        }
        if self.cycles >= self.cycle_max {
            Next::Stop(ExecutionOutcome::Incomplete(self.cycle_max))
        } else if self.program_counter >= program.len() {
            Next::Stop(ExecutionOutcome::Completed(self.cycles))
        } else {
            match program[self.program_counter] {
                Instruction::Input => Next::ReadInput,
                _ => Next::Execute,
            }
        }
    }

    /// Executes one instruction and returns the byte it writes to the
    /// output, if it writes one. `input` is the byte that is stored if the
    /// instruction reads one, and is ignored otherwise. Once the run has
    /// ended nothing changes any more.
    pub fn step(&mut self, program: &[Instruction], input: u8) -> (output: Option<u8>)
        ensures
            final(self)@ == old(self)@.step(program@, input),
            output == old(self)@.emits(program@),
            final(self)@.well_formed(),
    {
        proof {
            use_type_invariant(&*self);
        }
        if self.cycles >= self.cycle_max || self.program_counter >= program.len() {
            return None;
        }
        let mut output: Option<u8> = None;
        let mut jump: Option<usize> = None;
        match program[self.program_counter] {
            Instruction::IncrementPointer => {
                self.pointer = move_forward(self.pointer);
            },
            Instruction::DecrementPointer => {
                self.pointer = move_backward(self.pointer);
            },
            Instruction::IncreaseValue => {
                self.heap[self.pointer] = increase(self.heap[self.pointer]);
            },
            Instruction::DecreaseValue => {
                self.heap[self.pointer] = decrease(self.heap[self.pointer]);
            },
            Instruction::Output => {
                output = Some(self.heap[self.pointer]);
            },
            Instruction::Input => {
                self.heap[self.pointer] = input;
            },
            Instruction::JumpAhead(jump_index) => {
                if self.heap[self.pointer] == 0 {
                    jump = Some(jump_index);
                }
            },
            Instruction::JumpBack(jump_index) => {
                if self.heap[self.pointer] != 0 {
                    jump = Some(jump_index);
                }
            },
        }
        self.program_counter = match jump {
            Some(jump_index) => jump_index,
            None => self.program_counter + 1,
        };
        self.cycles = self.cycles + 1;
        output
    }

    /// The index of the addressed cell.
    pub fn pointer(&self) -> (pointer: usize)
        ensures
            pointer == self@.pointer,
            pointer < HEAP_SIZE,
    {
        proof {
            use_type_invariant(self);
        }
        self.pointer
    }

    /// The value of the addressed cell.
    pub fn cell(&self) -> (value: u8)
        ensures
            value == self@.cell(),
    {
        proof {
            use_type_invariant(self);
        }
        self.heap[self.pointer]
    }

    /// The index of the next instruction.
    pub fn program_counter(&self) -> (program_counter: usize)
        ensures
            program_counter == self@.program_counter,
    {
        self.program_counter
    }

    /// The number of instructions executed so far.
    pub fn cycles(&self) -> (cycles: usize)
        ensures
            cycles == self@.cycles,
            cycles <= self@.cycle_max,
    {
        proof {
            use_type_invariant(self);
        }
        self.cycles
    }
}

} // verus!
