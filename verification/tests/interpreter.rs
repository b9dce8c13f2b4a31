use tape_machine::compiler::parse_instructions;
use tape_machine::instruction::Instruction;
use tape_machine::machine::{
    decrease, increase, move_backward, move_forward, ExecutionOutcome, Interpreter, Next,
    HEAP_SIZE,
};
use tape_machine::run::run;

fn compile(source: &str) -> Vec<Instruction> {
    parse_instructions(source).unwrap()
}

#[test]
fn two_increments_and_a_write() {
    let report = run(&compile("++."), 1000, &[]);
    assert_eq!(report.output, vec![2]);
    assert_eq!(report.outcome, ExecutionOutcome::Completed(3));
    assert_eq!(report.outcome.cycles_used(), 3);
}

#[test]
fn loop_moves_the_counter_to_the_next_cell() {
    let report = run(&compile(",[>+<-]>."), 1000, &[5]);
    assert_eq!(report.output, vec![5]);
    assert!(report.outcome.is_completed());
    // One read, the loop entered once, five passes of five instructions,
    // four returns to the `[`, and the move and write after the loop.
    assert_eq!(report.outcome, ExecutionOutcome::Completed(1 + 1 + 5 * 5 + 4 + 2));
}

#[test]
fn empty_loop_on_a_zero_cell_is_left_at_once() {
    // The `[` jumps to its `]`, which is executed in the second cycle and
    // falls through.
    let report = run(&compile("[]"), 1000, &[]);
    assert!(report.output.is_empty());
    assert_eq!(report.outcome, ExecutionOutcome::Completed(2));
}

#[test]
fn a_taken_jump_lands_on_its_target() {
    let program = compile("[]");
    let mut interpreter = Interpreter::new(10);
    assert_eq!(interpreter.step(&program, 0), None);
    assert_eq!(interpreter.program_counter(), 1);
    assert_eq!(interpreter.step(&program, 0), None);
    assert_eq!(interpreter.program_counter(), 2);
    assert_eq!(interpreter.next(&program), Next::Stop(ExecutionOutcome::Completed(2)));
}

#[test]
fn a_jump_back_lands_on_the_open_bracket() {
    let program = compile("+[-]");
    let mut interpreter = Interpreter::new(100);
    interpreter.step(&program, 0);
    interpreter.step(&program, 0);
    assert_eq!(interpreter.program_counter(), 2);
    interpreter.step(&program, 0);
    assert_eq!(interpreter.cell(), 0);
    assert_eq!(interpreter.program_counter(), 3);
    // The cell is zero: the `]` is not taken.
    interpreter.step(&program, 0);
    assert_eq!(interpreter.program_counter(), 4);

    let program = compile("++[-]");
    let mut interpreter = Interpreter::new(100);
    for _ in 0..4 {
        interpreter.step(&program, 0);
    }
    assert_eq!(interpreter.cell(), 1);
    assert_eq!(interpreter.program_counter(), 4);
    // The cell is not zero: the `]` jumps to the `[` at 2.
    interpreter.step(&program, 0);
    assert_eq!(interpreter.program_counter(), 2);
    assert_eq!(interpreter.cycles(), 5);
}

#[test]
fn zero_budget_does_no_work() {
    let report = run(&compile("++."), 0, &[]);
    assert!(report.output.is_empty());
    assert_eq!(report.outcome, ExecutionOutcome::Incomplete(0));

    let report = run(&[], 0, &[]);
    assert_eq!(report.outcome, ExecutionOutcome::Incomplete(0));
}

#[test]
fn empty_program_completes_without_a_cycle() {
    let report = run(&[], 1, &[]);
    assert_eq!(report.outcome, ExecutionOutcome::Completed(0));
    assert!(report.output.is_empty());
}

#[test]
fn the_end_of_the_program_is_found_in_a_cycle_of_its_own() {
    // Three instructions fit in a budget of three, but the end is only
    // found at the start of a fourth cycle.
    let report = run(&compile("++."), 3, &[]);
    assert_eq!(report.output, vec![2]);
    assert_eq!(report.outcome, ExecutionOutcome::Incomplete(3));

    let report = run(&compile("++."), 4, &[]);
    assert_eq!(report.output, vec![2]);
    assert_eq!(report.outcome, ExecutionOutcome::Completed(3));
}

#[test]
fn program_longer_than_the_budget_is_incomplete() {
    let report = run(&compile("+.+.+.+.+."), 4, &[]);
    assert_eq!(report.output, vec![1, 2]);
    assert_eq!(report.outcome, ExecutionOutcome::Incomplete(4));
    assert_eq!(report.outcome.cycles_used(), 4);
}

#[test]
fn endless_loop_uses_the_whole_budget() {
    let report = run(&compile("+[]"), 50, &[]);
    assert_eq!(report.outcome, ExecutionOutcome::Incomplete(50));
    let report = run(&compile("+[.]"), 7, &[]);
    assert_eq!(report.outcome, ExecutionOutcome::Incomplete(7));
    assert_eq!(report.output, vec![1, 1]);
}

#[test]
fn completion_does_not_depend_on_the_budget() {
    let program = compile(",[>+<-]>.");
    let first = run(&program, 34, &[5]);
    assert_eq!(first.outcome, ExecutionOutcome::Completed(33));
    for budget in [35, 100, 1000, usize::MAX] {
        let report = run(&program, budget, &[5]);
        assert_eq!(report.outcome, first.outcome);
        assert_eq!(report.output, first.output);
    }
    for budget in [0, 1, 20, 33] {
        let report = run(&program, budget, &[5]);
        assert_eq!(report.outcome, ExecutionOutcome::Incomplete(budget));
    }
}

#[test]
fn program_that_changes_no_cell_skips_every_loop() {
    let program = compile("[>[<.]>]<.[[.]]>.");
    assert_eq!(program.len(), 17);
    let report = run(&program, program.len() + 1, &[]);
    assert_eq!(report.output, vec![0, 0]);
    // `[`, its `]`, `<`, `.`, `[`, its `]`, `>`, `.`.
    assert_eq!(report.outcome, ExecutionOutcome::Completed(8));
    assert_eq!(run(&program, 1000, &[]).outcome, ExecutionOutcome::Completed(8));
}

#[test]
fn pointer_wraps_backward_from_the_first_cell() {
    assert_eq!(move_backward(0), HEAP_SIZE - 1);
    assert_eq!(move_backward(1), 0);
    assert_eq!(move_backward(HEAP_SIZE - 1), HEAP_SIZE - 2);

    let program = compile("<");
    let mut interpreter = Interpreter::new(10);
    assert_eq!(interpreter.pointer(), 0);
    interpreter.step(&program, 0);
    assert_eq!(interpreter.pointer(), 29999);
}

#[test]
fn pointer_wraps_forward_from_the_last_cell() {
    assert_eq!(move_forward(HEAP_SIZE - 1), 0);
    assert_eq!(move_forward(0), 1);
    assert_eq!(move_forward(HEAP_SIZE - 2), HEAP_SIZE - 1);

    let program = compile("<>");
    let mut interpreter = Interpreter::new(10);
    interpreter.step(&program, 0);
    interpreter.step(&program, 0);
    assert_eq!(interpreter.pointer(), 0);
}

#[test]
fn the_cell_before_the_first_is_the_last() {
    // Mark the last cell, come back to the first, then go to the last again.
    let report = run(&compile("<+>.<."), 1000, &[]);
    assert_eq!(report.output, vec![0, 1]);

    let source = format!("+{}.", ">".repeat(HEAP_SIZE));
    let report = run(&compile(&source), usize::MAX, &[]);
    assert_eq!(report.output, vec![1]);
    assert_eq!(report.outcome, ExecutionOutcome::Completed(HEAP_SIZE + 2));
}

#[test]
fn cell_wraps_from_255_to_0() {
    assert_eq!(increase(255), 0);
    assert_eq!(increase(0), 1);
    assert_eq!(increase(254), 255);

    let source = format!("{}.+.", "+".repeat(255));
    let report = run(&compile(&source), 1000, &[]);
    assert_eq!(report.output, vec![255, 0]);
}

#[test]
fn cell_wraps_from_0_to_255() {
    assert_eq!(decrease(0), 255);
    assert_eq!(decrease(1), 0);
    assert_eq!(decrease(255), 254);

    let report = run(&compile("-.-."), 1000, &[]);
    assert_eq!(report.output, vec![255, 254]);
}

#[test]
fn a_read_overwrites_the_cell() {
    let report = run(&compile("+++,.,."), 1000, &[200, 0]);
    assert_eq!(report.output, vec![200, 0]);
    assert_eq!(report.outcome, ExecutionOutcome::Completed(7));
}

#[test]
fn input_is_read_in_order() {
    let report = run(&compile(",>,>,<<.>.>."), 1000, &[10, 20, 30]);
    assert_eq!(report.output, vec![10, 20, 30]);
}

#[test]
fn a_read_past_the_end_of_the_input_stores_zero() {
    let report = run(&compile("+,."), 1000, &[]);
    assert_eq!(report.output, vec![0]);
    let report = run(&compile(",.+,."), 1000, &[7]);
    assert_eq!(report.output, vec![7, 0]);
    assert_eq!(report.outcome, ExecutionOutcome::Completed(5));
}

#[test]
fn unread_input_is_left_alone() {
    let report = run(&compile(",."), 1000, &[1, 2, 3]);
    assert_eq!(report.output, vec![1]);
}

#[test]
fn a_write_does_not_change_the_cell() {
    let report = run(&compile("+..+."), 1000, &[]);
    assert_eq!(report.output, vec![1, 1, 2]);
}

#[test]
fn jump_ahead_is_not_taken_on_a_nonzero_cell() {
    let report = run(&compile("+[.-]"), 1000, &[]);
    assert_eq!(report.output, vec![1]);
    // `+`, `[`, `.`, `-`, `]`.
    assert_eq!(report.outcome, ExecutionOutcome::Completed(5));
}

#[test]
fn a_jump_past_the_program_completes_the_run() {
    let program = vec![Instruction::JumpAhead(10), Instruction::Output];
    let report = run(&program, 1000, &[]);
    assert!(report.output.is_empty());
    assert_eq!(report.outcome, ExecutionOutcome::Completed(1));
}

#[test]
fn a_new_interpreter_is_at_the_start() {
    let interpreter = Interpreter::new(1000);
    assert_eq!(interpreter.pointer(), 0);
    assert_eq!(interpreter.cell(), 0);
    assert_eq!(interpreter.program_counter(), 0);
    assert_eq!(interpreter.cycles(), 0);
}

#[test]
fn next_tells_what_the_interpreter_is_about_to_do() {
    let program = compile("+,");
    let mut interpreter = Interpreter::new(1000);
    assert_eq!(interpreter.next(&program), Next::Execute);
    interpreter.step(&program, 0);
    assert_eq!(interpreter.next(&program), Next::ReadInput);
    interpreter.step(&program, 9);
    assert_eq!(interpreter.cell(), 9);
    assert_eq!(interpreter.next(&program), Next::Stop(ExecutionOutcome::Completed(2)));
}

#[test]
fn next_stops_when_the_budget_is_used_up() {
    let program = compile("+++");
    let mut interpreter = Interpreter::new(2);
    interpreter.step(&program, 0);
    assert_eq!(interpreter.next(&program), Next::Execute);
    interpreter.step(&program, 0);
    assert_eq!(interpreter.next(&program), Next::Stop(ExecutionOutcome::Incomplete(2)));
    assert_eq!(Interpreter::new(0).next(&program), Next::Stop(ExecutionOutcome::Incomplete(0)));
}

#[test]
fn step_gives_the_byte_written() {
    let program = compile("+.");
    let mut interpreter = Interpreter::new(1000);
    assert_eq!(interpreter.step(&program, 0), None);
    assert_eq!(interpreter.step(&program, 0), Some(1));
    assert_eq!(interpreter.cycles(), 2);
}

#[test]
fn step_ignores_the_input_unless_it_reads() {
    let program = compile("+.");
    let mut interpreter = Interpreter::new(1000);
    interpreter.step(&program, 77);
    assert_eq!(interpreter.cell(), 1);
    assert_eq!(interpreter.step(&program, 77), Some(1));
}

#[test]
fn an_ended_run_does_not_change_any_more() {
    let program = compile("+.");
    let mut interpreter = Interpreter::new(1000);
    interpreter.step(&program, 0);
    interpreter.step(&program, 0);
    assert_eq!(interpreter.step(&program, 5), None);
    assert_eq!(interpreter.cycles(), 2);
    assert_eq!(interpreter.program_counter(), 2);
    assert_eq!(interpreter.cell(), 1);

    let program = compile("+.+.");
    let mut interpreter = Interpreter::new(2);
    interpreter.step(&program, 0);
    interpreter.step(&program, 0);
    assert_eq!(interpreter.step(&program, 0), None);
    assert_eq!(interpreter.cycles(), 2);
    assert_eq!(interpreter.program_counter(), 2);
}

#[test]
fn stepping_by_hand_agrees_with_a_run() {
    let program = compile(",[>+<-]>.");
    let mut interpreter = Interpreter::new(1000);
    let mut output = Vec::new();
    let outcome = loop {
        match interpreter.next(&program) {
            Next::Stop(outcome) => break outcome,
            Next::ReadInput => {
                interpreter.step(&program, 5);
            }
            Next::Execute => {
                if let Some(byte) = interpreter.step(&program, 0) {
                    output.push(byte);
                }
            }
        }
    };
    let report = run(&program, 1000, &[5]);
    assert_eq!(outcome, report.outcome);
    assert_eq!(output, report.output);
}

#[test]
fn a_report_names_one_cycle_more_for_a_completed_run() {
    assert_eq!(ExecutionOutcome::Completed(3).reported_cycles(), 4);
    assert_eq!(ExecutionOutcome::Completed(0).reported_cycles(), 1);
    assert_eq!(ExecutionOutcome::Incomplete(1000).reported_cycles(), 1000);
    assert_eq!(ExecutionOutcome::Incomplete(0).reported_cycles(), 0);
    assert_eq!(run(&compile("++."), 1000, &[]).outcome.reported_cycles(), 4);
    assert_eq!(run(&compile("+[]"), 1000, &[]).outcome.reported_cycles(), 1000);
}

#[test]
fn cycles_used_and_is_completed_read_the_outcome() {
    assert_eq!(ExecutionOutcome::Completed(12).cycles_used(), 12);
    assert_eq!(ExecutionOutcome::Incomplete(40).cycles_used(), 40);
    assert!(ExecutionOutcome::Completed(12).is_completed());
    assert!(!ExecutionOutcome::Incomplete(40).is_completed());
}
