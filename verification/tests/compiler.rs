use tape_machine::compiler::{parse_instructions, CompileError};
use tape_machine::instruction::Instruction;

#[test]
fn valid_char_accepts_the_eight_instruction_characters() {
    for c in ['>', '<', '+', '-', '.', ',', '[', ']'] {
        assert!(Instruction::valid_char(&c), "{c:?} denotes an instruction");
    }
}

#[test]
fn valid_char_rejects_everything_else() {
    for c in ['a', 'Z', '0', ' ', '\n', '\t', '(', ')', '{', '}', '=', '/', '\u{e9}', '\u{1f600}'] {
        assert!(!Instruction::valid_char(&c), "{c:?} is a comment");
    }
}

#[test]
fn each_character_becomes_its_instruction() {
    assert_eq!(
        parse_instructions("><+-.,"),
        Ok(vec![
            Instruction::IncrementPointer,
            Instruction::DecrementPointer,
            Instruction::IncreaseValue,
            Instruction::DecreaseValue,
            Instruction::Output,
            Instruction::Input,
        ])
    );
}

#[test]
fn empty_source_is_the_empty_program() {
    assert_eq!(parse_instructions(""), Ok(vec![]));
    assert_eq!(parse_instructions("no instruction here\n"), Ok(vec![]));
}

#[test]
fn other_characters_are_skipped() {
    let source = "add one: + then two: ++\nprint it: . (done)";
    let program = parse_instructions(source).unwrap();
    assert_eq!(
        program,
        vec![
            Instruction::IncreaseValue,
            Instruction::IncreaseValue,
            Instruction::IncreaseValue,
            Instruction::Output,
        ]
    );
}

#[test]
fn instruction_count_is_the_count_of_significant_characters() {
    let source = "x[y-z]\u{e9}>>\n,.<  +";
    let significant = source.chars().filter(Instruction::valid_char).count();
    assert_eq!(significant, 9);
    assert_eq!(parse_instructions(source).unwrap().len(), significant);
}

#[test]
fn a_bracket_pair_points_at_each_other() {
    assert_eq!(
        parse_instructions("[]"),
        Ok(vec![Instruction::JumpAhead(1), Instruction::JumpBack(0)])
    );
}

#[test]
fn jump_targets_are_indices_into_the_program() {
    assert_eq!(
        parse_instructions("+[>+<-]"),
        Ok(vec![
            Instruction::IncreaseValue,
            Instruction::JumpAhead(6),
            Instruction::IncrementPointer,
            Instruction::IncreaseValue,
            Instruction::DecrementPointer,
            Instruction::DecreaseValue,
            Instruction::JumpBack(1),
        ])
    );
}

#[test]
fn skipped_characters_do_not_shift_jump_targets() {
    assert_eq!(
        parse_instructions("a [ b c ] d"),
        Ok(vec![Instruction::JumpAhead(1), Instruction::JumpBack(0)])
    );
}

#[test]
fn nested_and_adjacent_brackets_are_matched() {
    assert_eq!(
        parse_instructions("[[]][]"),
        Ok(vec![
            Instruction::JumpAhead(3),
            Instruction::JumpAhead(2),
            Instruction::JumpBack(1),
            Instruction::JumpBack(0),
            Instruction::JumpAhead(5),
            Instruction::JumpBack(4),
        ])
    );
}

#[test]
fn every_jump_is_answered_by_its_partner() {
    let program = parse_instructions("+[[-]>[>+<-]<[.,]]++[]").unwrap();
    let mut pairs = 0;
    for (index, instruction) in program.iter().enumerate() {
        match *instruction {
            Instruction::JumpAhead(target) => {
                assert!(index < target);
                assert_eq!(program[target], Instruction::JumpBack(index));
                pairs += 1;
            }
            Instruction::JumpBack(target) => {
                assert!(target < index);
                assert_eq!(program[target], Instruction::JumpAhead(index));
            }
            _ => {}
        }
    }
    assert_eq!(pairs, 5);
}

#[test]
fn lone_close_bracket_is_unmatched_close() {
    assert_eq!(parse_instructions("]"), Err(CompileError::UnmatchedCloseBracket));
}

#[test]
fn lone_open_bracket_is_unmatched_open() {
    assert_eq!(parse_instructions("["), Err(CompileError::UnmatchedOpenBracket));
}

#[test]
fn excess_close_bracket_is_unmatched_close() {
    assert_eq!(parse_instructions("[]]"), Err(CompileError::UnmatchedCloseBracket));
    assert_eq!(parse_instructions("+[-]>]<"), Err(CompileError::UnmatchedCloseBracket));
    assert_eq!(parse_instructions("[[]]]"), Err(CompileError::UnmatchedCloseBracket));
}

#[test]
fn excess_open_bracket_is_unmatched_open() {
    assert_eq!(parse_instructions("[[]"), Err(CompileError::UnmatchedOpenBracket));
    assert_eq!(parse_instructions("+[-[>]"), Err(CompileError::UnmatchedOpenBracket));
    assert_eq!(parse_instructions("[][[["), Err(CompileError::UnmatchedOpenBracket));
}

#[test]
fn the_first_fault_from_the_left_is_reported() {
    assert_eq!(parse_instructions("]["), Err(CompileError::UnmatchedCloseBracket));
    assert_eq!(parse_instructions("][["), Err(CompileError::UnmatchedCloseBracket));
    assert_eq!(parse_instructions("[]][["), Err(CompileError::UnmatchedCloseBracket));
}

#[test]
fn balanced_counts_in_the_wrong_order_do_not_compile() {
    assert!(parse_instructions("][").is_err());
    assert!(parse_instructions("[]][").is_err());
}
