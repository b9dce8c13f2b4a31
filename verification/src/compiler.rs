//! From source text to a program with resolved jumps.

use vstd::prelude::*;
use crate::brackets::{
    bracket_delta, closing_index, depth, has_stray_close, has_unclosed_open,
    lemma_closing_partner, lemma_matched_indices, lemma_opening_partner,
    lemma_significant_chars, lemma_significant_next, lemma_significant_prefix, matched,
    opening_index, significant, well_bracketed,
};
use crate::instruction::{is_significant, Instruction};

verus! {

/// Why a source text is not a program.
#[derive(Clone, Copy, Debug, PartialEq, Eq, Structural)]
pub enum CompileError {
    /// A `]` appears with no open `[` before it.
    UnmatchedCloseBracket,
    /// The text ends while a `[` is still open.
    UnmatchedOpenBracket,
}

/// The instruction that the character at `i` of `code` denotes. A bracket
/// becomes a jump to its partner.
pub open spec fn instruction_at(code: Seq<char>, i: int) -> Instruction
    recommends
        0 <= i < code.len(),
        is_significant(code[i]),
{
    let c = code[i];
    if c == '>' {
        Instruction::IncrementPointer
    } else if c == '<' {
        Instruction::DecrementPointer
    } else if c == '+' {
        Instruction::IncreaseValue
    } else if c == '-' {
        Instruction::DecreaseValue
    } else if c == '.' {
        Instruction::Output
    } else if c == ',' {
        Instruction::Input
    } else if c == '[' {
        Instruction::JumpAhead(closing_index(code, i) as usize)
    } else {
        Instruction::JumpBack(opening_index(code, i) as usize)
    }
}

/// The program that well-bracketed `code` denotes: one instruction for each
/// character.
pub open spec fn compile(code: Seq<char>) -> Seq<Instruction>
    recommends
        well_bracketed(code),
{
    Seq::new(code.len(), |i: int| instruction_at(code, i))
}

/// What compiling a source text gives: the program of its significant
/// characters, or the first bracket fault met from left to right.
pub open spec fn compile_source(text: Seq<char>) -> Result<Seq<Instruction>, CompileError> {
    let code = significant(text);
    if has_stray_close(code) {
        Err(CompileError::UnmatchedCloseBracket)
    } else if has_unclosed_open(code) {
        Err(CompileError::UnmatchedOpenBracket)
    } else {
        Ok(compile(code))
    }
}

/// Text whose brackets are well nested compiles, to as many instructions as
/// it has significant characters.
pub proof fn lemma_well_bracketed_compiles(text: Seq<char>)
    requires
        well_bracketed(significant(text)),
    ensures
        compile_source(text) is Ok,
        compile_source(text)->Ok_0.len() == significant(text).len(),
{
}

/// Text with more `]` than `[` is rejected for an unmatched `]`. Text with
/// more `[` than `]` is rejected too: for an unmatched `[`, unless a `]`
/// comes before any `[` that it could close, which is then the fault named.
pub proof fn lemma_excess_bracket_is_rejected(text: Seq<char>)
    ensures
        ({
            let code = significant(text);
            let balance = depth(code, code.len() as int);
            &&& balance < 0 ==> compile_source(text) == Err::<Seq<Instruction>, CompileError>(
                CompileError::UnmatchedCloseBracket,
            )
            &&& balance > 0 ==> compile_source(text) is Err
            &&& balance > 0 && !has_stray_close(code) ==> compile_source(text) == Err::<
                Seq<Instruction>,
                CompileError,
            >(CompileError::UnmatchedOpenBracket)
        }),
{
}

/// Every jump of `program` points at a jump of the other kind that points
/// back at it, the `JumpAhead` standing before its `JumpBack`.
pub open spec fn jumps_paired(program: Seq<Instruction>) -> bool {
    forall|i: int|
        0 <= i < program.len() ==> match #[trigger] program[i] {
            Instruction::JumpAhead(target) => {
                &&& i < target < program.len()
                &&& program[target as int] matches Instruction::JumpBack(back)
                &&& back == i
            },
            Instruction::JumpBack(target) => {
                &&& target < i
                &&& program[target as int] matches Instruction::JumpAhead(ahead)
                &&& ahead == i
            },
            _ => true,
        }
}

/// The program of well-bracketed code has as many instructions as the code
/// has characters, and its jumps come in pairs that point at each other.
pub proof fn lemma_compile_pairs_jumps(code: Seq<char>)
    requires
        well_bracketed(code),
        forall|i: int| 0 <= i < code.len() ==> is_significant(#[trigger] code[i]),
        code.len() <= usize::MAX,
    ensures
        compile(code).len() == code.len(),
        jumps_paired(compile(code)),
{
    let program = compile(code);
    assert forall|i: int| 0 <= i < program.len() implies match #[trigger] program[i] {
        Instruction::JumpAhead(target) => {
            &&& i < target < program.len()
            &&& program[target as int] matches Instruction::JumpBack(back)
            &&& back == i
        },
        Instruction::JumpBack(target) => {
            &&& target < i
            &&& program[target as int] matches Instruction::JumpAhead(ahead)
            &&& ahead == i
        },
        _ => true,
    } by {
        if code[i] == '[' {
            let close = closing_index(code, i);
            lemma_closing_partner(code, i);
            lemma_matched_indices(code, i, close);
        } else if code[i] == ']' {
            let open = opening_index(code, i);
            lemma_opening_partner(code, i);
            lemma_matched_indices(code, open, i);
        }
    }
}

/// The instruction at `i` is final: it is what the character denotes, a jump
/// with its partner, or a `[` that still waits on the stack for its partner.
spec fn settled(code: Seq<char>, program: Seq<Instruction>, pending: Seq<usize>, i: int) -> bool {
    let c = code[i];
    if c == '[' {
        ||| exists|k: int| 0 <= k < pending.len() && #[trigger] pending[k] == i
        ||| exists|close: int|
            #![trigger matched(code, i, close)]
            close < program.len() && matched(code, i, close) && program[i]
                == Instruction::JumpAhead(close as usize)
    } else if c == ']' {
        exists|open: int|
            #![trigger matched(code, open, i)]
            matched(code, open, i) && program[i] == Instruction::JumpBack(open as usize)
    } else {
        program[i] == instruction_at(code, i)
    }
}

/// The stack of open brackets after `n` characters: the `k`-th entry is a `[`
/// at depth `k` below which the depth has not come back since.
spec fn pending_opens(code: Seq<char>, pending: Seq<usize>, n: int) -> bool {
    &&& pending.len() == depth(code, n)
    &&& forall|k: int|
        0 <= k < pending.len() ==> {
            &&& (#[trigger] pending[k]) < n
            &&& code[pending[k] as int] == '['
            &&& depth(code, pending[k] as int) == k
        }
    &&& forall|k: int, m: int|
        0 <= k < pending.len() && pending[k] < m <= n ==> #[trigger] depth(code, m) > #[trigger] depth(
            code,
            pending[k] as int,
        )
}

/// Compiles source text into a program.
///
/// Only the eight instruction characters count; all others are skipped. Each
/// `[` and its `]` are compiled to jumps that carry each other's position.
/// A `]` without an open `[` gives
/// [`CompileError::UnmatchedCloseBracket`]; a `[` left open at the end gives
/// [`CompileError::UnmatchedOpenBracket`].
pub fn parse_instructions(source_code: &str) -> (result: Result<Vec<Instruction>, CompileError>)
    ensures
        match result {
            Ok(program) => Ok::<Seq<Instruction>, CompileError>(program@),
            Err(e) => Err(e),
        } == compile_source(source_code@),
        result is Ok <==> well_bracketed(significant(source_code@)),
        result == Err::<Vec<Instruction>, CompileError>(CompileError::UnmatchedCloseBracket)
            <==> has_stray_close(significant(source_code@)),
        result == Err::<Vec<Instruction>, CompileError>(CompileError::UnmatchedOpenBracket) <==> {
            &&& !has_stray_close(significant(source_code@))
            &&& has_unclosed_open(significant(source_code@))
        },
        result matches Ok(program) ==> {
            &&& program@.len() == significant(source_code@).len()
            &&& jumps_paired(program@)
        },
{
    let mut program: Vec<Instruction> = Vec::new();
    let mut open_bracket_indices: Vec<usize> = Vec::new();
    let ghost text = source_code@;
    let ghost code = significant(text);

    for character in it: source_code.chars()
        invariant
            it.seq() == text,
            text == source_code@,
            code == significant(text),
            program.len() == significant(text.take(it.index())).len(),
            program.len() <= code.len(),
            forall|m: int| 0 <= m <= program.len() ==> #[trigger] depth(code, m) >= 0,
            pending_opens(code, open_bracket_indices@, program.len() as int),
            forall|i: int| 0 <= i < program.len() ==> settled(code, program@, open_bracket_indices@, i),
    {
        let ghost n = program.len() as int;
        let ghost stack = open_bracket_indices@;
        let ghost before = program@;
        proof {
            lemma_significant_next(text, it.index());
            lemma_significant_prefix(text, it.index() + 1);
            // A significant character is the next one of `code`.
            if is_significant(character) {
                assert(code.take(n + 1)[n] == code[n]);
            }
        }
        if Instruction::valid_char(&character) {
            let instruction = match character {
                '>' => Instruction::IncrementPointer,
                '<' => Instruction::DecrementPointer,
                '+' => Instruction::IncreaseValue,
                '-' => Instruction::DecreaseValue,
                '.' => Instruction::Output,
                ',' => Instruction::Input,
                '[' => {
                    open_bracket_indices.push(program.len());
                    Instruction::JumpAhead(0)
                },
                // The one significant character left is `]`.
                _ => {
                    let jump_back_index = match open_bracket_indices.pop() {
                        Some(index) => index,
                        None => {
                            return Err(CompileError::UnmatchedCloseBracket);
                        },
                    };
                    program[jump_back_index] = Instruction::JumpAhead(program.len());
                    Instruction::JumpBack(jump_back_index)
                },
            };
            program.push(instruction);
            proof {
                assert(depth(code, n + 1) == depth(code, n) + bracket_delta(character));
                assert forall|i: int| 0 <= i < program.len() implies settled(
                    code,
                    program@,
                    open_bracket_indices@,
                    i,
                ) by {
                    if i < n {
                        assert(settled(code, before, stack, i));
                        if code[i] == '[' {
                            if exists|k: int| 0 <= k < stack.len() && #[trigger] stack[k] == i {
                                let k = choose|k: int| 0 <= k < stack.len() && #[trigger] stack[k] == i;
                                if character == ']' && k == stack.len() - 1 {
                                    assert(matched(code, i, n));
                                } else {
                                    assert(open_bracket_indices@[k] == i);
                                }
                            }
                        }
                    } else {
                        if character == '[' {
                            assert(open_bracket_indices@[stack.len() as int] == i);
                        } else if character == ']' {
                            assert(matched(code, stack[stack.len() - 1] as int, n));
                        }
                    }
                }
            }
        }
    }

    proof {
        assert(text.take(text.len() as int) =~= text);
    }
    if !open_bracket_indices.is_empty() {
        return Err(CompileError::UnmatchedOpenBracket);
    }
    proof {
        assert forall|i: int| 0 <= i < program.len() implies program@[i] == instruction_at(
            code,
            i,
        ) by {
            assert(settled(code, program@, open_bracket_indices@, i));
            if code[i] == '[' {
                let close = choose|close: int|
                    #![trigger matched(code, i, close)]
                    close < program.len() && matched(code, i, close) && program@[i]
                        == Instruction::JumpAhead(close as usize);
                lemma_matched_indices(code, i, close);
            } else if code[i] == ']' {
                let open = choose|open: int|
                    #![trigger matched(code, open, i)]
                    matched(code, open, i) && program@[i] == Instruction::JumpBack(open as usize);
                lemma_matched_indices(code, open, i);
            }
        }
        assert(program@ =~= compile(code));
        lemma_significant_chars(text);
        lemma_compile_pairs_jumps(code);
    }
    Ok(program)
}

} // verus!
