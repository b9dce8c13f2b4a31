//! The mathematics of bracket nesting: which characters of a source text
//! count, how deep each position is nested, and which bracket is the partner
//! of which.

use vstd::prelude::*;
use crate::instruction::is_significant;

verus! {

/// The characters of `text` that denote instructions, in their order.
pub open spec fn significant(text: Seq<char>) -> Seq<char> {
    text.filter(|c: char| is_significant(c))
}

/// How a character changes the nesting depth.
pub open spec fn bracket_delta(c: char) -> int {
    if c == '[' {
        1
    } else if c == ']' {
        -1
    } else {
        0
    }
}

/// The nesting depth after the first `n` characters of `code`: the number of
/// `[` among them minus the number of `]`.
pub open spec fn depth(code: Seq<char>, n: int) -> int
    recommends
        0 <= n <= code.len(),
    decreases n,
{
    if n <= 0 {
        0
    } else {
        depth(code, n - 1) + bracket_delta(code[n - 1])
    }
}

/// Some `]` has no `[` before it that is still open.
pub open spec fn has_stray_close(code: Seq<char>) -> bool {
    exists|n: int| 0 <= n <= code.len() && #[trigger] depth(code, n) < 0
}

/// Some `[` is never closed.
pub open spec fn has_unclosed_open(code: Seq<char>) -> bool {
    depth(code, code.len() as int) > 0
}

/// Every `[` has exactly one matching `]` after it and every `]` exactly one
/// matching `[` before it.
pub open spec fn well_bracketed(code: Seq<char>) -> bool {
    !has_stray_close(code) && !has_unclosed_open(code)
}

/// The `[` at `open` and the `]` at `close` belong together: the depth comes
/// back to what it was before `open` for the first time just after `close`.
pub open spec fn matched(code: Seq<char>, open: int, close: int) -> bool {
    &&& 0 <= open < close < code.len()
    &&& code[open] == '['
    &&& code[close] == ']'
    &&& depth(code, close + 1) == depth(code, open)
    &&& forall|m: int| open < m <= close ==> #[trigger] depth(code, m) > depth(code, open)
}

/// The first position from `from` on after which the depth is at most
/// `level`, or the length of `code` if there is none.
pub open spec fn close_from(code: Seq<char>, level: int, from: int) -> int
    decreases code.len() - from,
{
    if from >= code.len() {
        code.len() as int
    } else if depth(code, from + 1) <= level {
        from
    } else {
        close_from(code, level, from + 1)
    }
}

/// The position of the `]` that closes the `[` at `open`.
pub open spec fn closing_index(code: Seq<char>, open: int) -> int {
    close_from(code, depth(code, open), open + 1)
}

/// The last position up to `from` before which the depth is at most `level`,
/// or 0 if there is none.
pub open spec fn open_from(code: Seq<char>, level: int, from: int) -> int
    decreases from,
{
    if from <= 0 {
        0
    } else if depth(code, from) <= level {
        from
    } else {
        open_from(code, level, from - 1)
    }
}

/// The position of the `[` that the `]` at `close` closes.
pub open spec fn opening_index(code: Seq<char>, close: int) -> int {
    open_from(code, depth(code, close + 1), close - 1)
}

/// Walking forward from `from` finds `close` when the depth stays above
/// `level` until just after `close`.
pub proof fn lemma_close_from_finds(code: Seq<char>, level: int, from: int, close: int)
    requires
        0 <= from <= close < code.len(),
        depth(code, close + 1) <= level,
        forall|m: int| from < m <= close ==> #[trigger] depth(code, m) > level,
    ensures
        close_from(code, level, from) == close,
    decreases close - from,
{
    if from < close {
        lemma_close_from_finds(code, level, from + 1, close);
    }
}

/// Walking backward from `from` finds `open` when the depth stays above
/// `level` back to just after `open`.
pub proof fn lemma_open_from_finds(code: Seq<char>, level: int, from: int, open: int)
    requires
        0 <= open <= from,
        depth(code, open) <= level,
        forall|m: int| open < m <= from ==> #[trigger] depth(code, m) > level,
    ensures
        open_from(code, level, from) == open,
    decreases from - open,
{
    if open < from {
        lemma_open_from_finds(code, level, from - 1, open);
    }
}

/// A matched pair is found from either end.
pub proof fn lemma_matched_indices(code: Seq<char>, open: int, close: int)
    requires
        matched(code, open, close),
    ensures
        closing_index(code, open) == close,
        opening_index(code, close) == open,
{
    lemma_close_from_finds(code, depth(code, open), open + 1, close);
    lemma_open_from_finds(code, depth(code, close + 1), close - 1, open);
}

/// In code without a stray `]` no prefix has a negative depth.
pub proof fn lemma_depth_nonnegative(code: Seq<char>, n: int)
    requires
        !has_stray_close(code),
        0 <= n <= code.len(),
    ensures
        depth(code, n) >= 0,
{
}

/// What the forward walk returns when the depth at the end of `code` is at
/// most `level`: the first position from `from` on after which it is.
pub proof fn lemma_close_from_is_first(code: Seq<char>, level: int, from: int)
    requires
        0 <= from < code.len(),
        depth(code, code.len() as int) <= level,
    ensures
        from <= close_from(code, level, from) < code.len(),
        depth(code, close_from(code, level, from) + 1) <= level,
        forall|m: int|
            from < m <= close_from(code, level, from) ==> #[trigger] depth(code, m) > level,
    decreases code.len() - from,
{
    if depth(code, from + 1) > level {
        lemma_close_from_is_first(code, level, from + 1);
    }
}

/// What the backward walk returns when `level` is not negative: the last
/// position up to `from` before which the depth is at most `level`.
pub proof fn lemma_open_from_is_last(code: Seq<char>, level: int, from: int)
    requires
        0 <= from,
        0 <= level,
    ensures
        0 <= open_from(code, level, from) <= from,
        depth(code, open_from(code, level, from)) <= level,
        forall|m: int|
            open_from(code, level, from) < m <= from ==> #[trigger] depth(code, m) > level,
    decreases from,
{
    if from > 0 && depth(code, from) > level {
        lemma_open_from_is_last(code, level, from - 1);
    }
}

/// In well-bracketed code every `[` has its `]`.
pub proof fn lemma_closing_partner(code: Seq<char>, open: int)
    requires
        well_bracketed(code),
        0 <= open < code.len(),
        code[open] == '[',
    ensures
        matched(code, open, closing_index(code, open)),
{
    // The depth is at least 0 before `open`, one more after it and 0 at the
    // end: it comes back somewhere, and where it first does stands a `]`.
    let level = depth(code, open);
    lemma_depth_nonnegative(code, open);
    assert(depth(code, open + 1) == level + 1);
    assert(open + 1 < code.len());
    lemma_close_from_is_first(code, level, open + 1);
    let close = closing_index(code, open);
    assert(depth(code, close + 1) == depth(code, close) + bracket_delta(code[close]));
}

/// In well-bracketed code every `]` has its `[`.
pub proof fn lemma_opening_partner(code: Seq<char>, close: int)
    requires
        well_bracketed(code),
        0 <= close < code.len(),
        code[close] == ']',
    ensures
        matched(code, opening_index(code, close), close),
{
    // The depth is at least 0 after `close`, one more before it and 0 at the
    // start: going back it was last that low just before a `[`.
    let level = depth(code, close + 1);
    lemma_depth_nonnegative(code, close + 1);
    assert(depth(code, close) == level + 1);
    assert(close > 0);
    lemma_open_from_is_last(code, level, close - 1);
    let open = opening_index(code, close);
    assert(depth(code, open + 1) == depth(code, open) + bracket_delta(code[open]));
}

/// Every significant character of a text denotes an instruction.
pub proof fn lemma_significant_chars(text: Seq<char>)
    ensures
        forall|i: int|
            0 <= i < significant(text).len() ==> is_significant(#[trigger] significant(text)[i]),
{
    let pred = |c: char| is_significant(c);
    assert forall|i: int| 0 <= i < significant(text).len() implies is_significant(
        #[trigger] significant(text)[i],
    ) by {
        text.lemma_filter_pred(pred, i);
    }
}

/// Taking one more character of the text adds it to the significant ones if
/// it denotes an instruction and changes nothing otherwise.
pub proof fn lemma_significant_next(text: Seq<char>, k: int)
    requires
        0 <= k < text.len(),
    ensures
        significant(text.take(k + 1)) == if is_significant(text[k]) {
            significant(text.take(k)).push(text[k])
        } else {
            significant(text.take(k))
        },
{
    reveal(Seq::filter);
    assert(text.take(k + 1).drop_last() =~= text.take(k));
}

/// The significant characters of a prefix of the text begin those of the
/// whole text.
pub proof fn lemma_significant_prefix(text: Seq<char>, k: int)
    requires
        0 <= k <= text.len(),
    ensures
        significant(text.take(k)).len() <= significant(text).len(),
        significant(text.take(k)) == significant(text).take(significant(text.take(k)).len() as int),
{
    let pred = |c: char| is_significant(c);
    assert(text =~= text.take(k) + text.skip(k));
    Seq::filter_distributes_over_add(text.take(k), text.skip(k), pred);
    assert(significant(text).take(significant(text.take(k)).len() as int) =~= significant(
        text.take(k),
    ));
}

} // verus!
