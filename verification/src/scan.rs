//! The specification of the scan: spec-level character classes, the
//! stopping positions of the sub-scanners, the classification of
//! operator runs and words, and the meaning of one `next_token` step
//! and of a whole run of the driver.

use crate::token::TokenV;
use vstd::prelude::*;

verus! {

/// Insignificant whitespace: skipped between tokens, never part of one.
pub open spec fn is_skip_char(c: char) -> bool {
    c == ' ' || c == '\t' || c == '\n'
}

/// Alphabetic for this scanner: an ASCII letter.
pub open spec fn is_alpha_char(c: char) -> bool {
    ('a' as u32) <= (c as u32) <= ('z' as u32) || ('A' as u32) <= (c as u32) <= ('Z' as u32)
}

/// Numeric for this scanner: an ASCII decimal digit.
pub open spec fn is_digit_char(c: char) -> bool {
    ('0' as u32) <= (c as u32) <= ('9' as u32)
}

/// A character of an identifier: a letter or a digit.
pub open spec fn is_word_char(c: char) -> bool {
    is_alpha_char(c) || is_digit_char(c)
}

/// A character that can begin a one- or two-character operator.
pub open spec fn is_op_start(c: char) -> bool {
    c == '=' || c == '!' || c == '+' || c == '-' || c == '*' || c == '/' || c == '^'
}

/// First position at or after `i` whose character is not insignificant
/// whitespace (the input's length if none is).
pub open spec fn ws_end(s: Seq<char>, i: int) -> int
    recommends
        0 <= i <= s.len(),
    decreases s.len() - i,
{
    if 0 <= i < s.len() && is_skip_char(s[i]) {
        ws_end(s, i + 1)
    } else {
        i
    }
}

/// End of an operator run starting at `i`: the run is greedy and stops
/// only at the first alphabetic character (or at end of input).
pub open spec fn run_end(s: Seq<char>, i: int) -> int
    recommends
        0 <= i <= s.len(),
    decreases s.len() - i,
{
    if 0 <= i < s.len() && !is_alpha_char(s[i]) {
        run_end(s, i + 1)
    } else {
        i
    }
}

/// End of an identifier run starting at `i`: the first position whose
/// character is neither a letter nor a digit.
pub open spec fn ident_end(s: Seq<char>, i: int) -> int
    recommends
        0 <= i <= s.len(),
    decreases s.len() - i,
{
    if 0 <= i < s.len() && is_word_char(s[i]) {
        ident_end(s, i + 1)
    } else {
        i
    }
}

/// End of a string literal's body starting at `i`: the first position
/// holding the closing delimiter `q`, or the input's length if the
/// literal is unterminated.
pub open spec fn str_end(s: Seq<char>, i: int, q: char) -> int
    recommends
        0 <= i <= s.len(),
    decreases s.len() - i,
{
    if 0 <= i < s.len() && s[i] != q {
        str_end(s, i + 1, q)
    } else {
        i
    }
}

/// Scan of a numeric literal from `i`, where `frac` says whether a `.`
/// has already been taken. Yields the stopping position and whether the
/// run was accepted: a second `.` aborts the scan at that `.` with
/// `false`; any other non-digit ends it with `true`.
pub open spec fn num_scan(s: Seq<char>, i: int, frac: bool) -> (int, bool)
    recommends
        0 <= i <= s.len(),
    decreases s.len() - i,
{
    if 0 <= i < s.len() {
        if is_digit_char(s[i]) {
            num_scan(s, i + 1, frac)
        } else if s[i] == '.' {
            if frac {
                (i, false)
            } else {
                num_scan(s, i + 1, true)
            }
        } else {
            (i, true)
        }
    } else {
        (i, true)
    }
}

/// Classification of a completed operator run: the fixed table of one-
/// and two-character spellings; every other run is `Unknown`.
pub open spec fn op_token(r: Seq<char>) -> TokenV {
    if r == "="@ {
        TokenV::Assign
    } else if r == "+"@ {
        TokenV::Add
    } else if r == "-"@ {
        TokenV::Sub
    } else if r == "*"@ {
        TokenV::Mul
    } else if r == "/"@ {
        TokenV::Div
    } else if r == "^"@ {
        TokenV::Pow
    } else if r == "+="@ {
        TokenV::AssignAdd
    } else if r == "-="@ {
        TokenV::AssignSub
    } else if r == "*="@ {
        TokenV::AssignMul
    } else if r == "^="@ {
        TokenV::AssignPow
    } else if r == "/="@ {
        TokenV::AssignDiv
    } else if r == "=="@ {
        TokenV::Equals
    } else if r == "!="@ {
        TokenV::NotEquals
    } else if r == "->"@ {
        TokenV::Returns
    } else {
        TokenV::Unknown
    }
}

/// The fixed keyword table: the token reserved for a spelling, or
/// `None` for a spelling that is no keyword.
pub open spec fn keyword_token(w: Seq<char>) -> Option<TokenV> {
    if w == "true"@ {
        Some(TokenV::True)
    } else if w == "maybe"@ {
        Some(TokenV::Maybe)
    } else if w == "false"@ {
        Some(TokenV::False)
    } else if w == "if"@ {
        Some(TokenV::If)
    } else if w == "else"@ {
        Some(TokenV::Else)
    } else if w == "elif"@ {
        Some(TokenV::ElseIf)
    } else if w == "for"@ {
        Some(TokenV::For)
    } else if w == "while"@ {
        Some(TokenV::While)
    } else if w == "loop"@ {
        Some(TokenV::Loop)
    } else if w == "not"@ {
        Some(TokenV::Not)
    } else if w == "and"@ {
        Some(TokenV::And)
    } else if w == "or"@ {
        Some(TokenV::Or)
    } else if w == "of"@ {
        Some(TokenV::Of)
    } else if w == "end"@ {
        Some(TokenV::End)
    } else if w == "break"@ {
        Some(TokenV::Break)
    } else if w == "class"@ {
        Some(TokenV::Class)
    } else if w == "func"@ {
        Some(TokenV::Function)
    } else if w == "pub"@ {
        Some(TokenV::Public)
    } else if w == "import"@ {
        Some(TokenV::Import)
    } else {
        None
    }
}

/// Classification of a completed identifier run: keyword matching takes
/// precedence, and only a spelling outside the table becomes an
/// `Identifier` with the spelling preserved exactly.
pub open spec fn word_token(w: Seq<char>) -> TokenV {
    match keyword_token(w) {
        Some(t) => t,
        None => TokenV::Identifier(w),
    }
}

/// One step of the scanner at position `pos`: skip whitespace, then
/// dispatch on the first significant character; yields the token and
/// the cursor position after it.
///
/// Two quirks of the dispatch are deliberate parts of the model: the
/// operator run is greedy up to the first alphabetic character, and the
/// character immediately following a numeric literal (successful or
/// aborted) is consumed and discarded.
pub open spec fn next_token_spec(s: Seq<char>, pos: int) -> (TokenV, int)
    recommends
        0 <= pos <= s.len(),
{
    let i: int = ws_end(s, pos);
    if i >= s.len() {
        (TokenV::Eof, i)
    } else {
        let c = s[i];
        if c == '(' {
            (TokenV::LParen, i + 1)
        } else if c == ')' {
            (TokenV::RParen, i + 1)
        } else if c == '{' {
            (TokenV::LBrace, i + 1)
        } else if c == '}' {
            (TokenV::RBrace, i + 1)
        } else if c == '[' {
            (TokenV::LSqBrace, i + 1)
        } else if c == ']' {
            (TokenV::RSqBrace, i + 1)
        } else if c == '<' {
            (TokenV::LessThan, i + 1)
        } else if c == '>' {
            (TokenV::GreaterThan, i + 1)
        } else if c == ':' {
            (TokenV::Colon, i + 1)
        } else if c == ',' {
            (TokenV::Comma, i + 1)
        } else if c == '.' {
            (TokenV::Dot, i + 1)
        } else if is_op_start(c) {
            let j: int = run_end(s, i);
            (op_token(s.subrange(i, j)), j)
        } else if c == '\'' || c == '"' {
            let j: int = str_end(s, i + 1, c);
            (TokenV::String(s.subrange(i + 1, j)), if j < s.len() { j + 1 } else { j })
        } else if is_alpha_char(c) {
            let j: int = ident_end(s, i);
            (word_token(s.subrange(i, j)), j)
        } else if is_digit_char(c) {
            let j: int = num_scan(s, i, false).0;
            if num_scan(s, i, false).1 {
                (TokenV::Number(s.subrange(i, j)), if j < s.len() { j + 1 } else { j })
            } else {
                (TokenV::Unknown, j + 1)
            }
        } else {
            (TokenV::Unknown, i + 1)
        }
    }
}

/// The token sequence the driver produces from position `pos` on:
/// tokens in order, ending with the first `Eof`.
pub open spec fn lex_spec(s: Seq<char>, pos: int) -> Seq<TokenV>
    decreases s.len() - pos
        when 0 <= pos <= s.len()
        via lex_spec_decreases
{
    let step = next_token_spec(s, pos);
    if step.0 == TokenV::Eof {
        seq![TokenV::Eof]
    } else {
        seq![step.0] + lex_spec(s, step.1)
    }
}

#[via_fn]
proof fn lex_spec_decreases(s: Seq<char>, pos: int) {
    lemma_next_token_advances(s, pos);
}

/// `ws_end` stays within the input, skips only whitespace, and stops at
/// the first significant character.
pub proof fn lemma_ws_end(s: Seq<char>, i: int)
    requires
        0 <= i <= s.len(),
    ensures
        i <= ws_end(s, i) <= s.len(),
        ws_end(s, i) < s.len() ==> !is_skip_char(s[ws_end(s, i)]),
        forall|k: int| i <= k < ws_end(s, i) ==> is_skip_char(s[k]),
    decreases s.len() - i,
{
    if i < s.len() && is_skip_char(s[i]) {
        lemma_ws_end(s, i + 1);
    }
}

/// `run_end` stays within the input, takes only non-alphabetic
/// characters, and stops at the first alphabetic one.
pub proof fn lemma_run_end(s: Seq<char>, i: int)
    requires
        0 <= i <= s.len(),
    ensures
        i <= run_end(s, i) <= s.len(),
        run_end(s, i) < s.len() ==> is_alpha_char(s[run_end(s, i)]),
        forall|k: int| i <= k < run_end(s, i) ==> !is_alpha_char(s[k]),
    decreases s.len() - i,
{
    if i < s.len() && !is_alpha_char(s[i]) {
        lemma_run_end(s, i + 1);
    }
}

/// `ident_end` stays within the input, takes only letters and digits,
/// and stops at the first other character.
pub proof fn lemma_ident_end(s: Seq<char>, i: int)
    requires
        0 <= i <= s.len(),
    ensures
        i <= ident_end(s, i) <= s.len(),
        ident_end(s, i) < s.len() ==> !is_word_char(s[ident_end(s, i)]),
        forall|k: int| i <= k < ident_end(s, i) ==> is_word_char(s[k]),
    decreases s.len() - i,
{
    if i < s.len() && is_word_char(s[i]) {
        lemma_ident_end(s, i + 1);
    }
}

/// `str_end` stays within the input, takes only characters other than
/// the delimiter, and stops at the delimiter if one is there.
pub proof fn lemma_str_end(s: Seq<char>, i: int, q: char)
    requires
        0 <= i <= s.len(),
    ensures
        i <= str_end(s, i, q) <= s.len(),
        str_end(s, i, q) < s.len() ==> s[str_end(s, i, q)] == q,
        forall|k: int| i <= k < str_end(s, i, q) ==> s[k] != q,
    decreases s.len() - i,
{
    if i < s.len() && s[i] != q {
        lemma_str_end(s, i + 1, q);
    }
}

/// `num_scan` stays within the input; an aborted scan stops on the
/// offending second `.`; an accepted run holds only digits and dots,
/// no dot at all once one has been taken, and never two dots.
pub proof fn lemma_num_scan(s: Seq<char>, i: int, frac: bool)
    requires
        0 <= i <= s.len(),
    ensures
        i <= num_scan(s, i, frac).0 <= s.len(),
        !num_scan(s, i, frac).1 ==> num_scan(s, i, frac).0 < s.len() && s[num_scan(
            s,
            i,
            frac,
        ).0] == '.',
        num_scan(s, i, frac).1 ==> forall|k: int|
            i <= k < num_scan(s, i, frac).0 ==> is_digit_char(s[k]) || s[k] == '.',
        num_scan(s, i, frac).1 && frac ==> forall|k: int|
            i <= k < num_scan(s, i, frac).0 ==> is_digit_char(s[k]),
        num_scan(s, i, frac).1 ==> forall|j: int, k: int|
            i <= j < k < num_scan(s, i, frac).0 && s[j] == '.' ==> s[k] != '.',
    decreases s.len() - i,
{
    if i < s.len() {
        if is_digit_char(s[i]) {
            lemma_num_scan(s, i + 1, frac);
        } else if s[i] == '.' && !frac {
            lemma_num_scan(s, i + 1, true);
        }
    }
}

/// The cursor strictly advances with every token but the terminal, and
/// the terminal is produced exactly when the input is exhausted.
pub proof fn lemma_next_token_advances(s: Seq<char>, pos: int)
    requires
        0 <= pos <= s.len(),
    ensures
        pos <= next_token_spec(s, pos).1 <= s.len(),
        next_token_spec(s, pos).0 == TokenV::Eof ==> next_token_spec(s, pos).1 == s.len(),
        next_token_spec(s, pos).0 != TokenV::Eof ==> pos < next_token_spec(s, pos).1,
{
    lemma_ws_end(s, pos);
    let i: int = ws_end(s, pos);
    if i < s.len() {
        let c = s[i];
        lemma_run_end(s, i);
        lemma_str_end(s, i + 1, c);
        lemma_ident_end(s, i);
        lemma_num_scan(s, i, false);
        if is_op_start(c) {
            assert(run_end(s, i) == run_end(s, i + 1));
        }
    }
}

/// The driver's output, started anywhere, ends with exactly one `Eof`,
/// and no `Eof` stands anywhere before the end.
pub proof fn lemma_lex_ends_with_single_eof(s: Seq<char>, pos: int)
    requires
        0 <= pos <= s.len(),
    ensures
        lex_spec(s, pos).len() >= 1,
        lex_spec(s, pos).last() == TokenV::Eof,
        forall|k: int| 0 <= k < lex_spec(s, pos).len() - 1 ==> lex_spec(s, pos)[k] != TokenV::Eof,
    decreases s.len() - pos,
{
    lemma_next_token_advances(s, pos);
    let step = next_token_spec(s, pos);
    if step.0 != TokenV::Eof {
        lemma_lex_ends_with_single_eof(s, step.1);
        assert forall|k: int| 0 <= k < lex_spec(s, pos).len() - 1 implies lex_spec(s, pos)[k]
            != TokenV::Eof by {
            if k >= 1 {
                assert(lex_spec(s, pos)[k] == lex_spec(s, step.1)[k - 1]);
            }
        }
    }
}

/// Whitespace-only or empty input scans to exactly the terminal.
pub proof fn lemma_whitespace_only_scans_to_eof(s: Seq<char>)
    requires
        forall|k: int| 0 <= k < s.len() ==> is_skip_char(s[k]),
    ensures
        lex_spec(s, 0) == seq![TokenV::Eof],
{
    lemma_ws_end(s, 0);
}

/// Scanning a single alphabetic word alone yields its classification
/// and then the terminal: the fixed keyword token for a spelling in the
/// table, and otherwise an `Identifier` carrying the spelling exactly —
/// no keyword spelling can come out as an `Identifier`.
pub proof fn lemma_scan_single_word(s: Seq<char>)
    requires
        s.len() > 0,
        forall|k: int| 0 <= k < s.len() ==> is_alpha_char(s[k]),
    ensures
        lex_spec(s, 0) == seq![word_token(s), TokenV::Eof],
        keyword_token(s) is Some ==> word_token(s) == keyword_token(s).unwrap(),
        keyword_token(s) is None ==> word_token(s) == TokenV::Identifier(s),
{
    lemma_ident_end(s, 0);
    assert(ident_end(s, 0) == s.len());
    assert(s.subrange(0, s.len() as int) =~= s);
    assert(next_token_spec(s, 0) == (word_token(s), s.len() as int));
    assert(word_token(s) != TokenV::Eof);
    assert(lex_spec(s, s.len() as int) == seq![TokenV::Eof]);
    assert(lex_spec(s, 0) =~= seq![word_token(s), TokenV::Eof]);
}

/// No single scan step yields an `Identifier` carrying a keyword
/// spelling: keyword matching takes precedence and is total.
pub proof fn lemma_keyword_never_identifier(s: Seq<char>, pos: int, w: Seq<char>)
    requires
        0 <= pos <= s.len(),
        next_token_spec(s, pos).0 == TokenV::Identifier(w),
    ensures
        keyword_token(w) is None,
{
}

/// Nowhere in the driver's whole output stands an `Identifier`
/// carrying a keyword spelling.
pub proof fn lemma_lex_no_keyword_identifier(s: Seq<char>, pos: int, k: int, w: Seq<char>)
    requires
        0 <= pos <= s.len(),
        0 <= k < lex_spec(s, pos).len(),
        lex_spec(s, pos)[k] == TokenV::Identifier(w),
    ensures
        keyword_token(w) is None,
    decreases s.len() - pos,
{
    lemma_next_token_advances(s, pos);
    let step = next_token_spec(s, pos);
    if step.0 == TokenV::Eof {
    } else if k == 0 {
        lemma_keyword_never_identifier(s, pos, w);
    } else {
        assert(lex_spec(s, pos)[k] == lex_spec(s, step.1)[k - 1]);
        lemma_lex_no_keyword_identifier(s, step.1, k - 1, w);
    }
}

/// Every `Number` token a single scan step yields carries a digit run:
/// nonempty, beginning with a digit, made of digits and at most one
/// `.` — a run with two decimal points is rejected, never truncated.
pub proof fn lemma_number_spelling(s: Seq<char>, pos: int, w: Seq<char>)
    requires
        0 <= pos <= s.len(),
        next_token_spec(s, pos).0 == TokenV::Number(w),
    ensures
        w.len() >= 1,
        is_digit_char(w[0]),
        forall|k: int| 0 <= k < w.len() ==> is_digit_char(w[k]) || w[k] == '.',
        forall|j: int, k: int| 0 <= j < k < w.len() && w[j] == '.' ==> w[k] != '.',
{
    lemma_ws_end(s, pos);
    let i: int = ws_end(s, pos);
    lemma_num_scan(s, i, false);
    if i < s.len() && is_digit_char(s[i]) {
        lemma_num_scan(s, i + 1, false);
        let j: int = num_scan(s, i, false).0;
        assert(w == s.subrange(i, j));
        assert(forall|k: int| 0 <= k < w.len() ==> w[k] == s[i + k]);
    }
}

/// Every `Number` token anywhere in the driver's whole output carries
/// a digit run: nonempty, beginning with a digit, made of digits and
/// at most one `.`.
pub proof fn lemma_lex_number_spelling(s: Seq<char>, pos: int, k: int, w: Seq<char>)
    requires
        0 <= pos <= s.len(),
        0 <= k < lex_spec(s, pos).len(),
        lex_spec(s, pos)[k] == TokenV::Number(w),
    ensures
        w.len() >= 1,
        is_digit_char(w[0]),
        forall|n: int| 0 <= n < w.len() ==> is_digit_char(w[n]) || w[n] == '.',
        forall|j: int, n: int| 0 <= j < n < w.len() && w[j] == '.' ==> w[n] != '.',
    decreases s.len() - pos,
{
    lemma_next_token_advances(s, pos);
    let step = next_token_spec(s, pos);
    if step.0 == TokenV::Eof {
    } else if k == 0 {
        lemma_number_spelling(s, pos, w);
    } else {
        assert(lex_spec(s, pos)[k] == lex_spec(s, step.1)[k - 1]);
        lemma_lex_number_spelling(s, step.1, k - 1, w);
    }
}

/// Once the terminal has been produced the cursor is at end of input,
/// and every further step yields `Eof` again without moving it.
pub proof fn lemma_eof_idempotent(s: Seq<char>, pos: int)
    requires
        0 <= pos <= s.len(),
        next_token_spec(s, pos).0 == TokenV::Eof,
    ensures
        next_token_spec(s, pos).1 == s.len(),
        next_token_spec(s, s.len() as int).0 == TokenV::Eof,
        next_token_spec(s, s.len() as int).1 == s.len(),
{
    lemma_next_token_advances(s, pos);
}

} // verus!
