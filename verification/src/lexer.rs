//! The scanner and the driver: a forward-only cursor over the input
//! characters, a `next_token` operation proved against
//! [`crate::scan::next_token_spec`], and a driver proved against
//! [`crate::scan::lex_spec`].

use crate::scan::ident_end;
use crate::scan::is_alpha_char;
use crate::scan::is_digit_char;
use crate::scan::is_skip_char;
use crate::scan::is_word_char;
use crate::scan::lemma_ident_end;
use crate::scan::lemma_next_token_advances;
use crate::scan::lemma_num_scan;
use crate::scan::lemma_run_end;
use crate::scan::lemma_str_end;
use crate::scan::lex_spec;
use crate::scan::next_token_spec;
use crate::scan::num_scan;
use crate::scan::op_token;
use crate::scan::run_end;
use crate::scan::str_end;
use crate::scan::word_token;
use crate::scan::ws_end;
use crate::token::Token;
use crate::token::TokenV;
use vstd::prelude::*;
use vstd::string::StrSliceExecFns;

verus! {

/// Whether `ch` is insignificant whitespace (space, tab or newline).
pub fn is_skip(ch: char) -> (r: bool)
    ensures
        r == is_skip_char(ch),
{
    ch == ' ' || ch == '\t' || ch == '\n'
}

/// Whether `c` counts as alphabetic for the scanner (an ASCII letter).
fn is_alpha(c: char) -> (r: bool)
    ensures
        r == is_alpha_char(c),
{
    let u = c as u32;
    (97 <= u && u <= 122) || (65 <= u && u <= 90)
}

/// Whether `c` counts as numeric for the scanner (an ASCII digit).
fn is_digit(c: char) -> (r: bool)
    ensures
        r == is_digit_char(c),
{
    let u = c as u32;
    48 <= u && u <= 57
}

/// Whether `c` can stand inside an identifier (a letter or a digit).
fn is_word(c: char) -> (r: bool)
    ensures
        r == is_word_char(c),
{
    is_alpha(c) || is_digit(c)
}

/// Whether `c` can extend a numeric literal's run (a digit or `.`).
fn is_num_part(c: char) -> (r: bool)
    ensures
        r == (is_digit_char(c) || c == '.'),
{
    is_digit(c) || c == '.'
}

/// Classification of a completed operator run against the fixed table
/// of one- and two-character spellings.
fn classify_run(run: &str) -> (t: Token)
    ensures
        t@ == op_token(run@),
{
    let r = run.to_owned();
    if r == "=".to_owned() {
        Token::Assign
    } else if r == "+".to_owned() {
        Token::Add
    } else if r == "-".to_owned() {
        Token::Sub
    } else if r == "*".to_owned() {
        Token::Mul
    } else if r == "/".to_owned() {
        Token::Div
    } else if r == "^".to_owned() {
        Token::Pow
    } else if r == "+=".to_owned() {
        Token::AssignAdd
    } else if r == "-=".to_owned() {
        Token::AssignSub
    } else if r == "*=".to_owned() {
        Token::AssignMul
    } else if r == "^=".to_owned() {
        Token::AssignPow
    } else if r == "/=".to_owned() {
        Token::AssignDiv
    } else if r == "==".to_owned() {
        Token::Equals
    } else if r == "!=".to_owned() {
        Token::NotEquals
    } else if r == "->".to_owned() {
        Token::Returns
    } else {
        Token::Unknown
    }
}

/// Classification of a completed identifier run: the keyword table
/// first, and only a spelling outside it becomes an `Identifier`.
fn classify_word(word: &str) -> (t: Token)
    ensures
        t@ == word_token(word@),
{
    let w = word.to_owned();
    if w == "true".to_owned() {
        Token::True
    } else if w == "maybe".to_owned() {
        Token::Maybe
    } else if w == "false".to_owned() {
        Token::False
    } else if w == "if".to_owned() {
        Token::If
    } else if w == "else".to_owned() {
        Token::Else
    } else if w == "elif".to_owned() {
        Token::ElseIf
    } else if w == "for".to_owned() {
        Token::For
    } else if w == "while".to_owned() {
        Token::While
    } else if w == "loop".to_owned() {
        Token::Loop
    } else if w == "not".to_owned() {
        Token::Not
    } else if w == "and".to_owned() {
        Token::And
    } else if w == "or".to_owned() {
        Token::Or
    } else if w == "of".to_owned() {
        Token::Of
    } else if w == "end".to_owned() {
        Token::End
    } else if w == "break".to_owned() {
        Token::Break
    } else if w == "class".to_owned() {
        Token::Class
    } else if w == "func".to_owned() {
        Token::Function
    } else if w == "pub".to_owned() {
        Token::Public
    } else if w == "import".to_owned() {
        Token::Import
    } else {
        Token::Identifier(w)
    }
}

/// The scanner: a forward-only cursor over the input characters. The
/// cursor strictly advances with every character consumed and is never
/// rewound.
pub struct Lexer<'a> {
    src: &'a str,
    pos: usize,
}

impl<'a> Lexer<'a> {
    /// The input character sequence the scanner was built over.
    pub closed spec fn input(self) -> Seq<char> {
        self.src@
    }

    /// The cursor: how many characters have been consumed.
    pub closed spec fn at(self) -> int {
        self.pos as int
    }

    /// Well-formed: the cursor stands inside the input or at its end.
    pub closed spec fn wf(self) -> bool {
        self.pos <= self.src@.len()
    }

    /// A scanner over `source` with the cursor at the start.
    pub fn new(source: &'a str) -> (lexer: Self)
        ensures
            lexer.wf(),
            lexer.input() == source@,
            lexer.at() == 0,
    {
        Lexer { src: source, pos: 0 }
    }

    /// Consumes zero or more characters and returns exactly one token,
    /// as [`next_token_spec`] says; after the input is exhausted every
    /// call returns `Eof` again without consuming anything.
    pub fn next_token(&mut self) -> (t: Token)
        requires
            old(self).wf(),
        ensures
            final(self).wf(),
            final(self).input() == old(self).input(),
            old(self).at() <= final(self).at(),
            t@ == next_token_spec(old(self).input(), old(self).at()).0,
            final(self).at() == next_token_spec(old(self).input(), old(self).at()).1,
    {
        let len = self.src.unicode_len();
        while self.pos < len && is_skip(self.src.get_char(self.pos))
            invariant
                self.wf(),
                self.src == old(self).src,
                len == self.src@.len(),
                old(self).pos <= self.pos,
                ws_end(self.src@, old(self).at()) == ws_end(self.src@, self.pos as int),
            decreases len - self.pos,
        {
            self.pos = self.pos + 1;
        }
        if self.pos == len {
            return Token::Eof;
        }
        let c = self.src.get_char(self.pos);
        proof {
            lemma_run_end(self.src@, self.pos as int);
            lemma_str_end(self.src@, self.pos as int + 1, c);
            lemma_ident_end(self.src@, self.pos as int);
            lemma_num_scan(self.src@, self.pos as int, false);
        }
        if c == '(' {
            self.pos = self.pos + 1;
            Token::LParen
        } else if c == ')' {
            self.pos = self.pos + 1;
            Token::RParen
        } else if c == '{' {
            self.pos = self.pos + 1;
            Token::LBrace
        } else if c == '}' {
            self.pos = self.pos + 1;
            Token::RBrace
        } else if c == '[' {
            self.pos = self.pos + 1;
            Token::LSqBrace
        } else if c == ']' {
            self.pos = self.pos + 1;
            Token::RSqBrace
        } else if c == '<' {
            self.pos = self.pos + 1;
            Token::LessThan
        } else if c == '>' {
            self.pos = self.pos + 1;
            Token::GreaterThan
        } else if c == ':' {
            self.pos = self.pos + 1;
            Token::Colon
        } else if c == ',' {
            self.pos = self.pos + 1;
            Token::Comma
        } else if c == '.' {
            self.pos = self.pos + 1;
            Token::Dot
        } else if c == '=' || c == '!' || c == '+' || c == '-' || c == '*' || c == '/' || c == '^' {
            self.read_multiple()
        } else if c == '\'' || c == '"' {
            self.pos = self.pos + 1;
            let t = self.read_string(&c);
            if self.pos < len {
                self.pos = self.pos + 1;
            }
            t
        } else if is_alpha(c) {
            self.read_identifier()
        } else if is_digit(c) {
            let t = self.read_number();
            if self.pos < len {
                self.pos = self.pos + 1;
            }
            t
        } else {
            self.pos = self.pos + 1;
            Token::Unknown
        }
    }

    /// Greedily takes the maximal run of non-alphabetic characters from
    /// the cursor on and classifies it against the operator table.
    pub fn read_multiple(&mut self) -> (t: Token)
        requires
            old(self).wf(),
        ensures
            final(self).wf(),
            final(self).input() == old(self).input(),
            final(self).at() == run_end(old(self).input(), old(self).at()),
            t@ == op_token(old(self).input().subrange(old(self).at(), final(self).at())),
    {
        let len = self.src.unicode_len();
        let start = self.pos;
        while self.pos < len && !is_alpha(self.src.get_char(self.pos))
            invariant
                self.wf(),
                self.src == old(self).src,
                len == self.src@.len(),
                start <= self.pos,
                run_end(self.src@, start as int) == run_end(self.src@, self.pos as int),
            decreases len - self.pos,
        {
            self.pos = self.pos + 1;
        }
        classify_run(self.src.substring_char(start, self.pos))
    }

    /// Takes characters verbatim up to (not including) the closing
    /// delimiter `boundary`, or to end of input if the literal is
    /// unterminated, and returns their text as a `String` token.
    pub fn read_string(&mut self, boundary: &char) -> (t: Token)
        requires
            old(self).wf(),
        ensures
            final(self).wf(),
            final(self).input() == old(self).input(),
            final(self).at() == str_end(old(self).input(), old(self).at(), *boundary),
            t@ == TokenV::String(old(self).input().subrange(old(self).at(), final(self).at())),
    {
        let len = self.src.unicode_len();
        let start = self.pos;
        while self.pos < len && self.src.get_char(self.pos) != *boundary
            invariant
                self.wf(),
                self.src == old(self).src,
                len == self.src@.len(),
                start <= self.pos,
                str_end(self.src@, start as int, *boundary) == str_end(
                    self.src@,
                    self.pos as int,
                    *boundary,
                ),
            decreases len - self.pos,
        {
            self.pos = self.pos + 1;
        }
        Token::String(self.src.substring_char(start, self.pos).to_owned())
    }

    /// Takes a run of digits containing at most one `.`; a second `.`
    /// aborts the scan at that `.` and yields `Unknown`, any other
    /// non-digit ends the run, whose spelling is returned as a
    /// `Number` token.
    pub fn read_number(&mut self) -> (t: Token)
        requires
            old(self).wf(),
        ensures
            final(self).wf(),
            final(self).input() == old(self).input(),
            final(self).at() == num_scan(old(self).input(), old(self).at(), false).0,
            t@ == (if num_scan(old(self).input(), old(self).at(), false).1 {
                TokenV::Number(old(self).input().subrange(old(self).at(), final(self).at()))
            } else {
                TokenV::Unknown
            }),
    {
        let len = self.src.unicode_len();
        let start = self.pos;
        let mut frac = false;
        while self.pos < len && is_num_part(self.src.get_char(self.pos))
            invariant
                self.wf(),
                self.src == old(self).src,
                len == self.src@.len(),
                start == old(self).pos,
                start <= self.pos,
                num_scan(self.src@, start as int, false) == num_scan(
                    self.src@,
                    self.pos as int,
                    frac,
                ),
            decreases len - self.pos,
        {
            let ch = self.src.get_char(self.pos);
            if ch == '.' {
                if frac {
                    return Token::Unknown;
                }
                frac = true;
            }
            self.pos = self.pos + 1;
        }
        Token::Number(self.src.substring_char(start, self.pos).to_owned())
    }

    /// Takes a run of letters and digits from the cursor on and
    /// classifies its spelling: keyword first, identifier otherwise.
    pub fn read_identifier(&mut self) -> (t: Token)
        requires
            old(self).wf(),
        ensures
            final(self).wf(),
            final(self).input() == old(self).input(),
            final(self).at() == ident_end(old(self).input(), old(self).at()),
            t@ == word_token(old(self).input().subrange(old(self).at(), final(self).at())),
    {
        let len = self.src.unicode_len();
        let start = self.pos;
        while self.pos < len && is_word(self.src.get_char(self.pos))
            invariant
                self.wf(),
                self.src == old(self).src,
                len == self.src@.len(),
                start <= self.pos,
                ident_end(self.src@, start as int) == ident_end(self.src@, self.pos as int),
            decreases len - self.pos,
        {
            self.pos = self.pos + 1;
        }
        classify_word(self.src.substring_char(start, self.pos))
    }
}

/// The driver: scans `source` to the end and returns the complete
/// ordered token sequence, stopping right after the first `Eof`.
pub fn lex(source: &str) -> (tokens: Vec<Token>)
    ensures
        tokens@.map_values(|t: Token| t@) == lex_spec(source@, 0),
{
    let mut lexer = Lexer::new(source);
    let mut tokens: Vec<Token> = Vec::new();
    loop
        invariant_except_break
            lex_spec(source@, 0) == tokens@.map_values(|t: Token| t@) + lex_spec(
                source@,
                lexer.at(),
            ),
        invariant
            lexer.wf(),
            lexer.input() == source@,
        ensures
            tokens@.map_values(|t: Token| t@) == lex_spec(source@, 0),
        decreases source@.len() - lexer.at(),
    {
        let ghost at0: int = lexer.at();
        let ghost seen: Seq<TokenV> = tokens@.map_values(|t: Token| t@);
        let token = lexer.next_token();
        proof {
            lemma_next_token_advances(source@, at0);
        }
        let is_end = token == Token::Eof;
        tokens.push(token);
        proof {
            assert(tokens@.map_values(|t: Token| t@) =~= seen + seq![token@]);
        }
        if is_end {
            break ;
        }
    }
    tokens
}

} // verus!

