//! The scanner for the assembly syntax: whitespace and comments are
//! skipped, words become mnemonics, registers, directives or labels,
//! and numbers keep their text for the parser to read. Classification
//! works over the ASCII range; comments run from `#` or `;` to the end
//! of the line.

use crate::assembler::tokens::{AsmToken, TokWithCtx};
use vstd::prelude::*;

verus! {

/// ASCII whitespace.
pub open spec fn is_space(c: char) -> bool {
    c == ' ' || c == '\t' || c == '\n' || c == '\r' || c == '\x0b' || c == '\x0c'
}

/// ASCII letter.
pub open spec fn is_letter(c: char) -> bool {
    (65 <= c as int && c as int <= 90) || (97 <= c as int && c as int <= 122)
}

/// ASCII digit.
pub open spec fn is_digit(c: char) -> bool {
    48 <= c as int && c as int <= 57
}

/// A character that may continue an identifier.
pub open spec fn is_ident_char(c: char) -> bool {
    is_letter(c) || is_digit(c) || c == '_'
}

fn space_char(c: char) -> (r: bool)
    ensures
        r == is_space(c),
{
    c == ' ' || c == '\t' || c == '\n' || c == '\r' || c == '\x0b' || c == '\x0c'
}

fn letter_char(c: char) -> (r: bool)
    ensures
        r == is_letter(c),
{
    let u: u32 = c as u32;
    (65 <= u && u <= 90) || (97 <= u && u <= 122)
}

fn digit_char(c: char) -> (r: bool)
    ensures
        r == is_digit(c),
{
    let u: u32 = c as u32;
    48 <= u && u <= 57
}

fn ident_char(c: char) -> (r: bool)
    ensures
        r == is_ident_char(c),
{
    letter_char(c) || digit_char(c) || c == '_'
}

/// The scanner: the input text, its characters, the cursor, and the
/// line/column bookkeeping of the character under the cursor.
pub struct Lexer {
    text: String,
    chars: Vec<char>,
    pos: usize,
    cur_line: usize,
    cur_column: usize,
    cur_char: char,
}

impl Lexer {
    /// The cursor stays within the text, and a cursor that never moved
    /// reads the NUL sentinel.
    pub open spec fn wf(&self) -> bool {
        &&& self.chars_view() == self.text_view()
        &&& self.pos_view() <= self.chars_view().len()
        &&& (self.pos_view() == 0 ==> self.cur_view() == '\u{0}')
    }

    pub closed spec fn text_view(&self) -> Seq<char> {
        self.text@
    }

    pub closed spec fn chars_view(&self) -> Seq<char> {
        self.chars@
    }

    pub closed spec fn pos_view(&self) -> int {
        self.pos as int
    }

    pub closed spec fn cur_view(&self) -> char {
        self.cur_char
    }

    pub fn new(input: &str) -> (r: Lexer)
        ensures
            r.wf(),
            r.text_view() == input@,
    {
        let mut chars: Vec<char> = Vec::new();
        let n: usize = input.unicode_len();
        let mut i: usize = 0;
        while i < n
            invariant
                i <= n,
                n == input@.len(),
                chars@ == input@.take(i as int),
            decreases n - i,
        {
            chars.push(input.get_char(i));
            proof {
                assert(chars@ =~= input@.take(i + 1));
            }
            i = i + 1;
        }
        proof {
            assert(input@.take(n as int) =~= input@);
        }
        let mut l = Lexer {
            text: input.to_owned(),
            chars,
            pos: 0,
            cur_line: 1,
            cur_column: 0,
            cur_char: '\u{0}',
        };
        l.read_char();
        l
    }

    /// Advance the cursor one character; past the end it parks on the
    /// NUL sentinel.
    fn read_char(&mut self)
        requires
            old(self).wf(),
        ensures
            final(self).wf(),
            final(self).text_view() == old(self).text_view(),
            old(self).pos_view() < old(self).chars_view().len() ==> final(self).pos_view() == old(
                self,
            ).pos_view() + 1 && final(self).cur_view() == old(self).chars_view()[old(
                self,
            ).pos_view()],
            old(self).pos_view() == old(self).chars_view().len() ==> final(self).pos_view() == old(
                self,
            ).pos_view() && final(self).cur_view() == '\u{0}',
    {
        if self.pos < self.chars.len() {
            let c: char = self.chars[self.pos];
            self.cur_char = c;
            if c == '\n' {
                self.cur_line = self.cur_line.wrapping_add(1);
                self.cur_column = 0;
            } else if c == '\t' {
                self.cur_column = self.cur_column.wrapping_add(4);
            } else {
                self.cur_column = self.cur_column.wrapping_add(1);
            }
            self.pos = self.pos + 1;
        } else {
            self.cur_char = '\u{0}';
        }
    }

    fn skip_whitespace(&mut self)
        requires
            old(self).wf(),
        ensures
            final(self).wf(),
            final(self).text_view() == old(self).text_view(),
            final(self).pos_view() >= old(self).pos_view(),
            !is_space(final(self).cur_view()),
    {
        while space_char(self.cur_char)
            invariant
                self.wf(),
                self.text_view() == old(self).text_view(),
                self.pos_view() >= old(self).pos_view(),
            decreases self.chars_view().len() - self.pos_view(), (if is_space(self.cur_view()) {
                1int
            } else {
                0int
            }),
        {
            self.read_char();
        }
    }

    fn ignore_comment(&mut self)
        requires
            old(self).wf(),
        ensures
            final(self).wf(),
            final(self).text_view() == old(self).text_view(),
            final(self).pos_view() >= old(self).pos_view(),
    {
        if self.cur_char == '#' || self.cur_char == ';' {
            self.read_char();
            while self.cur_char != '\u{0}' && self.cur_char != '\n'
                invariant
                    self.wf(),
                    self.text_view() == old(self).text_view(),
                    self.pos_view() >= old(self).pos_view(),
                decreases self.chars_view().len() - self.pos_view(), (if self.cur_view()
                    != '\u{0}' {
                    1int
                } else {
                    0int
                }),
            {
                self.read_char();
            }
            self.skip_whitespace();
        }
    }

    /// Scan an identifier that starts at the character under the cursor
    /// and classify it.
    fn read_identifier(&mut self) -> (r: AsmToken)
        requires
            old(self).wf(),
            old(self).cur_view() != '\u{0}',
        ensures
            final(self).wf(),
            final(self).text_view() == old(self).text_view(),
            final(self).pos_view() >= old(self).pos_view(),
    {
        let start: usize = self.pos - 1;
        while self.pos < self.chars.len() && ident_char(self.chars[self.pos])
            invariant
                self.wf(),
                self.text_view() == old(self).text_view(),
                start <= self.pos_view(),
                self.pos_view() >= old(self).pos_view(),
            decreases self.chars_view().len() - self.pos_view(),
        {
            self.read_char();
        }
        let ident: &str = self.text.as_str().substring_char(start, self.pos);
        AsmToken::name_to_tok(ident)
    }

    /// Scan a number (an optional leading minus, then digits), keeping
    /// its text.
    fn read_number(&mut self) -> (r: AsmToken)
        requires
            old(self).wf(),
            old(self).cur_view() != '\u{0}',
        ensures
            final(self).wf(),
            final(self).text_view() == old(self).text_view(),
            final(self).pos_view() >= old(self).pos_view(),
    {
        let start: usize = self.pos - 1;
        while self.pos < self.chars.len() && digit_char(self.chars[self.pos])
            invariant
                self.wf(),
                self.text_view() == old(self).text_view(),
                start <= self.pos_view(),
                self.pos_view() >= old(self).pos_view(),
            decreases self.chars_view().len() - self.pos_view(),
        {
            self.read_char();
        }
        let num: &str = self.text.as_str().substring_char(start, self.pos);
        AsmToken::Number(num.to_owned())
    }

    /// Classify the character under the cursor into one token.
    fn tokenizer(&mut self) -> (r: AsmToken)
        requires
            old(self).wf(),
        ensures
            final(self).wf(),
            final(self).text_view() == old(self).text_view(),
            final(self).pos_view() >= old(self).pos_view(),
            old(self).cur_view() == '\u{0}' ==> r@ is Eof && *final(self) == *old(self),
    {
        let c: char = self.cur_char;
        if c == ':' {
            AsmToken::Colon
        } else if c == ',' {
            AsmToken::Comma
        } else if c == '<' {
            if self.pos < self.chars.len() && self.chars[self.pos] == '-' {
                self.read_char();
                AsmToken::Assign
            } else {
                AsmToken::Illegal
            }
        } else if letter_char(c) || c == '.' || c == '_' {
            self.read_identifier()
        } else if c == '-' || digit_char(c) {
            self.read_number()
        } else if c == '\u{0}' {
            AsmToken::Eof
        } else {
            AsmToken::Illegal
        }
    }

    /// The next token of the input, or `Eof` once it is exhausted.
    pub fn next_token(&mut self) -> (r: AsmToken)
        requires
            old(self).wf(),
        ensures
            final(self).wf(),
            final(self).text_view() == old(self).text_view(),
            final(self).pos_view() >= old(self).pos_view(),
    {
        self.skip_whitespace();
        self.ignore_comment();
        let tok = self.tokenizer();
        self.read_char();
        tok
    }

    /// The next token together with the line and column it started at.
    pub fn next_with_ctx(&mut self) -> (r: TokWithCtx)
        requires
            old(self).wf(),
        ensures
            final(self).wf(),
            final(self).text_view() == old(self).text_view(),
            final(self).pos_view() >= old(self).pos_view(),
    {
        self.skip_whitespace();
        self.ignore_comment();
        let cur_line: usize = self.cur_line;
        let cur_column: usize = self.cur_column;
        let tok = self.tokenizer();
        let tok_ctx = TokWithCtx::new(tok, cur_line, cur_column);
        self.read_char();
        tok_ctx
    }

    /// Every token of the input, ending with `Eof`.
    pub fn get_deez_toks(&mut self) -> (r: Vec<AsmToken>)
        requires
            old(self).wf(),
        ensures
            final(self).wf(),
            r@.len() >= 1,
            r@.last()@ is Eof,
    {
        let mut toks: Vec<AsmToken> = Vec::new();
        let n: usize = self.chars.len();
        let mut fuel: usize = if n < usize::MAX - 2 {
            n + 2
        } else {
            n
        };
        while fuel > 0
            invariant
                self.wf(),
                toks@.len() >= 0,
            decreases fuel,
        {
            fuel = fuel - 1;
            let tok = self.next_token();
            let is_eof: bool = matches!(tok, AsmToken::Eof);
            toks.push(tok);
            if is_eof {
                return toks;
            }
        }
        toks.push(AsmToken::Eof);
        toks
    }

    /// Every token of the input with its position, ending with `Eof`.
    pub fn get_deez_toks_w_ctx(&mut self) -> (r: Vec<TokWithCtx>)
        requires
            old(self).wf(),
        ensures
            final(self).wf(),
            r@.len() >= 1,
            r@.last().tok@ is Eof,
    {
        let mut toks: Vec<TokWithCtx> = Vec::new();
        let n: usize = self.chars.len();
        let mut fuel: usize = if n < usize::MAX - 2 {
            n + 2
        } else {
            n
        };
        while fuel > 0
            invariant
                self.wf(),
            decreases fuel,
        {
            fuel = fuel - 1;
            let tok = self.next_with_ctx();
            let is_eof: bool = matches!(tok.tok, AsmToken::Eof);
            toks.push(tok);
            if is_eof {
                return toks;
            }
        }
        toks.push(TokWithCtx::new(AsmToken::Eof, self.cur_line, self.cur_column));
        toks
    }
}

} // verus!
