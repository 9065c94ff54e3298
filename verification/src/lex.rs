//! A whitespace-and-quotes lexer over text: words are separated by blanks,
//! and a chunk opened by `"` runs to the next unescaped `"`, keeping its
//! quotes; a backslash inside a quoted chunk escapes the character after it.
//! An unterminated word or chunk runs to the end of the input. Positions are
//! counted in characters.

use vstd::prelude::*;

use vstd::string::StrSliceExecFns;

verus! {

/// One token: the text it covers, quotes included for a quoted chunk.
#[derive(Debug, Clone, PartialEq, Eq)]
pub enum Tok<'input> {
    Text(&'input str),
}

/// Exec state of the lexer between characters.
enum LexerState {
    Normal,
    Word { start: usize },
    Quoted { start: usize },
    QuotedSlash { start: usize },
    Finished,
}

/// The lexer's state with unbounded positions, for specifications.
pub enum LexSt {
    Normal,
    Word(int),
    Quoted(int),
    QuotedSlash(int),
    Finished,
}

spec fn st_view(st: LexerState) -> LexSt {
    match st {
        LexerState::Normal => LexSt::Normal,
        LexerState::Word { start } => LexSt::Word(start as int),
        LexerState::Quoted { start } => LexSt::Quoted(start as int),
        LexerState::QuotedSlash { start } => LexSt::QuotedSlash(start as int),
        LexerState::Finished => LexSt::Finished,
    }
}

/// The blanks that separate words.
pub open spec fn lex_space(c: char) -> bool {
    c == ' ' || c == '\t' || c == '\n' || c == '\r'
}

/// One call of the lexer, as a function of the characters, the cursor and
/// the state: the token it emits (as a character range), the cursor after
/// the call, and the state after the call.
pub open spec fn lex_next(s: Seq<char>, pos: int, st: LexSt) -> (Option<(int, int)>, int, LexSt)
    decreases s.len() - pos,
{
    if (st matches LexSt::Finished) {
        (Option::None, pos, LexSt::Finished)
    } else if pos < 0 || pos >= s.len() {
        let tok = match st {
            LexSt::Word(a) => Option::Some((a, s.len() as int)),
            LexSt::Quoted(a) => Option::Some((a, s.len() as int)),
            LexSt::QuotedSlash(a) => Option::Some((a, s.len() as int)),
            _ => Option::None,
        };
        (tok, pos, LexSt::Finished)
    } else {
        let c = s[pos];
        match st {
            LexSt::Normal => if lex_space(c) {
                lex_next(s, pos + 1, LexSt::Normal)
            } else if c == '"' {
                lex_next(s, pos + 1, LexSt::Quoted(pos))
            } else {
                lex_next(s, pos + 1, LexSt::Word(pos))
            },
            LexSt::Word(a) => if lex_space(c) {
                (Option::Some((a, pos)), pos + 1, LexSt::Normal)
            } else {
                lex_next(s, pos + 1, LexSt::Word(a))
            },
            LexSt::Quoted(a) => if c == '"' {
                (Option::Some((a, pos + 1)), pos + 1, LexSt::Normal)
            } else if c == '\\' {
                lex_next(s, pos + 1, LexSt::QuotedSlash(a))
            } else {
                lex_next(s, pos + 1, LexSt::Quoted(a))
            },
            LexSt::QuotedSlash(a) => lex_next(s, pos + 1, LexSt::Quoted(a)),
            LexSt::Finished => (Option::None, pos, LexSt::Finished),
        }
    }
}

/// One unit of loop measure left while the lexer has not finished.
pub open spec fn unfinished(st: LexSt) -> int {
    if (st matches LexSt::Finished) {
        0
    } else {
        1
    }
}

/// A state's stored start position lies at or before the cursor.
pub open spec fn st_ok(st: LexSt, pos: int) -> bool {
    match st {
        LexSt::Word(a) => 0 <= a <= pos,
        LexSt::Quoted(a) => 0 <= a <= pos,
        LexSt::QuotedSlash(a) => 0 <= a <= pos,
        _ => true,
    }
}

/// One lexer call keeps the cursor and state well formed, emits only ranges
/// inside the input, and either advances or finishes.
pub proof fn lemma_lex_next_sane(s: Seq<char>, pos: int, st: LexSt)
    requires
        0 <= pos <= s.len(),
        st_ok(st, pos),
    ensures
        pos <= lex_next(s, pos, st).1 <= s.len(),
        st_ok(lex_next(s, pos, st).2, lex_next(s, pos, st).1),
        lex_next(s, pos, st).0 matches Option::Some(t) ==> 0 <= t.0 <= t.1 <= s.len(),
        lex_next(s, pos, st).1 > pos || lex_next(s, pos, st).2 matches LexSt::Finished,
    decreases s.len() - pos,
{
    if !(st matches LexSt::Finished) && 0 <= pos < s.len() {
        let c = s[pos];
        match st {
            LexSt::Normal => {
                if lex_space(c) {
                    lemma_lex_next_sane(s, pos + 1, LexSt::Normal);
                } else if c == '"' {
                    lemma_lex_next_sane(s, pos + 1, LexSt::Quoted(pos));
                } else {
                    lemma_lex_next_sane(s, pos + 1, LexSt::Word(pos));
                }
            },
            LexSt::Word(a) => {
                if !lex_space(c) {
                    lemma_lex_next_sane(s, pos + 1, LexSt::Word(a));
                }
            },
            LexSt::Quoted(a) => {
                if c == '\\' {
                    lemma_lex_next_sane(s, pos + 1, LexSt::QuotedSlash(a));
                } else if c != '"' {
                    lemma_lex_next_sane(s, pos + 1, LexSt::Quoted(a));
                }
            },
            LexSt::QuotedSlash(a) => {
                lemma_lex_next_sane(s, pos + 1, LexSt::Quoted(a));
            },
            LexSt::Finished => {},
        }
    }
}

/// The lexer: input text, a character cursor, and the state between calls.
pub struct Lexer<'input> {
    input: &'input str,
    pos: usize,
    state: LexerState,
    n: usize,
}

impl<'input> Lexer<'input> {
    /// The characters being lexed.
    pub closed spec fn chars(&self) -> Seq<char> {
        self.input@
    }

    /// The character cursor.
    pub closed spec fn cursor(&self) -> int {
        self.pos as int
    }

    /// The state between calls.
    pub closed spec fn st(&self) -> LexSt {
        st_view(self.state)
    }

    /// The cursor is inside the input and the state's start before it.
    pub closed spec fn wf(&self) -> bool {
        self.pos <= self.input@.len() && st_ok(st_view(self.state), self.pos as int) && self.n
            == self.input@.len()
    }

    /// Starts lexing `input` from its first character.
    pub fn new(input: &'input str) -> (r: Self)
        ensures
            r.wf(),
            r.chars() == input@,
            r.cursor() == 0,
            r.st() == LexSt::Normal,
    {
        let n = input.unicode_len();
        Lexer { input, pos: 0, state: LexerState::Normal, n }
    }

    /// Emits the next token: exactly the one `lex_next` gives from the
    /// current cursor and state, as start position, text, and end position.
    pub fn next(&mut self) -> (r: Option<(usize, Tok<'input>, usize)>)
        requires
            old(self).wf(),
        ensures
            final (self).wf(),
            final (self).chars() == old(self).chars(),
            final (self).cursor() == lex_next(
                old(self).chars(),
                old(self).cursor(),
                old(self).st(),
            ).1,
            final (self).st() == lex_next(old(self).chars(), old(self).cursor(), old(self).st()).2,
            (match lex_next(old(self).chars(), old(self).cursor(), old(self).st()).0 {
                Option::Some(t) => r matches Option::Some(u) && u.0 as int == t.0 && u.2 as int
                    == t.1 && (u.1 matches Tok::Text(w) && w@ == old(self).chars().subrange(
                    t.0,
                    t.1,
                )),
                Option::None => r matches Option::None,
            }),
    {
        let inp = self.input;
        let ghost s0 = self.input@;
        let ghost p0 = self.pos as int;
        let ghost g0 = st_view(self.state);
        proof {
            lemma_lex_next_sane(s0, p0, g0);
        }
        loop
            invariant
                s0 == old(self).chars(),
                p0 == old(self).cursor(),
                g0 == old(self).st(),
                self.input == inp,
                self.input@ == s0,
                self.n == s0.len(),
                self.pos <= self.n,
                st_ok(st_view(self.state), self.pos as int),
                lex_next(s0, p0, g0) == lex_next(s0, self.pos as int, st_view(self.state)),
            decreases s0.len() - self.pos + unfinished(st_view(self.state)),
        {
            match self.state {
                LexerState::Finished => {
                    return Option::None;
                },
                _ => {},
            }
            if self.pos >= self.n {
                let b = self.pos;
                match self.state {
                    LexerState::Word { start } => {
                        self.state = LexerState::Finished;
                        let w = inp.substring_char(start, b);
                        return Option::Some((start, Tok::Text(w), b));
                    },
                    LexerState::Quoted { start } => {
                        self.state = LexerState::Finished;
                        let w = inp.substring_char(start, b);
                        return Option::Some((start, Tok::Text(w), b));
                    },
                    LexerState::QuotedSlash { start } => {
                        self.state = LexerState::Finished;
                        let w = inp.substring_char(start, b);
                        return Option::Some((start, Tok::Text(w), b));
                    },
                    _ => {
                        self.state = LexerState::Finished;
                        return Option::None;
                    },
                }
            }
            let c = inp.get_char(self.pos);
            match self.state {
                LexerState::Normal => {
                    if c == ' ' || c == '\t' || c == '\n' || c == '\r' {
                        self.pos = self.pos + 1;
                    } else if c == '"' {
                        self.state = LexerState::Quoted { start: self.pos };
                        self.pos = self.pos + 1;
                    } else {
                        self.state = LexerState::Word { start: self.pos };
                        self.pos = self.pos + 1;
                    }
                },
                LexerState::Word { start } => {
                    if c == ' ' || c == '\t' || c == '\n' || c == '\r' {
                        let b = self.pos;
                        self.state = LexerState::Normal;
                        self.pos = self.pos + 1;
                        let w = inp.substring_char(start, b);
                        return Option::Some((start, Tok::Text(w), b));
                    } else {
                        self.pos = self.pos + 1;
                    }
                },
                LexerState::Quoted { start } => {
                    if c == '"' {
                        let b = self.pos + 1;
                        self.state = LexerState::Normal;
                        self.pos = self.pos + 1;
                        let w = inp.substring_char(start, b);
                        return Option::Some((start, Tok::Text(w), b));
                    } else if c == '\\' {
                        self.state = LexerState::QuotedSlash { start };
                        self.pos = self.pos + 1;
                    } else {
                        self.pos = self.pos + 1;
                    }
                },
                LexerState::QuotedSlash { start } => {
                    self.state = LexerState::Quoted { start };
                    self.pos = self.pos + 1;
                },
                LexerState::Finished => {
                    return Option::None;
                },
            }
        }
    }
}

} // verus!
