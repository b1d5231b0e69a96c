//! The reader: a lexer with one-token lookahead and a recursive-descent
//! parser producing a value tree.  Program text and runtime data share
//! the same representation.

use vstd::prelude::*;
use vstd::string::StrSliceExecFns;
use crate::errors::{ErrV, MalError};
use crate::types::{
    chars_to_string, str_to_chars, view_mal_seq, KeyV, Keyword, Mal, MalArr, MalList, MalMap,
    MalV, MapKey, Symbol,
};
use crate::numtext::{atom_is_number, parse_num_v, parse_digits};

verus! {

// ------------------------------------------------------------------
// Tokens.
// ------------------------------------------------------------------

/// One token, with the character offsets of its first character and of
/// the position just past it.
#[derive(Debug)]
pub struct Token {
    pub kind: TokenKind,
    pub start: usize,
    pub end: usize,
}

/// The kinds of token: structural punctuation, reader-macro sigils,
/// string literals, line comments (trivia), and atoms.
#[derive(Debug)]
pub enum TokenKind {
    Tadpole,
    BrackOpen,
    BrackClose,
    CurlOpen,
    CurlClose,
    ParOpen,
    ParClose,
    Apo,
    BackTick,
    Tilde,
    Hat,
    At,
    Str(String),
    SemiCTrail(String),
    Ident(String),
}

/// Spec-level mirror of [`TokenKind`].
#[verifier::ext_equal]
pub enum TokKindV {
    Tadpole,
    BrackOpen,
    BrackClose,
    CurlOpen,
    CurlClose,
    ParOpen,
    ParClose,
    Apo,
    BackTick,
    Tilde,
    Hat,
    At,
    Str(Seq<char>),
    SemiCTrail(Seq<char>),
    Ident(Seq<char>),
}

/// Spec-level mirror of [`Token`].
#[verifier::ext_equal]
pub struct TokV {
    pub kind: TokKindV,
    pub start: int,
    pub end: int,
}

impl View for TokenKind {
    type V = TokKindV;

    open spec fn view(&self) -> TokKindV {
        match *self {
            TokenKind::Tadpole => TokKindV::Tadpole,
            TokenKind::BrackOpen => TokKindV::BrackOpen,
            TokenKind::BrackClose => TokKindV::BrackClose,
            TokenKind::CurlOpen => TokKindV::CurlOpen,
            TokenKind::CurlClose => TokKindV::CurlClose,
            TokenKind::ParOpen => TokKindV::ParOpen,
            TokenKind::ParClose => TokKindV::ParClose,
            TokenKind::Apo => TokKindV::Apo,
            TokenKind::BackTick => TokKindV::BackTick,
            TokenKind::Tilde => TokKindV::Tilde,
            TokenKind::Hat => TokKindV::Hat,
            TokenKind::At => TokKindV::At,
            TokenKind::Str(ref s) => TokKindV::Str(s@),
            TokenKind::SemiCTrail(ref s) => TokKindV::SemiCTrail(s@),
            TokenKind::Ident(ref s) => TokKindV::Ident(s@),
        }
    }
}

impl View for Token {
    type V = TokV;

    open spec fn view(&self) -> TokV {
        TokV { kind: self.kind@, start: self.start as int, end: self.end as int }
    }
}

// ------------------------------------------------------------------
// What lexing means.
// ------------------------------------------------------------------

/// Whitespace for the lexer: blanks, tabs, line ends, and the comma.
pub open spec fn is_ws_c(c: char) -> bool {
    c == ' ' || c == '\t' || c == '\n' || c == '\r' || c == ','
}

/// Characters that end an atom: structural punctuation, sigils, the
/// string quote, the comment sign, and whitespace.
pub open spec fn is_special_c(c: char) -> bool {
    c == '~' || c == '@' || c == '[' || c == ']' || c == '(' || c == ')' || c == '{' || c == '}'
        || c == '\'' || c == '`' || c == '"' || c == '^' || c == ';' || is_ws_c(c)
}

/// Whether a character ends an atom.
pub fn is_special_char(ch: char) -> (r: bool)
    ensures
        r == is_special_c(ch),
{
    ch == '~' || ch == '@' || ch == '[' || ch == ']' || ch == '(' || ch == ')' || ch == '{'
        || ch == '}' || ch == '\'' || ch == '`' || ch == '"' || ch == '^' || ch == ';'
        || ch == ' ' || ch == '\t' || ch == '\n' || ch == '\r' || ch == ','
}

/// The first non-whitespace position at or after `i`.
pub open spec fn skip_ws(text: Seq<char>, i: int) -> int
    decreases text.len() - i,
{
    if 0 <= i < text.len() && is_ws_c(text[i]) {
        skip_ws(text, i + 1)
    } else {
        i
    }
}

/// The end of the atom that starts before `j`.
pub open spec fn ident_end(text: Seq<char>, j: int) -> int
    decreases text.len() - j,
{
    if 0 <= j < text.len() && !is_special_c(text[j]) {
        ident_end(text, j + 1)
    } else {
        j
    }
}

/// Scans a line comment from `j`: its text, and the position after the
/// line end.  A lone carriage return is a lexing fault.
pub open spec fn scan_comment(text: Seq<char>, j: int) -> Result<(Seq<char>, int), nat>
    decreases text.len() - j,
{
    if !(0 <= j) {
        Result::Err(0 as nat)
    } else if j >= text.len() {
        Result::Ok((Seq::empty(), j))
    } else if text[j] == '\n' {
        Result::Ok((Seq::empty(), j + 1))
    } else if text[j] == '\r' {
        if j + 1 < text.len() && text[j + 1] == '\n' {
            Result::Ok((Seq::empty(), j + 2))
        } else {
            Result::Err(j as nat)
        }
    } else {
        match scan_comment(text, j + 1) {
            Result::Ok((s, e)) => Result::Ok((seq![text[j]] + s, e)),
            Result::Err(p) => Result::Err(p),
        }
    }
}

/// Scans a string literal body from `j` (just after the opening quote):
/// the unescaped contents, and the position after the closing quote.
/// Faults: an unterminated literal, or an unknown escape.
pub open spec fn scan_string(text: Seq<char>, j: int) -> Result<(Seq<char>, int), nat>
    decreases text.len() - j,
{
    if !(0 <= j) {
        Result::Err(0 as nat)
    } else if j >= text.len() {
        Result::Err(text.len() as nat)
    } else if text[j] == '"' {
        Result::Ok((Seq::empty(), j + 1))
    } else if text[j] == '\\' {
        if j + 1 >= text.len() {
            Result::Err(text.len() as nat)
        } else if text[j + 1] == '"' {
            match scan_string(text, j + 2) {
                Result::Ok((s, e)) => Result::Ok((seq!['"'] + s, e)),
                Result::Err(p) => Result::Err(p),
            }
        } else if text[j + 1] == '\\' {
            match scan_string(text, j + 2) {
                Result::Ok((s, e)) => Result::Ok((seq!['\\'] + s, e)),
                Result::Err(p) => Result::Err(p),
            }
        } else if text[j + 1] == 'n' {
            match scan_string(text, j + 2) {
                Result::Ok((s, e)) => Result::Ok((seq!['\n'] + s, e)),
                Result::Err(p) => Result::Err(p),
            }
        } else {
            Result::Err((j + 1) as nat)
        }
    } else {
        match scan_string(text, j + 1) {
            Result::Ok((s, e)) => Result::Ok((seq![text[j]] + s, e)),
            Result::Err(p) => Result::Err(p),
        }
    }
}

/// The next token at or after `i`, or the offset of the lexing fault.
pub open spec fn lex_token_v(text: Seq<char>, i0: int) -> Result<TokV, nat> {
    let i = skip_ws(text, i0);
    if i >= text.len() {
        Result::Err(i as nat)
    } else {
        let c = text[i];
        if c == '~' {
            if i + 1 < text.len() && text[i + 1] == '@' {
                Result::Ok(TokV { kind: TokKindV::Tadpole, start: i, end: i + 2 })
            } else {
                Result::Ok(TokV { kind: TokKindV::Tilde, start: i, end: i + 1 })
            }
        } else if c == '(' {
            Result::Ok(TokV { kind: TokKindV::ParOpen, start: i, end: i + 1 })
        } else if c == ')' {
            Result::Ok(TokV { kind: TokKindV::ParClose, start: i, end: i + 1 })
        } else if c == '[' {
            Result::Ok(TokV { kind: TokKindV::BrackOpen, start: i, end: i + 1 })
        } else if c == ']' {
            Result::Ok(TokV { kind: TokKindV::BrackClose, start: i, end: i + 1 })
        } else if c == '{' {
            Result::Ok(TokV { kind: TokKindV::CurlOpen, start: i, end: i + 1 })
        } else if c == '}' {
            Result::Ok(TokV { kind: TokKindV::CurlClose, start: i, end: i + 1 })
        } else if c == '\'' {
            Result::Ok(TokV { kind: TokKindV::Apo, start: i, end: i + 1 })
        } else if c == '^' {
            Result::Ok(TokV { kind: TokKindV::Hat, start: i, end: i + 1 })
        } else if c == '@' {
            Result::Ok(TokV { kind: TokKindV::At, start: i, end: i + 1 })
        } else if c == '`' {
            Result::Ok(TokV { kind: TokKindV::BackTick, start: i, end: i + 1 })
        } else if c == ';' {
            match scan_comment(text, i + 1) {
                Result::Ok((s, e)) => Result::Ok(
                    TokV { kind: TokKindV::SemiCTrail(s), start: i, end: e },
                ),
                Result::Err(p) => Result::Err(p),
            }
        } else if c == '"' {
            match scan_string(text, i + 1) {
                Result::Ok((s, e)) => Result::Ok(
                    TokV { kind: TokKindV::Str(s), start: i, end: e },
                ),
                Result::Err(p) => Result::Err(p),
            }
        } else {
            let e = ident_end(text, i + 1);
            Result::Ok(TokV { kind: TokKindV::Ident(text.subrange(i, e)), start: i, end: e })
        }
    }
}

// ------------------------------------------------------------------
// Bounds: a token always moves the cursor strictly forward and stays
// inside the text.
// ------------------------------------------------------------------

pub proof fn lemma_skip_ws_bounds(text: Seq<char>, i: int)
    requires
        0 <= i <= text.len(),
    ensures
        i <= skip_ws(text, i) <= text.len(),
    decreases text.len() - i,
{
    if i < text.len() && is_ws_c(text[i]) {
        lemma_skip_ws_bounds(text, i + 1);
    }
}

pub proof fn lemma_ident_end_bounds(text: Seq<char>, j: int)
    requires
        0 <= j <= text.len(),
    ensures
        j <= ident_end(text, j) <= text.len(),
    decreases text.len() - j,
{
    if j < text.len() && !is_special_c(text[j]) {
        lemma_ident_end_bounds(text, j + 1);
    }
}

pub proof fn lemma_scan_comment_bounds(text: Seq<char>, j: int)
    requires
        0 <= j <= text.len(),
    ensures
        match scan_comment(text, j) {
            Result::Ok((_s, e)) => j <= e <= text.len(),
            Result::Err(p) => p <= text.len(),
        },
    decreases text.len() - j,
{
    if j < text.len() && text[j] != '\n' && text[j] != '\r' {
        lemma_scan_comment_bounds(text, j + 1);
    }
}

pub proof fn lemma_scan_string_bounds(text: Seq<char>, j: int)
    requires
        0 <= j <= text.len(),
    ensures
        match scan_string(text, j) {
            Result::Ok((_s, e)) => j < e <= text.len(),
            Result::Err(p) => p <= text.len(),
        },
    decreases text.len() - j,
{
    if j < text.len() && text[j] != '"' {
        if text[j] == '\\' {
            if j + 2 <= text.len() {
                lemma_scan_string_bounds(text, j + 2);
            }
        } else {
            lemma_scan_string_bounds(text, j + 1);
        }
    }
}

/// A lexed token lies within the text and past the requested position.
pub proof fn lemma_lex_token_bounds(text: Seq<char>, i0: int)
    requires
        0 <= i0 <= text.len(),
    ensures
        match lex_token_v(text, i0) {
            Result::Ok(t) => i0 <= t.start < t.end <= text.len(),
            Result::Err(p) => p <= text.len(),
        },
{
    lemma_skip_ws_bounds(text, i0);
    let i = skip_ws(text, i0);
    if i < text.len() {
        let c = text[i];
        if c == ';' {
            lemma_scan_comment_bounds(text, i + 1);
        } else if c == '"' {
            lemma_scan_string_bounds(text, i + 1);
        } else {
            lemma_ident_end_bounds(text, i + 1);
        }
    }
}

// ------------------------------------------------------------------
// The executable lexer.
// ------------------------------------------------------------------

/// Lexes the token at or after `pos`.
#[verifier::loop_isolation(false)]
fn lex_next(chars: &Vec<char>, pos: usize) -> (r: Result<Token, MalError>)
    requires
        pos <= chars@.len(),
    ensures
        match r {
            Ok(t) => lex_token_v(chars@, pos as int) == Result::<TokV, nat>::Ok(t@) && t.end
                <= chars@.len(),
            Err(e) => lex_token_v(chars@, pos as int) is Err && e@ == ErrV::Lex(
                lex_token_v(chars@, pos as int)->Err_0,
            ),
        },
{
    proof {
        lemma_lex_token_bounds(chars@, pos as int);
    }
    let text_len = chars.len();
    let mut i: usize = pos;
    while i < text_len && is_special_ws(chars[i])
        invariant
            pos <= i <= text_len,
            text_len == chars@.len(),
            skip_ws(chars@, i as int) == skip_ws(chars@, pos as int),
        decreases text_len - i,
    {
        i = i + 1;
    }
    proof {
        assert(skip_ws(chars@, i as int) == i as int);
    }
    if i == text_len {
        return Err(MalError::Lex { pos: i });
    }
    let c = chars[i];
    if c == '~' {
        // a tilde, or the splice-unquote sigil
        if i + 1 < text_len && chars[i + 1] == '@' {
            Ok(Token { kind: TokenKind::Tadpole, start: i, end: i + 2 })
        } else {
            Ok(Token { kind: TokenKind::Tilde, start: i, end: i + 1 })
        }
    } else if c == '(' {
        Ok(Token { kind: TokenKind::ParOpen, start: i, end: i + 1 })
    } else if c == ')' {
        Ok(Token { kind: TokenKind::ParClose, start: i, end: i + 1 })
    } else if c == '[' {
        Ok(Token { kind: TokenKind::BrackOpen, start: i, end: i + 1 })
    } else if c == ']' {
        Ok(Token { kind: TokenKind::BrackClose, start: i, end: i + 1 })
    } else if c == '{' {
        Ok(Token { kind: TokenKind::CurlOpen, start: i, end: i + 1 })
    } else if c == '}' {
        Ok(Token { kind: TokenKind::CurlClose, start: i, end: i + 1 })
    } else if c == '\'' {
        Ok(Token { kind: TokenKind::Apo, start: i, end: i + 1 })
    } else if c == '^' {
        Ok(Token { kind: TokenKind::Hat, start: i, end: i + 1 })
    } else if c == '@' {
        Ok(Token { kind: TokenKind::At, start: i, end: i + 1 })
    } else if c == '`' {
        Ok(Token { kind: TokenKind::BackTick, start: i, end: i + 1 })
    } else if c == ';' {
        // a line comment
        let mut j: usize = i + 1;
        let mut trail: Vec<char> = Vec::new();
        loop
            invariant
                i + 1 <= j <= text_len,
                text_len == chars@.len(),
                scan_comment(chars@, i + 1) == (match scan_comment(chars@, j as int) {
                    Result::<(Seq<char>, int), nat>::Ok((s, e)) => Result::<
                        (Seq<char>, int),
                        nat,
                    >::Ok((trail@ + s, e)),
                    Result::<(Seq<char>, int), nat>::Err(p) => Result::<
                        (Seq<char>, int),
                        nat,
                    >::Err(p),
                }),
            decreases text_len - j,
        {
            if j == text_len {
                proof {
                    assert(trail@ + Seq::<char>::empty() =~= trail@);
                }
                return Ok(Token { kind: TokenKind::SemiCTrail(chars_to_string(&trail)), start: i, end: j });
            }
            let ch = chars[j];
            if ch == '\n' {
                proof {
                    assert(trail@ + Seq::<char>::empty() =~= trail@);
                }
                return Ok(Token { kind: TokenKind::SemiCTrail(chars_to_string(&trail)), start: i, end: j + 1 });
            } else if ch == '\r' {
                if j + 1 < text_len && chars[j + 1] == '\n' {
                    proof {
                        assert(trail@ + Seq::<char>::empty() =~= trail@);
                    }
                    return Ok(Token { kind: TokenKind::SemiCTrail(chars_to_string(&trail)), start: i, end: j + 2 });
                } else {
                    return Err(MalError::Lex { pos: j });
                }
            } else {
                proof {
                    let rest = scan_comment(chars@, j + 1);
                    if rest is Ok {
                        assert(trail@ + (seq![chars@[j as int]] + rest->Ok_0.0) =~= trail@.push(
                            chars@[j as int],
                        ) + rest->Ok_0.0);
                    }
                }
                trail.push(ch);
                j = j + 1;
            }
        }
    } else if c == '"' {
        // a string literal
        let mut j: usize = i + 1;
        let mut body: Vec<char> = Vec::new();
        loop
            invariant
                i + 1 <= j <= text_len,
                text_len == chars@.len(),
                scan_string(chars@, i + 1) == (match scan_string(chars@, j as int) {
                    Result::<(Seq<char>, int), nat>::Ok((s, e)) => Result::<
                        (Seq<char>, int),
                        nat,
                    >::Ok((body@ + s, e)),
                    Result::<(Seq<char>, int), nat>::Err(p) => Result::<
                        (Seq<char>, int),
                        nat,
                    >::Err(p),
                }),
            decreases text_len - j,
        {
            if j == text_len {
                return Err(MalError::Lex { pos: text_len });
            }
            let ch = chars[j];
            if ch == '"' {
                proof {
                    assert(body@ + Seq::<char>::empty() =~= body@);
                }
                return Ok(Token { kind: TokenKind::Str(chars_to_string(&body)), start: i, end: j + 1 });
            } else if ch == '\\' {
                if j + 1 == text_len {
                    return Err(MalError::Lex { pos: text_len });
                }
                let esc = chars[j + 1];
                let unescaped: char = if esc == '"' {
                    '"'
                } else if esc == '\\' {
                    '\\'
                } else if esc == 'n' {
                    '\n'
                } else {
                    return Err(MalError::Lex { pos: j + 1 });
                };
                proof {
                    let rest = scan_string(chars@, j + 2);
                    if rest is Ok {
                        assert(body@ + (seq![unescaped] + rest->Ok_0.0) =~= body@.push(unescaped)
                            + rest->Ok_0.0);
                    }
                }
                body.push(unescaped);
                j = j + 2;
            } else {
                proof {
                    let rest = scan_string(chars@, j + 1);
                    if rest is Ok {
                        assert(body@ + (seq![chars@[j as int]] + rest->Ok_0.0) =~= body@.push(
                            chars@[j as int],
                        ) + rest->Ok_0.0);
                    }
                }
                body.push(ch);
                j = j + 1;
            }
        }
    } else {
        // an atom: a maximal run of non-special characters
        let mut j: usize = i + 1;
        while j < text_len && !is_special_char(chars[j])
            invariant
                i + 1 <= j <= text_len,
                text_len == chars@.len(),
                ident_end(chars@, j as int) == ident_end(chars@, i + 1),
            decreases text_len - j,
        {
            j = j + 1;
        }
        proof {
            assert(ident_end(chars@, j as int) == j as int);
        }
        let mut content: Vec<char> = Vec::new();
        let mut k: usize = i;
        while k < j
            invariant
                i <= k <= j <= text_len,
                text_len == chars@.len(),
                content@ == chars@.subrange(i as int, k as int),
            decreases j - k,
        {
            content.push(chars[k]);
            proof {
                assert(chars@.subrange(i as int, k + 1) =~= chars@.subrange(i as int, k as int).push(
                    chars@[k as int],
                ));
            }
            k = k + 1;
        }
        Ok(Token { kind: TokenKind::Ident(chars_to_string(&content)), start: i, end: j })
    }
}

/// Whether the lexer skips this character between tokens.
fn is_special_ws(c: char) -> (r: bool)
    ensures
        r == is_ws_c(c),
{
    c == ' ' || c == '\t' || c == '\n' || c == '\r' || c == ','
}

// ------------------------------------------------------------------
// The lexer with one-token lookahead.
// ------------------------------------------------------------------

/// Spec-level mirror of [`Lexer`].
#[verifier::ext_equal]
pub struct LexerV {
    pub text: Seq<char>,
    pub pos: int,
    pub pending: Option<TokV>,
}

/// A cursor over the text with one token of lookahead.
#[derive(Debug)]
pub struct Lexer {
    pub chars: Vec<char>,
    pub pos: usize,
    pub next_token: Option<Token>,
}

impl View for Lexer {
    type V = LexerV;

    open spec fn view(&self) -> LexerV {
        LexerV {
            text: self.chars@,
            pos: self.pos as int,
            pending: match self.next_token {
                Option::Some(ref t) => Option::Some(t@),
                Option::None => Option::None,
            },
        }
    }
}

/// A lexer is coherent while its cursor is inside its text.
pub open spec fn lexer_wf(l: LexerV) -> bool {
    0 <= l.pos <= l.text.len()
}

impl Lexer {
    /// A lexer at the start of the text.
    pub fn new(text: &str) -> (r: Lexer)
        ensures
            r@.text == text@,
            r@.pos == 0,
            r@.pending is None,
            lexer_wf(r@),
    {
        Lexer { chars: str_to_chars(text), pos: 0, next_token: None }
    }

    /// Takes the next token, or reports the lexing fault.
    pub fn next(&mut self) -> (r: Result<Token, MalError>)
        requires
            lexer_wf(old(self)@),
        ensures
            lexer_wf(final(self)@),
            final(self)@.text == old(self)@.text,
            final(self)@.pending is None,
            match old(self)@.pending {
                Option::Some(t) => r is Ok && r->Ok_0@ == t && final(self)@.pos == old(self)@.pos,
                Option::None => match r {
                    Ok(t) => lex_token_v(old(self)@.text, old(self)@.pos) == Result::<
                        TokV,
                        nat,
                    >::Ok(t@) && final(self)@.pos == t@.end,
                    Err(e) => lex_token_v(old(self)@.text, old(self)@.pos) is Err && e@
                        == ErrV::Lex(lex_token_v(old(self)@.text, old(self)@.pos)->Err_0)
                        && final(self)@.pos == old(self)@.pos,
                },
            },
    {
        let pending = self.next_token.take();
        match pending {
            Option::Some(t) => Ok(t),
            Option::None => {
                proof {
                    lemma_lex_token_bounds(self.chars@, self.pos as int);
                }
                match lex_next(&self.chars, self.pos) {
                    Ok(t) => {
                        self.pos = t.end;
                        Ok(t)
                    },
                    Err(e) => Err(e),
                }
            },
        }
    }

    /// Looks at the next token without consuming it; a lexing fault
    /// shows as no token.
    pub fn peek(&mut self) -> (r: Option<&Token>)
        requires
            lexer_wf(old(self)@),
        ensures
            lexer_wf(final(self)@),
            final(self)@.text == old(self)@.text,
            match r {
                Option::Some(t) => final(self)@.pending == Option::Some(t@) && match old(
                    self,
                )@.pending {
                    Option::Some(p) => t@ == p && final(self)@.pos == old(self)@.pos,
                    Option::None => lex_token_v(old(self)@.text, old(self)@.pos) == Result::<
                        TokV,
                        nat,
                    >::Ok(t@) && final(self)@.pos == t@.end,
                },
                Option::None => old(self)@.pending is None && lex_token_v(
                    old(self)@.text,
                    old(self)@.pos,
                ) is Err && final(self)@ == old(self)@,
            },
    {
        if self.next_token.is_some() {
            return self.next_token.as_ref();
        }
        proof {
            lemma_lex_token_bounds(self.chars@, self.pos as int);
        }
        match lex_next(&self.chars, self.pos) {
            Ok(t) => {
                self.pos = t.end;
                self.next_token = Some(t);
                self.next_token.as_ref()
            },
            Err(_) => None,
        }
    }

    /// Whether lookahead holds a token or text remains; whitespace-only
    /// remainders still count as text here, as in a prompt loop.
    pub fn has_next(&self) -> (r: bool)
        ensures
            r == (self@.pending is Some || self@.pos < self@.text.len()),
    {
        self.next_token.is_some() || self.pos < self.chars.len()
    }
}

} // verus!

verus! {

// ------------------------------------------------------------------
// What parsing means: recursive descent over the token stream, with
// comment trivia dropped before each form.
// ------------------------------------------------------------------

/// What an atom's spelling denotes: a number, a keyword, one of the
/// three word literals, or a symbol.
pub open spec fn read_atom_v(s: Seq<char>, pos: int) -> Result<MalV, ErrV> {
    if atom_is_number(s) {
        match parse_num_v(s) {
            Option::Some(n) => Result::Ok(MalV::Num(n)),
            Option::None => Result::Err(ErrV::Reader(pos as nat)),
        }
    } else if s.len() > 0 && s[0] == ':' {
        Result::Ok(MalV::Kw(s.subrange(1, s.len() as int)))
    } else if s == "true"@ {
        Result::Ok(MalV::Bool(true))
    } else if s == "false"@ {
        Result::Ok(MalV::Bool(false))
    } else if s == "nil"@ {
        Result::Ok(MalV::Nil)
    } else {
        Result::Ok(MalV::Sym(s))
    }
}

/// The form at or after `i`, and the position after it.
pub open spec fn read_form_v(text: Seq<char>, i: int) -> Result<(MalV, int), ErrV>
    decreases text.len() - i, 2int,
    via read_form_v_dec
{
    if !(0 <= i <= text.len()) {
        Result::Err(ErrV::Reader(0))
    } else {
        match lex_token_v(text, i) {
            Result::Err(p) => Result::Err(ErrV::Lex(p)),
            Result::Ok(t) => match t.kind {
                TokKindV::ParOpen => match read_seq_v(text, t.end, TokKindV::ParClose) {
                    Result::Ok((items, e)) => Result::Ok((MalV::List(items), e)),
                    Result::Err(x) => Result::Err(x),
                },
                TokKindV::BrackOpen => match read_seq_v(text, t.end, TokKindV::BrackClose) {
                    Result::Ok((items, e)) => Result::Ok((MalV::Arr(items), e)),
                    Result::Err(x) => Result::Err(x),
                },
                TokKindV::CurlOpen => match read_map_v(text, t.end, Seq::empty()) {
                    Result::Ok((entries, e)) => Result::Ok((MalV::Dict(entries), e)),
                    Result::Err(x) => Result::Err(x),
                },
                TokKindV::Ident(s) => match read_atom_v(s, t.start) {
                    Result::Ok(v) => Result::Ok((v, t.end)),
                    Result::Err(x) => Result::Err(x),
                },
                TokKindV::Str(s) => Result::Ok((MalV::Str(s), t.end)),
                TokKindV::Apo => read_sigil_v(text, t.end, "quote"@),
                TokKindV::BackTick => read_sigil_v(text, t.end, "quasiquote"@),
                TokKindV::Tilde => read_sigil_v(text, t.end, "unquote"@),
                TokKindV::Tadpole => read_sigil_v(text, t.end, "splice-unquote"@),
                TokKindV::At => read_sigil_v(text, t.end, "deref"@),
                TokKindV::Hat => match read_form_v(text, t.end) {
                    Result::Ok((meta, e1)) => if t.end < e1 <= text.len() {
                        match read_form_v(text, e1) {
                            Result::Ok((target, e2)) => Result::Ok(
                                (
                                    MalV::List(
                                        seq![MalV::Sym("with-meta"@), target, meta],
                                    ),
                                    e2,
                                ),
                            ),
                            Result::Err(x) => Result::Err(x),
                        }
                    } else {
                        Result::Err(ErrV::Reader(i as nat))
                    },
                    Result::Err(x) => Result::Err(x),
                },
                TokKindV::SemiCTrail(_s) => read_form_v(text, t.end),
                _ => Result::Err(ErrV::Reader(t.start as nat)),
            },
        }
    }
}

/// A reader-macro sigil desugars to a two-element list headed by the
/// named symbol.
pub open spec fn read_sigil_v(text: Seq<char>, i: int, name: Seq<char>) -> Result<
    (MalV, int),
    ErrV,
>
    decreases text.len() - i, 3int,
{
    if !(0 <= i <= text.len()) {
        Result::Err(ErrV::Reader(0))
    } else {
        match read_form_v(text, i) {
            Result::Ok((q, e)) => Result::Ok((MalV::List(seq![MalV::Sym(name), q]), e)),
            Result::Err(x) => Result::Err(x),
        }
    }
}

/// The forms up to the matching close token.
pub open spec fn read_seq_v(text: Seq<char>, i: int, close: TokKindV) -> Result<
    (Seq<MalV>, int),
    ErrV,
>
    decreases text.len() - i, 3int,
    via read_seq_v_dec
{
    if !(0 <= i <= text.len()) {
        Result::Err(ErrV::Reader(0))
    } else {
        match lex_token_v(text, i) {
            Result::Err(p) => Result::Err(ErrV::Reader(p)),
            Result::Ok(t) => if t.kind == close {
                Result::Ok((Seq::empty(), t.end))
            } else if t.kind is SemiCTrail {
                read_seq_v(text, t.end, close)
            } else {
                match read_form_v(text, i) {
                    Result::Ok((v, e1)) => if i < e1 <= text.len() {
                        match read_seq_v(text, e1, close) {
                            Result::Ok((items, e2)) => Result::Ok((seq![v] + items, e2)),
                            Result::Err(x) => Result::Err(x),
                        }
                    } else {
                        Result::Err(ErrV::Reader(i as nat))
                    },
                    Result::Err(x) => Result::Err(x),
                }
            },
        }
    }
}

/// The key/value pairs up to the closing brace, inserted in order; a
/// key that is neither a string nor a keyword is a structural fault.
pub open spec fn read_map_v(text: Seq<char>, i: int, acc: Seq<(KeyV, MalV)>) -> Result<
    (Seq<(KeyV, MalV)>, int),
    ErrV,
>
    decreases text.len() - i, 3int,
    via read_map_v_dec
{
    if !(0 <= i <= text.len()) {
        Result::Err(ErrV::Reader(0))
    } else {
        match lex_token_v(text, i) {
            Result::Err(p) => Result::Err(ErrV::Reader(p)),
            Result::Ok(t) => if t.kind is CurlClose {
                Result::Ok((acc, t.end))
            } else if t.kind is SemiCTrail {
                read_map_v(text, t.end, acc)
            } else {
                match read_form_v(text, i) {
                    Result::Ok((kv, e1)) => {
                        let key = match kv {
                            MalV::Str(s) => Option::Some(KeyV::Str(s)),
                            MalV::Kw(s) => Option::Some(KeyV::Kw(s)),
                            _ => Option::None,
                        };
                        match key {
                            Option::None => Result::Err(ErrV::Reader(i as nat)),
                            Option::Some(k) => if i < e1 <= text.len() {
                                match read_form_v(text, e1) {
                                    Result::Ok((v, e2)) => if e1 < e2 <= text.len() {
                                        read_map_v(
                                            text,
                                            e2,
                                            crate::types::dict_insert_v(acc, k, v),
                                        )
                                    } else {
                                        Result::Err(ErrV::Reader(i as nat))
                                    },
                                    Result::Err(x) => Result::Err(x),
                                }
                            } else {
                                Result::Err(ErrV::Reader(i as nat))
                            },
                        }
                    },
                    Result::Err(x) => Result::Err(x),
                }
            },
        }
    }
}

#[via_fn]
proof fn read_form_v_dec(text: Seq<char>, i: int) {
    if 0 <= i <= text.len() {
        lemma_lex_token_bounds(text, i);
    }
}

#[via_fn]
proof fn read_seq_v_dec(text: Seq<char>, i: int, close: TokKindV) {
    if 0 <= i <= text.len() {
        lemma_lex_token_bounds(text, i);
    }
}

#[via_fn]
proof fn read_map_v_dec(text: Seq<char>, i: int, acc: Seq<(KeyV, MalV)>) {
    if 0 <= i <= text.len() {
        lemma_lex_token_bounds(text, i);
    }
}

/// What reading a whole text means: its first form.
pub open spec fn read_str_v(text: Seq<char>) -> Result<MalV, ErrV> {
    match read_form_v(text, 0) {
        Result::Ok((v, _e)) => Result::Ok(v),
        Result::Err(x) => Result::Err(x),
    }
}

} // verus!

verus! {

// ------------------------------------------------------------------
// The executable parser.
// ------------------------------------------------------------------

/// Classifies an atom's spelling; `pos` is carried into the error for
/// a malformed numeral.
pub fn read_atom(ident: String, pos: usize) -> (r: Result<Mal, MalError>)
    ensures
        match r {
            Ok(m) => read_atom_v(ident@, pos as int) == Result::<MalV, ErrV>::Ok(m@),
            Err(e) => read_atom_v(ident@, pos as int) == Result::<MalV, ErrV>::Err(e@),
        },
{
    let chars = str_to_chars(ident.as_str());
    let n = chars.len();
    let first_digit = n > 0 && {
        let cu = chars[0] as u32;
        48 <= cu && cu <= 57
    };
    let signed_digit = n > 1 && (chars[0] == '+' || chars[0] == '-') && {
        let cu = chars[1] as u32;
        48 <= cu && cu <= 57
    };
    if first_digit || signed_digit {
        let neg = chars[0] == '-';
        let start: usize = if first_digit {
            0
        } else {
            1
        };
        proof {
            assert(ident@.subrange(0, ident@.len() as int) =~= ident@);
        }
        match parse_digits(&chars, start) {
            Option::Some(mag) => {
                if neg {
                    if mag <= 9223372036854775808u64 {
                        let val: i64 = if mag == 9223372036854775808u64 {
                            i64::MIN
                        } else {
                            -(mag as i64)
                        };
                        Ok(Mal::Num(val))
                    } else {
                        Err(MalError::Reader { pos })
                    }
                } else {
                    if mag <= 9223372036854775807u64 {
                        Ok(Mal::Num(mag as i64))
                    } else {
                        Err(MalError::Reader { pos })
                    }
                }
            },
            Option::None => Err(MalError::Reader { pos }),
        }
    } else if n > 0 && chars[0] == ':' {
        let mut rest: Vec<char> = Vec::new();
        let mut k: usize = 1;
        while k < n
            invariant
                1 <= k <= n,
                n == chars@.len(),
                rest@ == chars@.subrange(1, k as int),
            decreases n - k,
        {
            rest.push(chars[k]);
            proof {
                assert(chars@.subrange(1, k + 1) =~= chars@.subrange(1, k as int).push(
                    chars@[k as int],
                ));
            }
            k = k + 1;
        }
        proof {
            assert(chars@.subrange(1, n as int) =~= rest@);
        }
        Ok(Mal::Kw(Keyword { sym: chars_to_string(&rest) }))
    } else if crate::types::str_eq(ident.as_str(), "true") {
        Ok(Mal::Bool(true))
    } else if crate::types::str_eq(ident.as_str(), "false") {
        Ok(Mal::Bool(false))
    } else if crate::types::str_eq(ident.as_str(), "nil") {
        Ok(Mal::Nil)
    } else {
        Ok(Mal::Sym(Symbol { inner: ident }))
    }
}

/// A two-element list headed by the named symbol.
fn two_list(name: &str, q: Mal) -> (r: Mal)
    ensures
        r@ == MalV::List(seq![MalV::Sym(name@), q@]),
{
    broadcast use crate::types::group_view_lemmas;

    let mut items: Vec<Mal> = Vec::new();
    items.push(Mal::Sym(Symbol::new(name)));
    items.push(q);
    proof {
        assert(view_mal_seq(items@) =~= seq![MalV::Sym(name@), q@]);
    }
    Mal::List(MalList { items })
}

/// A three-element list headed by the named symbol.
fn three_list(name: &str, a: Mal, b: Mal) -> (r: Mal)
    ensures
        r@ == MalV::List(seq![MalV::Sym(name@), a@, b@]),
{
    broadcast use crate::types::group_view_lemmas;

    let mut items: Vec<Mal> = Vec::new();
    items.push(Mal::Sym(Symbol::new(name)));
    items.push(a);
    items.push(b);
    proof {
        assert(view_mal_seq(items@) =~= seq![MalV::Sym(name@), a@, b@]);
    }
    Mal::List(MalList { items })
}

/// Parses the form at or after `pos`.
#[verifier::rlimit(100)]
fn read_form_at(chars: &Vec<char>, pos: usize) -> (r: Result<(Mal, usize), MalError>)
    requires
        pos <= chars@.len(),
    ensures
        match r {
            Ok(p) => read_form_v(chars@, pos as int) == Result::<(MalV, int), ErrV>::Ok(
                (p.0@, p.1 as int),
            ) && pos < p.1 <= chars@.len(),
            Err(e) => read_form_v(chars@, pos as int) == Result::<(MalV, int), ErrV>::Err(e@),
        },
    decreases chars@.len() - pos, 2int,
{
    proof {
        lemma_lex_token_bounds(chars@, pos as int);
    }
    let t = match lex_next(chars, pos) {
        Ok(t) => t,
        Err(e) => {
            return Err(e);
        },
    };
    match t.kind {
        TokenKind::ParOpen => match read_seq_at(chars, t.end, false) {
            Ok((items, e)) => Ok((Mal::List(MalList { items }), e)),
            Err(x) => Err(x),
        },
        TokenKind::BrackOpen => match read_seq_at(chars, t.end, true) {
            Ok((items, e)) => Ok((Mal::Arr(MalArr { items }), e)),
            Err(x) => Err(x),
        },
        TokenKind::CurlOpen => match read_map_at(chars, t.end, MalMap::new()) {
            Ok((m, e)) => Ok((Mal::Dict(m), e)),
            Err(x) => Err(x),
        },
        TokenKind::Ident(s) => match read_atom(s, t.start) {
            Ok(m) => Ok((m, t.end)),
            Err(x) => Err(x),
        },
        TokenKind::Str(s) => Ok((Mal::Str(s), t.end)),
        TokenKind::Apo => {
            proof {
                reveal_with_fuel(read_form_v, 3);
            }
            match read_form_at(chars, t.end) {
                Ok((q, e)) => Ok((two_list("quote", q), e)),
                Err(x) => Err(x),
            }
        },
        TokenKind::BackTick => {
            proof {
                reveal_with_fuel(read_form_v, 3);
            }
            match read_form_at(chars, t.end) {
                Ok((q, e)) => Ok((two_list("quasiquote", q), e)),
                Err(x) => Err(x),
            }
        },
        TokenKind::Tilde => {
            proof {
                reveal_with_fuel(read_form_v, 3);
            }
            match read_form_at(chars, t.end) {
                Ok((q, e)) => Ok((two_list("unquote", q), e)),
                Err(x) => Err(x),
            }
        },
        TokenKind::Tadpole => {
            proof {
                reveal_with_fuel(read_form_v, 3);
            }
            match read_form_at(chars, t.end) {
                Ok((q, e)) => Ok((two_list("splice-unquote", q), e)),
                Err(x) => Err(x),
            }
        },
        TokenKind::At => {
            proof {
                reveal_with_fuel(read_form_v, 3);
            }
            match read_form_at(chars, t.end) {
                Ok((q, e)) => Ok((two_list("deref", q), e)),
                Err(x) => Err(x),
            }
        },
        TokenKind::Hat => {
            {
            let arm: Result<(Mal, usize), MalError> = match read_form_at(chars, t.end) {
                Ok((meta, e1)) => match read_form_at(chars, e1) {
                    Ok((target, e2)) => Ok((three_list("with-meta", target, meta), e2)),
                    Err(x) => Err(x),
                },
                Err(x) => Err(x),
            };

            proof {
                assert(match arm {
                    Ok(p) => read_form_v(chars@, pos as int) == Result::<(MalV, int), ErrV>::Ok(
                        (p.0@, p.1 as int),
                    ) && pos < p.1 <= chars@.len(),
                    Err(ref e) => read_form_v(chars@, pos as int) == Result::<
                        (MalV, int),
                        ErrV,
                    >::Err(e@),
                }) by {
                    reveal_with_fuel(read_form_v, 3);
                }
            }
            arm
            }
        },
        TokenKind::SemiCTrail(_s) => read_form_at(chars, t.end),
        _ => Err(MalError::Reader { pos: t.start }),
    }
}

/// Parses forms up to the matching close bracket.
fn read_seq_at(chars: &Vec<char>, pos: usize, square: bool) -> (r: Result<
    (Vec<Mal>, usize),
    MalError,
>)
    requires
        pos <= chars@.len(),
    ensures
        ({
            let close = if square {
                TokKindV::BrackClose
            } else {
                TokKindV::ParClose
            };
            match r {
                Ok(p) => read_seq_v(chars@, pos as int, close) == Result::<
                    (Seq<MalV>, int),
                    ErrV,
                >::Ok((view_mal_seq(p.0@), p.1 as int)) && pos < p.1 <= chars@.len(),
                Err(e) => read_seq_v(chars@, pos as int, close) == Result::<
                    (Seq<MalV>, int),
                    ErrV,
                >::Err(e@),
            }
        }),
    decreases chars@.len() - pos, 3int,
{
    proof {
        lemma_lex_token_bounds(chars@, pos as int);
    }
    let ghost close = if square {
        TokKindV::BrackClose
    } else {
        TokKindV::ParClose
    };
    let t = match lex_next(chars, pos) {
        Ok(t) => t,
        Err(e) => {
            match e {
                MalError::Lex { pos: p } => {
                    return Err(MalError::Reader { pos: p });
                },
                _ => {
                    proof {
                        assert(false);
                    }
                    return Err(e);
                },
            }
        },
    };
    let is_close = match &t.kind {
        TokenKind::ParClose => !square,
        TokenKind::BrackClose => square,
        _ => false,
    };
    if is_close {
        return Ok((Vec::new(), t.end));
    }
    let is_trivia = match &t.kind {
        TokenKind::SemiCTrail(_) => true,
        _ => false,
    };
    if is_trivia {
        return read_seq_at(chars, t.end, square);
    }
    proof {
        assert(t@.kind != close);
        assert(!(t@.kind is SemiCTrail));
    }
    let (v, e1) = match read_form_at(chars, pos) {
        Ok(p) => p,
        Err(x) => {
            return Err(x);
        },
    };
    let (mut items, e2) = match read_seq_at(chars, e1, square) {
        Ok(p) => p,
        Err(x) => {
            return Err(x);
        },
    };
    let ghost tailview = view_mal_seq(items@);
    items.insert(0, v);
    proof {
        broadcast use crate::types::group_view_lemmas;

        assert(view_mal_seq(items@) =~= seq![v@] + tailview);
    }
    Ok((items, e2))
}

/// Parses key/value pairs up to the closing brace.
fn read_map_at(chars: &Vec<char>, pos: usize, acc: MalMap) -> (r: Result<
    (MalMap, usize),
    MalError,
>)
    requires
        pos <= chars@.len(),
    ensures
        match r {
            Ok(p) => read_map_v(chars@, pos as int, acc@) == Result::<
                (Seq<(KeyV, MalV)>, int),
                ErrV,
            >::Ok((p.0@, p.1 as int)) && pos < p.1 <= chars@.len(),
            Err(e) => read_map_v(chars@, pos as int, acc@) == Result::<
                (Seq<(KeyV, MalV)>, int),
                ErrV,
            >::Err(e@),
        },
    decreases chars@.len() - pos, 3int,
{
    proof {
        lemma_lex_token_bounds(chars@, pos as int);
    }
    let t = match lex_next(chars, pos) {
        Ok(t) => t,
        Err(e) => {
            match e {
                MalError::Lex { pos: p } => {
                    return Err(MalError::Reader { pos: p });
                },
                _ => {
                    proof {
                        assert(false);
                    }
                    return Err(e);
                },
            }
        },
    };
    let is_close = match &t.kind {
        TokenKind::CurlClose => true,
        _ => false,
    };
    if is_close {
        return Ok((acc, t.end));
    }
    let is_trivia = match &t.kind {
        TokenKind::SemiCTrail(_) => true,
        _ => false,
    };
    if is_trivia {
        return read_map_at(chars, t.end, acc);
    }
    let (kv, e1) = match read_form_at(chars, pos) {
        Ok(p) => p,
        Err(x) => {
            return Err(x);
        },
    };
    let key: MapKey = match kv {
        Mal::Str(s) => MapKey::Str(s),
        Mal::Kw(k) => MapKey::Kw(k),
        _ => {
            return Err(MalError::Reader { pos });
        },
    };
    let (value, e2) = match read_form_at(chars, e1) {
        Ok(p) => p,
        Err(x) => {
            return Err(x);
        },
    };
    let mut acc2 = acc;
    acc2.insert(key, value);
    read_map_at(chars, e2, acc2)
}

/// Reads the first form of a text.
pub fn read_str(text: &str) -> (r: Result<Mal, MalError>)
    ensures
        match r {
            Ok(m) => read_str_v(text@) == Result::<MalV, ErrV>::Ok(m@),
            Err(e) => read_str_v(text@) == Result::<MalV, ErrV>::Err(e@),
        },
{
    let chars = str_to_chars(text);
    match read_form_at(&chars, 0) {
        Ok((m, _e)) => Ok(m),
        Err(e) => Err(e),
    }
}

/// Reads the next form from a lexer that holds no lookahead.
pub fn read_form(lexer: &mut Lexer) -> (r: Result<Mal, MalError>)
    requires
        lexer_wf(old(lexer)@),
        old(lexer)@.pending is None,
    ensures
        lexer_wf(final(lexer)@),
        final(lexer)@.text == old(lexer)@.text,
        final(lexer)@.pending is None,
        match r {
            Ok(m) => read_form_v(old(lexer)@.text, old(lexer)@.pos) == Result::<
                (MalV, int),
                ErrV,
            >::Ok((m@, final(lexer)@.pos)),
            Err(e) => read_form_v(old(lexer)@.text, old(lexer)@.pos) == Result::<
                (MalV, int),
                ErrV,
            >::Err(e@) && final(lexer)@.pos == old(lexer)@.pos,
        },
{
    match read_form_at(&lexer.chars, lexer.pos) {
        Ok((m, e)) => {
            lexer.pos = e;
            Ok(m)
        },
        Err(e) => Err(e),
    }
}

/// Reads the entries of a map literal whose opening brace was already
/// consumed.
pub fn read_hash_map(lexer: &mut Lexer) -> (r: Result<Mal, MalError>)
    requires
        lexer_wf(old(lexer)@),
        old(lexer)@.pending is None,
    ensures
        lexer_wf(final(lexer)@),
        final(lexer)@.text == old(lexer)@.text,
        final(lexer)@.pending is None,
        match r {
            Ok(m) => read_map_v(old(lexer)@.text, old(lexer)@.pos, Seq::empty()) is Ok && m@
                == MalV::Dict(
                read_map_v(old(lexer)@.text, old(lexer)@.pos, Seq::empty())->Ok_0.0,
            ) && final(lexer)@.pos == read_map_v(
                old(lexer)@.text,
                old(lexer)@.pos,
                Seq::empty(),
            )->Ok_0.1,
            Err(e) => read_map_v(old(lexer)@.text, old(lexer)@.pos, Seq::empty()) == Result::<
                (Seq<(KeyV, MalV)>, int),
                ErrV,
            >::Err(e@) && final(lexer)@.pos == old(lexer)@.pos,
        },
{
    let empty = MalMap::new();
    match read_map_at(&lexer.chars, lexer.pos, empty) {
        Ok((m, e)) => {
            lexer.pos = e;
            Ok(Mal::Dict(m))
        },
        Err(e) => Err(e),
    }
}

} // verus!

verus! {

// ------------------------------------------------------------------
// Reading back what the printer wrote: the lexer-level facts.
// ------------------------------------------------------------------

/// Text made only of atom characters scans to its own end.
pub proof fn lemma_ident_end_all(text: Seq<char>, j: int)
    requires
        0 <= j <= text.len(),
        forall|k: int| j <= k < text.len() ==> !is_special_c(#[trigger] text[k]),
    ensures
        ident_end(text, j) == text.len(),
    decreases text.len() - j,
{
    if j < text.len() {
        lemma_ident_end_all(text, j + 1);
    }
}

/// A nonempty text of atom characters lexes as one atom token covering
/// the whole text.
pub proof fn lemma_lex_ident(text: Seq<char>)
    requires
        text.len() > 0,
        forall|k: int| 0 <= k < text.len() ==> !is_special_c(#[trigger] text[k]),
    ensures
        lex_token_v(text, 0) == Result::<TokV, nat>::Ok(
            TokV { kind: TokKindV::Ident(text), start: 0, end: text.len() as int },
        ),
{
    assert(!is_ws_c(text[0]));
    assert(skip_ws(text, 0) == 0);
    lemma_ident_end_all(text, 1);
    assert(text.subrange(0, text.len() as int) =~= text);
}

/// Scanning an escaped string body recovers the original characters
/// and stops right after the closing quote.
pub proof fn lemma_scan_escaped(text: Seq<char>, j: int, s: Seq<char>)
    requires
        0 <= j <= text.len(),
        text.subrange(j, text.len() as int) == crate::printer::escape_str_v(s) + seq!['"'],
    ensures
        scan_string(text, j) == Result::<(Seq<char>, int), nat>::Ok((s, text.len() as int)),
    decreases s.len(),
{
    let suffix = text.subrange(j, text.len() as int);
    crate::printer::lemma_escape_len(s);
    if s.len() == 0 {
        assert(crate::printer::escape_str_v(s) =~= Seq::<char>::empty());
        assert(suffix =~= seq!['"']);
        assert(suffix[0] == text[j]);
        assert(text[j] == '"');
        assert(j + 1 == text.len());
        assert(scan_string(text, j) == Result::<(Seq<char>, int), nat>::Ok(
            (Seq::<char>::empty(), j + 1),
        ));
        assert(s =~= Seq::<char>::empty());
    } else {
        crate::printer::lemma_escape_front(s);
        let c = s[0];
        let rest = s.subrange(1, s.len() as int);
        let esc = crate::printer::escape_char_v(c);
        assert(suffix =~= esc + (crate::printer::escape_str_v(rest) + seq!['"']));
        crate::printer::lemma_escape_len(rest);
        assert(suffix.len() == text.len() - j);
        if c == '"' || c == '\\' || c == '\n' {
            assert(esc.len() == 2);
            assert(suffix.len() >= 3);
            assert(suffix[0] == text[j]);
            assert(suffix[1] == text[j + 1]);
            assert(suffix[0] == esc[0]);
            assert(suffix[1] == esc[1]);
            assert(text[j] == '\\');
            let target = crate::printer::escape_str_v(rest) + seq!['"'];
            assert forall|k: int| 0 <= k < text.len() - (j + 2) implies #[trigger] text.subrange(
                j + 2,
                text.len() as int,
            )[k] == target[k] by {
                assert(suffix[k + 2] == text[j + 2 + k]);
                assert(suffix[k + 2] == (esc + target)[k + 2]);
            }
            assert(text.subrange(j + 2, text.len() as int) =~= target);
            lemma_scan_escaped(text, j + 2, rest);
            assert(seq![c] + rest =~= s);
            assert(text[j] != '"');
            assert(j + 1 < text.len());
            if c == '"' {
                assert(text[j + 1] == '"');
                assert(scan_string(text, j) == Result::<(Seq<char>, int), nat>::Ok(
                    (seq!['"'] + rest, text.len() as int),
                ));
            } else if c == '\\' {
                assert(text[j + 1] == '\\');
                assert(text[j + 1] != '"');
                assert(scan_string(text, j) == Result::<(Seq<char>, int), nat>::Ok(
                    (seq!['\\'] + rest, text.len() as int),
                ));
            } else {
                assert(text[j + 1] == 'n');
                assert(text[j + 1] != '"' && text[j + 1] != '\\');
                assert(scan_string(text, j) == Result::<(Seq<char>, int), nat>::Ok(
                    (seq!['\n'] + rest, text.len() as int),
                ));
            }
        } else {
            assert(esc.len() == 1);
            assert(suffix.len() >= 2);
            assert(suffix[0] == text[j]);
            assert(suffix[0] == esc[0]);
            assert(text[j] == c);
            let target = crate::printer::escape_str_v(rest) + seq!['"'];
            assert forall|k: int| 0 <= k < text.len() - (j + 1) implies #[trigger] text.subrange(
                j + 1,
                text.len() as int,
            )[k] == target[k] by {
                assert(suffix[k + 1] == text[j + 1 + k]);
                assert(suffix[k + 1] == (esc + target)[k + 1]);
            }
            assert(text.subrange(j + 1, text.len() as int) =~= target);
            lemma_scan_escaped(text, j + 1, rest);
            assert(seq![c] + rest =~= s);
            assert(text[j] != '"' && text[j] != '\\');
            assert(scan_string(text, j) == Result::<(Seq<char>, int), nat>::Ok(
                (seq![c] + rest, text.len() as int),
            ));
        }
    }
}

} // verus!
