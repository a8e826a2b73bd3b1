//! The tokenizer: splits one source line into tokens.
//!
//! At each position the longest token that matches is taken; a register
//! (`r` or `R` and digits) wins over an identifier of the same length. Blanks
//! and tabs separate tokens, and `//` ends the line.

use vstd::prelude::*;

use crate::text::{chars_of, is_alpha, is_digit, is_digit_char, is_word, is_word_char, string_of};

verus! {

#[derive(Clone, Debug)]
pub enum Token {
    /// `[_a-zA-Z]\w*`
    Ident(String),
    /// `\w+:`, without the colon
    Label(String),
    /// `"[^"]*"`, without the quotes
    String(String),
    /// `.\w+`, without the dot
    Directive(String),
    /// `0x` and hex digits, `0b` and binary digits, or decimal digits
    Immediate(String),
    /// `r` and decimal digits, without the `r`
    Register(String),
    Comma,
    /// A character that starts no token
    Error,
}

pub enum TokenView {
    Ident(Seq<char>),
    Label(Seq<char>),
    String(Seq<char>),
    Directive(Seq<char>),
    Immediate(Seq<char>),
    Register(Seq<char>),
    Comma,
    Error,
}

impl View for Token {
    type V = TokenView;

    open spec fn view(&self) -> TokenView {
        match self {
            Token::Ident(s) => TokenView::Ident(s@),
            Token::Label(s) => TokenView::Label(s@),
            Token::String(s) => TokenView::String(s@),
            Token::Directive(s) => TokenView::Directive(s@),
            Token::Immediate(s) => TokenView::Immediate(s@),
            Token::Register(s) => TokenView::Register(s@),
            Token::Comma => TokenView::Comma,
            Token::Error => TokenView::Error,
        }
    }
}

pub open spec fn tokens_view(t: Seq<Token>) -> Seq<TokenView> {
    t.map_values(|x: Token| x@)
}

/// The classes of characters that make up a run.
#[derive(Clone, Copy, Debug, PartialEq, Eq)]
pub enum CharClass {
    Word,
    Digit,
    Hex,
    Binary,
}

pub open spec fn in_class(c: char, k: CharClass) -> bool {
    match k {
        CharClass::Word => is_word(c),
        CharClass::Digit => is_digit(c),
        CharClass::Hex => is_digit(c) || ('a' <= c <= 'f') || ('A' <= c <= 'F'),
        CharClass::Binary => c == '0' || c == '1',
    }
}

/// The number of characters of class `k` from position `i` on.
pub open spec fn run(s: Seq<char>, i: int, k: CharClass) -> nat
    decreases s.len() - i,
{
    if 0 <= i < s.len() && in_class(s[i], k) {
        1 + run(s, i + 1, k)
    } else {
        0
    }
}

/// The position of the first `"` at or after `j`, or the length of `s`.
pub open spec fn quote_at(s: Seq<char>, j: int) -> int
    decreases s.len() - j,
{
    if j < 0 || j >= s.len() {
        s.len() as int
    } else if s[j] == '"' {
        j
    } else {
        quote_at(s, j + 1)
    }
}

/// The length of the numeric literal that starts at `i` with a digit.
pub open spec fn number_len(s: Seq<char>, i: int) -> nat {
    if s[i] == '0' && i + 1 < s.len() && (s[i + 1] == 'x' || s[i + 1] == 'X') && run(s, i + 2, CharClass::Hex) > 0 {
        2 + run(s, i + 2, CharClass::Hex)
    } else if s[i] == '0' && i + 1 < s.len() && (s[i + 1] == 'b' || s[i + 1] == 'B') && run(s, i + 2, CharClass::Binary) > 0 {
        2 + run(s, i + 2, CharClass::Binary)
    } else {
        run(s, i, CharClass::Digit)
    }
}

/// The token that starts at position `i` (not a blank), and its length.
pub open spec fn token_at(s: Seq<char>, i: int) -> (TokenView, nat) {
    let w = run(s, i, CharClass::Word);
    if w > 0 && i + w < s.len() && s[i + w] == ':' {
        (TokenView::Label(s.subrange(i, i + w)), w + 1)
    } else if is_alpha(s[i]) || s[i] == '_' {
        if (s[i] == 'r' || s[i] == 'R') && w >= 2 && run(s, i + 1, CharClass::Digit) == w - 1 {
            (TokenView::Register(s.subrange(i + 1, i + w)), w)
        } else {
            (TokenView::Ident(s.subrange(i, i + w)), w)
        }
    } else if is_digit(s[i]) {
        (TokenView::Immediate(s.subrange(i, i + number_len(s, i))), number_len(s, i))
    } else if s[i] == '"' && quote_at(s, i + 1) < s.len() {
        (TokenView::String(s.subrange(i + 1, quote_at(s, i + 1))), (quote_at(s, i + 1) - i + 1) as nat)
    } else if s[i] == '.' && run(s, i + 1, CharClass::Word) > 0 {
        let d = run(s, i + 1, CharClass::Word);
        (TokenView::Directive(s.subrange(i + 1, i + 1 + d)), d + 1)
    } else if s[i] == ',' {
        (TokenView::Comma, 1)
    } else {
        (TokenView::Error, 1)
    }
}

/// The tokens of `s` from position `i` on.
pub open spec fn lex_from(s: Seq<char>, i: int) -> Seq<TokenView>
    decreases (if i < s.len() { s.len() - i } else { 0 }),
{
    if i < 0 || i >= s.len() {
        seq![]
    } else if s[i] == ' ' || s[i] == '\t' {
        lex_from(s, i + 1)
    } else if s[i] == '/' && i + 1 < s.len() && s[i + 1] == '/' {
        seq![]
    } else {
        let (t, n) = token_at(s, i);
        if n == 0 {
            seq![]
        } else {
            seq![t] + lex_from(s, i + n)
        }
    }
}

/// The tokens of a line.
pub open spec fn lex(s: Seq<char>) -> Seq<TokenView> {
    lex_from(s, 0)
}

proof fn lemma_run_bound(s: Seq<char>, i: int, k: CharClass)
    requires
        0 <= i,
    ensures
        i + run(s, i, k) <= s.len() || run(s, i, k) == 0,
        forall|j: int| i <= j < i + run(s, i, k) ==> in_class(#[trigger] s[j], k),
    decreases s.len() - i,
{
    if 0 <= i < s.len() && in_class(s[i], k) {
        lemma_run_bound(s, i + 1, k);
    }
}

proof fn lemma_quote_bound(s: Seq<char>, j: int)
    requires
        0 <= j,
    ensures
        j <= quote_at(s, j) <= s.len() || (j > s.len() && quote_at(s, j) == s.len()),
    decreases s.len() - j,
{
    if j < s.len() && s[j] != '"' {
        lemma_quote_bound(s, j + 1);
    }
}

fn class_has(c: char, k: CharClass) -> (r: bool)
    ensures
        r == in_class(c, k),
{
    match k {
        CharClass::Word => is_word_char(c),
        CharClass::Digit => is_digit_char(c),
        CharClass::Hex => is_digit_char(c) || ('a' <= c && c <= 'f') || ('A' <= c && c <= 'F'),
        CharClass::Binary => c == '0' || c == '1',
    }
}

/// The end of the run of class `k` that starts at `i`.
fn run_end(s: &Vec<char>, i: usize, k: CharClass) -> (r: usize)
    requires
        i <= s@.len(),
    ensures
        r == i + run(s@, i as int, k),
        r <= s@.len(),
{
    let mut j = i;
    while j < s.len() && class_has(s[j], k)
        invariant
            i <= j <= s@.len(),
            run(s@, i as int, k) == (j - i) + run(s@, j as int, k),
        decreases s@.len() - j,
    {
        j = j + 1;
    }
    j
}

fn quote_end(s: &Vec<char>, j: usize) -> (r: usize)
    requires
        j <= s@.len(),
    ensures
        r == quote_at(s@, j as int),
{
    let mut q = j;
    while q < s.len() && s[q] != '"'
        invariant
            j <= q <= s@.len(),
            quote_at(s@, j as int) == quote_at(s@, q as int),
        decreases s@.len() - q,
    {
        q = q + 1;
    }
    q
}

fn number_end(s: &Vec<char>, i: usize) -> (r: usize)
    requires
        i < s@.len(),
        is_digit(s@[i as int]),
    ensures
        r == i + number_len(s@, i as int),
        r <= s@.len(),
{
    let _n = s.len();
    if s[i] == '0' && i + 1 < s.len() && (s[i + 1] == 'x' || s[i + 1] == 'X') {
        let e = run_end(s, i + 2, CharClass::Hex);
        if e > i + 2 {
            return e;
        }
    }
    if s[i] == '0' && i + 1 < s.len() && (s[i + 1] == 'b' || s[i + 1] == 'B') {
        let e = run_end(s, i + 2, CharClass::Binary);
        if e > i + 2 {
            return e;
        }
    }
    run_end(s, i, CharClass::Digit)
}

/// The token that starts at `i`, and its length.
fn next_token(s: &Vec<char>, i: usize) -> (r: (Token, usize))
    requires
        i < s@.len(),
    ensures
        (r.0@, r.1 as nat) == token_at(s@, i as int),
        i + r.1 <= s@.len(),
        r.1 >= 1,
{
    let _n = s.len();
    let w_end = run_end(s, i, CharClass::Word);
    let c = s[i];
    if w_end > i && w_end < s.len() && s[w_end] == ':' {
        return (Token::Label(string_of(s, i, w_end)), w_end - i + 1);
    }
    if ('a' <= c && c <= 'z') || ('A' <= c && c <= 'Z') || c == '_' {
        proof {
            assert(run(s@, i as int, CharClass::Word) > 0);
        }
        if (c == 'r' || c == 'R') && w_end - i >= 2 {
            let d_end = run_end(s, i + 1, CharClass::Digit);
            if d_end == w_end {
                return (Token::Register(string_of(s, i + 1, w_end)), w_end - i);
            }
        }
        return (Token::Ident(string_of(s, i, w_end)), w_end - i);
    }
    if is_digit_char(c) {
        let e = number_end(s, i);
        proof {
            lemma_run_bound(s@, i as int, CharClass::Digit);
        }
        return (Token::Immediate(string_of(s, i, e)), e - i);
    }
    if c == '"' {
        let q = quote_end(s, i + 1);
        if q < s.len() {
            proof {
                lemma_quote_bound(s@, i + 1);
            }
            return (Token::String(string_of(s, i + 1, q)), q - i + 1);
        }
    }
    if c == '.' {
        let d_end = run_end(s, i + 1, CharClass::Word);
        if d_end > i + 1 {
            return (Token::Directive(string_of(s, i + 1, d_end)), d_end - i);
        }
    }
    if c == ',' {
        return (Token::Comma, 1);
    }
    (Token::Error, 1)
}

/// The tokens of one line of characters.
pub fn lex_chars(s: &Vec<char>) -> (r: Vec<Token>)
    ensures
        tokens_view(r@) == lex(s@),
{
    let mut out: Vec<Token> = Vec::new();
    let mut i: usize = 0;
    while i < s.len()
        invariant
            i <= s@.len(),
            lex(s@) == tokens_view(out@) + lex_from(s@, i as int),
        decreases s@.len() - i,
    {
        let c = s[i];
        if c == ' ' || c == '\t' {
            i = i + 1;
        } else if c == '/' && i + 1 < s.len() && s[i + 1] == '/' {
            assert(lex(s@) =~= tokens_view(out@));
            return out;
        } else {
            let (t, n) = next_token(s, i);
            let ghost before = out@;
            out.push(t);
            assert(tokens_view(out@) =~= tokens_view(before) + seq![t@]);
            i = i + n;
        }
    }
    assert(lex(s@) =~= tokens_view(out@));
    out
}

/// The tokens of one line of source text.
pub fn tokenize(line: &str) -> (r: Vec<Token>)
    ensures
        tokens_view(r@) == lex(line@),
{
    let chars = chars_of(line);
    lex_chars(&chars)
}

} // verus!
