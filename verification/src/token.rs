//! Tokenization: from raw text to a stream of tokens.
//!
//! Tokens are parentheses and words.  Words are maximal runs of
//! characters that are neither whitespace, parentheses, nor the comment
//! introducer `;`; a `;` begins a comment that extends to the end of the
//! line and is treated as whitespace.  [`spec_tokenize`] is the
//! mathematical definition; [`tokenize`] is the executable scanner, total
//! over all input, proved to produce exactly the model's token stream.

use vstd::prelude::*;
use vstd::string::StrSliceExecFns;

use crate::model::{is_space_char, is_word_char};
use crate::views::lemma_deep_view_push;

verus! {

/// A model token: a parenthesis or a word.
#[verifier::ext_equal]
pub enum SpecToken {
    Open,
    Close,
    Word(Seq<char>),
}

/// The kind of an executable token.
#[derive(Debug)]
pub enum TokenKind {
    Open,
    Close,
    Word(String),
}

/// An executable token, carrying the character offset at which it starts
/// so that parse errors can point into the input.
#[derive(Debug)]
pub struct Token {
    pub pos: usize,
    pub kind: TokenKind,
}

impl DeepView for Token {
    type V = SpecToken;

    open spec fn deep_view(&self) -> SpecToken {
        match self.kind {
            TokenKind::Open => SpecToken::Open,
            TokenKind::Close => SpecToken::Close,
            TokenKind::Word(w) => SpecToken::Word(w@),
        }
    }
}

// ---------------------------------------------------------------------------
// The mathematical tokenizer.
// ---------------------------------------------------------------------------

/// The length of the maximal word at the head of `s`.
pub open spec fn word_len(s: Seq<char>) -> nat
    decreases s.len(),
{
    if s.len() == 0 || !is_word_char(s[0]) {
        0
    } else {
        (1 + word_len(s.subrange(1, s.len() as int))) as nat
    }
}

/// The number of characters consumed by a comment starting at the head of
/// `s`: everything through the first newline, or all of `s` if none.
pub open spec fn line_len(s: Seq<char>) -> nat
    decreases s.len(),
{
    if s.len() == 0 {
        0
    } else if s[0] == '\n' {
        1
    } else {
        (1 + line_len(s.subrange(1, s.len() as int))) as nat
    }
}

pub proof fn lemma_word_len_le(s: Seq<char>)
    ensures
        word_len(s) <= s.len(),
    decreases s.len(),
{
    if s.len() > 0 && is_word_char(s[0]) {
        lemma_word_len_le(s.subrange(1, s.len() as int));
    }
}

pub proof fn lemma_line_len_le(s: Seq<char>)
    ensures
        line_len(s) <= s.len(),
    decreases s.len(),
{
    if s.len() > 0 && s[0] != '\n' {
        lemma_line_len_le(s.subrange(1, s.len() as int));
    }
}

/// The token stream of a text: whitespace and comments are dropped,
/// parentheses are single tokens, and words are maximal runs of word
/// characters.
pub open spec fn spec_tokenize(s: Seq<char>) -> Seq<SpecToken>
    decreases s.len(),
    via spec_tokenize_decreases
{
    if s.len() == 0 {
        Seq::empty()
    } else if is_space_char(s[0]) {
        spec_tokenize(s.subrange(1, s.len() as int))
    } else if s[0] == ';' {
        spec_tokenize(s.subrange(line_len(s) as int, s.len() as int))
    } else if s[0] == '(' {
        seq![SpecToken::Open] + spec_tokenize(s.subrange(1, s.len() as int))
    } else if s[0] == ')' {
        seq![SpecToken::Close] + spec_tokenize(s.subrange(1, s.len() as int))
    } else {
        seq![SpecToken::Word(s.subrange(0, word_len(s) as int))] + spec_tokenize(
            s.subrange(word_len(s) as int, s.len() as int),
        )
    }
}

#[via_fn]
proof fn spec_tokenize_decreases(s: Seq<char>) {
    if s.len() > 0 {
        if s[0] == ';' {
            lemma_line_len_le(s);
        } else if !is_space_char(s[0]) && s[0] != '(' && s[0] != ')' {
            lemma_word_len_le(s);
        }
    }
}

/// The word at the head of `s` ends exactly where the word characters end.
pub proof fn lemma_word_len_prefix(s: Seq<char>, m: int)
    requires
        0 <= m <= s.len(),
        forall|k: int| 0 <= k < m ==> is_word_char(#[trigger] s[k]),
        m == s.len() || !is_word_char(s[m]),
    ensures
        word_len(s) == m,
    decreases m,
{
    if m > 0 {
        let t = s.subrange(1, s.len() as int);
        assert(forall|k: int| 0 <= k < m - 1 ==> #[trigger] t[k] == s[k + 1]);
        lemma_word_len_prefix(t, m - 1);
    }
}

/// A comment at the head of `s` ends exactly at the first newline.
pub proof fn lemma_line_len_prefix(s: Seq<char>, m: int)
    requires
        0 <= m <= s.len(),
        forall|k: int| 0 <= k < m ==> #[trigger] s[k] != '\n',
        m == s.len() || s[m] == '\n',
    ensures
        line_len(s) == if m < s.len() {
            m + 1
        } else {
            m
        },
    decreases m,
{
    if m > 0 {
        let t = s.subrange(1, s.len() as int);
        assert(forall|k: int| 0 <= k < m - 1 ==> #[trigger] t[k] == s[k + 1]);
        lemma_line_len_prefix(t, m - 1);
    }
}

// ---------------------------------------------------------------------------
// The executable tokenizer.
// ---------------------------------------------------------------------------

/// Whether `c` is token-separating whitespace.
pub fn is_space(c: char) -> (r: bool)
    ensures
        r == is_space_char(c),
{
    c == ' ' || c == '\t' || c == '\n'
}

/// Whether `c` may appear inside a word.
pub fn is_word(c: char) -> (r: bool)
    ensures
        r == is_word_char(c),
{
    !(c == ' ' || c == '\t' || c == '\n' || c == '(' || c == ')' || c == ';')
}

/// Splits a text into its token stream.  Tokenization never fails: every
/// character is whitespace, part of a comment, a parenthesis, or part of
/// a word.
pub fn tokenize(s: &str) -> (r: Vec<Token>)
    ensures
        r.deep_view() == spec_tokenize(s@),
{
    let n = s.unicode_len();
    let mut toks: Vec<Token> = Vec::new();
    let mut i: usize = 0;
    proof {
        assert(s@.subrange(0, n as int) =~= s@);
        assert(toks.deep_view() =~= Seq::<SpecToken>::empty());
        assert(toks.deep_view() + spec_tokenize(s@) =~= spec_tokenize(s@));
    }
    while i < n
        invariant
            n == s@.len(),
            i <= n,
            spec_tokenize(s@) == toks.deep_view() + spec_tokenize(s@.subrange(i as int, n as int)),
        decreases n - i,
    {
        let ghost rest = s@.subrange(i as int, n as int);
        let c = s.get_char(i);
        if is_space(c) {
            proof {
                assert(rest.subrange(1, rest.len() as int) =~= s@.subrange(i + 1, n as int));
                assert(spec_tokenize(rest) == spec_tokenize(s@.subrange(i + 1, n as int)));
            }
            i += 1;
        } else if c == ';' {
            let mut j: usize = i + 1;
            while j < n && s.get_char(j) != '\n'
                invariant
                    n == s@.len(),
                    i < j <= n,
                    forall|k: int| i <= k < j ==> #[trigger] s@[k] != '\n',
                decreases n - j,
            {
                j += 1;
            }
            let next = if j < n {
                j + 1
            } else {
                j
            };
            proof {
                assert(forall|k: int|
                    0 <= k < j - i ==> #[trigger] rest[k] == s@[i + k] && s@[i + k] != '\n');
                lemma_line_len_prefix(rest, j - i);
                assert(rest.subrange(line_len(rest) as int, rest.len() as int) =~= s@.subrange(
                    next as int,
                    n as int,
                ));
                assert(spec_tokenize(rest) == spec_tokenize(s@.subrange(next as int, n as int)));
            }
            i = next;
        } else if c == '(' {
            let ghost before = toks;
            toks.push(Token { pos: i, kind: TokenKind::Open });
            proof {
                lemma_deep_view_push(before, toks, Token { pos: i as usize, kind: TokenKind::Open });
                assert(rest.subrange(1, rest.len() as int) =~= s@.subrange(i + 1, n as int));
                assert(spec_tokenize(rest) == seq![SpecToken::Open] + spec_tokenize(
                    s@.subrange(i + 1, n as int),
                ));
                assert(toks.deep_view() =~= before.deep_view() + seq![SpecToken::Open]);
                assert(toks.deep_view() + spec_tokenize(s@.subrange(i + 1, n as int))
                    =~= before.deep_view() + spec_tokenize(rest));
            }
            i += 1;
        } else if c == ')' {
            let ghost before = toks;
            toks.push(Token { pos: i, kind: TokenKind::Close });
            proof {
                lemma_deep_view_push(
                    before,
                    toks,
                    Token { pos: i as usize, kind: TokenKind::Close },
                );
                assert(rest.subrange(1, rest.len() as int) =~= s@.subrange(i + 1, n as int));
                assert(spec_tokenize(rest) == seq![SpecToken::Close] + spec_tokenize(
                    s@.subrange(i + 1, n as int),
                ));
                assert(toks.deep_view() =~= before.deep_view() + seq![SpecToken::Close]);
                assert(toks.deep_view() + spec_tokenize(s@.subrange(i + 1, n as int))
                    =~= before.deep_view() + spec_tokenize(rest));
            }
            i += 1;
        } else {
            let mut j: usize = i + 1;
            while j < n && is_word(s.get_char(j))
                invariant
                    n == s@.len(),
                    i < j <= n,
                    forall|k: int| i <= k < j ==> is_word_char(#[trigger] s@[k]),
                decreases n - j,
            {
                j += 1;
            }
            let text = s.substring_char(i, j);
            let ghost before = toks;
            let tok = Token { pos: i, kind: TokenKind::Word(text.to_owned()) };
            let ghost tok_g = tok;
            let ghost tok_view = tok.deep_view();
            toks.push(tok);
            proof {
                assert(forall|k: int|
                    0 <= k < j - i ==> #[trigger] rest[k] == s@[i + k] && is_word_char(s@[i + k]));
                lemma_word_len_prefix(rest, j - i);
                assert(rest.subrange(0, word_len(rest) as int) =~= s@.subrange(i as int, j as int));
                assert(rest.subrange(word_len(rest) as int, rest.len() as int) =~= s@.subrange(
                    j as int,
                    n as int,
                ));
                assert(spec_tokenize(rest) == seq![tok_view] + spec_tokenize(
                    s@.subrange(j as int, n as int),
                ));
                lemma_deep_view_push(before, toks, tok_g);
                assert(toks.deep_view() =~= before.deep_view() + seq![tok_view]);
                assert(toks.deep_view() + spec_tokenize(s@.subrange(j as int, n as int))
                    =~= before.deep_view() + spec_tokenize(rest));
            }
            i = j;
        }
    }
    proof {
        assert(s@.subrange(n as int, n as int) =~= Seq::<char>::empty());
        assert(spec_tokenize(s@) =~= toks.deep_view());
    }
    toks
}

} // verus!
