//! The parser: from text to a validated abstract syntax tree.
//!
//! The grammar over the token stream is
//!
//! ```text
//! description := clause*
//! clause      := rule | sentence
//! rule        := '(' '<=' sentence literal+ ')'
//! sentence    := relation | proposition
//! relation    := '(' constant term+ ')'
//! proposition := constant
//! literal     := not | or | distinct | relation | proposition
//! not         := '(' 'not' literal ')'
//! or          := '(' 'or' literal+ ')'
//! distinct    := '(' 'distinct' term term ')'
//! term        := variable | function | constant
//! function    := '(' constant term+ ')'
//! variable    := '?' constant
//! constant    := token not equal to a keyword, not starting with '?'
//! ```
//!
//! The `spec_parse_*` functions are the mathematical definition of this
//! grammar as a deterministic recursive-descent parse over the token
//! stream, each consuming a prefix and returning the remainder.  The
//! executable parser mirrors them one production at a time and is proved
//! to return exactly what they define — and a [`ParseError`] exactly when
//! they reject.

use vstd::prelude::*;
use vstd::slice::{slice_index_get, slice_subrange};
use vstd::string::StrSliceExecFns;

use crate::ast::{
    Clause, Constant, Description, Distinct, Function, Literal, Not, Or, Proposition, Relation,
    Rule, Sentence, Term, Variable,
};
use crate::model::{
    is_reserved, kw_distinct, kw_implies, kw_not, kw_or, wf_name, SpecClause, SpecDescription,
    SpecDistinct, SpecFunction, SpecLiteral, SpecNot, SpecOr, SpecProposition, SpecRelation,
    SpecRule, SpecSentence, SpecTerm, SpecVariable,
};
use crate::token::{spec_tokenize, tokenize, SpecToken, Token, TokenKind};
use crate::views::lemma_deep_view_subrange;

verus! {

// ---------------------------------------------------------------------------
// The mathematical parser over the token stream.
// ---------------------------------------------------------------------------

/// Parses one term at the head of `ts`; returns the term and the
/// unconsumed remainder, or nothing if no term starts here.
pub open spec fn spec_parse_term(ts: Seq<SpecToken>) -> Option<(SpecTerm, Seq<SpecToken>)>
    decreases ts.len(), 0int,
{
    if ts.len() == 0 {
        None
    } else {
        match ts[0] {
            SpecToken::Word(w) => {
                if w.len() > 0 && w[0] == '?' {
                    let name = w.subrange(1, w.len() as int);
                    if wf_name(name) {
                        Some(
                            (
                                SpecTerm::VarTerm(SpecVariable { name }),
                                ts.subrange(1, ts.len() as int),
                            ),
                        )
                    } else {
                        None
                    }
                } else if wf_name(w) {
                    Some((SpecTerm::ConstTerm(w), ts.subrange(1, ts.len() as int)))
                } else {
                    None
                }
            },
            SpecToken::Open => {
                if ts.len() < 2 {
                    None
                } else {
                    match ts[1] {
                        SpecToken::Word(w) => {
                            if wf_name(w) {
                                let (args, r) = spec_parse_terms(ts.subrange(2, ts.len() as int));
                                if args.len() > 0 && r.len() > 0 && r[0] == SpecToken::Close {
                                    Some(
                                        (
                                            SpecTerm::FuncTerm(SpecFunction { name: w, args }),
                                            r.subrange(1, r.len() as int),
                                        ),
                                    )
                                } else {
                                    None
                                }
                            } else {
                                None
                            }
                        },
                        _ => None,
                    }
                }
            },
            SpecToken::Close => None,
        }
    }
}

/// Parses as many terms as possible at the head of `ts` (possibly none).
pub open spec fn spec_parse_terms(ts: Seq<SpecToken>) -> (Seq<SpecTerm>, Seq<SpecToken>)
    decreases ts.len(), 1int,
{
    match spec_parse_term(ts) {
        Some((t, r)) => {
            if r.len() < ts.len() {
                let (more, r2) = spec_parse_terms(r);
                (seq![t] + more, r2)
            } else {
                (Seq::empty(), ts)
            }
        },
        None => (Seq::empty(), ts),
    }
}

/// Parses one sentence at the head of `ts`: a bare constant is a
/// proposition, a parenthesized form with a constant head is a relation.
pub open spec fn spec_parse_sentence(ts: Seq<SpecToken>) -> Option<(SpecSentence, Seq<SpecToken>)>
    decreases ts.len(), 2int,
{
    if ts.len() == 0 {
        None
    } else {
        match ts[0] {
            SpecToken::Word(w) => {
                if wf_name(w) {
                    Some(
                        (
                            SpecSentence::PropSentence(SpecProposition { name: w }),
                            ts.subrange(1, ts.len() as int),
                        ),
                    )
                } else {
                    None
                }
            },
            SpecToken::Open => {
                if ts.len() < 2 {
                    None
                } else {
                    match ts[1] {
                        SpecToken::Word(w) => {
                            if wf_name(w) {
                                let (args, r) = spec_parse_terms(ts.subrange(2, ts.len() as int));
                                if args.len() > 0 && r.len() > 0 && r[0] == SpecToken::Close {
                                    Some(
                                        (
                                            SpecSentence::RelSentence(
                                                SpecRelation { name: w, args },
                                            ),
                                            r.subrange(1, r.len() as int),
                                        ),
                                    )
                                } else {
                                    None
                                }
                            } else {
                                None
                            }
                        },
                        _ => None,
                    }
                }
            },
            SpecToken::Close => None,
        }
    }
}

/// Parses one literal at the head of `ts`.  A parenthesized form headed
/// by a reserved keyword is the corresponding construct; any other
/// parenthesized form with a constant head is a relation; a bare constant
/// is a proposition.
pub open spec fn spec_parse_literal(ts: Seq<SpecToken>) -> Option<(SpecLiteral, Seq<SpecToken>)>
    decreases ts.len(), 3int,
{
    if ts.len() == 0 {
        None
    } else {
        match ts[0] {
            SpecToken::Word(w) => {
                if wf_name(w) {
                    Some(
                        (
                            SpecLiteral::PropLit(SpecProposition { name: w }),
                            ts.subrange(1, ts.len() as int),
                        ),
                    )
                } else {
                    None
                }
            },
            SpecToken::Open => {
                if ts.len() < 2 {
                    None
                } else {
                    match ts[1] {
                        SpecToken::Word(w) => {
                            if w == kw_not() {
                                match spec_parse_literal(ts.subrange(2, ts.len() as int)) {
                                    Some((l, r)) => {
                                        if r.len() > 0 && r[0] == SpecToken::Close {
                                            Some(
                                                (
                                                    SpecLiteral::NotLit(
                                                        SpecNot { lit: Box::new(l) },
                                                    ),
                                                    r.subrange(1, r.len() as int),
                                                ),
                                            )
                                        } else {
                                            None
                                        }
                                    },
                                    None => None,
                                }
                            } else if w == kw_or() {
                                let (ls, r) = spec_parse_literals(ts.subrange(2, ts.len() as int));
                                if ls.len() > 0 && r.len() > 0 && r[0] == SpecToken::Close {
                                    Some(
                                        (
                                            SpecLiteral::OrLit(SpecOr { lits: ls }),
                                            r.subrange(1, r.len() as int),
                                        ),
                                    )
                                } else {
                                    None
                                }
                            } else if w == kw_distinct() {
                                match spec_parse_term(ts.subrange(2, ts.len() as int)) {
                                    Some((t1, r1)) => {
                                        if r1.len() < ts.len() {
                                            match spec_parse_term(r1) {
                                                Some((t2, r2)) => {
                                                    if r2.len() > 0 && r2[0] == SpecToken::Close {
                                                        Some(
                                                            (
                                                                SpecLiteral::DistinctLit(
                                                                    SpecDistinct {
                                                                        term1: t1,
                                                                        term2: t2,
                                                                    },
                                                                ),
                                                                r2.subrange(1, r2.len() as int),
                                                            ),
                                                        )
                                                    } else {
                                                        None
                                                    }
                                                },
                                                None => None,
                                            }
                                        } else {
                                            None
                                        }
                                    },
                                    None => None,
                                }
                            } else if wf_name(w) {
                                let (args, r) = spec_parse_terms(ts.subrange(2, ts.len() as int));
                                if args.len() > 0 && r.len() > 0 && r[0] == SpecToken::Close {
                                    Some(
                                        (
                                            SpecLiteral::RelLit(SpecRelation { name: w, args }),
                                            r.subrange(1, r.len() as int),
                                        ),
                                    )
                                } else {
                                    None
                                }
                            } else {
                                None
                            }
                        },
                        _ => None,
                    }
                }
            },
            SpecToken::Close => None,
        }
    }
}

/// Parses as many literals as possible at the head of `ts` (possibly none).
pub open spec fn spec_parse_literals(ts: Seq<SpecToken>) -> (Seq<SpecLiteral>, Seq<SpecToken>)
    decreases ts.len(), 4int,
{
    match spec_parse_literal(ts) {
        Some((l, r)) => {
            if r.len() < ts.len() {
                let (more, r2) = spec_parse_literals(r);
                (seq![l] + more, r2)
            } else {
                (Seq::empty(), ts)
            }
        },
        None => (Seq::empty(), ts),
    }
}

/// Parses one clause at the head of `ts`: a parenthesized form headed by
/// `<=` is a rule with at least one body literal; anything else must be a
/// sentence.
pub open spec fn spec_parse_clause(ts: Seq<SpecToken>) -> Option<(SpecClause, Seq<SpecToken>)>
    decreases ts.len(), 5int,
{
    if ts.len() >= 2 && ts[0] == SpecToken::Open && ts[1] == SpecToken::Word(kw_implies()) {
        match spec_parse_sentence(ts.subrange(2, ts.len() as int)) {
            Some((head, r1)) => {
                if r1.len() < ts.len() {
                    let (body, r2) = spec_parse_literals(r1);
                    if body.len() > 0 && r2.len() > 0 && r2[0] == SpecToken::Close {
                        Some(
                            (
                                SpecClause::RuleClause(SpecRule { head, body }),
                                r2.subrange(1, r2.len() as int),
                            ),
                        )
                    } else {
                        None
                    }
                } else {
                    None
                }
            },
            None => None,
        }
    } else {
        match spec_parse_sentence(ts) {
            Some((s, r)) => Some((SpecClause::SentenceClause(s), r)),
            None => None,
        }
    }
}

/// Parses a whole token stream as a sequence of clauses; every token must
/// be consumed.
pub open spec fn spec_parse_clauses(ts: Seq<SpecToken>) -> Option<Seq<SpecClause>>
    decreases ts.len(), 6int,
{
    if ts.len() == 0 {
        Some(Seq::empty())
    } else {
        match spec_parse_clause(ts) {
            Some((c, r)) => {
                if r.len() < ts.len() {
                    match spec_parse_clauses(r) {
                        Some(cs) => Some(seq![c] + cs),
                        None => None,
                    }
                } else {
                    None
                }
            },
            None => None,
        }
    }
}

/// The whole parse: tokenize the text, then parse the token stream as a
/// description.  `None` exactly when the text is not in the grammar.
pub open spec fn spec_parse(text: Seq<char>) -> Option<SpecDescription> {
    match spec_parse_clauses(spec_tokenize(text)) {
        Some(cs) => Some(SpecDescription { clauses: cs }),
        None => None,
    }
}

// ---------------------------------------------------------------------------
// The syntax error.
// ---------------------------------------------------------------------------

/// A syntax error: the input does not match the grammar.  `pos` is the
/// character offset of the offending token (or the end of input), and
/// `message` says what was wrong there.
#[derive(Debug, Clone, Copy, PartialEq, Eq)]
pub struct ParseError {
    pub pos: usize,
    pub message: &'static str,
}

// ---------------------------------------------------------------------------
// Executable lexical checks.
// ---------------------------------------------------------------------------

/// Character-by-character string equality.
fn str_eq(a: &str, b: &str) -> (r: bool)
    ensures
        r == (a@ == b@),
{
    let na = a.unicode_len();
    let nb = b.unicode_len();
    if na != nb {
        return false;
    }
    let mut i: usize = 0;
    while i < na
        invariant
            na == a@.len(),
            nb == b@.len(),
            na == nb,
            i <= na,
            forall|k: int| 0 <= k < i ==> a@[k] == b@[k],
        decreases na - i,
    {
        if a.get_char(i) != b.get_char(i) {
            return false;
        }
        i += 1;
    }
    proof {
        assert(a@ =~= b@);
    }
    true
}

/// Whether `s` is one of the four reserved keywords.
fn is_reserved_word(s: &str) -> (r: bool)
    ensures
        r == is_reserved(s@),
{
    proof {
        reveal_strlit("<=");
        reveal_strlit("not");
        reveal_strlit("or");
        reveal_strlit("distinct");
        assert("<="@ =~= kw_implies());
        assert("not"@ =~= kw_not());
        assert("or"@ =~= kw_or());
        assert("distinct"@ =~= kw_distinct());
    }
    str_eq(s, "<=") || str_eq(s, "not") || str_eq(s, "or") || str_eq(s, "distinct")
}

/// Whether `s` is a valid constant name.
fn is_wf_name(s: &str) -> (r: bool)
    ensures
        r == wf_name(s@),
{
    let n = s.unicode_len();
    if n == 0 {
        return false;
    }
    if s.get_char(0) == '?' {
        return false;
    }
    let mut i: usize = 0;
    while i < n
        invariant
            n == s@.len(),
            i <= n,
            forall|k: int| 0 <= k < i ==> crate::model::is_word_char(#[trigger] s@[k]),
        decreases n - i,
    {
        if !crate::token::is_word(s.get_char(i)) {
            return false;
        }
        i += 1;
    }
    !is_reserved_word(s)
}

// ---------------------------------------------------------------------------
// The executable parser over the token stream.
// ---------------------------------------------------------------------------

/// Parses one term at the head of `ts`.  `end` is the character offset of
/// the end of input, used only to place errors.
fn parse_term_tokens<'a>(ts: &'a [Token], end: usize) -> (r: Result<
    (Term, &'a [Token]),
    ParseError,
>)
    ensures
        match r {
            Ok(p) => {
                &&& spec_parse_term(ts.deep_view()) == Some((p.0.deep_view(), p.1.deep_view()))
                &&& p.1@.len() < ts@.len()
            },
            Err(_) => spec_parse_term(ts.deep_view()) is None,
        },
    decreases ts@.len(), 0int,
{
    if ts.len() == 0 {
        return Err(ParseError { pos: end, message: "expected a term, found end of input" });
    }
    let tok = slice_index_get(ts, 0);
    match &tok.kind {
        TokenKind::Word(w) => {
            let wn = w.as_str().unicode_len();
            if wn > 0 && w.as_str().get_char(0) == '?' {
                let name_str = w.as_str().substring_char(1, wn);
                if is_wf_name(name_str) {
                    let c = Constant { name: name_str.to_owned() };
                    let rest = slice_subrange(ts, 1, ts.len());
                    proof {
                        lemma_deep_view_subrange(ts, rest, 1, ts@.len() as int);
                    }
                    Ok((Term::VarTerm(Variable { name: c }), rest))
                } else {
                    Err(ParseError { pos: tok.pos, message: "invalid variable name" })
                }
            } else if is_wf_name(w.as_str()) {
                let rest = slice_subrange(ts, 1, ts.len());
                proof {
                    lemma_deep_view_subrange(ts, rest, 1, ts@.len() as int);
                }
                Ok((Term::ConstTerm(Constant { name: w.clone() }), rest))
            } else {
                Err(ParseError { pos: tok.pos, message: "expected a constant" })
            }
        },
        TokenKind::Open => {
            if ts.len() < 2 {
                return Err(
                    ParseError { pos: tok.pos, message: "unterminated parenthesized term" },
                );
            }
            let tok1 = slice_index_get(ts, 1);
            match &tok1.kind {
                TokenKind::Word(w) => {
                    if is_wf_name(w.as_str()) {
                        let sub = slice_subrange(ts, 2, ts.len());
                        proof {
                            lemma_deep_view_subrange(ts, sub, 2, ts@.len() as int);
                        }
                        let (args, r) = parse_terms_tokens(sub, end);
                        if args.len() == 0 {
                            return Err(
                                ParseError {
                                    pos: tok1.pos,
                                    message: "a compound term needs at least one argument",
                                },
                            );
                        }
                        if r.len() == 0 {
                            return Err(
                                ParseError { pos: end, message: "missing closing parenthesis" },
                            );
                        }
                        let rtok = slice_index_get(r, 0);
                        match &rtok.kind {
                            TokenKind::Close => {
                                let f = Function { name: Constant { name: w.clone() }, args };
                                let rest = slice_subrange(r, 1, r.len());
                                proof {
                                    lemma_deep_view_subrange(r, rest, 1, r@.len() as int);
                                    assert(f.deep_view().args =~= f.args.deep_view());
                                }
                                Ok((Term::FuncTerm(f), rest))
                            },
                            _ => Err(
                                ParseError { pos: rtok.pos, message: "missing closing parenthesis" },
                            ),
                        }
                    } else {
                        Err(ParseError { pos: tok1.pos, message: "expected a constant" })
                    }
                },
                _ => Err(
                    ParseError {
                        pos: tok1.pos,
                        message: "expected a constant after an opening parenthesis",
                    },
                ),
            }
        },
        TokenKind::Close => Err(
            ParseError { pos: tok.pos, message: "expected a term, found a closing parenthesis" },
        ),
    }
}

/// Parses as many terms as possible at the head of `ts`.
fn parse_terms_tokens<'a>(ts: &'a [Token], end: usize) -> (r: (Vec<Term>, &'a [Token]))
    ensures
        spec_parse_terms(ts.deep_view()) == (r.0.deep_view(), r.1.deep_view()),
        r.1@.len() <= ts@.len(),
    decreases ts@.len(), 1int,
{
    let mut acc: Vec<Term> = Vec::new();
    let mut cur: &[Token] = ts;
    proof {
        assert(acc.deep_view() =~= Seq::<SpecTerm>::empty());
        assert(acc.deep_view() + spec_parse_terms(ts.deep_view()).0 =~= spec_parse_terms(
            ts.deep_view(),
        ).0);
    }
    loop
        invariant
            cur@.len() <= ts@.len(),
            spec_parse_terms(ts.deep_view()).0 == acc.deep_view() + spec_parse_terms(
                cur.deep_view(),
            ).0,
            spec_parse_terms(ts.deep_view()).1 == spec_parse_terms(cur.deep_view()).1,
        decreases cur@.len(),
    {
        match parse_term_tokens(cur, end) {
            Ok((t, rest)) => {
                let ghost before = acc;
                let ghost tg = t;
                acc.push(t);
                proof {
                    crate::views::lemma_deep_view_push(before, acc, tg);
                    assert(acc.deep_view() + spec_parse_terms(rest.deep_view()).0
                        =~= before.deep_view() + (seq![tg.deep_view()] + spec_parse_terms(
                        rest.deep_view(),
                    ).0));
                }
                cur = rest;
            },
            Err(_) => {
                proof {
                    assert(spec_parse_terms(cur.deep_view()).0 =~= Seq::<SpecTerm>::empty());
                    assert(acc.deep_view() + Seq::<SpecTerm>::empty() =~= acc.deep_view());
                }
                return (acc, cur);
            },
        }
    }
}

/// Parses one sentence at the head of `ts`.
fn parse_sentence_tokens<'a>(ts: &'a [Token], end: usize) -> (r: Result<
    (Sentence, &'a [Token]),
    ParseError,
>)
    ensures
        match r {
            Ok(p) => {
                &&& spec_parse_sentence(ts.deep_view()) == Some((p.0.deep_view(), p.1.deep_view()))
                &&& p.1@.len() < ts@.len()
            },
            Err(_) => spec_parse_sentence(ts.deep_view()) is None,
        },
    decreases ts@.len(), 2int,
{
    if ts.len() == 0 {
        return Err(ParseError { pos: end, message: "expected a sentence, found end of input" });
    }
    let tok = slice_index_get(ts, 0);
    match &tok.kind {
        TokenKind::Word(w) => {
            if is_wf_name(w.as_str()) {
                let rest = slice_subrange(ts, 1, ts.len());
                proof {
                    lemma_deep_view_subrange(ts, rest, 1, ts@.len() as int);
                }
                Ok((Sentence::PropSentence(Proposition { name: Constant { name: w.clone() } }), rest))
            } else {
                Err(ParseError { pos: tok.pos, message: "expected a constant" })
            }
        },
        TokenKind::Open => {
            if ts.len() < 2 {
                return Err(
                    ParseError { pos: tok.pos, message: "unterminated parenthesized sentence" },
                );
            }
            let tok1 = slice_index_get(ts, 1);
            match &tok1.kind {
                TokenKind::Word(w) => {
                    if is_wf_name(w.as_str()) {
                        let sub = slice_subrange(ts, 2, ts.len());
                        proof {
                            lemma_deep_view_subrange(ts, sub, 2, ts@.len() as int);
                        }
                        let (args, r) = parse_terms_tokens(sub, end);
                        if args.len() == 0 {
                            return Err(
                                ParseError {
                                    pos: tok1.pos,
                                    message: "a relation needs at least one argument",
                                },
                            );
                        }
                        if r.len() == 0 {
                            return Err(
                                ParseError { pos: end, message: "missing closing parenthesis" },
                            );
                        }
                        let rtok = slice_index_get(r, 0);
                        match &rtok.kind {
                            TokenKind::Close => {
                                let rel = Relation { name: Constant { name: w.clone() }, args };
                                let rest = slice_subrange(r, 1, r.len());
                                proof {
                                    lemma_deep_view_subrange(r, rest, 1, r@.len() as int);
                                    assert(rel.deep_view().args =~= rel.args.deep_view());
                                }
                                Ok((Sentence::RelSentence(rel), rest))
                            },
                            _ => Err(
                                ParseError { pos: rtok.pos, message: "missing closing parenthesis" },
                            ),
                        }
                    } else {
                        Err(ParseError { pos: tok1.pos, message: "expected a constant" })
                    }
                },
                _ => Err(
                    ParseError {
                        pos: tok1.pos,
                        message: "expected a constant after an opening parenthesis",
                    },
                ),
            }
        },
        TokenKind::Close => Err(
            ParseError {
                pos: tok.pos,
                message: "expected a sentence, found a closing parenthesis",
            },
        ),
    }
}

/// Parses one literal at the head of `ts`.
fn parse_literal_tokens<'a>(ts: &'a [Token], end: usize) -> (r: Result<
    (Literal, &'a [Token]),
    ParseError,
>)
    ensures
        match r {
            Ok(p) => {
                &&& spec_parse_literal(ts.deep_view()) == Some((p.0.deep_view(), p.1.deep_view()))
                &&& p.1@.len() < ts@.len()
            },
            Err(_) => spec_parse_literal(ts.deep_view()) is None,
        },
    decreases ts@.len(), 3int,
{
    if ts.len() == 0 {
        return Err(ParseError { pos: end, message: "expected a literal, found end of input" });
    }
    let tok = slice_index_get(ts, 0);
    match &tok.kind {
        TokenKind::Word(w) => {
            if is_wf_name(w.as_str()) {
                let rest = slice_subrange(ts, 1, ts.len());
                proof {
                    lemma_deep_view_subrange(ts, rest, 1, ts@.len() as int);
                }
                Ok((Literal::PropLit(Proposition { name: Constant { name: w.clone() } }), rest))
            } else {
                Err(ParseError { pos: tok.pos, message: "expected a constant" })
            }
        },
        TokenKind::Open => {
            if ts.len() < 2 {
                return Err(
                    ParseError { pos: tok.pos, message: "unterminated parenthesized literal" },
                );
            }
            let tok1 = slice_index_get(ts, 1);
            match &tok1.kind {
                TokenKind::Word(w) => {
                    proof {
                        reveal_strlit("not");
                        reveal_strlit("or");
                        reveal_strlit("distinct");
                        assert("not"@ =~= kw_not());
                        assert("or"@ =~= kw_or());
                        assert("distinct"@ =~= kw_distinct());
                    }
                    let sub = slice_subrange(ts, 2, ts.len());
                    proof {
                        lemma_deep_view_subrange(ts, sub, 2, ts@.len() as int);
                    }
                    if str_eq(w.as_str(), "not") {
                        match parse_literal_tokens(sub, end) {
                            Ok((l, r)) => {
                                if r.len() == 0 {
                                    return Err(
                                        ParseError {
                                            pos: end,
                                            message: "missing closing parenthesis",
                                        },
                                    );
                                }
                                let rtok = slice_index_get(r, 0);
                                match &rtok.kind {
                                    TokenKind::Close => {
                                        let rest = slice_subrange(r, 1, r.len());
                                        proof {
                                            lemma_deep_view_subrange(r, rest, 1, r@.len() as int);
                                        }
                                        Ok((Literal::NotLit(Not { lit: Box::new(l) }), rest))
                                    },
                                    _ => Err(
                                        ParseError {
                                            pos: rtok.pos,
                                            message: "a negation holds exactly one literal",
                                        },
                                    ),
                                }
                            },
                            Err(e) => Err(e),
                        }
                    } else if str_eq(w.as_str(), "or") {
                        let (ls, r) = parse_literals_tokens(sub, end);
                        if ls.len() == 0 {
                            return Err(
                                ParseError {
                                    pos: tok1.pos,
                                    message: "a disjunction needs at least one literal",
                                },
                            );
                        }
                        if r.len() == 0 {
                            return Err(
                                ParseError { pos: end, message: "missing closing parenthesis" },
                            );
                        }
                        let rtok = slice_index_get(r, 0);
                        match &rtok.kind {
                            TokenKind::Close => {
                                let o = Or { lits: ls };
                                let rest = slice_subrange(r, 1, r.len());
                                proof {
                                    lemma_deep_view_subrange(r, rest, 1, r@.len() as int);
                                    assert(o.deep_view().lits =~= o.lits.deep_view());
                                }
                                Ok((Literal::OrLit(o), rest))
                            },
                            _ => Err(
                                ParseError { pos: rtok.pos, message: "missing closing parenthesis" },
                            ),
                        }
                    } else if str_eq(w.as_str(), "distinct") {
                        match parse_term_tokens(sub, end) {
                            Ok((t1, r1)) => {
                                match parse_term_tokens(r1, end) {
                                    Ok((t2, r2)) => {
                                        if r2.len() == 0 {
                                            return Err(
                                                ParseError {
                                                    pos: end,
                                                    message: "missing closing parenthesis",
                                                },
                                            );
                                        }
                                        let rtok = slice_index_get(r2, 0);
                                        match &rtok.kind {
                                            TokenKind::Close => {
                                                let rest = slice_subrange(r2, 1, r2.len());
                                                proof {
                                                    lemma_deep_view_subrange(
                                                        r2,
                                                        rest,
                                                        1,
                                                        r2@.len() as int,
                                                    );
                                                }
                                                Ok(
                                                    (
                                                        Literal::DistinctLit(
                                                            Distinct { term1: t1, term2: t2 },
                                                        ),
                                                        rest,
                                                    ),
                                                )
                                            },
                                            _ => Err(
                                                ParseError {
                                                    pos: rtok.pos,
                                                    message:
                                                        "an inequality holds exactly two terms",
                                                },
                                            ),
                                        }
                                    },
                                    Err(e) => Err(e),
                                }
                            },
                            Err(e) => Err(e),
                        }
                    } else if is_wf_name(w.as_str()) {
                        let (args, r) = parse_terms_tokens(sub, end);
                        if args.len() == 0 {
                            return Err(
                                ParseError {
                                    pos: tok1.pos,
                                    message: "a relation needs at least one argument",
                                },
                            );
                        }
                        if r.len() == 0 {
                            return Err(
                                ParseError { pos: end, message: "missing closing parenthesis" },
                            );
                        }
                        let rtok = slice_index_get(r, 0);
                        match &rtok.kind {
                            TokenKind::Close => {
                                let rel = Relation { name: Constant { name: w.clone() }, args };
                                let rest = slice_subrange(r, 1, r.len());
                                proof {
                                    lemma_deep_view_subrange(r, rest, 1, r@.len() as int);
                                    assert(rel.deep_view().args =~= rel.args.deep_view());
                                }
                                Ok((Literal::RelLit(rel), rest))
                            },
                            _ => Err(
                                ParseError { pos: rtok.pos, message: "missing closing parenthesis" },
                            ),
                        }
                    } else {
                        Err(ParseError { pos: tok1.pos, message: "expected a constant" })
                    }
                },
                _ => Err(
                    ParseError {
                        pos: tok1.pos,
                        message: "expected a constant after an opening parenthesis",
                    },
                ),
            }
        },
        TokenKind::Close => Err(
            ParseError { pos: tok.pos, message: "expected a literal, found a closing parenthesis" },
        ),
    }
}

/// Parses as many literals as possible at the head of `ts`.
fn parse_literals_tokens<'a>(ts: &'a [Token], end: usize) -> (r: (Vec<Literal>, &'a [Token]))
    ensures
        spec_parse_literals(ts.deep_view()) == (r.0.deep_view(), r.1.deep_view()),
        r.1@.len() <= ts@.len(),
    decreases ts@.len(), 4int,
{
    let mut acc: Vec<Literal> = Vec::new();
    let mut cur: &[Token] = ts;
    proof {
        assert(acc.deep_view() =~= Seq::<SpecLiteral>::empty());
        assert(acc.deep_view() + spec_parse_literals(ts.deep_view()).0 =~= spec_parse_literals(
            ts.deep_view(),
        ).0);
    }
    loop
        invariant
            cur@.len() <= ts@.len(),
            spec_parse_literals(ts.deep_view()).0 == acc.deep_view() + spec_parse_literals(
                cur.deep_view(),
            ).0,
            spec_parse_literals(ts.deep_view()).1 == spec_parse_literals(cur.deep_view()).1,
        decreases cur@.len(),
    {
        match parse_literal_tokens(cur, end) {
            Ok((l, rest)) => {
                let ghost before = acc;
                let ghost lg = l;
                acc.push(l);
                proof {
                    crate::views::lemma_deep_view_push(before, acc, lg);
                    assert(acc.deep_view() + spec_parse_literals(rest.deep_view()).0
                        =~= before.deep_view() + (seq![lg.deep_view()] + spec_parse_literals(
                        rest.deep_view(),
                    ).0));
                }
                cur = rest;
            },
            Err(_) => {
                proof {
                    assert(spec_parse_literals(cur.deep_view()).0 =~= Seq::<SpecLiteral>::empty());
                    assert(acc.deep_view() + Seq::<SpecLiteral>::empty() =~= acc.deep_view());
                }
                return (acc, cur);
            },
        }
    }
}

/// Parses one clause at the head of `ts`.
fn parse_clause_tokens<'a>(ts: &'a [Token], end: usize) -> (r: Result<
    (Clause, &'a [Token]),
    ParseError,
>)
    ensures
        match r {
            Ok(p) => {
                &&& spec_parse_clause(ts.deep_view()) == Some((p.0.deep_view(), p.1.deep_view()))
                &&& p.1@.len() < ts@.len()
            },
            Err(_) => spec_parse_clause(ts.deep_view()) is None,
        },
    decreases ts@.len(), 5int,
{
    let mut rule_form = false;
    if ts.len() >= 2 {
        let tok0 = slice_index_get(ts, 0);
        let tok1 = slice_index_get(ts, 1);
        match (&tok0.kind, &tok1.kind) {
            (TokenKind::Open, TokenKind::Word(w)) => {
                proof {
                    reveal_strlit("<=");
                    assert("<="@ =~= kw_implies());
                }
                if str_eq(w.as_str(), "<=") {
                    rule_form = true;
                }
            },
            _ => {},
        }
    }
    if rule_form {
        let sub = slice_subrange(ts, 2, ts.len());
        proof {
            lemma_deep_view_subrange(ts, sub, 2, ts@.len() as int);
        }
        match parse_sentence_tokens(sub, end) {
            Ok((head, r1)) => {
                let (body, r2) = parse_literals_tokens(r1, end);
                if body.len() == 0 {
                    return Err(
                        ParseError {
                            pos: end,
                            message: "a rule needs at least one body literal",
                        },
                    );
                }
                if r2.len() == 0 {
                    return Err(ParseError { pos: end, message: "missing closing parenthesis" });
                }
                let rtok = slice_index_get(r2, 0);
                match &rtok.kind {
                    TokenKind::Close => {
                        let rule = Rule { head, body };
                        let rest = slice_subrange(r2, 1, r2.len());
                        proof {
                            lemma_deep_view_subrange(r2, rest, 1, r2@.len() as int);
                            assert(rule.deep_view().body =~= rule.body.deep_view());
                        }
                        Ok((Clause::RuleClause(rule), rest))
                    },
                    _ => Err(
                        ParseError { pos: rtok.pos, message: "missing closing parenthesis" },
                    ),
                }
            },
            Err(e) => Err(e),
        }
    } else {
        match parse_sentence_tokens(ts, end) {
            Ok((s, rest)) => Ok((Clause::SentenceClause(s), rest)),
            Err(e) => Err(e),
        }
    }
}

/// Parses a whole token stream as a sequence of clauses.
fn parse_clauses_tokens<'a>(ts: &'a [Token], end: usize) -> (r: Result<Vec<Clause>, ParseError>)
    ensures
        match r {
            Ok(cs) => spec_parse_clauses(ts.deep_view()) == Some(cs.deep_view()),
            Err(_) => spec_parse_clauses(ts.deep_view()) is None,
        },
    decreases ts@.len(), 6int,
{
    let mut acc: Vec<Clause> = Vec::new();
    let mut cur: &[Token] = ts;
    proof {
        assert(acc.deep_view() =~= Seq::<SpecClause>::empty());
        if spec_parse_clauses(ts.deep_view()) is Some {
            assert(acc.deep_view() + spec_parse_clauses(ts.deep_view())->Some_0
                =~= spec_parse_clauses(ts.deep_view())->Some_0);
        }
    }
    loop
        invariant
            cur@.len() <= ts@.len(),
            match spec_parse_clauses(cur.deep_view()) {
                Some(cs2) => spec_parse_clauses(ts.deep_view()) == Some(acc.deep_view() + cs2),
                None => spec_parse_clauses(ts.deep_view()) is None,
            },
        decreases cur@.len(),
    {
        if cur.len() == 0 {
            proof {
                assert(spec_parse_clauses(cur.deep_view()) == Some(Seq::<SpecClause>::empty()));
                assert(acc.deep_view() + Seq::<SpecClause>::empty() =~= acc.deep_view());
            }
            return Ok(acc);
        }
        match parse_clause_tokens(cur, end) {
            Ok((c, rest)) => {
                let ghost before = acc;
                let ghost cg = c;
                acc.push(c);
                proof {
                    crate::views::lemma_deep_view_push(before, acc, cg);
                    if spec_parse_clauses(rest.deep_view()) is Some {
                        assert(acc.deep_view() + spec_parse_clauses(rest.deep_view())->Some_0
                            =~= before.deep_view() + (seq![cg.deep_view()] + spec_parse_clauses(
                            rest.deep_view(),
                        )->Some_0));
                    }
                }
                cur = rest;
            },
            Err(e) => {
                return Err(e);
            },
        }
    }
}

/// Parses a text into a [`Description`].
///
/// Succeeds exactly when the text matches the grammar; otherwise returns
/// a [`ParseError`] pointing at the offending position, and no partial
/// tree.  Parsing is a pure function of the input text, and every tree
/// it produces is well-formed.
pub fn parse(text: &str) -> (r: Result<Description, ParseError>)
    ensures
        match r {
            Ok(d) => spec_parse(text@) == Some(d.deep_view()) && crate::model::wf_description(
                d.deep_view(),
            ),
            Err(_) => spec_parse(text@) is None,
        },
{
    proof {
        crate::roundtrip::lemma_parse_sound(text@);
    }
    let end = text.unicode_len();
    let toks = tokenize(text);
    let tslice = toks.as_slice();
    proof {
        assert(tslice.deep_view() =~= toks.deep_view());
    }
    match parse_clauses_tokens(tslice, end) {
        Ok(clauses) => {
            let d = Description { clauses };
            proof {
                assert(d.deep_view().clauses =~= d.clauses.deep_view());
            }
            Ok(d)
        },
        Err(e) => Err(e),
    }
}

} // verus!
