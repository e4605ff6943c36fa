//! The laws tying the parser and the serializer together.
//!
//! The central results:
//! - every tree the parser can produce is well-formed
//!   ([`lemma_parse_sound`]);
//! - rendering a well-formed tree and parsing it back yields the same
//!   tree ([`lemma_render_parse`]);
//! - hence, for any tree obtained from [`crate::parser::parse`], parsing
//!   its rendering reproduces it exactly
//!   ([`lemma_parse_render_roundtrip`]).
//!
//! The proof goes through the canonical token stream of each node kind
//! (`tokens_of_*`): tokenizing a rendering yields the canonical tokens,
//! and parsing the canonical tokens rebuilds the node.

use vstd::prelude::*;

use crate::model::{
    is_reserved, is_word_char, kw_distinct, kw_implies, kw_not, kw_or, render_args, render_clause,
    render_clauses, render_clauses_tail, render_description, render_distinct, render_function,
    render_literal, render_lits, render_not, render_or, render_proposition, render_relation,
    render_rule, render_sentence, render_term, render_variable, wf_clause, wf_description,
    wf_literal, wf_name, wf_rule, wf_sentence, wf_term, SpecClause, SpecDescription, SpecDistinct,
    SpecFunction, SpecLiteral, SpecNot, SpecOr, SpecProposition, SpecRelation, SpecRule,
    SpecSentence, SpecTerm, SpecVariable,
};
use crate::token::{
    lemma_word_len_prefix, spec_tokenize, word_len, SpecToken,
};

verus! {

// ---------------------------------------------------------------------------
// The canonical token stream of each node kind.
// ---------------------------------------------------------------------------

/// The tokens of a term's canonical text.
pub open spec fn tokens_of_term(t: SpecTerm) -> Seq<SpecToken>
    decreases t,
{
    match t {
        SpecTerm::VarTerm(v) => seq![SpecToken::Word(seq!['?'] + v.name)],
        SpecTerm::FuncTerm(f) => seq![SpecToken::Open, SpecToken::Word(f.name)] + tokens_of_args(
            f.args,
        ) + seq![SpecToken::Close],
        SpecTerm::ConstTerm(c) => seq![SpecToken::Word(c)],
    }
}

/// The tokens of an argument list's canonical text.
pub open spec fn tokens_of_args(args: Seq<SpecTerm>) -> Seq<SpecToken>
    decreases args,
{
    if args.len() == 0 {
        Seq::empty()
    } else {
        tokens_of_term(args[0]) + tokens_of_args(args.subrange(1, args.len() as int))
    }
}

/// The tokens of a sentence's canonical text.
pub open spec fn tokens_of_sentence(s: SpecSentence) -> Seq<SpecToken> {
    match s {
        SpecSentence::PropSentence(p) => seq![SpecToken::Word(p.name)],
        SpecSentence::RelSentence(r) => seq![SpecToken::Open, SpecToken::Word(r.name)]
            + tokens_of_args(r.args) + seq![SpecToken::Close],
    }
}

/// The tokens of a literal's canonical text.
pub open spec fn tokens_of_literal(l: SpecLiteral) -> Seq<SpecToken>
    decreases l,
{
    match l {
        SpecLiteral::NotLit(n) => seq![SpecToken::Open, SpecToken::Word(kw_not())]
            + tokens_of_literal(*n.lit) + seq![SpecToken::Close],
        SpecLiteral::OrLit(o) => seq![SpecToken::Open, SpecToken::Word(kw_or())] + tokens_of_lits(
            o.lits,
        ) + seq![SpecToken::Close],
        SpecLiteral::DistinctLit(d) => seq![SpecToken::Open, SpecToken::Word(kw_distinct())]
            + tokens_of_term(d.term1) + tokens_of_term(d.term2) + seq![SpecToken::Close],
        SpecLiteral::PropLit(p) => seq![SpecToken::Word(p.name)],
        SpecLiteral::RelLit(r) => seq![SpecToken::Open, SpecToken::Word(r.name)] + tokens_of_args(
            r.args,
        ) + seq![SpecToken::Close],
    }
}

/// The tokens of a literal list's canonical text.
pub open spec fn tokens_of_lits(lits: Seq<SpecLiteral>) -> Seq<SpecToken>
    decreases lits,
{
    if lits.len() == 0 {
        Seq::empty()
    } else {
        tokens_of_literal(lits[0]) + tokens_of_lits(lits.subrange(1, lits.len() as int))
    }
}

/// The tokens of a rule's canonical text.
pub open spec fn tokens_of_rule(r: SpecRule) -> Seq<SpecToken> {
    seq![SpecToken::Open, SpecToken::Word(kw_implies())] + tokens_of_sentence(r.head)
        + tokens_of_lits(r.body) + seq![SpecToken::Close]
}

/// The tokens of a clause's canonical text.
pub open spec fn tokens_of_clause(c: SpecClause) -> Seq<SpecToken> {
    match c {
        SpecClause::RuleClause(r) => tokens_of_rule(r),
        SpecClause::SentenceClause(s) => tokens_of_sentence(s),
    }
}

/// The tokens of a clause list's canonical text.
pub open spec fn tokens_of_clauses(cs: Seq<SpecClause>) -> Seq<SpecToken>
    decreases cs,
{
    if cs.len() == 0 {
        Seq::empty()
    } else {
        tokens_of_clause(cs[0]) + tokens_of_clauses(cs.subrange(1, cs.len() as int))
    }
}

// ---------------------------------------------------------------------------
// Tokenizing a canonical rendering yields the canonical tokens.
// ---------------------------------------------------------------------------

/// A suffix that cannot extend a word: empty, or starting with a
/// delimiter.
pub open spec fn at_boundary(s: Seq<char>) -> bool {
    s.len() == 0 || !is_word_char(s[0])
}

/// Tokenizing a word followed by a boundary yields the word as one token.
proof fn lemma_tokenize_word(w: Seq<char>, s: Seq<char>)
    requires
        w.len() > 0,
        forall|i: int| 0 <= i < w.len() ==> is_word_char(#[trigger] w[i]),
        at_boundary(s),
    ensures
        spec_tokenize(w + s) == seq![SpecToken::Word(w)] + spec_tokenize(s),
{
    let u = w + s;
    assert(forall|k: int| 0 <= k < w.len() ==> #[trigger] u[k] == w[k]);
    assert(w.len() == u.len() || u[w.len() as int] == s[0]);
    lemma_word_len_prefix(u, w.len() as int);
    assert(u.subrange(0, word_len(u) as int) =~= w);
    assert(u.subrange(word_len(u) as int, u.len() as int) =~= s);
    assert(spec_tokenize(u) =~= seq![SpecToken::Word(w)] + spec_tokenize(s));
}

/// Tokenizing an opening parenthesis yields an `Open` token.
proof fn lemma_tokenize_open(s: Seq<char>)
    ensures
        spec_tokenize(seq!['('] + s) == seq![SpecToken::Open] + spec_tokenize(s),
{
    let u = seq!['('] + s;
    assert(u.subrange(1, u.len() as int) =~= s);
}

/// Tokenizing a closing parenthesis yields a `Close` token.
proof fn lemma_tokenize_close(s: Seq<char>)
    ensures
        spec_tokenize(seq![')'] + s) == seq![SpecToken::Close] + spec_tokenize(s),
{
    let u = seq![')'] + s;
    assert(u.subrange(1, u.len() as int) =~= s);
}

/// Tokenizing a space drops it.
proof fn lemma_tokenize_space(s: Seq<char>)
    ensures
        spec_tokenize(seq![' '] + s) == spec_tokenize(s),
{
    let u = seq![' '] + s;
    assert(u.subrange(1, u.len() as int) =~= s);
}

/// Every character of every reserved keyword is a word character.
proof fn lemma_keyword_word_chars()
    ensures
        forall|i: int| 0 <= i < kw_implies().len() ==> is_word_char(#[trigger] kw_implies()[i]),
        forall|i: int| 0 <= i < kw_not().len() ==> is_word_char(#[trigger] kw_not()[i]),
        forall|i: int| 0 <= i < kw_or().len() ==> is_word_char(#[trigger] kw_or()[i]),
        forall|i: int| 0 <= i < kw_distinct().len() ==> is_word_char(#[trigger] kw_distinct()[i]),
{
    assert forall|i: int| 0 <= i < kw_implies().len() implies is_word_char(
        #[trigger] kw_implies()[i],
    ) by {
        if i == 0 {
            assert(kw_implies()[0] == '<');
        } else {
            assert(kw_implies()[1] == '=');
        }
    }
    assert forall|i: int| 0 <= i < kw_not().len() implies is_word_char(#[trigger] kw_not()[i]) by {
        if i == 0 {
            assert(kw_not()[0] == 'n');
        } else if i == 1 {
            assert(kw_not()[1] == 'o');
        } else {
            assert(kw_not()[2] == 't');
        }
    }
    assert forall|i: int| 0 <= i < kw_or().len() implies is_word_char(#[trigger] kw_or()[i]) by {
        if i == 0 {
            assert(kw_or()[0] == 'o');
        } else {
            assert(kw_or()[1] == 'r');
        }
    }
    assert forall|i: int| 0 <= i < kw_distinct().len() implies is_word_char(
        #[trigger] kw_distinct()[i],
    ) by {
        if i == 0 {
            assert(kw_distinct()[0] == 'd');
        } else if i == 1 {
            assert(kw_distinct()[1] == 'i');
        } else if i == 2 {
            assert(kw_distinct()[2] == 's');
        } else if i == 3 {
            assert(kw_distinct()[3] == 't');
        } else if i == 4 {
            assert(kw_distinct()[4] == 'i');
        } else if i == 5 {
            assert(kw_distinct()[5] == 'n');
        } else if i == 6 {
            assert(kw_distinct()[6] == 'c');
        } else {
            assert(kw_distinct()[7] == 't');
        }
    }
}

/// Tokenizing a rendered term followed by a boundary yields the term's
/// canonical tokens.
proof fn lemma_tok_term(t: SpecTerm, s: Seq<char>)
    requires
        wf_term(t),
        at_boundary(s),
    ensures
        spec_tokenize(render_term(t) + s) == tokens_of_term(t) + spec_tokenize(s),
    decreases t,
{
    match t {
        SpecTerm::ConstTerm(c) => {
            lemma_tokenize_word(c, s);
        },
        SpecTerm::VarTerm(v) => {
            let w = seq!['?'] + v.name;
            assert(is_word_char('?'));
            assert(forall|i: int| 0 <= i < w.len() ==> is_word_char(#[trigger] w[i]));
            lemma_tokenize_word(w, s);
        },
        SpecTerm::FuncTerm(f) => {
            let close_s = seq![')'] + s;
            let args_s = render_args(f.args) + close_s;
            let name_s = f.name + args_s;
            assert(render_term(t) + s =~= seq!['('] + name_s);
            lemma_tokenize_open(name_s);
            assert(render_args(f.args)[0] == ' ');
            assert(args_s[0] == ' ');
            lemma_tokenize_word(f.name, args_s);
            lemma_tok_args(f.args, close_s);
            lemma_tokenize_close(s);
            assert(tokens_of_term(t) + spec_tokenize(s) =~= seq![SpecToken::Open] + (seq![
                SpecToken::Word(f.name)] + (tokens_of_args(f.args) + (seq![SpecToken::Close]
                + spec_tokenize(s)))));
        },
    }
}

/// Tokenizing rendered arguments followed by a boundary yields their
/// canonical tokens.
proof fn lemma_tok_args(args: Seq<SpecTerm>, s: Seq<char>)
    requires
        forall|i: int| 0 <= i < args.len() ==> wf_term(#[trigger] args[i]),
        at_boundary(s),
    ensures
        spec_tokenize(render_args(args) + s) == tokens_of_args(args) + spec_tokenize(s),
    decreases args,
{
    if args.len() == 0 {
        assert(render_args(args) + s =~= s);
        assert(tokens_of_args(args) + spec_tokenize(s) =~= spec_tokenize(s));
    } else {
        let rest = args.subrange(1, args.len() as int);
        let tail = render_args(rest) + s;
        assert(render_args(args) + s =~= seq![' '] + (render_term(args[0]) + tail));
        lemma_tokenize_space(render_term(args[0]) + tail);
        if rest.len() > 0 {
            assert(render_args(rest)[0] == ' ');
            assert(tail[0] == ' ');
        } else {
            assert(tail =~= s);
        }
        lemma_tok_term(args[0], tail);
        lemma_tok_args(rest, s);
        assert(tokens_of_args(args) + spec_tokenize(s) =~= tokens_of_term(args[0]) + (
        tokens_of_args(rest) + spec_tokenize(s)));
    }
}

/// Tokenizing a rendered sentence followed by a boundary yields its
/// canonical tokens.
proof fn lemma_tok_sentence(st: SpecSentence, s: Seq<char>)
    requires
        wf_sentence(st),
        at_boundary(s),
    ensures
        spec_tokenize(render_sentence(st) + s) == tokens_of_sentence(st) + spec_tokenize(s),
{
    match st {
        SpecSentence::PropSentence(p) => {
            lemma_tokenize_word(p.name, s);
        },
        SpecSentence::RelSentence(r) => {
            let close_s = seq![')'] + s;
            let args_s = render_args(r.args) + close_s;
            let name_s = r.name + args_s;
            assert(render_sentence(st) + s =~= seq!['('] + name_s);
            lemma_tokenize_open(name_s);
            assert(render_args(r.args)[0] == ' ');
            assert(args_s[0] == ' ');
            lemma_tokenize_word(r.name, args_s);
            lemma_tok_args(r.args, close_s);
            lemma_tokenize_close(s);
            assert(tokens_of_sentence(st) + spec_tokenize(s) =~= seq![SpecToken::Open] + (seq![
                SpecToken::Word(r.name)] + (tokens_of_args(r.args) + (seq![SpecToken::Close]
                + spec_tokenize(s)))));
        },
    }
}

/// Tokenizing a rendered literal followed by a boundary yields its
/// canonical tokens.
proof fn lemma_tok_literal(l: SpecLiteral, s: Seq<char>)
    requires
        wf_literal(l),
        at_boundary(s),
    ensures
        spec_tokenize(render_literal(l) + s) == tokens_of_literal(l) + spec_tokenize(s),
    decreases l,
{
    lemma_keyword_word_chars();
    match l {
        SpecLiteral::PropLit(p) => {
            lemma_tokenize_word(p.name, s);
        },
        SpecLiteral::RelLit(r) => {
            let close_s = seq![')'] + s;
            let args_s = render_args(r.args) + close_s;
            let name_s = r.name + args_s;
            assert(render_literal(l) + s =~= seq!['('] + name_s);
            lemma_tokenize_open(name_s);
            assert(render_args(r.args)[0] == ' ');
            assert(args_s[0] == ' ');
            lemma_tokenize_word(r.name, args_s);
            lemma_tok_args(r.args, close_s);
            lemma_tokenize_close(s);
            assert(tokens_of_literal(l) + spec_tokenize(s) =~= seq![SpecToken::Open] + (seq![
                SpecToken::Word(r.name)] + (tokens_of_args(r.args) + (seq![SpecToken::Close]
                + spec_tokenize(s)))));
        },
        SpecLiteral::NotLit(n) => {
            let close_s = seq![')'] + s;
            let lit_s = render_literal(*n.lit) + close_s;
            let sp_s = seq![' '] + lit_s;
            let kw_s = kw_not() + sp_s;
            assert(render_literal(l) + s =~= seq!['('] + kw_s);
            lemma_tokenize_open(kw_s);
            lemma_tokenize_word(kw_not(), sp_s);
            lemma_tokenize_space(lit_s);
            lemma_tok_literal(*n.lit, close_s);
            lemma_tokenize_close(s);
            assert(tokens_of_literal(l) + spec_tokenize(s) =~= seq![SpecToken::Open] + (seq![
                SpecToken::Word(kw_not())] + (tokens_of_literal(*n.lit) + (seq![SpecToken::Close]
                + spec_tokenize(s)))));
        },
        SpecLiteral::OrLit(o) => {
            let close_s = seq![')'] + s;
            let lits_s = render_lits(o.lits) + close_s;
            let kw_s = kw_or() + lits_s;
            assert(render_literal(l) + s =~= seq!['('] + kw_s);
            lemma_tokenize_open(kw_s);
            assert(render_lits(o.lits)[0] == ' ');
            assert(lits_s[0] == ' ');
            lemma_tokenize_word(kw_or(), lits_s);
            lemma_tok_lits(o.lits, close_s);
            lemma_tokenize_close(s);
            assert(tokens_of_literal(l) + spec_tokenize(s) =~= seq![SpecToken::Open] + (seq![
                SpecToken::Word(kw_or())] + (tokens_of_lits(o.lits) + (seq![SpecToken::Close]
                + spec_tokenize(s)))));
        },
        SpecLiteral::DistinctLit(d) => {
            let close_s = seq![')'] + s;
            let t2_s = render_term(d.term2) + close_s;
            let sp2_s = seq![' '] + t2_s;
            let t1_s = render_term(d.term1) + sp2_s;
            let sp1_s = seq![' '] + t1_s;
            let kw_s = kw_distinct() + sp1_s;
            assert(render_literal(l) + s =~= seq!['('] + kw_s);
            lemma_tokenize_open(kw_s);
            lemma_tokenize_word(kw_distinct(), sp1_s);
            lemma_tokenize_space(t1_s);
            lemma_tok_term(d.term1, sp2_s);
            lemma_tokenize_space(t2_s);
            lemma_tok_term(d.term2, close_s);
            lemma_tokenize_close(s);
            assert(tokens_of_literal(l) + spec_tokenize(s) =~= seq![SpecToken::Open] + (seq![
                SpecToken::Word(kw_distinct())] + (tokens_of_term(d.term1) + (tokens_of_term(
                d.term2,
            ) + (seq![SpecToken::Close] + spec_tokenize(s))))));
        },
    }
}

/// Tokenizing rendered literals followed by a boundary yields their
/// canonical tokens.
proof fn lemma_tok_lits(lits: Seq<SpecLiteral>, s: Seq<char>)
    requires
        forall|i: int| 0 <= i < lits.len() ==> wf_literal(#[trigger] lits[i]),
        at_boundary(s),
    ensures
        spec_tokenize(render_lits(lits) + s) == tokens_of_lits(lits) + spec_tokenize(s),
    decreases lits,
{
    if lits.len() == 0 {
        assert(render_lits(lits) + s =~= s);
        assert(tokens_of_lits(lits) + spec_tokenize(s) =~= spec_tokenize(s));
    } else {
        let rest = lits.subrange(1, lits.len() as int);
        let tail = render_lits(rest) + s;
        assert(render_lits(lits) + s =~= seq![' '] + (render_literal(lits[0]) + tail));
        lemma_tokenize_space(render_literal(lits[0]) + tail);
        if rest.len() > 0 {
            assert(render_lits(rest)[0] == ' ');
            assert(tail[0] == ' ');
        } else {
            assert(tail =~= s);
        }
        lemma_tok_literal(lits[0], tail);
        lemma_tok_lits(rest, s);
        assert(tokens_of_lits(lits) + spec_tokenize(s) =~= tokens_of_literal(lits[0]) + (
        tokens_of_lits(rest) + spec_tokenize(s)));
    }
}

/// Tokenizing a rendered rule followed by a boundary yields its
/// canonical tokens.
proof fn lemma_tok_rule(r: SpecRule, s: Seq<char>)
    requires
        wf_rule(r),
        at_boundary(s),
    ensures
        spec_tokenize(render_rule(r) + s) == tokens_of_rule(r) + spec_tokenize(s),
{
    lemma_keyword_word_chars();
    let close_s = seq![')'] + s;
    let body_s = render_lits(r.body) + close_s;
    let head_s = render_sentence(r.head) + body_s;
    let sp_s = seq![' '] + head_s;
    let kw_s = kw_implies() + sp_s;
    assert(render_rule(r) + s =~= seq!['('] + kw_s);
    lemma_tokenize_open(kw_s);
    lemma_tokenize_word(kw_implies(), sp_s);
    lemma_tokenize_space(head_s);
    assert(render_lits(r.body)[0] == ' ');
    assert(body_s[0] == ' ');
    lemma_tok_sentence(r.head, body_s);
    lemma_tok_lits(r.body, close_s);
    lemma_tokenize_close(s);
    assert(tokens_of_rule(r) + spec_tokenize(s) =~= seq![SpecToken::Open] + (seq![SpecToken::Word(
        kw_implies(),
    )] + (tokens_of_sentence(r.head) + (tokens_of_lits(r.body) + (seq![SpecToken::Close]
        + spec_tokenize(s))))));
}

/// Tokenizing a rendered clause followed by a boundary yields its
/// canonical tokens.
proof fn lemma_tok_clause(c: SpecClause, s: Seq<char>)
    requires
        wf_clause(c),
        at_boundary(s),
    ensures
        spec_tokenize(render_clause(c) + s) == tokens_of_clause(c) + spec_tokenize(s),
{
    match c {
        SpecClause::RuleClause(r) => {
            lemma_tok_rule(r, s);
        },
        SpecClause::SentenceClause(st) => {
            lemma_tok_sentence(st, s);
        },
    }
}

/// Tokenizing the tail of a rendered clause list followed by a boundary
/// yields the clauses' canonical tokens.
proof fn lemma_tok_clauses_tail(cs: Seq<SpecClause>, s: Seq<char>)
    requires
        forall|i: int| 0 <= i < cs.len() ==> wf_clause(#[trigger] cs[i]),
        at_boundary(s),
    ensures
        spec_tokenize(render_clauses_tail(cs) + s) == tokens_of_clauses(cs) + spec_tokenize(s),
    decreases cs,
{
    if cs.len() == 0 {
        assert(render_clauses_tail(cs) + s =~= s);
        assert(tokens_of_clauses(cs) + spec_tokenize(s) =~= spec_tokenize(s));
    } else {
        let rest = cs.subrange(1, cs.len() as int);
        let tail = render_clauses_tail(rest) + s;
        assert(render_clauses_tail(cs) + s =~= seq![' '] + (render_clause(cs[0]) + tail));
        lemma_tokenize_space(render_clause(cs[0]) + tail);
        if rest.len() > 0 {
            assert(render_clauses_tail(rest)[0] == ' ');
            assert(tail[0] == ' ');
        } else {
            assert(tail =~= s);
        }
        lemma_tok_clause(cs[0], tail);
        lemma_tok_clauses_tail(rest, s);
        assert(tokens_of_clauses(cs) + spec_tokenize(s) =~= tokens_of_clause(cs[0]) + (
        tokens_of_clauses(rest) + spec_tokenize(s)));
    }
}

/// Tokenizing a whole rendered description yields the canonical tokens of
/// its clauses.
proof fn lemma_tok_description(d: SpecDescription)
    requires
        wf_description(d),
    ensures
        spec_tokenize(render_description(d)) == tokens_of_clauses(d.clauses),
{
    let cs = d.clauses;
    if cs.len() == 0 {
        assert(spec_tokenize(render_description(d)) =~= tokens_of_clauses(cs));
    } else {
        let rest = cs.subrange(1, cs.len() as int);
        let tail = render_clauses_tail(rest);
        assert(render_description(d) =~= render_clause(cs[0]) + (tail + Seq::<char>::empty()));
        if rest.len() > 0 {
            assert(render_clauses_tail(rest)[0] == ' ');
            assert((tail + Seq::<char>::empty())[0] == ' ');
        } else {
            assert(tail + Seq::<char>::empty() =~= Seq::<char>::empty());
        }
        lemma_tok_clause(cs[0], tail + Seq::<char>::empty());
        lemma_tok_clauses_tail(rest, Seq::<char>::empty());
        assert(spec_tokenize(Seq::<char>::empty()) =~= Seq::<SpecToken>::empty());
        assert(tokens_of_clauses(rest) + Seq::<SpecToken>::empty() =~= tokens_of_clauses(rest));
        assert(tokens_of_clauses(cs) =~= tokens_of_clause(cs[0]) + tokens_of_clauses(rest));
        assert(spec_tokenize(render_description(d)) =~= tokens_of_clauses(cs));
    }
}

// ---------------------------------------------------------------------------
// Parsing the canonical tokens rebuilds the node.
// ---------------------------------------------------------------------------

proof fn lemma_tokens_of_term_len(t: SpecTerm)
    ensures
        tokens_of_term(t).len() >= 1,
{
}

proof fn lemma_tokens_of_sentence_len(s: SpecSentence)
    ensures
        tokens_of_sentence(s).len() >= 1,
{
}

proof fn lemma_tokens_of_literal_len(l: SpecLiteral)
    ensures
        tokens_of_literal(l).len() >= 1,
{
}

proof fn lemma_tokens_of_clause_len(c: SpecClause)
    ensures
        tokens_of_clause(c).len() >= 1,
{
}

/// Parsing a term's canonical tokens yields the term back and consumes
/// exactly them.
proof fn lemma_parse_term_tok(t: SpecTerm, rest: Seq<SpecToken>)
    requires
        wf_term(t),
    ensures
        crate::parser::spec_parse_term(tokens_of_term(t) + rest) == Some((t, rest)),
    decreases t,
{
    let ts = tokens_of_term(t) + rest;
    match t {
        SpecTerm::ConstTerm(c) => {
            assert(ts[0] == SpecToken::Word(c));
            assert(ts.subrange(1, ts.len() as int) =~= rest);
        },
        SpecTerm::VarTerm(v) => {
            let w = seq!['?'] + v.name;
            assert(ts[0] == SpecToken::Word(w));
            assert(w[0] == '?');
            assert(w.subrange(1, w.len() as int) =~= v.name);
            assert(ts.subrange(1, ts.len() as int) =~= rest);
        },
        SpecTerm::FuncTerm(f) => {
            let close_rest = seq![SpecToken::Close] + rest;
            assert(ts =~= seq![SpecToken::Open, SpecToken::Word(f.name)] + (tokens_of_args(f.args)
                + close_rest));
            assert(ts[0] == SpecToken::Open);
            assert(ts[1] == SpecToken::Word(f.name));
            assert(ts.subrange(2, ts.len() as int) =~= tokens_of_args(f.args) + close_rest);
            lemma_parse_terms_tok(f.args, close_rest);
            assert(close_rest[0] == SpecToken::Close);
            assert(close_rest.subrange(1, close_rest.len() as int) =~= rest);
            assert(SpecFunction { name: f.name, args: f.args } =~= f);
        },
    }
}

/// Parsing canonical argument tokens followed by a closing parenthesis
/// yields the arguments back and stops at the parenthesis.
proof fn lemma_parse_terms_tok(args: Seq<SpecTerm>, r2: Seq<SpecToken>)
    requires
        forall|i: int| 0 <= i < args.len() ==> wf_term(#[trigger] args[i]),
        r2.len() == 0 || r2[0] == SpecToken::Close,
    ensures
        crate::parser::spec_parse_terms(tokens_of_args(args) + r2) == (args, r2),
    decreases args,
{
    let ts = tokens_of_args(args) + r2;
    if args.len() == 0 {
        assert(ts =~= r2);
        assert(args =~= Seq::<SpecTerm>::empty());
        assert(crate::parser::spec_parse_term(ts) is None);
        assert(crate::parser::spec_parse_terms(ts) == (args, r2));
    } else {
        let rest_args = args.subrange(1, args.len() as int);
        let tail = tokens_of_args(rest_args) + r2;
        assert(ts =~= tokens_of_term(args[0]) + tail);
        lemma_parse_term_tok(args[0], tail);
        assert(crate::parser::spec_parse_term(ts) == Some((args[0], tail)));
        lemma_tokens_of_term_len(args[0]);
        assert(tail.len() < ts.len());
        lemma_parse_terms_tok(rest_args, r2);
        assert(crate::parser::spec_parse_terms(tail) == (rest_args, r2));
        assert(seq![args[0]] + rest_args =~= args);
        assert(crate::parser::spec_parse_terms(ts) == (args, r2));
    }
}

/// Parsing a sentence's canonical tokens yields the sentence back.
proof fn lemma_parse_sentence_tok(st: SpecSentence, rest: Seq<SpecToken>)
    requires
        wf_sentence(st),
    ensures
        crate::parser::spec_parse_sentence(tokens_of_sentence(st) + rest) == Some((st, rest)),
{
    let ts = tokens_of_sentence(st) + rest;
    match st {
        SpecSentence::PropSentence(p) => {
            assert(ts[0] == SpecToken::Word(p.name));
            assert(ts.subrange(1, ts.len() as int) =~= rest);
        },
        SpecSentence::RelSentence(r) => {
            let close_rest = seq![SpecToken::Close] + rest;
            assert(ts =~= seq![SpecToken::Open, SpecToken::Word(r.name)] + (tokens_of_args(r.args)
                + close_rest));
            assert(ts[0] == SpecToken::Open);
            assert(ts[1] == SpecToken::Word(r.name));
            assert(ts.subrange(2, ts.len() as int) =~= tokens_of_args(r.args) + close_rest);
            lemma_parse_terms_tok(r.args, close_rest);
            assert(close_rest[0] == SpecToken::Close);
            assert(close_rest.subrange(1, close_rest.len() as int) =~= rest);
            assert(SpecRelation { name: r.name, args: r.args } =~= r);
        },
    }
}

/// Parsing a literal's canonical tokens yields the literal back.
#[verifier::rlimit(50)]
proof fn lemma_parse_literal_tok(l: SpecLiteral, rest: Seq<SpecToken>)
    requires
        wf_literal(l),
    ensures
        crate::parser::spec_parse_literal(tokens_of_literal(l) + rest) == Some((l, rest)),
    decreases l,
{
    let ts = tokens_of_literal(l) + rest;
    match l {
        SpecLiteral::PropLit(p) => {
            assert(ts[0] == SpecToken::Word(p.name));
            assert(ts.subrange(1, ts.len() as int) =~= rest);
        },
        SpecLiteral::RelLit(r) => {
            let close_rest = seq![SpecToken::Close] + rest;
            assert(ts =~= seq![SpecToken::Open, SpecToken::Word(r.name)] + (tokens_of_args(r.args)
                + close_rest));
            assert(ts[0] == SpecToken::Open);
            assert(ts[1] == SpecToken::Word(r.name));
            assert(!is_reserved(r.name));
            assert(ts.subrange(2, ts.len() as int) =~= tokens_of_args(r.args) + close_rest);
            lemma_parse_terms_tok(r.args, close_rest);
            assert(close_rest[0] == SpecToken::Close);
            assert(close_rest.subrange(1, close_rest.len() as int) =~= rest);
            assert(SpecRelation { name: r.name, args: r.args } =~= r);
        },
        SpecLiteral::NotLit(n) => {
            let close_rest = seq![SpecToken::Close] + rest;
            assert(ts =~= seq![SpecToken::Open, SpecToken::Word(kw_not())] + (tokens_of_literal(
                *n.lit,
            ) + close_rest));
            assert(ts[0] == SpecToken::Open);
            assert(ts[1] == SpecToken::Word(kw_not()));
            assert(ts.subrange(2, ts.len() as int) =~= tokens_of_literal(*n.lit) + close_rest);
            lemma_parse_literal_tok(*n.lit, close_rest);
            assert(close_rest[0] == SpecToken::Close);
            assert(close_rest.subrange(1, close_rest.len() as int) =~= rest);
            assert(SpecNot { lit: Box::new(*n.lit) } =~= n);
        },
        SpecLiteral::OrLit(o) => {
            let close_rest = seq![SpecToken::Close] + rest;
            assert(ts =~= seq![SpecToken::Open, SpecToken::Word(kw_or())] + (tokens_of_lits(o.lits)
                + close_rest));
            assert(ts[0] == SpecToken::Open);
            assert(ts[1] == SpecToken::Word(kw_or()));
            assert(kw_or() != kw_not());
            assert(ts.subrange(2, ts.len() as int) =~= tokens_of_lits(o.lits) + close_rest);
            lemma_parse_lits_tok(o.lits, close_rest);
            assert(close_rest[0] == SpecToken::Close);
            assert(close_rest.subrange(1, close_rest.len() as int) =~= rest);
            assert(SpecOr { lits: o.lits } =~= o);
        },
        SpecLiteral::DistinctLit(d) => {
            let close_rest = seq![SpecToken::Close] + rest;
            let t2_toks = tokens_of_term(d.term2) + close_rest;
            assert(ts =~= seq![SpecToken::Open, SpecToken::Word(kw_distinct())] + (tokens_of_term(
                d.term1,
            ) + t2_toks));
            assert(ts[0] == SpecToken::Open);
            assert(ts[1] == SpecToken::Word(kw_distinct()));
            assert(kw_distinct() != kw_not());
            assert(kw_distinct() != kw_or());
            assert(ts.subrange(2, ts.len() as int) =~= tokens_of_term(d.term1) + t2_toks);
            lemma_parse_term_tok(d.term1, t2_toks);
            assert(t2_toks.len() < ts.len());
            lemma_parse_term_tok(d.term2, close_rest);
            assert(close_rest[0] == SpecToken::Close);
            assert(close_rest.subrange(1, close_rest.len() as int) =~= rest);
            assert(SpecDistinct { term1: d.term1, term2: d.term2 } =~= d);
        },
    }
}

/// Parsing canonical literal tokens followed by a closing parenthesis
/// yields the literals back and stops at the parenthesis.
proof fn lemma_parse_lits_tok(lits: Seq<SpecLiteral>, r2: Seq<SpecToken>)
    requires
        forall|i: int| 0 <= i < lits.len() ==> wf_literal(#[trigger] lits[i]),
        r2.len() == 0 || r2[0] == SpecToken::Close,
    ensures
        crate::parser::spec_parse_literals(tokens_of_lits(lits) + r2) == (lits, r2),
    decreases lits,
{
    let ts = tokens_of_lits(lits) + r2;
    if lits.len() == 0 {
        assert(ts =~= r2);
        assert(lits =~= Seq::<SpecLiteral>::empty());
        assert(crate::parser::spec_parse_literal(ts) is None);
        assert(crate::parser::spec_parse_literals(ts) == (lits, r2));
    } else {
        let rest_lits = lits.subrange(1, lits.len() as int);
        let tail = tokens_of_lits(rest_lits) + r2;
        assert(ts =~= tokens_of_literal(lits[0]) + tail);
        lemma_parse_literal_tok(lits[0], tail);
        assert(crate::parser::spec_parse_literal(ts) == Some((lits[0], tail)));
        lemma_tokens_of_literal_len(lits[0]);
        assert(tail.len() < ts.len());
        lemma_parse_lits_tok(rest_lits, r2);
        assert(crate::parser::spec_parse_literals(tail) == (rest_lits, r2));
        assert(seq![lits[0]] + rest_lits =~= lits);
        assert(crate::parser::spec_parse_literals(ts) == (lits, r2));
    }
}

/// Parsing a clause's canonical tokens yields the clause back.
proof fn lemma_parse_clause_tok(c: SpecClause, rest: Seq<SpecToken>)
    requires
        wf_clause(c),
    ensures
        crate::parser::spec_parse_clause(tokens_of_clause(c) + rest) == Some((c, rest)),
{
    let ts = tokens_of_clause(c) + rest;
    match c {
        SpecClause::SentenceClause(st) => {
            lemma_parse_sentence_tok(st, rest);
            match st {
                SpecSentence::PropSentence(p) => {
                    assert(ts[0] == SpecToken::Word(p.name));
                },
                SpecSentence::RelSentence(r) => {
                    assert(ts =~= seq![SpecToken::Open, SpecToken::Word(r.name)] + (tokens_of_args(
                        r.args,
                    ) + (seq![SpecToken::Close] + rest)));
                    assert(ts[1] == SpecToken::Word(r.name));
                    assert(!is_reserved(r.name));
                    assert(ts[1] != SpecToken::Word(kw_implies()));
                },
            }
            assert(tokens_of_sentence(st) + rest =~= ts);
        },
        SpecClause::RuleClause(r) => {
            let close_rest = seq![SpecToken::Close] + rest;
            let body_toks = tokens_of_lits(r.body) + close_rest;
            assert(ts =~= seq![SpecToken::Open, SpecToken::Word(kw_implies())] + (
            tokens_of_sentence(r.head) + body_toks));
            assert(ts[0] == SpecToken::Open);
            assert(ts[1] == SpecToken::Word(kw_implies()));
            assert(ts.subrange(2, ts.len() as int) =~= tokens_of_sentence(r.head) + body_toks);
            lemma_parse_sentence_tok(r.head, body_toks);
            lemma_tokens_of_sentence_len(r.head);
            assert(body_toks.len() < ts.len());
            lemma_parse_lits_tok(r.body, close_rest);
            assert(close_rest[0] == SpecToken::Close);
            assert(close_rest.subrange(1, close_rest.len() as int) =~= rest);
            assert(SpecRule { head: r.head, body: r.body } =~= r);
        },
    }
}

/// Parsing the canonical tokens of a clause list consumes all of them and
/// yields the clauses back.
proof fn lemma_parse_clauses_tok(cs: Seq<SpecClause>)
    requires
        forall|i: int| 0 <= i < cs.len() ==> wf_clause(#[trigger] cs[i]),
    ensures
        crate::parser::spec_parse_clauses(tokens_of_clauses(cs)) == Some(cs),
    decreases cs,
{
    let ts = tokens_of_clauses(cs);
    if cs.len() == 0 {
        assert(cs =~= Seq::<SpecClause>::empty());
    } else {
        let rest_cs = cs.subrange(1, cs.len() as int);
        let tail = tokens_of_clauses(rest_cs);
        assert(ts =~= tokens_of_clause(cs[0]) + tail);
        lemma_parse_clause_tok(cs[0], tail);
        lemma_tokens_of_clause_len(cs[0]);
        assert(tail.len() < ts.len());
        lemma_parse_clauses_tok(rest_cs);
        assert(seq![cs[0]] + rest_cs =~= cs);
    }
}

// ---------------------------------------------------------------------------
// Everything the parser produces is well-formed.
// ---------------------------------------------------------------------------

proof fn lemma_parse_term_wf(ts: Seq<SpecToken>)
    ensures
        match crate::parser::spec_parse_term(ts) {
            Some(p) => wf_term(p.0) && p.1.len() < ts.len(),
            None => true,
        },
    decreases ts.len(), 0int,
{
    if ts.len() > 0 {
        match ts[0] {
            SpecToken::Open => {
                if ts.len() >= 2 {
                    match ts[1] {
                        SpecToken::Word(w) => {
                            if wf_name(w) {
                                lemma_parse_terms_wf(ts.subrange(2, ts.len() as int));
                            }
                        },
                        _ => {},
                    }
                }
            },
            _ => {},
        }
    }
}

proof fn lemma_parse_terms_wf(ts: Seq<SpecToken>)
    ensures
        crate::parser::spec_parse_terms(ts).1.len() <= ts.len(),
        forall|i: int|
            0 <= i < crate::parser::spec_parse_terms(ts).0.len() ==> wf_term(
                #[trigger] crate::parser::spec_parse_terms(ts).0[i],
            ),
    decreases ts.len(), 1int,
{
    lemma_parse_term_wf(ts);
    match crate::parser::spec_parse_term(ts) {
        Some(p) => {
            if p.1.len() < ts.len() {
                lemma_parse_terms_wf(p.1);
                let more = crate::parser::spec_parse_terms(p.1).0;
                let whole = crate::parser::spec_parse_terms(ts).0;
                assert(whole == seq![p.0] + more);
                assert forall|i: int| 0 <= i < whole.len() implies wf_term(
                    #[trigger] whole[i],
                ) by {
                    if i > 0 {
                        assert(whole[i] == more[i - 1]);
                    }
                }
            }
        },
        None => {},
    }
}

proof fn lemma_parse_sentence_wf(ts: Seq<SpecToken>)
    ensures
        match crate::parser::spec_parse_sentence(ts) {
            Some(p) => wf_sentence(p.0) && p.1.len() < ts.len(),
            None => true,
        },
    decreases ts.len(), 2int,
{
    if ts.len() > 0 {
        match ts[0] {
            SpecToken::Open => {
                if ts.len() >= 2 {
                    match ts[1] {
                        SpecToken::Word(w) => {
                            if wf_name(w) {
                                lemma_parse_terms_wf(ts.subrange(2, ts.len() as int));
                            }
                        },
                        _ => {},
                    }
                }
            },
            _ => {},
        }
    }
}

proof fn lemma_parse_literal_wf(ts: Seq<SpecToken>)
    ensures
        match crate::parser::spec_parse_literal(ts) {
            Some(p) => wf_literal(p.0) && p.1.len() < ts.len(),
            None => true,
        },
    decreases ts.len(), 3int,
{
    if ts.len() >= 2 {
        match ts[0] {
            SpecToken::Open => {
                match ts[1] {
                    SpecToken::Word(w) => {
                        let sub = ts.subrange(2, ts.len() as int);
                        if w == kw_not() {
                            lemma_parse_literal_wf(sub);
                        } else if w == kw_or() {
                            lemma_parse_lits_wf(sub);
                        } else if w == kw_distinct() {
                            lemma_parse_term_wf(sub);
                            match crate::parser::spec_parse_term(sub) {
                                Some(p1) => {
                                    if p1.1.len() < ts.len() {
                                        lemma_parse_term_wf(p1.1);
                                    }
                                },
                                None => {},
                            }
                        } else if wf_name(w) {
                            lemma_parse_terms_wf(sub);
                        }
                    },
                    _ => {},
                }
            },
            _ => {},
        }
    }
}

proof fn lemma_parse_lits_wf(ts: Seq<SpecToken>)
    ensures
        crate::parser::spec_parse_literals(ts).1.len() <= ts.len(),
        forall|i: int|
            0 <= i < crate::parser::spec_parse_literals(ts).0.len() ==> wf_literal(
                #[trigger] crate::parser::spec_parse_literals(ts).0[i],
            ),
    decreases ts.len(), 4int,
{
    lemma_parse_literal_wf(ts);
    match crate::parser::spec_parse_literal(ts) {
        Some(p) => {
            if p.1.len() < ts.len() {
                lemma_parse_lits_wf(p.1);
                let more = crate::parser::spec_parse_literals(p.1).0;
                let whole = crate::parser::spec_parse_literals(ts).0;
                assert(whole == seq![p.0] + more);
                assert forall|i: int| 0 <= i < whole.len() implies wf_literal(
                    #[trigger] whole[i],
                ) by {
                    if i > 0 {
                        assert(whole[i] == more[i - 1]);
                    }
                }
            }
        },
        None => {},
    }
}

proof fn lemma_parse_clause_wf(ts: Seq<SpecToken>)
    ensures
        match crate::parser::spec_parse_clause(ts) {
            Some(p) => wf_clause(p.0) && p.1.len() < ts.len(),
            None => true,
        },
    decreases ts.len(), 5int,
{
    if ts.len() >= 2 && ts[0] == SpecToken::Open && ts[1] == SpecToken::Word(kw_implies()) {
        let sub = ts.subrange(2, ts.len() as int);
        lemma_parse_sentence_wf(sub);
        match crate::parser::spec_parse_sentence(sub) {
            Some(p1) => {
                if p1.1.len() < ts.len() {
                    lemma_parse_lits_wf(p1.1);
                }
            },
            None => {},
        }
    } else {
        lemma_parse_sentence_wf(ts);
    }
}

proof fn lemma_parse_clauses_wf(ts: Seq<SpecToken>)
    ensures
        match crate::parser::spec_parse_clauses(ts) {
            Some(cs) => forall|i: int| 0 <= i < cs.len() ==> wf_clause(#[trigger] cs[i]),
            None => true,
        },
    decreases ts.len(), 6int,
{
    if ts.len() > 0 {
        lemma_parse_clause_wf(ts);
        match crate::parser::spec_parse_clause(ts) {
            Some(p) => {
                if p.1.len() < ts.len() {
                    lemma_parse_clauses_wf(p.1);
                    match crate::parser::spec_parse_clauses(p.1) {
                        Some(more) => {
                            let whole = seq![p.0] + more;
                            assert(crate::parser::spec_parse_clauses(ts) == Some(whole));
                            assert forall|i: int| 0 <= i < whole.len() implies wf_clause(
                                #[trigger] whole[i],
                            ) by {
                                if i > 0 {
                                    assert(whole[i] == more[i - 1]);
                                }
                            }
                        },
                        None => {},
                    }
                }
            },
            None => {},
        }
    }
}

// ---------------------------------------------------------------------------
// The laws.
// ---------------------------------------------------------------------------

/// Everything the parser accepts is well-formed: names are valid, every
/// compound term and relation has at least one argument, every
/// disjunction at least one disjunct, and every rule a non-empty body.
pub proof fn lemma_parse_sound(text: Seq<char>)
    ensures
        match crate::parser::spec_parse(text) {
            Some(d) => wf_description(d),
            None => true,
        },
{
    lemma_parse_clauses_wf(spec_tokenize(text));
}

/// Rendering a well-formed description and parsing the result yields the
/// same description: the canonical serializer is a structural inverse of
/// the parser.
pub proof fn lemma_render_parse(d: SpecDescription)
    requires
        wf_description(d),
    ensures
        crate::parser::spec_parse(render_description(d)) == Some(d),
{
    lemma_tok_description(d);
    lemma_parse_clauses_tok(d.clauses);
    assert(SpecDescription { clauses: d.clauses } =~= d);
}

/// The round-trip law: for every description obtainable from the parser,
/// parsing its rendering reproduces it exactly.
pub proof fn lemma_parse_render_roundtrip(text: Seq<char>, d: SpecDescription)
    requires
        crate::parser::spec_parse(text) == Some(d),
    ensures
        crate::parser::spec_parse(render_description(d)) == Some(d),
{
    lemma_parse_sound(text);
    lemma_render_parse(d);
}

/// Rendering is a pure function of structure: two structurally equal
/// descriptions render to identical text.  (The executable renderers are
/// proved to return exactly these functions of their argument's deep
/// view, so equal trees always print the same.)
pub proof fn lemma_render_deterministic(a: SpecDescription, b: SpecDescription)
    requires
        a == b,
    ensures
        render_description(a) == render_description(b),
{
}

} // verus!
