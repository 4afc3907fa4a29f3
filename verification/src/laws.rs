//! Laws of the substitutor, proved once and for all: substitution is the
//! identity on text without tokens, a lone known token becomes exactly its
//! glyph, a lone unknown token passes through unchanged, and resolving a
//! bare name agrees with substituting its delimited token.

use crate::pattern::has_token_at;
use crate::pattern::is_name_char;
use crate::pattern::lemma_token_close_is_close;
use crate::pattern::token_close;
use crate::pattern::token_closes_at;
use crate::subst::spec_replace_all;
use crate::subst::spec_replace_from;
use crate::subst::spec_resolve;
use crate::subst::token_replacement;
use vstd::prelude::*;

verus! {

proof fn lemma_replace_from_no_token(t: Map<Seq<char>, Seq<char>>, s: Seq<char>, i: int)
    requires
        0 <= i <= s.len(),
        forall|p: int| 0 <= p < s.len() ==> !has_token_at(s, p),
    ensures
        spec_replace_from(t, s, i) == s.subrange(i, s.len() as int),
    decreases s.len() - i,
{
    if i == s.len() {
        assert(s.subrange(i, s.len() as int) =~= Seq::<char>::empty());
    } else {
        lemma_replace_from_no_token(t, s, i + 1);
        assert(seq![s[i]] + s.subrange(i + 1, s.len() as int) =~= s.subrange(i, s.len() as int));
    }
}

/// Substitution is the identity on text in which no token opens anywhere:
/// with nothing to match, every character is copied through verbatim.
pub proof fn lemma_replace_all_no_token(t: Map<Seq<char>, Seq<char>>, s: Seq<char>)
    requires
        forall|p: int| 0 <= p < s.len() ==> !has_token_at(s, p),
    ensures
        spec_replace_all(t, s) == s,
{
    lemma_replace_from_no_token(t, s, 0);
    assert(s.subrange(0, s.len() as int) =~= s);
}

/// Text that is one whole token becomes exactly that token's replacement:
/// the glyph when the table knows the token, the token itself when not.
pub proof fn lemma_replace_all_single_token(t: Map<Seq<char>, Seq<char>>, tok: Seq<char>)
    requires
        token_closes_at(tok, 0, tok.len() - 1),
    ensures
        spec_replace_all(t, tok) == token_replacement(t, tok),
{
    lemma_token_close_is_close(tok, 0, tok.len() - 1);
    assert(tok.subrange(0, (tok.len() - 1) + 1) =~= tok);
    assert(spec_replace_from(t, tok, tok.len() as int) == Seq::<char>::empty());
    assert(token_replacement(t, tok) + Seq::<char>::empty() =~= token_replacement(t, tok));
}

proof fn lemma_delimited_name_is_token(name: Seq<char>)
    requires
        name.len() >= 1,
        forall|m: int| 0 <= m < name.len() ==> is_name_char(#[trigger] name[m]),
    ensures
        token_closes_at(seq![':'] + name + seq![':'], 0, name.len() + 1 as int),
{
    let tok = seq![':'] + name + seq![':'];
    assert(tok[0] == ':');
    assert(tok[name.len() + 1 as int] == ':');
    assert forall|m: int| 0 < m < name.len() + 1 implies is_name_char(#[trigger] tok[m]) by {
        assert(tok[m] == name[m - 1]);
    }
}

/// For a table entry whose key is a well-formed token `:name:`, substituting
/// exactly that token yields exactly the entry's glyph.
pub proof fn lemma_known_substitution(t: Map<Seq<char>, Seq<char>>, name: Seq<char>)
    requires
        name.len() >= 1,
        forall|m: int| 0 <= m < name.len() ==> is_name_char(#[trigger] name[m]),
        t.contains_key(seq![':'] + name + seq![':']),
    ensures
        spec_replace_all(t, seq![':'] + name + seq![':']) == t[seq![':'] + name + seq![':']],
{
    lemma_delimited_name_is_token(name);
    lemma_replace_all_single_token(t, seq![':'] + name + seq![':']);
}

/// A well-formed token `:name:` that the table does not know passes through
/// substitution unchanged, delimiters and all.
pub proof fn lemma_unknown_passthrough(t: Map<Seq<char>, Seq<char>>, name: Seq<char>)
    requires
        name.len() >= 1,
        forall|m: int| 0 <= m < name.len() ==> is_name_char(#[trigger] name[m]),
        !t.contains_key(seq![':'] + name + seq![':']),
    ensures
        spec_replace_all(t, seq![':'] + name + seq![':']) == seq![':'] + name + seq![':'],
{
    lemma_delimited_name_is_token(name);
    lemma_replace_all_single_token(t, seq![':'] + name + seq![':']);
}

proof fn lemma_token_closes_shift(u: Seq<char>, v: Seq<char>, i: int, j: int)
    requires
        0 <= i,
    ensures
        token_closes_at(v, i, j) == token_closes_at(u + v, u.len() + i, u.len() + j),
{
    let s = u + v;
    if token_closes_at(v, i, j) {
        assert(s[u.len() + i] == v[i]);
        assert(s[u.len() + j] == v[j]);
        assert forall|m: int| u.len() + i < m < u.len() + j implies is_name_char(
            #[trigger] s[m],
        ) by {
            assert(s[m] == v[m - u.len()]);
        }
        assert(token_closes_at(s, u.len() + i, u.len() + j));
    }
    if token_closes_at(s, u.len() + i, u.len() + j) {
        assert(v[i] == s[u.len() + i]);
        assert(v[j] == s[u.len() + j]);
        assert forall|m: int| i < m < j implies is_name_char(#[trigger] v[m]) by {
            assert(v[m] == s[u.len() + m]);
        }
        assert(token_closes_at(v, i, j));
    }
}

proof fn lemma_replace_from_shift(t: Map<Seq<char>, Seq<char>>, u: Seq<char>, v: Seq<char>, i: int)
    requires
        0 <= i <= v.len(),
    ensures
        spec_replace_from(t, u + v, u.len() + i) == spec_replace_from(t, v, i),
    decreases v.len() - i,
{
    let s = u + v;
    if i == v.len() {
        assert(spec_replace_from(t, s, u.len() + i) == Seq::<char>::empty());
    } else {
        let p = u.len() + i;
        if has_token_at(v, i) {
            let j: int = token_close(v, i);
            assert(token_closes_at(v, i, j));
            lemma_token_closes_shift(u, v, i, j);
            lemma_token_close_is_close(s, p, u.len() + j);
            assert(s.subrange(p, u.len() + j + 1) =~= v.subrange(i, j + 1));
            lemma_replace_from_shift(t, u, v, j + 1);
        } else {
            assert(!has_token_at(s, p)) by {
                if has_token_at(s, p) {
                    let jj: int = token_close(s, p);
                    assert(token_closes_at(s, p, jj));
                    lemma_token_closes_shift(u, v, i, jj - u.len());
                    assert(token_closes_at(v, i, jj - u.len()));
                    assert(false);
                }
            }
            assert(s[p] == v[i]);
            lemma_replace_from_shift(t, u, v, i + 1);
        }
    }
}

/// A well-formed token standing at the very front of a text is matched
/// there and consumed whole: what follows it is substituted independently,
/// so the colon closing the token cannot serve any later match.
pub proof fn lemma_replace_all_token_prefix(
    t: Map<Seq<char>, Seq<char>>,
    tok: Seq<char>,
    rest: Seq<char>,
)
    requires
        token_closes_at(tok, 0, tok.len() - 1),
    ensures
        spec_replace_all(t, tok + rest) == token_replacement(t, tok) + spec_replace_all(t, rest),
{
    let s = tok + rest;
    assert(s[0] == tok[0]);
    assert(s[tok.len() - 1] == tok[tok.len() - 1]);
    assert forall|m: int| 0 < m < tok.len() - 1 implies is_name_char(#[trigger] s[m]) by {
        assert(s[m] == tok[m]);
    }
    lemma_token_close_is_close(s, 0, tok.len() - 1);
    assert(s.subrange(0, tok.len() as int) =~= tok);
    lemma_replace_from_shift(t, tok, rest, 0);
}

/// Two adjacent well-formed tokens are replaced independently: the colon
/// that closes the first is not also the opener of the second.
pub proof fn lemma_adjacent_tokens(
    t: Map<Seq<char>, Seq<char>>,
    tok1: Seq<char>,
    tok2: Seq<char>,
)
    requires
        token_closes_at(tok1, 0, tok1.len() - 1),
        token_closes_at(tok2, 0, tok2.len() - 1),
    ensures
        spec_replace_all(t, tok1 + tok2) == token_replacement(t, tok1) + token_replacement(
            t,
            tok2,
        ),
{
    lemma_replace_all_token_prefix(t, tok1, tok2);
    lemma_replace_all_single_token(t, tok2);
}

proof fn lemma_replace_from_colon_free_prefix(
    t: Map<Seq<char>, Seq<char>>,
    pre: Seq<char>,
    rest: Seq<char>,
    i: int,
)
    requires
        0 <= i <= pre.len(),
        forall|p: int| 0 <= p < pre.len() ==> #[trigger] pre[p] != ':',
    ensures
        spec_replace_from(t, pre + rest, i) == pre.subrange(i, pre.len() as int)
            + spec_replace_from(t, rest, 0),
    decreases pre.len() - i,
{
    let s = pre + rest;
    if i == pre.len() {
        lemma_replace_from_shift(t, pre, rest, 0);
        assert(pre.subrange(i, pre.len() as int) =~= Seq::<char>::empty());
        assert(Seq::<char>::empty() + spec_replace_from(t, rest, 0) =~= spec_replace_from(
            t,
            rest,
            0,
        ));
    } else {
        assert(s[i] == pre[i]);
        assert(!has_token_at(s, i)) by {
            if has_token_at(s, i) {
                let j: int = token_close(s, i);
                assert(token_closes_at(s, i, j));
                assert(s[i] == ':');
                assert(false);
            }
        }
        lemma_replace_from_colon_free_prefix(t, pre, rest, i + 1);
        assert(seq![s[i]] + (pre.subrange(i + 1, pre.len() as int) + spec_replace_from(t, rest, 0))
            =~= pre.subrange(i, pre.len() as int) + spec_replace_from(t, rest, 0));
    }
}

/// Text before any possible match is copied verbatim: a prefix without a
/// single colon cannot open or be part of a token, so substitution leaves
/// it untouched and works on the remainder alone.
pub proof fn lemma_replace_all_colon_free_prefix(
    t: Map<Seq<char>, Seq<char>>,
    pre: Seq<char>,
    rest: Seq<char>,
)
    requires
        forall|p: int| 0 <= p < pre.len() ==> #[trigger] pre[p] != ':',
    ensures
        spec_replace_all(t, pre + rest) == pre + spec_replace_all(t, rest),
{
    lemma_replace_from_colon_free_prefix(t, pre, rest, 0);
    assert(pre.subrange(0, pre.len() as int) =~= pre);
}

/// Resolving a bare name agrees with substituting its delimited token: for
/// a known name both yield the glyph; for an unknown name the resolver
/// yields the bare name itself.
pub proof fn lemma_resolve_matches_replace_all(t: Map<Seq<char>, Seq<char>>, name: Seq<char>)
    requires
        name.len() >= 1,
        forall|m: int| 0 <= m < name.len() ==> is_name_char(#[trigger] name[m]),
    ensures
        t.contains_key(seq![':'] + name + seq![':']) ==> spec_resolve(t, name) == spec_replace_all(
            t,
            seq![':'] + name + seq![':'],
        ),
        !t.contains_key(seq![':'] + name + seq![':']) ==> spec_resolve(t, name) == name,
{
    if t.contains_key(seq![':'] + name + seq![':']) {
        lemma_known_substitution(t, name);
    }
}

} // verus!
