//! The substitutor: a single left-to-right pass over text.
//!
//! Scanning walks the text once. Wherever a shortcode token opens, the whole
//! token is consumed — replaced by its glyph when the table knows it, emitted
//! verbatim when it does not — and scanning resumes right after its closing
//! colon, so the colon that closes one token never opens the next. Every
//! other character is copied through unchanged.

use crate::pattern::has_token_at;
use crate::pattern::is_name_char;
use crate::pattern::lemma_token_close_is_close;
use crate::pattern::name_char;
use crate::pattern::token_close;
use crate::pattern::token_closes_at;
use crate::table::EmojiTable;
use vstd::prelude::*;
use vstd::string::StrSliceExecFns;
use vstd::string::StringExecFns;

verus! {

/// What a matched token turns into: the glyph when the table knows the
/// token, the token itself — delimiters included — when it does not.
pub open spec fn token_replacement(t: Map<Seq<char>, Seq<char>>, tok: Seq<char>) -> Seq<char> {
    if t.contains_key(tok) {
        t[tok]
    } else {
        tok
    }
}

/// The substituted tail of `s` from position `i` on: one pass, left to
/// right. A token opening at the current position is consumed whole and
/// scanning resumes after its closing colon; any other character is copied
/// unchanged.
pub open spec fn spec_replace_from(t: Map<Seq<char>, Seq<char>>, s: Seq<char>, i: int) -> Seq<char>
    decreases s.len() - i,
{
    if i < 0 || i >= s.len() {
        Seq::empty()
    } else if has_token_at(s, i) {
        let j = token_close(s, i);
        token_replacement(t, s.subrange(i, j + 1)) + spec_replace_from(t, s, j + 1)
    } else {
        seq![s[i]] + spec_replace_from(t, s, i + 1)
    }
}

/// The whole text `s` with every recognized shortcode replaced by its glyph
/// and everything else kept verbatim.
pub open spec fn spec_replace_all(t: Map<Seq<char>, Seq<char>>, s: Seq<char>) -> Seq<char> {
    spec_replace_from(t, s, 0)
}

/// What resolving a bare shortcode name yields: the glyph of `:name:` when
/// the table knows that token, the bare name itself when it does not.
pub open spec fn spec_resolve(t: Map<Seq<char>, Seq<char>>, name: Seq<char>) -> Seq<char> {
    let tok = seq![':'] + name + seq![':'];
    if t.contains_key(tok) {
        t[tok]
    } else {
        name
    }
}

/// Replaces every recognized shortcode of `input` with its glyph from
/// `table`, in one left-to-right pass; unrecognized tokens and all other
/// text come through verbatim. This never fails: on text without recognized
/// shortcodes the result is the input itself.
pub fn replace_all_emojis(table: &EmojiTable, input: &str) -> (out: String)
    ensures
        out@ == spec_replace_all(table@, input@),
{
    let n: usize = input.unicode_len();
    let mut out: String = String::new();
    let mut i: usize = 0;
    while i < n
        invariant
            n == input@.len(),
            i <= n,
            spec_replace_all(table@, input@) == out@ + spec_replace_from(
                table@,
                input@,
                i as int,
            ),
        decreases n - i,
    {
        let ghost out0 = out@;
        let c = input.get_char(i);
        let mut matched = false;
        if c == ':' {
            // Find the end of the run of name characters after the colon.
            let mut k: usize = i + 1;
            while k < n && name_char(input.get_char(k))
                invariant
                    n == input@.len(),
                    i + 1 <= k <= n,
                    forall|m: int| i < m < k ==> is_name_char(#[trigger] input@[m]),
                decreases n - k,
            {
                k = k + 1;
            }
            if k > i + 1 && k < n && input.get_char(k) == ':' {
                matched = true;
                proof {
                    lemma_token_close_is_close(input@, i as int, k as int);
                }
                let tok = input.substring_char(i, k + 1);
                let ghost rest = spec_replace_from(table@, input@, (k + 1) as int);
                let ghost rep = token_replacement(table@, tok@);
                proof {
                    assert(spec_replace_from(table@, input@, i as int) == rep + rest);
                }
                match table.lookup(tok) {
                    Some(glyph) => {
                        out.append(glyph.as_str());
                    },
                    None => {
                        out.append(tok);
                    },
                }
                proof {
                    assert(out@ == out0 + rep);
                    assert(out0 + (rep + rest) =~= (out0 + rep) + rest);
                }
                i = k + 1;
            } else {
                // No token opens at `i`: the run after the colon is empty,
                // runs off the end of the text, or ends at something other
                // than a colon.
                proof {
                    if has_token_at(input@, i as int) {
                        let j: int = token_close(input@, i as int);
                        assert(token_closes_at(input@, i as int, j));
                        assert(!is_name_char(':'));
                        if j < k {
                            assert(is_name_char(input@[j]));
                        }
                        if k < j {
                            assert(is_name_char(input@[k as int]));
                        }
                        assert(j == k);
                        assert(false);
                    }
                }
            }
        }
        if !matched {
            proof {
                assert(!has_token_at(input@, i as int)) by {
                    if has_token_at(input@, i as int) {
                        let j: int = token_close(input@, i as int);
                        assert(token_closes_at(input@, i as int, j));
                        assert(input@[i as int] == ':');
                        assert(false);
                    }
                }
            }
            let piece = input.substring_char(i, i + 1);
            out.append(piece);
            proof {
                assert(piece@ =~= seq![input@[i as int]]);
                let rest1 = spec_replace_from(table@, input@, i + 1);
                assert(out0 + (piece@ + rest1) =~= (out0 + piece@) + rest1);
            }
            i = i + 1;
        }
    }
    out
}

/// Resolves one bare shortcode name, written without the delimiters:
/// the glyph of `:name:` when the table knows that token, the bare name
/// itself — unchanged, still without delimiters — when it does not.
pub fn emoji(table: &EmojiTable, name: &str) -> (out: String)
    ensures
        out@ == spec_resolve(table@, name@),
{
    let mut tok: String = String::from_str(":");
    tok.append(name);
    tok.append(":");
    proof {
        reveal_strlit(":");
        assert(":"@ =~= seq![':']);
        assert(tok@ =~= seq![':'] + name@ + seq![':']);
    }
    match table.lookup(tok.as_str()) {
        Some(glyph) => glyph.clone(),
        None => name.to_owned(),
    }
}

/// A deferred substitution of the wrapped text: nothing is scanned or
/// copied until [`EmojiFormatter::render`] is called, which then performs
/// the same single pass as [`replace_all_emojis`].
pub struct EmojiFormatter<'a>(pub &'a str);

impl<'a> EmojiFormatter<'a> {
    /// Renders the wrapped text, replacing every recognized shortcode with
    /// its glyph from `table`: exactly [`replace_all_emojis`] on the text.
    pub fn render(&self, table: &EmojiTable) -> (out: String)
        ensures
            out@ == spec_replace_all(table@, self.0@),
    {
        replace_all_emojis(table, self.0)
    }
}

} // verus!
