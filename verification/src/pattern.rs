//! The shortcode pattern: what counts as a token in a piece of text.
//!
//! A token is a colon, one or more name characters (ASCII letters, digits,
//! underscore, plus, hyphen), and a closing colon. Because a colon is not a
//! name character, the closing colon of a token starting at a given position
//! is uniquely determined.

use vstd::prelude::*;

verus! {

/// A character that may appear between the two colons of a shortcode:
/// an ASCII letter, an ASCII digit, `_`, `+` or `-`.
pub open spec fn is_name_char(c: char) -> bool {
    ||| ('a' as u32) <= (c as u32) && (c as u32) <= ('z' as u32)
    ||| ('A' as u32) <= (c as u32) && (c as u32) <= ('Z' as u32)
    ||| ('0' as u32) <= (c as u32) && (c as u32) <= ('9' as u32)
    ||| c == '_'
    ||| c == '+'
    ||| c == '-'
}

/// Executable test for [`is_name_char`].
pub fn name_char(c: char) -> (r: bool)
    ensures
        r == is_name_char(c),
{
    let u: u32 = c as u32;
    (97 <= u && u <= 122) || (65 <= u && u <= 90) || (48 <= u && u <= 57) || u == 95 || u == 43
        || u == 45
}

/// A token opens at `i` and its closing colon stands at `j`: `s[i]` and
/// `s[j]` are colons and everything strictly between them is a nonempty run
/// of name characters.
pub open spec fn token_closes_at(s: Seq<char>, i: int, j: int) -> bool {
    &&& 0 <= i
    &&& i + 2 <= j < s.len()
    &&& s[i] == ':'
    &&& s[j] == ':'
    &&& forall|m: int| i < m < j ==> is_name_char(#[trigger] s[m])
}

/// Some token opens at position `i` of `s`.
pub open spec fn has_token_at(s: Seq<char>, i: int) -> bool {
    exists|j: int| token_closes_at(s, i, j)
}

/// The position of the closing colon of the token opening at `i`.
pub open spec fn token_close(s: Seq<char>, i: int) -> int {
    choose|j: int| token_closes_at(s, i, j)
}

/// A colon is not a name character, so a token's closing position is unique.
pub proof fn lemma_token_close_unique(s: Seq<char>, i: int, j1: int, j2: int)
    requires
        token_closes_at(s, i, j1),
        token_closes_at(s, i, j2),
    ensures
        j1 == j2,
{
    assert(!is_name_char(':'));
    if j1 < j2 {
        assert(is_name_char(s[j1]));
    }
    if j2 < j1 {
        assert(is_name_char(s[j2]));
    }
}

/// The token opening at `i` closes exactly at [`token_close`].
pub proof fn lemma_token_close_is_close(s: Seq<char>, i: int, j: int)
    requires
        token_closes_at(s, i, j),
    ensures
        has_token_at(s, i),
        token_close(s, i) == j,
{
    let jc = token_close(s, i);
    lemma_token_close_unique(s, i, jc, j);
}

} // verus!
