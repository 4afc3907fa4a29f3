//! The emoji table: an immutable mapping from shortcode to glyph.
//!
//! Keys are full shortcode tokens, delimiters included (`":cat:"`); values
//! are the glyph strings they resolve to. The table is assembled once from a
//! list of pairs and exposes lookups only, so it can never be observed in a
//! partially built or mutated state.

use vstd::prelude::*;

verus! {

/// The mapping a list of shortcode-to-glyph pairs denotes: pairs are taken
/// in order, a later pair with the same shortcode superseding an earlier one.
pub open spec fn spec_table_of(pairs: Seq<(String, String)>) -> Map<Seq<char>, Seq<char>>
    decreases pairs.len(),
{
    if pairs.len() == 0 {
        Map::empty()
    } else {
        spec_table_of(pairs.drop_last()).insert(pairs.last().0@, pairs.last().1@)
    }
}

/// An immutable table of shortcode-to-glyph pairs.
///
/// Viewed as a map from the shortcode's characters (delimiters included) to
/// the glyph's characters. Built once by [`EmojiTable::from_pairs`]; no
/// mutating operation is exposed afterwards.
pub struct EmojiTable {
    map: vstd::hash_map::StringHashMap<String>,
}

impl View for EmojiTable {
    type V = Map<Seq<char>, Seq<char>>;

    closed spec fn view(&self) -> Map<Seq<char>, Seq<char>> {
        self.map@.map_values(|g: String| g@)
    }
}

impl EmojiTable {
    /// Builds the table from a list of shortcode-to-glyph pairs, the
    /// shortcodes written in full (`":cat:"`). A later pair with the same
    /// shortcode supersedes an earlier one.
    pub fn from_pairs(pairs: Vec<(String, String)>) -> (table: EmojiTable)
        ensures
            table@ == spec_table_of(pairs@),
    {
        let n: usize = pairs.len();
        let mut table = EmojiTable { map: vstd::hash_map::StringHashMap::new() };
        assert(table@ =~= spec_table_of(pairs@.take(0)));
        let mut i: usize = 0;
        while i < n
            invariant
                n == pairs.len(),
                i <= n,
                table@ == spec_table_of(pairs@.take(i as int)),
            decreases n - i,
        {
            let pair = &pairs[i];
            let code = pair.0.clone();
            let glyph = pair.1.clone();
            let ghost before = table@;
            table.map.insert(code, glyph);
            proof {
                assert(pairs@.take(i + 1).drop_last() =~= pairs@.take(i as int));
                assert(pairs@.take(i + 1).last() == pairs@[i as int]);
                assert(table@ =~= before.insert(pairs@[i as int].0@, pairs@[i as int].1@));
            }
            i = i + 1;
        }
        assert(pairs@.take(n as int) =~= pairs@);
        table
    }

    /// Looks the given token (delimiters included) up in the table: the
    /// glyph when the token is a key of the table, `None` when it is not.
    /// Absence is an ordinary outcome, not a failure.
    pub fn lookup<'a>(&'a self, token: &str) -> (glyph: Option<&'a String>)
        ensures
            match glyph {
                Some(g) => self@.contains_key(token@) && g@ == self@[token@],
                None => !self@.contains_key(token@),
            },
    {
        self.map.get(token)
    }

    /// The number of shortcodes the table holds.
    pub fn len(&self) -> (n: usize)
        ensures
            n == self@.len(),
    {
        proof {
            assert(self.map@.dom() =~= self@.dom());
        }
        self.map.len()
    }
}

} // verus!
