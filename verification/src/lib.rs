//! Emoji shortcode substitution.
//!
//! Text may carry shortcodes such as `:cat:` — a colon, one or more name
//! characters, and a closing colon. Given an immutable table of
//! shortcode-to-glyph pairs, the library scans text left to right, replaces
//! every recognized shortcode with its glyph, and passes everything else
//! through unchanged.

mod laws;
mod pattern;
mod subst;
mod table;

pub use laws::lemma_adjacent_tokens;
pub use laws::lemma_known_substitution;
pub use laws::lemma_replace_all_colon_free_prefix;
pub use laws::lemma_replace_all_no_token;
pub use laws::lemma_replace_all_single_token;
pub use laws::lemma_replace_all_token_prefix;
pub use laws::lemma_resolve_matches_replace_all;
pub use laws::lemma_unknown_passthrough;
pub use pattern::has_token_at;
pub use pattern::is_name_char;
pub use pattern::name_char;
pub use pattern::token_close;
pub use pattern::token_closes_at;
pub use subst::replace_all_emojis;
pub use subst::spec_replace_all;
pub use subst::spec_replace_from;
pub use subst::spec_resolve;
pub use subst::emoji;
pub use subst::token_replacement;
pub use subst::EmojiFormatter;
pub use table::spec_table_of;
pub use table::EmojiTable;
