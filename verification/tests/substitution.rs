use emojicons::emoji;
use emojicons::replace_all_emojis;
use emojicons::EmojiFormatter;
use emojicons::EmojiTable;

fn table() -> EmojiTable {
    EmojiTable::from_pairs(vec![
        (String::from(":cat:"), String::from("\u{1F431}")),
        (String::from(":dog:"), String::from("\u{1F436}")),
        (String::from(":+1:"), String::from("\u{1F44D}")),
    ])
}

#[test]
fn no_token_text_unchanged() {
    let t = table();
    assert_eq!(replace_all_emojis(&t, "hello world"), "hello world");
    assert_eq!(replace_all_emojis(&t, ""), "");
    assert_eq!(replace_all_emojis(&t, "a:b"), "a:b");
    assert_eq!(replace_all_emojis(&t, ":"), ":");
}

#[test]
fn known_substitution() {
    let t = table();
    assert_eq!(replace_all_emojis(&t, ":cat:"), "\u{1F431}");
    assert_eq!(replace_all_emojis(&t, ":dog:"), "\u{1F436}");
}

#[test]
fn unknown_code_passthrough() {
    let t = table();
    assert_eq!(
        replace_all_emojis(&t, ":totally_not_a_real_code:"),
        ":totally_not_a_real_code:"
    );
}

#[test]
fn empty_name_not_a_token() {
    let t = table();
    assert_eq!(replace_all_emojis(&t, "::"), "::");
    assert_eq!(replace_all_emojis(&t, ":::"), ":::");
}

#[test]
fn mixed_text() {
    let t = table();
    assert_eq!(
        replace_all_emojis(&t, "I love :cat: and :dog:!"),
        "I love \u{1F431} and \u{1F436}!"
    );
}

#[test]
fn adjacent_tokens() {
    let t = table();
    assert_eq!(replace_all_emojis(&t, ":cat::dog:"), "\u{1F431}\u{1F436}");
}

#[test]
fn single_token_resolve_equivalence() {
    let t = table();
    assert_eq!(emoji(&t, "cat"), "\u{1F431}");
    assert_eq!(emoji(&t, "cat"), replace_all_emojis(&t, ":cat:"));
    assert_eq!(emoji(&t, "zzz"), "zzz");
}

#[test]
fn formatter_renders_like_replace_all() {
    let t = table();
    let text = "look, a :cat:";
    assert_eq!(EmojiFormatter(text).render(&t), replace_all_emojis(&t, text));
    assert_eq!(EmojiFormatter(":dog:").render(&t), "\u{1F436}");
}

#[test]
fn plus_digit_name_characters() {
    let t = table();
    assert_eq!(replace_all_emojis(&t, "ok :+1:"), "ok \u{1F44D}");
    assert_eq!(replace_all_emojis(&t, ":a_b-2:"), ":a_b-2:");
}

#[test]
fn unterminated_token_unchanged() {
    let t = table();
    assert_eq!(replace_all_emojis(&t, ":cat"), ":cat");
    assert_eq!(replace_all_emojis(&t, "cat:"), "cat:");
    assert_eq!(replace_all_emojis(&t, ":cat :dog:"), ":cat \u{1F436}");
}

#[test]
fn matches_do_not_overlap() {
    // ":a:" is consumed first (and passed through, being unknown), so the
    // colon closing it cannot also open a ":b:" token, known or not.
    let t = EmojiTable::from_pairs(vec![(String::from(":b:"), String::from("B"))]);
    assert_eq!(replace_all_emojis(&t, ":a:b:"), ":a:b:");
    assert_eq!(replace_all_emojis(&t, "x:a:b:"), "x:a:b:");
}

#[test]
fn non_ascii_text_passes_through() {
    let t = table();
    assert_eq!(replace_all_emojis(&t, "caf\u{e9} :cat:"), "caf\u{e9} \u{1F431}");
    assert_eq!(replace_all_emojis(&t, ":ch\u{e0}t:"), ":ch\u{e0}t:");
}

#[test]
fn lookup_present_and_absent() {
    let t = table();
    assert_eq!(t.lookup(":cat:"), Some(&String::from("\u{1F431}")));
    assert_eq!(t.lookup(":ox:"), None);
    assert_eq!(t.lookup("cat"), None);
    assert_eq!(t.len(), 3);
}

#[test]
fn later_pair_supersedes_earlier() {
    let t = EmojiTable::from_pairs(vec![
        (String::from(":cat:"), String::from("first")),
        (String::from(":cat:"), String::from("second")),
    ]);
    assert_eq!(replace_all_emojis(&t, ":cat:"), "second");
    assert_eq!(t.len(), 1);
}
