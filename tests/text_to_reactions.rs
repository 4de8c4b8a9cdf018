use reactinator::text_to_reactions::{
    alternatives, char_to_emoji_names, emoji_name_to_emoji, lowercase_text_to_emojis, text_to_emojis,
};

/// Basic test of alternatives.
#[test]
fn text_to_emojis_01() {
    assert_eq!(text_to_emojis("a").unwrap(), "\u{1F1E6}");
    assert_eq!(text_to_emojis("aa").unwrap(), "\u{1F1E6} \u{1F170}\u{FE0F}");
    assert_eq!(text_to_emojis("aaa").unwrap(), "\u{1F1E6} \u{1F170}\u{FE0F} 4\u{FE0F}\u{20E3}");
    assert_eq!(text_to_emojis("aaaa"), None);
}

/// Test all the characters, does not test the alternatives.
#[test]
fn text_to_emojis_02() {
    let mut char_to_emoji = (0..=0x10FFFFu32)
        .filter_map(char::from_u32)
        .map(|ch| (ch, char_to_emoji_names(ch)))
        .filter(|(_, names)| !names.is_empty())
        .collect::<Vec<_>>();

    char_to_emoji.sort_by_key(|(key, _)| *key);

    let char_string = char_to_emoji
        .iter()
        .flat_map(|(ch, emojis)| vec![*ch; emojis.len()])
        .collect::<String>();
    let emoji_string = char_to_emoji
        .iter()
        .flat_map(|(_, emoji_names)| emoji_names.iter())
        .map(|emoji_name| emoji_name_to_emoji(emoji_name).unwrap())
        .collect::<Vec<_>>()
        .join(" ");

    assert_eq!(text_to_emojis(&char_string).unwrap(), emoji_string);
}

#[test]
fn every_mapped_name_has_a_glyph() {
    let mut mapped = 0;
    for ch in (0..=0x10FFFFu32).filter_map(char::from_u32) {
        for name in char_to_emoji_names(ch) {
            assert!(emoji_name_to_emoji(name).is_some(), "{} has no glyph", name);
            mapped += 1;
        }
    }
    assert_eq!(mapped, 43);
}

#[test]
fn alternatives_of_chars_with_names_left_out() {
    assert_eq!(alternatives('i'), vec!['1', '!']);
    assert_eq!(alternatives('s'), vec!['5', '$', 'z']);
    assert!(alternatives('q').is_empty());
    assert!(char_to_emoji_names('!').is_empty());
}

#[test]
fn conversion_skips_whitespace_and_lowers_case() {
    assert_eq!(text_to_emojis("A a"), text_to_emojis("aa"));
    assert_eq!(text_to_emojis(" \t\n"), Some(String::new()));
    assert_eq!(text_to_emojis(""), Some(String::new()));
    assert_eq!(lowercase_text_to_emojis("A"), None);
}

#[test]
fn conversion_fails_on_characters_without_emoji() {
    assert_eq!(text_to_emojis("a?"), None);
    assert_eq!(text_to_emojis("0"), Some(emoji_name_to_emoji(":zero:").unwrap().to_string()));
    assert_eq!(text_to_emojis("00"), None);
}

#[test]
fn conversion_uses_first_alternative_with_room() {
    let one = emoji_name_to_emoji(":one:").unwrap();
    let i = emoji_name_to_emoji(":regional_indicator_i:").unwrap();
    let info = emoji_name_to_emoji(":information_source:").unwrap();
    assert_eq!(text_to_emojis("iii").unwrap(), format!("{} {} {}", i, info, one));
    assert_eq!(text_to_emojis("iiii"), None);
    let s = emoji_name_to_emoji(":regional_indicator_s:").unwrap();
    let five = emoji_name_to_emoji(":five:").unwrap();
    let z = emoji_name_to_emoji(":regional_indicator_z:").unwrap();
    assert_eq!(text_to_emojis("sss").unwrap(), format!("{} {} {}", s, five, z));
    assert_eq!(text_to_emojis("4a").unwrap().split(' ').count(), 2);
    assert_eq!(text_to_emojis("aaa4"), None);
}

#[test]
fn overflow_skips_substitutes_without_names() {
    assert_eq!(text_to_emojis("sss").unwrap(), "\u{1F1F8} 5\u{FE0F}\u{20E3} \u{1F1FF}");
    assert_eq!(text_to_emojis("ooo").unwrap(), "\u{1F1F4} \u{2B55} \u{1F17E}\u{FE0F}");
}
