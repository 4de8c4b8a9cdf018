use reactinator::context::{listing_line, CustomEmoji, GuildEmojis, LastMessages, chunk_lines};
use reactinator::commands::ListCustomEmojis;

fn emoji(name: &str, id: u64) -> CustomEmoji {
    CustomEmoji { name: name.to_string(), id, animated: false }
}

#[test]
fn last_messages_ignore_the_bot() {
    let mut last = LastMessages::new();
    assert_eq!(last.last(1), None);
    last.record(1, 100, 5, 9);
    last.record(1, 101, 9, 9);
    assert_eq!(last.last(1), Some(100));
    last.record(1, 102, 6, 9);
    assert_eq!(last.last(1), Some(102));
}

#[test]
fn guild_emojis_replace_by_name() {
    let mut emojis = GuildEmojis::new();
    assert!(emojis.emojis_of(3).is_none());
    emojis.extend(3, vec![emoji("a", 1), emoji("b", 2)]);
    emojis.extend(3, vec![emoji("a", 7), emoji("c", 3)]);
    let ids: Vec<u64> = emojis.emojis_of(3).unwrap().iter().map(|e| e.id).collect();
    assert_eq!(ids, vec![7, 2, 3]);
}

#[test]
fn listing_line_format() {
    assert_eq!(listing_line(&emoji("blob", 12)), "<:blob:12> - `:blob:`");
    let animated = CustomEmoji { name: "dance".to_string(), id: 3, animated: true };
    assert_eq!(listing_line(&animated), "<a:dance:3> - `:dance:`");
}

#[test]
fn no_custom_emojis_reply() {
    assert_eq!(ListCustomEmojis::responses(None), vec!["No custom emojis"]);
    assert_eq!(ListCustomEmojis::responses(Some(&vec![])), vec!["No custom emojis"]);
    assert_eq!(
        ListCustomEmojis::responses(Some(&vec![emoji("a", 1), emoji("b", 2)])),
        vec!["<:a:1> - `:a:`\n<:b:2> - `:b:`"]
    );
}

#[test]
fn long_listing_splits_into_replies() {
    let emojis: Vec<CustomEmoji> = (0..200).map(|i| emoji(&format!("emoji_number_{}", i), 1_000_000 + i)).collect();
    let lines: Vec<String> = emojis.iter().map(listing_line).collect();
    assert!(lines.join("\n").chars().count() > 2000);
    let replies = ListCustomEmojis::responses(Some(&emojis));
    assert!(replies.len() >= 2);
    for reply in &replies {
        assert!(reply.chars().count() < 2000);
    }
    let rejoined: Vec<String> = replies.iter().flat_map(|r| r.split('\n').map(|s| s.to_string())).collect();
    assert_eq!(rejoined, lines);
}

#[test]
fn chunks_fill_up_to_the_ceiling() {
    let line = "x".repeat(999);
    let chunks = chunk_lines(&vec![line.clone(), line.clone(), line.clone()]);
    assert_eq!(chunks.len(), 2);
    assert_eq!(chunks[0].chars().count(), 1999);
    let long = "y".repeat(2500);
    let chunks = chunk_lines(&vec!["a".to_string(), long.clone(), "b".to_string()]);
    assert_eq!(chunks, vec!["a".to_string(), long, "b".to_string()]);
}
