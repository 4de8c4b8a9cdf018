use reactinator::reaction::Reaction;
use reactinator::tracker::{removal_notice, BotAddedReactions, ReactionTracker, TimeoutAction};

fn set_of(emoji: &[&str]) -> BotAddedReactions {
    let mut set = BotAddedReactions::new(10, 20, 30, 0);
    for e in emoji {
        set.insert(Reaction::Unicode(e.to_string()));
    }
    set
}

#[test]
fn insert_collapses_duplicates() {
    let set = set_of(&["😀", "🎉", "😀"]);
    assert_eq!(set.len(), 2);
}

#[test]
fn confirmed_set_times_out_quietly() {
    let mut tracker = ReactionTracker::new();
    let id = tracker.track(1, set_of(&["😀", "🎉"])).unwrap();
    assert!(tracker.confirm(1, 10, 20, 30, &Reaction::Unicode("😀".to_string())));
    assert_eq!(tracker.len(), 1);
    assert!(tracker.confirm(1, 10, 20, 30, &Reaction::Unicode("🎉".to_string())));
    assert_eq!(tracker.len(), 0);
    assert!(!tracker.confirm(1, 10, 20, 30, &Reaction::Unicode("🎉".to_string())));
    assert!(tracker.time_out(id).is_empty());
}

#[test]
fn untouched_set_times_out_fully() {
    let mut tracker = ReactionTracker::new();
    let id = tracker.track(1, set_of(&["😀", "<:party:42>"])).unwrap();
    let actions = tracker.time_out(id);
    assert_eq!(actions.len(), 3);
    match &actions[0] {
        TimeoutAction::RemoveReaction { channel_id, message_id, reaction } => {
            assert_eq!((*channel_id, *message_id), (10, 20));
            assert_eq!(reaction.to_text(), "😀");
        }
        other => panic!("unexpected {:?}", other),
    }
    match &actions[1] {
        TimeoutAction::RemoveReaction { reaction, .. } => assert_eq!(reaction.to_text(), "<:party:42>"),
        other => panic!("unexpected {:?}", other),
    }
    match &actions[2] {
        TimeoutAction::NotifyUser { user_id, message } => {
            assert_eq!(*user_id, 30);
            assert_eq!(
                message,
                "Removed reactions \"😀, <:party:42>\" for message `20` since you did **not** react within 10 seconds."
            );
        }
        other => panic!("unexpected {:?}", other),
    }
    assert_eq!(tracker.len(), 0);
    assert!(tracker.time_out(id).is_empty());
}

#[test]
fn partly_confirmed_set_times_out_with_the_rest() {
    let mut tracker = ReactionTracker::new();
    let id = tracker.track(1, set_of(&["😀", "🎉"])).unwrap();
    assert!(!tracker.confirm(1, 10, 20, 31, &Reaction::Unicode("😀".to_string())));
    assert!(!tracker.confirm(2, 10, 20, 30, &Reaction::Unicode("😀".to_string())));
    assert!(tracker.confirm(1, 10, 20, 30, &Reaction::Unicode("😀".to_string())));
    let actions = tracker.time_out(id);
    assert_eq!(actions.len(), 2);
    match &actions[0] {
        TimeoutAction::RemoveReaction { reaction, .. } => assert_eq!(reaction.to_text(), "🎉"),
        other => panic!("unexpected {:?}", other),
    }
}

#[test]
fn empty_set_is_not_tracked() {
    let mut tracker = ReactionTracker::new();
    assert_eq!(tracker.track(1, set_of(&[])), None);
    let a = tracker.track(1, set_of(&["😀"])).unwrap();
    let b = tracker.track(1, set_of(&["😀"])).unwrap();
    assert_ne!(a, b);
    assert!(tracker.confirm(1, 10, 20, 30, &Reaction::Unicode("😀".to_string())));
    assert!(tracker.time_out(a).is_empty());
    assert_eq!(tracker.time_out(b).len(), 2);
}

#[test]
fn notice_of_a_custom_animated_emoji() {
    let mut set = BotAddedReactions::new(1, 123, 2, 0);
    set.insert(Reaction::Custom { animated: true, id: 5, name: Some("x".to_string()) });
    set.insert(Reaction::Custom { animated: false, id: 0, name: None });
    assert_eq!(
        removal_notice(&set),
        "Removed reactions \"<a:x:5>, <::0>\" for message `123` since you did **not** react within 10 seconds."
    );
}
