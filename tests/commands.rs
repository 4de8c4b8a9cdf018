use reactinator::add_reaction;
use reactinator::commands::{
    error_reply, message_id, option_value, AddReaction, Command, CommandOption, CommandRegistry, Dispatch,
    GuildCommands, ListCustomEmojis, MessageIdError, OptionValue, Ping, ReactToMessageWithError, ReactionRun,
    TextToReactions, OPTION_EMOJI, OPTION_MESSAGE_ID, OPTION_TEXT,
};
use reactinator::reaction::Reaction;
use reactinator::text::{parse_u64, split_whitespace};
use reactinator::text_to_reactions;

fn text_option(name: &str, value: &str) -> CommandOption {
    CommandOption { name: name.to_string(), value: Some(OptionValue::Text(value.to_string())) }
}

fn other_option(name: &str, value: &str) -> CommandOption {
    CommandOption { name: name.to_string(), value: Some(OptionValue::Other(value.to_string())) }
}

#[test]
fn registry_runs_registered_commands() {
    let mut registry = CommandRegistry::new();
    let specs = registry.register_guild(7);
    let names: Vec<&str> = specs.iter().map(|s| s.name.as_str()).collect();
    assert_eq!(names, vec!["ping", "add_reaction", "list_custom_emojis", "text_to_reactions"]);
    assert_eq!(registry.dispatch(Some(7), "ping"), Dispatch::Run(Command::Ping));
    assert_eq!(registry.dispatch(Some(7), "add_reaction"), Dispatch::Run(Command::AddReaction));
    assert_eq!(registry.dispatch(Some(7), "list_custom_emojis"), Dispatch::Run(Command::ListCustomEmojis));
    assert_eq!(registry.dispatch(Some(7), "text_to_reactions"), Dispatch::Run(Command::TextToReactions));
}

#[test]
fn dispatch_of_unknown_command_is_dropped() {
    let mut registry = CommandRegistry::new();
    registry.register_guild(7);
    assert_eq!(registry.dispatch(Some(7), "Ping"), Dispatch::UnknownCommand);
    assert_eq!(registry.dispatch(Some(7), "nope"), Dispatch::UnknownCommand);
    assert_eq!(registry.dispatch(Some(8), "add_reaction"), Dispatch::UnknownGuild);
    assert_eq!(registry.dispatch(None, "add_reaction"), Dispatch::NoGuild);
}

#[test]
fn guild_commands_insert_replaces_by_name() {
    let mut table = GuildCommands::new();
    assert_eq!(table.interaction("ping"), None);
    table.insert(&Ping::register(), Command::Ping);
    table.insert(&AddReaction::register(), Command::AddReaction);
    assert_eq!(table.len(), 2);
    assert_eq!(table.interaction("ping"), Some(Command::Ping));
    table.insert(&Ping::register(), Command::ListCustomEmojis);
    assert_eq!(table.len(), 2);
    assert_eq!(table.interaction("ping"), Some(Command::ListCustomEmojis));
    assert_eq!(table.interaction("add_reaction"), Some(Command::AddReaction));
}

#[test]
fn registrations_name_their_options() {
    let add = AddReaction::register();
    assert_eq!(add.options.len(), 2);
    assert_eq!(add.options[0].name, OPTION_EMOJI);
    assert!(add.options[0].required);
    assert_eq!(add.options[1].name, OPTION_MESSAGE_ID);
    assert!(!add.options[1].required);
    let text = TextToReactions::register();
    assert_eq!(text.options[0].name, OPTION_TEXT);
    assert!(ListCustomEmojis::register().options.is_empty());
    assert_eq!(Command::TextToReactions.register().name, "text_to_reactions");
    assert_eq!(Command::Ping.name(), "ping");
}

#[test]
fn tokens_split_on_any_whitespace() {
    assert_eq!(split_whitespace("  a \t bc\n d  "), vec!["a", "bc", "d"]);
    assert!(split_whitespace("   ").is_empty());
    assert!(split_whitespace("").is_empty());
    assert_eq!(split_whitespace("x\u{3000}y"), vec!["x", "y"]);
}

#[test]
fn parse_u64_reads_decimal() {
    assert_eq!(parse_u64("123"), Some(123));
    assert_eq!(parse_u64("+7"), Some(7));
    assert_eq!(parse_u64("18446744073709551615"), Some(u64::MAX));
    assert_eq!(parse_u64("18446744073709551616"), None);
    assert_eq!(parse_u64(""), None);
    assert_eq!(parse_u64("+"), None);
    assert_eq!(parse_u64("-1"), None);
    assert_eq!(parse_u64("12a"), None);
    assert_eq!(parse_u64(" 1"), None);
}

#[test]
fn option_value_takes_first_of_name() {
    let options = vec![text_option("a", "1"), text_option("a", "2")];
    match option_value(&options, "a") {
        Some(Some(OptionValue::Text(t))) => assert_eq!(t, "1"),
        other => panic!("unexpected {:?}", other),
    }
    assert!(option_value(&options, "b").is_none());
}

#[test]
fn message_id_falls_back_to_last_message() {
    assert_eq!(message_id(&vec![], Some(5)).unwrap(), 5);
    assert_eq!(message_id(&vec![text_option(OPTION_MESSAGE_ID, "42")], Some(5)).unwrap(), 42);
    assert!(matches!(
        message_id(&vec![], None),
        Err(MessageIdError::NoLastMessageAvailableAndNoMessageIdProvided)
    ));
    assert!(matches!(
        message_id(&vec![text_option(OPTION_MESSAGE_ID, "x1")], Some(5)),
        Err(MessageIdError::InvalidMessageId(t)) if t == "x1"
    ));
    assert!(matches!(
        message_id(&vec![text_option(OPTION_MESSAGE_ID, "0")], Some(5)),
        Err(MessageIdError::InvalidMessageId(_))
    ));
    assert!(matches!(
        message_id(&vec![other_option(OPTION_MESSAGE_ID, "3")], Some(5)),
        Err(MessageIdError::MessageIdMustBeString(v)) if v == "3"
    ));
}

#[test]
fn add_reaction_request_and_errors() {
    let ok = AddReaction::request(&vec![text_option(OPTION_EMOJI, "😀 🎉")], Some(9)).unwrap();
    assert_eq!(ok.emojis, "😀 🎉");
    assert_eq!(ok.message_id, 9);
    assert_eq!(ok.reminder(), "Don't forget to react to message `9` yourself for the reactions 😀 🎉.");

    let e = AddReaction::request(&vec![], Some(9)).unwrap_err();
    assert!(matches!(e, add_reaction::Error::RequiresEmoji));
    assert_eq!(e.message(), "add_reaction: requires emoji");

    let e = AddReaction::request(&vec![other_option(OPTION_EMOJI, "5")], None).unwrap_err();
    assert_eq!(e.message(), "add_reaction: emoji must be provided in a string, got `5`");

    let e = AddReaction::request(&vec![text_option(OPTION_EMOJI, "😀")], None).unwrap_err();
    assert_eq!(e.message(), "add_reaction: no last message available and no message id provided");

    let e = AddReaction::request(
        &vec![text_option(OPTION_EMOJI, "😀"), text_option(OPTION_MESSAGE_ID, "abc")],
        Some(1),
    )
    .unwrap_err();
    assert_eq!(e.message(), "add_reaction: invalid message id, got `abc`");

    let e = AddReaction::request(&vec![text_option(OPTION_EMOJI, "😀"), other_option(OPTION_MESSAGE_ID, "1")], None)
        .unwrap_err();
    assert_eq!(e.message(), "add_reaction: message id must be a string, got `1`");

    let e: add_reaction::Error = ReactToMessageWithError::InvalidEmoji("<x".to_string()).into();
    assert_eq!(e.message(), "add_reaction: react_to_message_with: invalid emoji: `<x`");
    assert_eq!(error_reply(&e.message()), "error: add_reaction: react_to_message_with: invalid emoji: `<x`");
}

#[test]
fn text_to_reactions_request_and_errors() {
    let ok = TextToReactions::request(&vec![text_option(OPTION_TEXT, "Hi"), text_option(OPTION_MESSAGE_ID, "77")], None)
        .unwrap();
    assert_eq!(ok.emojis, text_to_reactions::text_to_emojis("hi").unwrap());
    assert_eq!(ok.message_id, 77);

    let e = TextToReactions::request(&vec![], Some(1)).unwrap_err();
    assert_eq!(e.message(), "text_to_reactions: requires text");
    let e = TextToReactions::request(&vec![other_option(OPTION_TEXT, "1")], Some(1)).unwrap_err();
    assert_eq!(e.message(), "text_to_reactions: text must be provided in a string, got `1`");
    let e = TextToReactions::request(&vec![text_option(OPTION_TEXT, "aaaa")], Some(1)).unwrap_err();
    assert_eq!(e.message(), "text_to_reactions: could not convert text to emojis");
    let e = TextToReactions::request(&vec![text_option(OPTION_TEXT, "a")], None).unwrap_err();
    assert_eq!(e.message(), "text_to_reactions: no last message available and no message id provided");
    let e: text_to_reactions::Error = ReactToMessageWithError::CouldNotReactToMessage("busy".to_string()).into();
    assert_eq!(e.message(), "text_to_reactions: could not react to message: busy");
}

#[test]
fn reaction_run_requests_each_token_in_order() {
    let mut run = ReactionRun::new("😀 <bad 🎉  <:party:42> 😀", 1, 2, 3, 0);
    let mut requested = Vec::new();
    let outcomes = [Err("refused".to_string()), Ok(()), Ok(()), Ok(())];
    let mut k = 0;
    while let Some(r) = run.next_reaction() {
        requested.push(r.to_text());
        run.record_result(outcomes[k].clone());
        k += 1;
    }
    assert_eq!(requested, vec!["😀", "🎉", "<:party:42>", "😀"]);
    let (added, error) = run.finish();
    let added: Vec<String> = added.reaction_types.iter().map(|r| r.to_text()).collect();
    assert_eq!(added, vec!["🎉", "<:party:42>", "😀"]);
    match error {
        Some(ReactToMessageWithError::CouldNotReactToMessage(e)) => assert_eq!(e, "refused"),
        other => panic!("unexpected {:?}", other),
    }
}

#[test]
fn reaction_run_reports_invalid_token() {
    let mut run = ReactionRun::new("<bad 😀", 1, 2, 3, 0);
    let r = run.next_reaction().unwrap();
    assert_eq!(r.to_text(), "😀");
    run.record_result(Ok(()));
    assert!(run.next_reaction().is_none());
    let (added, error) = run.finish();
    assert_eq!(added.len(), 1);
    match error {
        Some(ReactToMessageWithError::InvalidEmoji(t)) => assert_eq!(t, "<bad"),
        other => panic!("unexpected {:?}", other),
    }
}

#[test]
fn reaction_run_keeps_first_error() {
    let mut run = ReactionRun::new("a b", 1, 2, 3, 0);
    assert!(run.next_reaction().is_some());
    run.record_result(Err("first".to_string()));
    assert!(run.next_reaction().is_some());
    run.record_result(Err("second".to_string()));
    assert!(run.next_reaction().is_none());
    let (added, error) = run.finish();
    assert!(added.is_empty());
    assert_eq!(error.unwrap().message(), "react_to_message_with: could not react to message: first");
}

#[test]
fn reaction_parse_follows_platform_rules() {
    assert!(Reaction::parse("").is_none());
    assert_eq!(Reaction::parse("😀"), Some(Reaction::Unicode("😀".to_string())));
    assert!(Reaction::parse("<abc").is_none());
    assert_eq!(
        Reaction::parse("<a:dance:600404340292059257>"),
        Some(Reaction::Custom { animated: true, id: 600404340292059257, name: Some("dance".to_string()) })
    );
    let custom = Reaction::parse("<:party:42>").unwrap();
    assert_eq!(custom.to_text(), "<:party:42>");
    assert!(Reaction::parse("<:party:x>").is_none());
}
