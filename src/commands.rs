//! The slash commands of the bot, the per-guild tables that name them, and
//! the dispatch of an interaction to its command.

use vstd::prelude::*;

use std::collections::HashMap;

use crate::reaction::{decimal, push_decimal, parse_reaction_spec, Reaction, ReactionView};
use crate::text::{parse_u64, parse_u64_spec, split_whitespace, str_eq, string_views, tokens_of};
use crate::tracker::{no_duplicates, BotAddedReactions, PendingView};

verus! {

broadcast use vstd::std_specs::hash::group_hash_axioms;

/// One option of a slash command, as it is registered.
pub struct OptionSpec {
    /// The option's name.
    pub name: String,
    /// What the option is for.
    pub description: String,
    /// Whether the user must give it.
    pub required: bool,
}

/// A slash command as it is registered with the platform: its name, what it
/// does, and its options, each a string.
pub struct CommandSpec {
    /// The command's name.
    pub name: String,
    /// What the command does.
    pub description: String,
    /// The command's options.
    pub options: Vec<OptionSpec>,
}

/// The commands of the bot.
#[derive(Clone, Copy, Debug, PartialEq, Eq, Structural)]
pub enum Command {
    /// Answers with an acknowledgment.
    Ping,
    /// Adds the given emoji as reactions to a message.
    AddReaction,
    /// Lists the custom emoji of the guild.
    ListCustomEmojis,
    /// Adds text, as one emoji per character, as reactions to a message.
    TextToReactions,
}

/// The name under which a command is registered.
pub open spec fn command_name(c: Command) -> Seq<char> {
    match c {
        Command::Ping => "ping"@,
        Command::AddReaction => "add_reaction"@,
        Command::ListCustomEmojis => "list_custom_emojis"@,
        Command::TextToReactions => "text_to_reactions"@,
    }
}

/// The option `message_id`: the message to react to.
pub const OPTION_MESSAGE_ID: &'static str = "message_id";

/// The description of the option `message_id`.
pub const OPTION_MESSAGE_ID_DESCRIPTION: &'static str = "Message ID to react to. Defaults to last message on channel.";

impl Command {
    /// The name under which the command is registered.
    pub fn name(&self) -> (r: &'static str)
        ensures
            r@ == command_name(*self),
    {
        match self {
            Command::Ping => "ping",
            Command::AddReaction => "add_reaction",
            Command::ListCustomEmojis => "list_custom_emojis",
            Command::TextToReactions => "text_to_reactions",
        }
    }

    /// The registration of the command.
    pub fn register(&self) -> (r: CommandSpec)
        ensures
            r.name@ == command_name(*self),
    {
        match self {
            Command::Ping => Ping::register(),
            Command::AddReaction => AddReaction::register(),
            Command::ListCustomEmojis => ListCustomEmojis::register(),
            Command::TextToReactions => TextToReactions::register(),
        }
    }
}

/// A string option, registered with its name, description and whether it is required.
fn string_option(name: &str, description: &str, required: bool) -> (r: OptionSpec)
    ensures
        r.name@ == name@,
        r.description@ == description@,
        r.required == required,
{
    OptionSpec { name: String::from_str(name), description: String::from_str(description), required }
}

/// The `ping` command.
pub struct Ping;

impl Ping {
    /// The registration of `ping`: no options.
    pub fn register() -> (r: CommandSpec)
        ensures
            r.name@ == command_name(Command::Ping),
            r.options@.len() == 0,
    {
        CommandSpec {
            name: String::from_str("ping"),
            description: String::from_str("Ping command"),
            options: Vec::new(),
        }
    }
}

/// The `add_reaction` command.
pub struct AddReaction;

/// The option `emoji` of `add_reaction`: the emoji to react with.
pub const OPTION_EMOJI: &'static str = "emoji";

impl AddReaction {
    /// The registration of `add_reaction`: the required option `emoji` and the
    /// optional `message_id`.
    pub fn register() -> (r: CommandSpec)
        ensures
            r.name@ == command_name(Command::AddReaction),
            r.options@.len() == 2,
            r.options@[0].name@ == OPTION_EMOJI@,
            r.options@[0].required,
            r.options@[1].name@ == OPTION_MESSAGE_ID@,
            !r.options@[1].required,
    {
        let mut options: Vec<OptionSpec> = Vec::new();
        options.push(
            string_option(OPTION_EMOJI, "Emoji to react with. Can use multiple space separated emojis.", true),
        );
        options.push(string_option(OPTION_MESSAGE_ID, OPTION_MESSAGE_ID_DESCRIPTION, false));
        CommandSpec {
            name: String::from_str("add_reaction"),
            description: String::from_str(
                "Add reaction(s) to the given message or last message on the channel.",
            ),
            options,
        }
    }
}

/// The `list_custom_emojis` command.
pub struct ListCustomEmojis;

impl ListCustomEmojis {
    /// The registration of `list_custom_emojis`: no options.
    pub fn register() -> (r: CommandSpec)
        ensures
            r.name@ == command_name(Command::ListCustomEmojis),
            r.options@.len() == 0,
    {
        CommandSpec {
            name: String::from_str("list_custom_emojis"),
            description: String::from_str("List the custom emojis of the server."),
            options: Vec::new(),
        }
    }
}

/// The `text_to_reactions` command.
pub struct TextToReactions;

/// The option `text` of `text_to_reactions`: the text to spell in emoji.
pub const OPTION_TEXT: &'static str = "text";

impl TextToReactions {
    /// The registration of `text_to_reactions`: the required option `text`
    /// and the optional `message_id`.
    pub fn register() -> (r: CommandSpec)
        ensures
            r.name@ == command_name(Command::TextToReactions),
            r.options@.len() == 2,
            r.options@[0].name@ == OPTION_TEXT@,
            r.options@[0].required,
            r.options@[1].name@ == OPTION_MESSAGE_ID@,
            !r.options@[1].required,
    {
        let mut options: Vec<OptionSpec> = Vec::new();
        options.push(string_option(OPTION_TEXT, "Text to convert to reactions.", true));
        options.push(string_option(OPTION_MESSAGE_ID, OPTION_MESSAGE_ID_DESCRIPTION, false));
        CommandSpec {
            name: String::from_str("text_to_reactions"),
            description: String::from_str(
                "Text as list of reactions to the given message or last message on the channel.",
            ),
            options,
        }
    }
}

/// The command that a table holds under `name`: the first entry of that name.
pub open spec fn lookup(table: Seq<(Seq<char>, Command)>, name: Seq<char>) -> Option<Command>
    decreases table.len(),
{
    if table.len() == 0 {
        None
    } else if table[0].0 == name {
        Some(table[0].1)
    } else {
        lookup(table.drop_first(), name)
    }
}

/// The commands of one guild, by name.
pub struct GuildCommands {
    commands: Vec<(String, Command)>,
}

impl View for GuildCommands {
    type V = Seq<(Seq<char>, Command)>;

    closed spec fn view(&self) -> Seq<(Seq<char>, Command)> {
        self.commands@.map_values(|e: (String, Command)| (e.0@, e.1))
    }
}

/// `lookup` on a table whose first `i` names differ from `name` looks past them.
proof fn lemma_lookup_skip(table: Seq<(Seq<char>, Command)>, name: Seq<char>, i: int)
    requires
        0 <= i <= table.len(),
        forall|j: int| 0 <= j < i ==> table[j].0 != name,
    ensures
        lookup(table, name) == lookup(table.skip(i), name),
    decreases i,
{
    if i > 0 {
        lemma_lookup_skip(table.drop_first(), name, i - 1);
        assert(table.drop_first().skip(i - 1) =~= table.skip(i));
    } else {
        assert(table.skip(0) =~= table);
    }
}

/// `lookup` finds nothing in a table without the name.
proof fn lemma_lookup_absent(table: Seq<(Seq<char>, Command)>, name: Seq<char>)
    requires
        forall|j: int| 0 <= j < table.len() ==> table[j].0 != name,
    ensures
        lookup(table, name) is None,
    decreases table.len(),
{
    if table.len() > 0 {
        lemma_lookup_absent(table.drop_first(), name);
    }
}

/// `lookup` after the entry at `i` changed: the new entry's name finds the new
/// command if no earlier entry has that name, and other names find what they found.
proof fn lemma_lookup_update(table: Seq<(Seq<char>, Command)>, i: int, entry: (Seq<char>, Command), other: Seq<char>)
    requires
        0 <= i < table.len(),
        table[i].0 == entry.0,
        forall|j: int| 0 <= j < i ==> table[j].0 != entry.0,
    ensures
        lookup(table.update(i, entry), entry.0) == Some(entry.1),
        other != entry.0 ==> lookup(table.update(i, entry), other) == lookup(table, other),
    decreases i,
{
    if i > 0 {
        lemma_lookup_update(table.drop_first(), i - 1, entry, other);
        assert(table.update(i, entry).drop_first() =~= table.drop_first().update(i - 1, entry));
    } else {
        assert(table.update(0, entry).drop_first() =~= table.drop_first());
    }
}

/// `lookup` after a new name was appended.
proof fn lemma_lookup_push(table: Seq<(Seq<char>, Command)>, entry: (Seq<char>, Command), other: Seq<char>)
    requires
        lookup(table, entry.0) is None,
    ensures
        lookup(table.push(entry), entry.0) == Some(entry.1),
        other != entry.0 ==> lookup(table.push(entry), other) == lookup(table, other),
    decreases table.len(),
{
    if table.len() > 0 {
        lemma_lookup_push(table.drop_first(), entry, other);
        assert(table.push(entry).drop_first() =~= table.drop_first().push(entry));
    } else {
        assert(table.push(entry).drop_first() =~= table);
    }
}

impl GuildCommands {
    /// A table with no commands.
    pub fn new() -> (r: Self)
        ensures
            r@.len() == 0,
    {
        let r = GuildCommands { commands: Vec::new() };
        proof {
            assert(r@ =~= seq![]);
        }
        r
    }

    /// The number of names in the table.
    pub fn len(&self) -> (r: usize)
        ensures
            r == self@.len(),
    {
        self.commands.len()
    }

    /// Binds the name that `command_creation` registers to `command`, in place
    /// of what the name was bound to.
    pub fn insert(&mut self, command_creation: &CommandSpec, command: Command)
        ensures
            lookup(final(self)@, command_creation.name@) == Some(command),
            forall|other: Seq<char>|
                other != command_creation.name@ ==> lookup(final(self)@, other) == lookup(old(self)@, other),
    {
        let ghost name = command_creation.name@;
        let ghost t = self@;
        let mut i: usize = 0;
        while i < self.commands.len()
            invariant
                self@ == t,
                t == old(self)@,
                name == command_creation.name@,
                i <= t.len(),
                forall|j: int| 0 <= j < i ==> t[j].0 != name,
            decreases t.len() - i,
        {
            proof {
                assert(t[i as int] == (self.commands@[i as int].0@, self.commands@[i as int].1));
            }
            if str_eq(self.commands[i].0.as_str(), command_creation.name.as_str()) {
                self.commands.set(i, (command_creation.name.clone(), command));
                proof {
                    assert(self@ =~= t.update(i as int, (name, command)));
                    assert forall|other: Seq<char>| other != name implies lookup(self@, other) == lookup(t, other) by {
                        lemma_lookup_update(t, i as int, (name, command), other);
                    }
                    lemma_lookup_update(t, i as int, (name, command), name);
                }
                return;
            }
            i = i + 1;
        }
        proof {
            lemma_lookup_absent(t, name);
        }
        self.commands.push((command_creation.name.clone(), command));
        proof {
            assert(self@ =~= t.push((name, command)));
            assert forall|other: Seq<char>| other != name implies lookup(self@, other) == lookup(t, other) by {
                lemma_lookup_push(t, (name, command), other);
            }
            lemma_lookup_push(t, (name, command), name);
        }
    }

    /// The command that `name` is bound to, if any.
    pub fn interaction(&self, name: &str) -> (r: Option<Command>)
        ensures
            r == lookup(self@, name@),
    {
        let ghost t = self@;
        let mut i: usize = 0;
        while i < self.commands.len()
            invariant
                self@ == t,
                i <= t.len(),
                forall|j: int| 0 <= j < i ==> t[j].0 != name@,
            decreases t.len() - i,
        {
            proof {
                assert(t[i as int] == (self.commands@[i as int].0@, self.commands@[i as int].1));
            }
            if str_eq(self.commands[i].0.as_str(), name) {
                proof {
                    lemma_lookup_skip(t, name@, i as int);
                    assert(t.skip(i as int)[0] == t[i as int]);
                }
                return Some(self.commands[i].1);
            }
            i = i + 1;
        }
        proof {
            lemma_lookup_absent(t, name@);
        }
        None
    }
}

/// Where an interaction goes.
#[derive(Clone, Copy, Debug, PartialEq, Eq, Structural)]
pub enum Dispatch {
    /// Run this command.
    Run(Command),
    /// The guild has no command of that name: log it, answer nothing.
    UnknownCommand,
    /// No commands were built for the guild: log it, answer nothing.
    UnknownGuild,
    /// The interaction came from outside any guild: log it, answer nothing.
    NoGuild,
}

/// Where an interaction naming `name` from guild `guild_id` goes, given the
/// tables of all guilds.
pub open spec fn dispatch_spec(
    tables: Map<u64, Seq<(Seq<char>, Command)>>,
    guild_id: Option<u64>,
    name: Seq<char>,
) -> Dispatch {
    match guild_id {
        None => Dispatch::NoGuild,
        Some(g) => if !tables.contains_key(g) {
            Dispatch::UnknownGuild
        } else {
            match lookup(tables[g], name) {
                Some(c) => Dispatch::Run(c),
                None => Dispatch::UnknownCommand,
            }
        },
    }
}

/// No two commands share a name.
proof fn lemma_command_names_distinct()
    ensures
        forall|a: Command, b: Command| a != b ==> command_name(a) != command_name(b),
{
    reveal_strlit("ping");
    reveal_strlit("add_reaction");
    reveal_strlit("list_custom_emojis");
    reveal_strlit("text_to_reactions");
    assert(command_name(Command::Ping)[0] == 'p');
    assert(command_name(Command::AddReaction)[0] == 'a');
    assert(command_name(Command::ListCustomEmojis)[0] == 'l');
    assert(command_name(Command::TextToReactions)[0] == 't');
}

/// An interaction that names a command absent from its guild's table is
/// dropped: it runs nothing, and the caller has only a log line to write.
pub proof fn lemma_unknown_command_is_dropped(
    tables: Map<u64, Seq<(Seq<char>, Command)>>,
    guild_id: u64,
    name: Seq<char>,
)
    requires
        tables.contains_key(guild_id),
        forall|i: int| 0 <= i < tables[guild_id].len() ==> (#[trigger] tables[guild_id][i]).0 != name,
    ensures
        dispatch_spec(tables, Some(guild_id), name) == Dispatch::UnknownCommand,
        forall|c: Command| dispatch_spec(tables, Some(guild_id), name) != Dispatch::Run(c),
{
    lemma_lookup_absent(tables[guild_id], name);
}

/// The commands that the bot registers in every guild: all of them.
pub open spec fn guild_command_set() -> Seq<Command> {
    seq![Command::Ping, Command::AddReaction, Command::ListCustomEmojis, Command::TextToReactions]
}

/// The command tables of all guilds.
pub struct CommandRegistry {
    guilds: HashMap<u64, GuildCommands>,
}

impl View for CommandRegistry {
    type V = Map<u64, Seq<(Seq<char>, Command)>>;

    closed spec fn view(&self) -> Map<u64, Seq<(Seq<char>, Command)>> {
        Map::new(|g: u64| self.guilds@.contains_key(g), |g: u64| self.guilds@[g]@)
    }
}

impl CommandRegistry {
    /// A registry with no guild.
    pub fn new() -> (r: Self)
        ensures
            r@ == Map::<u64, Seq<(Seq<char>, Command)>>::empty(),
    {
        let r = CommandRegistry { guilds: HashMap::new() };
        proof {
            assert(r@ =~= Map::<u64, Seq<(Seq<char>, Command)>>::empty());
        }
        r
    }

    /// Builds the table of guild `guild_id` with the bot's commands, and
    /// returns their registrations, in order, for the platform.
    pub fn register_guild(&mut self, guild_id: u64) -> (r: Vec<CommandSpec>)
        ensures
            final(self)@.contains_key(guild_id),
            forall|g: u64| g != guild_id ==> (final(self)@.contains_key(g) == old(self)@.contains_key(g)),
            forall|g: u64| g != guild_id && old(self)@.contains_key(g) ==> final(self)@[g] == old(self)@[g],
            r@.len() == guild_command_set().len(),
            forall|i: int| 0 <= i < r@.len() ==> r@[i].name@ == command_name(#[trigger] guild_command_set()[i]),
            forall|i: int|
                0 <= i < guild_command_set().len() ==> lookup(final(self)@[guild_id], command_name(#[trigger] guild_command_set()[i]))
                    == Some(guild_command_set()[i]),
            forall|c: Command| lookup(final(self)@[guild_id], command_name(c)) == Some(c),
    {
        let ghost old_guilds = self.guilds@;
        let mut table = match self.guilds.remove(&guild_id) {
            Some(t) => t,
            None => GuildCommands::new(),
        };
        let mut specs: Vec<CommandSpec> = Vec::new();
        let commands = [Command::Ping, Command::AddReaction, Command::ListCustomEmojis, Command::TextToReactions];
        let mut i: usize = 0;
        while i < 4
            invariant
                commands@ == guild_command_set(),
                i <= 4,
                specs@.len() == i,
                forall|j: int| 0 <= j < i ==> specs@[j].name@ == command_name(#[trigger] guild_command_set()[j]),
                forall|j: int|
                    0 <= j < i ==> lookup(table@, command_name(#[trigger] guild_command_set()[j])) == Some(
                        guild_command_set()[j],
                    ),
            decreases 4 - i,
        {
            let command = commands[i];
            let spec = command.register();
            table.insert(&spec, command);
            proof {
                lemma_command_names_distinct();
            }
            specs.push(spec);
            i = i + 1;
        }
        self.guilds.insert(guild_id, table);
        proof {
            assert forall|c: Command| lookup(self@[guild_id], command_name(c)) == Some(c) by {
                match c {
                    Command::Ping => assert(guild_command_set()[0] == c),
                    Command::AddReaction => assert(guild_command_set()[1] == c),
                    Command::ListCustomEmojis => assert(guild_command_set()[2] == c),
                    Command::TextToReactions => assert(guild_command_set()[3] == c),
                }
            }
            assert forall|g: u64| g != guild_id implies (self@.contains_key(g) == old(self)@.contains_key(g)) by {
                assert(self.guilds@.contains_key(g) == old_guilds.contains_key(g));
            }
        }
        specs
    }

    /// Where an interaction naming command `name` from guild `guild_id` goes.
    pub fn dispatch(&self, guild_id: Option<u64>, name: &str) -> (r: Dispatch)
        ensures
            r == dispatch_spec(self@, guild_id, name@),
    {
        match guild_id {
            None => Dispatch::NoGuild,
            Some(g) => match self.guilds.get(&g) {
                None => Dispatch::UnknownGuild,
                Some(table) => match table.interaction(name) {
                    Some(c) => Dispatch::Run(c),
                    None => Dispatch::UnknownCommand,
                },
            },
        }
    }
}

/// Why reacting to a message with a list of emoji fell short.
#[derive(Debug)]
pub enum ReactToMessageWithError {
    /// The platform refused to add a reaction; its reason.
    CouldNotReactToMessage(String),
    /// A token of the list is no emoji; the token.
    InvalidEmoji(String),
}

/// What a [`ReactToMessageWithError`] is, as plain values.
pub enum ReactErrorView {
    CouldNotReactToMessage(Seq<char>),
    InvalidEmoji(Seq<char>),
}

impl View for ReactToMessageWithError {
    type V = ReactErrorView;

    open spec fn view(&self) -> ReactErrorView {
        match self {
            ReactToMessageWithError::CouldNotReactToMessage(e) => ReactErrorView::CouldNotReactToMessage(e@),
            ReactToMessageWithError::InvalidEmoji(t) => ReactErrorView::InvalidEmoji(t@),
        }
    }
}

/// The view of an optional error.
pub open spec fn opt_error_view(e: Option<ReactToMessageWithError>) -> Option<ReactErrorView> {
    match e {
        Some(x) => Some(x@),
        None => None,
    }
}

/// How a [`ReactToMessageWithError`] reads.
pub open spec fn react_error_text(e: ReactErrorView) -> Seq<char> {
    "react_to_message_with: "@ + match e {
        ReactErrorView::CouldNotReactToMessage(x) => "could not react to message: "@ + x,
        ReactErrorView::InvalidEmoji(t) => "invalid emoji: `"@ + t + "`"@,
    }
}

impl ReactToMessageWithError {
    /// How the error reads.
    pub fn message(&self) -> (r: String)
        ensures
            r@ == react_error_text(self@),
    {
        let mut s = String::from_str("react_to_message_with: ");
        match self {
            ReactToMessageWithError::CouldNotReactToMessage(x) => {
                s.append("could not react to message: ");
                s.append(x.as_str());
            },
            ReactToMessageWithError::InvalidEmoji(t) => {
                s.append("invalid emoji: `");
                s.append(t.as_str());
                s.append("`");
            },
        }
        proof {
            assert(s@ =~= react_error_text(self@));
        }
        s
    }

    /// A copy of the error.
    pub fn cloned(&self) -> (r: ReactToMessageWithError)
        ensures
            r@ == self@,
    {
        match self {
            ReactToMessageWithError::CouldNotReactToMessage(x) => ReactToMessageWithError::CouldNotReactToMessage(
                x.clone(),
            ),
            ReactToMessageWithError::InvalidEmoji(t) => ReactToMessageWithError::InvalidEmoji(t.clone()),
        }
    }
}

/// The reactions requested for `tokens`: one for each token that is an
/// emoji, in order.
pub open spec fn requests_of(tokens: Seq<Seq<char>>) -> Seq<ReactionView>
    decreases tokens.len(),
{
    if tokens.len() == 0 {
        seq![]
    } else {
        let prev = requests_of(tokens.drop_last());
        match parse_reaction_spec(tokens.last()) {
            Some(r) => prev.push(r),
            None => prev,
        }
    }
}

/// Every token that is an emoji is requested, once and in order: where all
/// the tokens are emoji, the i-th request is the reaction of the i-th token,
/// whatever became of the requests before it.
pub proof fn lemma_requests_follow_tokens(tokens: Seq<Seq<char>>)
    requires
        forall|i: int| 0 <= i < tokens.len() ==> (#[trigger] parse_reaction_spec(tokens[i])) is Some,
    ensures
        requests_of(tokens).len() == tokens.len(),
        forall|i: int|
            0 <= i < tokens.len() ==> Some(#[trigger] requests_of(tokens)[i]) == parse_reaction_spec(tokens[i]),
    decreases tokens.len(),
{
    if tokens.len() > 0 {
        let prev = tokens.drop_last();
        assert forall|i: int| 0 <= i < prev.len() implies (#[trigger] parse_reaction_spec(prev[i])) is Some by {
            assert(prev[i] == tokens[i]);
        }
        lemma_requests_follow_tokens(prev);
        assert(parse_reaction_spec(tokens[tokens.len() - 1]) is Some);
        assert forall|i: int| 0 <= i < tokens.len() implies Some(#[trigger] requests_of(tokens)[i])
            == parse_reaction_spec(tokens[i]) by {
            if i < tokens.len() - 1 {
                assert(prev[i] == tokens[i]);
                assert(requests_of(tokens)[i] == requests_of(prev)[i]);
            }
        }
    }
}

/// The index of the first token at or after `from` that is an emoji, or the
/// number of tokens if none is.
pub open spec fn next_valid(tokens: Seq<Seq<char>>, from: int) -> int
    decreases tokens.len() - from,
{
    if from >= tokens.len() {
        tokens.len() as int
    } else if parse_reaction_spec(tokens[from]) is Some {
        from
    } else {
        next_valid(tokens, from + 1)
    }
}

/// What a [`ReactionRun`] holds: the tokens, the index of the next one, the
/// reaction whose request is out, the reactions added, and the first error.
pub struct RunView {
    pub tokens: Seq<Seq<char>>,
    pub next: int,
    pub in_flight: Option<ReactionView>,
    pub added: PendingView,
    pub error: Option<ReactErrorView>,
}

/// The reactions of one command to one message: for each whitespace-separated
/// token, in order, one request to add it, whatever became of the requests
/// before; a token that is no emoji is skipped and recorded as an error. The
/// first error is kept, and the reactions that were added are collected.
pub struct ReactionRun {
    tokens: Vec<String>,
    next: usize,
    in_flight: Option<Reaction>,
    added: BotAddedReactions,
    error: Option<ReactToMessageWithError>,
}

impl View for ReactionRun {
    type V = RunView;

    closed spec fn view(&self) -> RunView {
        RunView {
            tokens: string_views(self.tokens@),
            next: self.next as int,
            in_flight: match self.in_flight {
                Some(r) => Some(r@),
                None => None,
            },
            added: self.added@,
            error: opt_error_view(self.error),
        }
    }
}

impl ReactionRun {
    /// The reactions requested so far: one for each token before `next` that
    /// is an emoji, in order.
    pub open spec fn requested(&self) -> Seq<ReactionView> {
        requests_of(self@.tokens.subrange(0, self@.next))
    }

    /// The invariant of a run.
    pub open spec fn wf(&self) -> bool {
        &&& 0 <= self@.next <= self@.tokens.len()
        &&& no_duplicates(self@.added.reactions)
    }

    /// A run over the tokens of `emoji_text`, adding to message `message_id`
    /// of channel `channel_id` for user `user_id` at `creation_time`.
    pub fn new(emoji_text: &str, channel_id: u64, message_id: u64, user_id: u64, creation_time: u64) -> (r: Self)
        ensures
            r.wf(),
            r@.tokens == tokens_of(emoji_text@),
            r@.next == 0,
            r@.in_flight is None,
            r@.added == (PendingView { channel_id, message_id, user_id, reactions: seq![], creation_time }),
            r@.error is None,
            r.requested() == Seq::<ReactionView>::empty(),
    {
        ReactionRun {
            tokens: split_whitespace(emoji_text),
            next: 0,
            in_flight: None,
            added: BotAddedReactions::new(channel_id, message_id, user_id, creation_time),
            error: None,
        }
    }

    /// The next reaction to request: that of the first token from `next` on
    /// that is an emoji. The tokens passed over are no emoji, and the first of
    /// them is recorded unless an error was already. `None` when no token is left.
    pub fn next_reaction(&mut self) -> (r: Option<Reaction>)
        requires
            old(self).wf(),
        ensures
            final(self).wf(),
            final(self)@.tokens == old(self)@.tokens,
            final(self)@.added == old(self)@.added,
            next_valid(old(self)@.tokens, old(self)@.next) < old(self)@.tokens.len() ==> {
                let k = next_valid(old(self)@.tokens, old(self)@.next);
                &&& r matches Some(x)
                &&& parse_reaction_spec(old(self)@.tokens[k]) == Some(x@)
                &&& final(self)@.next == k + 1
                &&& final(self)@.in_flight == Some(x@)
            },
            next_valid(old(self)@.tokens, old(self)@.next) == old(self)@.tokens.len() ==> {
                &&& r is None
                &&& final(self)@.next == old(self)@.tokens.len()
                &&& final(self)@.in_flight == old(self)@.in_flight
            },
            final(self).requested() == match r {
                Some(x) => old(self).requested().push(x@),
                None => old(self).requested(),
            },
            r is None ==> final(self).requested() == requests_of(final(self)@.tokens),
            final(self)@.error == if old(self)@.error is None && next_valid(old(self)@.tokens, old(self)@.next)
                > old(self)@.next {
                Some(ReactErrorView::InvalidEmoji(old(self)@.tokens[old(self)@.next]))
            } else {
                old(self)@.error
            },
    {
        let ghost t = self@.tokens;
        let ghost start = self@.next;
        while self.next < self.tokens.len()
            invariant
                self.wf(),
                self@.tokens == t,
                self@.added == old(self)@.added,
                self@.in_flight == old(self)@.in_flight,
                start == old(self)@.next,
                t == old(self)@.tokens,
                start <= self@.next <= t.len(),
                next_valid(t, start) == next_valid(t, self@.next),
                requests_of(t.subrange(0, self@.next)) == requests_of(t.subrange(0, start)),
                self@.error == if old(self)@.error is None && self@.next > start {
                    Some(ReactErrorView::InvalidEmoji(t[start]))
                } else {
                    old(self)@.error
                },
            decreases t.len() - self@.next,
        {
            let i = self.next;
            proof {
                assert(t[i as int] == self.tokens@[i as int]@);
                assert(t.subrange(0, i + 1).drop_last() =~= t.subrange(0, i as int));
                assert(t.subrange(0, i + 1).last() == t[i as int]);
            }
            match Reaction::parse(self.tokens[i].as_str()) {
                Some(x) => {
                    self.next = i + 1;
                    let ghost xv = x@;
                    self.in_flight = Some(x.cloned());
                    return Some(x);
                },
                None => {
                    if self.error.is_none() {
                        self.error = Some(ReactToMessageWithError::InvalidEmoji(self.tokens[i].clone()));
                    }
                    self.next = i + 1;
                },
            }
        }
        proof {
            assert(t.subrange(0, t.len() as int) =~= t);
        }
        None
    }

    /// The result of the request for the reaction in flight: an added one joins
    /// the set, a refused one is recorded unless an error was already.
    pub fn record_result(&mut self, result: Result<(), String>)
        requires
            old(self).wf(),
        ensures
            final(self).wf(),
            final(self)@.tokens == old(self)@.tokens,
            final(self)@.next == old(self)@.next,
            final(self).requested() == old(self).requested(),
            final(self)@.in_flight is None,
            final(self)@.added.channel_id == old(self)@.added.channel_id,
            final(self)@.added.message_id == old(self)@.added.message_id,
            final(self)@.added.user_id == old(self)@.added.user_id,
            final(self)@.added.creation_time == old(self)@.added.creation_time,
            final(self)@.added.reactions == match (result, old(self)@.in_flight) {
                (Ok(_), Some(x)) => if old(self)@.added.reactions.contains(x) {
                    old(self)@.added.reactions
                } else {
                    old(self)@.added.reactions.push(x)
                },
                _ => old(self)@.added.reactions,
            },
            final(self)@.error == match (result, old(self)@.in_flight) {
                (Err(e), Some(_)) => if old(self)@.error is None {
                    Some(ReactErrorView::CouldNotReactToMessage(e@))
                } else {
                    old(self)@.error
                },
                _ => old(self)@.error,
            },
    {
        let in_flight = self.in_flight.take();
        match in_flight {
            Some(x) => match result {
                Ok(()) => self.added.insert(x),
                Err(e) => {
                    if self.error.is_none() {
                        self.error = Some(ReactToMessageWithError::CouldNotReactToMessage(e));
                    }
                },
            },
            None => {},
        }
    }

    /// The reactions that were added, and the first error, if any.
    pub fn finish(self) -> (r: (BotAddedReactions, Option<ReactToMessageWithError>))
        requires
            self.wf(),
        ensures
            r.0@ == self@.added,
            no_duplicates(r.0@.reactions),
            opt_error_view(r.1) == self@.error,
    {
        (self.added, self.error)
    }
}

/// The value of an option of an interaction.
#[derive(Debug, Clone)]
pub enum OptionValue {
    /// A string.
    Text(String),
    /// A value of another kind, as the platform writes it.
    Other(String),
}

/// What an [`OptionValue`] is, as plain values.
pub enum ValueView {
    Text(Seq<char>),
    Other(Seq<char>),
}

/// An option of an interaction: its name and its value, if any.
#[derive(Debug, Clone)]
pub struct CommandOption {
    /// The option's name.
    pub name: String,
    /// The option's value.
    pub value: Option<OptionValue>,
}

/// What a [`CommandOption`] is, as plain values.
pub struct OptionView {
    pub name: Seq<char>,
    pub value: Option<ValueView>,
}

impl View for OptionValue {
    type V = ValueView;

    open spec fn view(&self) -> ValueView {
        match self {
            OptionValue::Text(t) => ValueView::Text(t@),
            OptionValue::Other(v) => ValueView::Other(v@),
        }
    }
}

impl View for CommandOption {
    type V = OptionView;

    open spec fn view(&self) -> OptionView {
        OptionView {
            name: self.name@,
            value: match self.value {
                Some(v) => Some(v@),
                None => None,
            },
        }
    }
}

/// The views of a sequence of options.
pub open spec fn option_views(s: Seq<CommandOption>) -> Seq<OptionView> {
    s.map_values(|o: CommandOption| o@)
}

/// The value of the first option named `name`: `None` if there is no such
/// option, `Some(None)` if it has no value.
pub open spec fn find_option(options: Seq<OptionView>, name: Seq<char>) -> Option<Option<ValueView>>
    decreases options.len(),
{
    if options.len() == 0 {
        None
    } else if options[0].name == name {
        Some(options[0].value)
    } else {
        find_option(options.drop_first(), name)
    }
}

/// The value of the first option named `name`.
pub fn option_value<'a>(options: &'a Vec<CommandOption>, name: &str) -> (r: Option<&'a Option<OptionValue>>)
    ensures
        find_option(option_views(options@), name@) == match r {
            Some(v) => Some(
                match v {
                    Some(x) => Some(x@),
                    None => None,
                },
            ),
            None => None,
        },
{
    let ghost t = option_views(options@);
    let mut i: usize = 0;
    proof {
        assert(t.skip(0) =~= t);
    }
    while i < options.len()
        invariant
            t == option_views(options@),
            i <= options@.len(),
            find_option(t, name@) == find_option(t.skip(i as int), name@),
        decreases options@.len() - i,
    {
        proof {
            assert(t.skip(i as int)[0] == options@[i as int]@);
            assert(t.skip(i as int).drop_first() =~= t.skip(i + 1));
        }
        if str_eq(options[i].name.as_str(), name) {
            return Some(&options[i].value);
        }
        i = i + 1;
    }
    proof {
        assert(t.skip(i as int).len() == 0);
    }
    None
}

/// Why no message could be chosen to react to.
#[derive(Debug)]
pub enum MessageIdError {
    /// The option `message_id` is no string; its value.
    MessageIdMustBeString(String),
    /// The option `message_id` is no message id; its text.
    InvalidMessageId(String),
    /// No `message_id` was given and no message was seen on the channel.
    NoLastMessageAvailableAndNoMessageIdProvided,
}

/// What a [`MessageIdError`] is, as plain values.
pub enum MessageIdErrorView {
    MessageIdMustBeString(Seq<char>),
    InvalidMessageId(Seq<char>),
    NoLastMessageAvailableAndNoMessageIdProvided,
}

impl View for MessageIdError {
    type V = MessageIdErrorView;

    open spec fn view(&self) -> MessageIdErrorView {
        match self {
            MessageIdError::MessageIdMustBeString(v) => MessageIdErrorView::MessageIdMustBeString(v@),
            MessageIdError::InvalidMessageId(t) => MessageIdErrorView::InvalidMessageId(t@),
            MessageIdError::NoLastMessageAvailableAndNoMessageIdProvided => MessageIdErrorView::NoLastMessageAvailableAndNoMessageIdProvided,
        }
    }
}

/// The message to react to: the one that the option `message_id` names,
/// else the last message seen on the channel. A message id is a non-zero
/// `u64` written in decimal.
pub open spec fn message_id_spec(options: Seq<OptionView>, last_message_id: Option<u64>) -> Result<
    u64,
    MessageIdErrorView,
> {
    match find_option(options, OPTION_MESSAGE_ID@) {
        Some(Some(ValueView::Text(t))) => match parse_u64_spec(t) {
            Some(n) => if n != 0 {
                Ok(n)
            } else {
                Err(MessageIdErrorView::InvalidMessageId(t))
            },
            None => Err(MessageIdErrorView::InvalidMessageId(t)),
        },
        Some(Some(ValueView::Other(v))) => Err(MessageIdErrorView::MessageIdMustBeString(v)),
        _ => match last_message_id {
            Some(n) => Ok(n),
            None => Err(MessageIdErrorView::NoLastMessageAvailableAndNoMessageIdProvided),
        },
    }
}

/// The message to react to, from the options and the last message seen on the channel.
pub fn message_id(options: &Vec<CommandOption>, last_message_id: Option<u64>) -> (r: Result<u64, MessageIdError>)
    ensures
        message_id_spec(option_views(options@), last_message_id) == match r {
            Ok(n) => Ok(n),
            Err(e) => Err(e@),
        },
{
    match option_value(options, OPTION_MESSAGE_ID) {
        Some(Some(OptionValue::Text(t))) => match parse_u64(t.as_str()) {
            Some(n) => if n != 0 {
                Ok(n)
            } else {
                Err(MessageIdError::InvalidMessageId(t.clone()))
            },
            None => Err(MessageIdError::InvalidMessageId(t.clone())),
        },
        Some(Some(OptionValue::Other(v))) => Err(MessageIdError::MessageIdMustBeString(v.clone())),
        _ => match last_message_id {
            Some(n) => Ok(n),
            None => Err(MessageIdError::NoLastMessageAvailableAndNoMessageIdProvided),
        },
    }
}

/// The emoji text to react with and the message to react to.
#[derive(Debug)]
pub struct ReactionRequest {
    /// Whitespace-separated emoji.
    pub emojis: String,
    /// The message to react to.
    pub message_id: u64,
}

/// The reply that reminds the user to react too.
pub open spec fn reminder_spec(message_id: u64, emojis: Seq<char>) -> Seq<char> {
    "Don't forget to react to message `"@ + decimal(message_id as nat) + "` yourself for the reactions "@ + emojis
        + "."@
}

/// The reply that reports an error.
pub open spec fn error_reply_spec(message: Seq<char>) -> Seq<char> {
    "error: "@ + message
}

/// The reply that reports an error with text `message`.
pub fn error_reply(message: &str) -> (r: String)
    ensures
        r@ == error_reply_spec(message@),
{
    let mut s = String::from_str("error: ");
    s.append(message);
    s
}

impl ReactionRequest {
    /// The reply that reminds the user to react to the message too.
    pub fn reminder(&self) -> (r: String)
        ensures
            r@ == reminder_spec(self.message_id, self.emojis@),
    {
        let mut s = String::from_str("Don't forget to react to message `");
        push_decimal(&mut s, self.message_id);
        s.append("` yourself for the reactions ");
        s.append(self.emojis.as_str());
        s.append(".");
        proof {
            assert(s@ =~= reminder_spec(self.message_id, self.emojis@));
        }
        s
    }
}

} // verus!
