//! The `add_reaction` command: reads its options and reports its errors.

use vstd::prelude::*;

use crate::commands::{
    find_option, message_id, option_value, option_views, react_error_text, AddReaction, CommandOption,
    MessageIdError, MessageIdErrorView, OptionValue, OptionView, ReactErrorView, ReactToMessageWithError,
    ReactionRequest, ValueView, OPTION_EMOJI, message_id_spec,
};

verus! {

/// Why `add_reaction` failed.
#[derive(Debug)]
pub enum Error {
    /// The option `emoji` is missing.
    RequiresEmoji,
    /// The option `emoji` is no string; its value.
    EmojiMustBeProvidedInString(String),
    /// The option `message_id` is no string; its value.
    MessageIdMustBeString(String),
    /// The option `message_id` is no message id; its text.
    InvalidMessageId(String),
    /// No `message_id` was given and no message was seen on the channel.
    NoLastMessageAvailableAndNoMessageIdProvided,
    /// Reacting fell short.
    ReactToMessageWith(ReactToMessageWithError),
}

/// What an [`Error`] is, as plain values.
pub enum ErrorView {
    RequiresEmoji,
    EmojiMustBeProvidedInString(Seq<char>),
    MessageIdMustBeString(Seq<char>),
    InvalidMessageId(Seq<char>),
    NoLastMessageAvailableAndNoMessageIdProvided,
    ReactToMessageWith(ReactErrorView),
}

impl View for Error {
    type V = ErrorView;

    open spec fn view(&self) -> ErrorView {
        match self {
            Error::RequiresEmoji => ErrorView::RequiresEmoji,
            Error::EmojiMustBeProvidedInString(v) => ErrorView::EmojiMustBeProvidedInString(v@),
            Error::MessageIdMustBeString(v) => ErrorView::MessageIdMustBeString(v@),
            Error::InvalidMessageId(t) => ErrorView::InvalidMessageId(t@),
            Error::NoLastMessageAvailableAndNoMessageIdProvided => ErrorView::NoLastMessageAvailableAndNoMessageIdProvided,
            Error::ReactToMessageWith(e) => ErrorView::ReactToMessageWith(e@),
        }
    }
}

/// The error of `add_reaction` for an error in choosing the message.
pub open spec fn from_message_id_error(e: MessageIdErrorView) -> ErrorView {
    match e {
        MessageIdErrorView::MessageIdMustBeString(v) => ErrorView::MessageIdMustBeString(v),
        MessageIdErrorView::InvalidMessageId(t) => ErrorView::InvalidMessageId(t),
        MessageIdErrorView::NoLastMessageAvailableAndNoMessageIdProvided => ErrorView::NoLastMessageAvailableAndNoMessageIdProvided,
    }
}

/// What `add_reaction` asks for, given its options and the last message seen
/// on the channel: the emoji text of option `emoji` and the message to react
/// to. An error in `emoji` comes before one in choosing the message.
pub open spec fn request_spec(options: Seq<OptionView>, last_message_id: Option<u64>) -> Result<
    (Seq<char>, u64),
    ErrorView,
> {
    match find_option(options, OPTION_EMOJI@) {
        Some(Some(ValueView::Text(t))) => match message_id_spec(options, last_message_id) {
            Ok(n) => Ok((t, n)),
            Err(e) => Err(from_message_id_error(e)),
        },
        Some(Some(ValueView::Other(v))) => Err(ErrorView::EmojiMustBeProvidedInString(v)),
        _ => Err(ErrorView::RequiresEmoji),
    }
}

/// How an [`Error`] reads.
pub open spec fn error_text(e: ErrorView) -> Seq<char> {
    "add_reaction: "@ + match e {
        ErrorView::RequiresEmoji => "requires emoji"@,
        ErrorView::EmojiMustBeProvidedInString(v) => "emoji must be provided in a string, got `"@ + v + "`"@,
        ErrorView::MessageIdMustBeString(v) => "message id must be a string, got `"@ + v + "`"@,
        ErrorView::InvalidMessageId(t) => "invalid message id, got `"@ + t + "`"@,
        ErrorView::NoLastMessageAvailableAndNoMessageIdProvided => "no last message available and no message id provided"@,
        ErrorView::ReactToMessageWith(r) => react_error_text(r),
    }
}

impl Error {
    /// The error for an error in choosing the message.
    pub fn from_message_id_error(e: MessageIdError) -> (r: Error)
        ensures
            r@ == from_message_id_error(e@),
    {
        match e {
            MessageIdError::MessageIdMustBeString(v) => Error::MessageIdMustBeString(v),
            MessageIdError::InvalidMessageId(t) => Error::InvalidMessageId(t),
            MessageIdError::NoLastMessageAvailableAndNoMessageIdProvided => Error::NoLastMessageAvailableAndNoMessageIdProvided,
        }
    }

    /// How the error reads.
    pub fn message(&self) -> (r: String)
        ensures
            r@ == error_text(self@),
    {
        let mut s = String::from_str("add_reaction: ");
        match self {
            Error::RequiresEmoji => s.append("requires emoji"),
            Error::EmojiMustBeProvidedInString(v) => {
                s.append("emoji must be provided in a string, got `");
                s.append(v.as_str());
                s.append("`");
            },
            Error::MessageIdMustBeString(v) => {
                s.append("message id must be a string, got `");
                s.append(v.as_str());
                s.append("`");
            },
            Error::InvalidMessageId(t) => {
                s.append("invalid message id, got `");
                s.append(t.as_str());
                s.append("`");
            },
            Error::NoLastMessageAvailableAndNoMessageIdProvided => s.append(
                "no last message available and no message id provided",
            ),
            Error::ReactToMessageWith(e) => {
                let m = e.message();
                s.append(m.as_str());
            },
        }
        proof {
            assert(s@ =~= error_text(self@));
        }
        s
    }
}

impl From<ReactToMessageWithError> for Error {
    fn from(err: ReactToMessageWithError) -> (r: Error) {
        Error::ReactToMessageWith(err)
    }
}

impl vstd::std_specs::convert::FromSpecImpl<ReactToMessageWithError> for Error {
    open spec fn obeys_from_spec() -> bool {
        true
    }

    open spec fn from_spec(err: ReactToMessageWithError) -> Error {
        Error::ReactToMessageWith(err)
    }
}

impl AddReaction {
    /// What the command asks for, given its options and the last message seen
    /// on the channel of the interaction.
    pub fn request(options: &Vec<CommandOption>, last_message_id: Option<u64>) -> (r: Result<ReactionRequest, Error>)
        ensures
            request_spec(option_views(options@), last_message_id) == match r {
                Ok(q) => Ok((q.emojis@, q.message_id)),
                Err(e) => Err(e@),
            },
    {
        match option_value(options, OPTION_EMOJI) {
            Some(Some(OptionValue::Text(t))) => match message_id(options, last_message_id) {
                Ok(n) => Ok(ReactionRequest { emojis: t.clone(), message_id: n }),
                Err(e) => Err(Error::from_message_id_error(e)),
            },
            Some(Some(OptionValue::Other(v))) => Err(Error::EmojiMustBeProvidedInString(v.clone())),
            _ => Err(Error::RequiresEmoji),
        }
    }
}

} // verus!
