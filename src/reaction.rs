//! Reactions: a Unicode emoji or a custom emoji of a guild.

use vstd::prelude::*;

use serenity::model::channel::{ReactionConversionError, ReactionType};

use crate::text::{opt_string_view, push_char, str_eq};

verus! {

/// The error of serenity's reaction parsing.
#[verifier::external_type_specification]
#[verifier::external_body]
pub struct ExReactionConversionError(ReactionConversionError);

/// An emoji that can be attached to a message.
#[derive(Debug, Clone)]
pub enum Reaction {
    /// A custom emoji of a guild.
    Custom { animated: bool, id: u64, name: Option<String> },
    /// A Unicode emoji, held as its text.
    Unicode(String),
}

/// What a [`Reaction`] is, as plain values.
pub enum ReactionView {
    Custom { animated: bool, id: u64, name: Option<Seq<char>> },
    Unicode(Seq<char>),
}

impl View for Reaction {
    type V = ReactionView;

    open spec fn view(&self) -> ReactionView {
        match self {
            Reaction::Custom { animated, id, name } => ReactionView::Custom {
                animated: *animated,
                id: *id,
                name: opt_string_view(*name),
            },
            Reaction::Unicode(s) => ReactionView::Unicode(s@),
        }
    }
}

/// The custom emoji that serenity reads from text of the form `<...>`:
/// whether it is animated, its id and its name.
pub uninterp spec fn custom_reaction_of(s: Seq<char>) -> Option<(bool, u64, Seq<char>)>;

/// What parsing `s` as a reaction gives, as serenity's `ReactionType::try_from(&str)` does it.
pub open spec fn parse_reaction_spec(s: Seq<char>) -> Option<ReactionView> {
    if s.len() == 0 {
        None
    } else if !opens_custom(s) {
        Some(ReactionView::Unicode(s))
    } else if !closes_custom(s) {
        None
    } else {
        custom_parts_view(custom_reaction_of(s))
    }
}

/// Whether `s` starts as a custom emoji does, with `<`.
pub open spec fn opens_custom(s: Seq<char>) -> bool {
    s.len() > 0 && s[0] == '<'
}

/// Whether `s` ends as a custom emoji does, with `>`.
pub open spec fn closes_custom(s: Seq<char>) -> bool {
    s.len() > 0 && s.last() == '>'
}

/// The custom reaction made of the given parts.
pub open spec fn custom_parts_view(p: Option<(bool, u64, Seq<char>)>) -> Option<ReactionView> {
    match p {
        Some((animated, id, name)) => Some(ReactionView::Custom { animated, id, name: Some(name) }),
        None => None,
    }
}

/// Relies on serenity's `ReactionType::try_from(&str)`: empty text is refused;
/// text that does not start with `<` is the Unicode reaction of that text; text
/// that starts with `<` must end with `>` and then names a custom emoji.
#[verifier::external_body]
fn reaction_type_try_from(s: &str) -> (r: Result<Reaction, ReactionConversionError>)
    ensures
        (r is Ok) == (s@.len() > 0 && (!opens_custom(s@) || (closes_custom(s@) && custom_reaction_of(s@) is Some))),
        r matches Ok(x) ==> !opens_custom(s@) ==> x@ == ReactionView::Unicode(s@),
        r matches Ok(x) ==> opens_custom(s@) ==> Some(x@) == custom_parts_view(custom_reaction_of(s@)),
{
    match ReactionType::try_from(s) {
        Ok(ReactionType::Custom { animated, id, name }) => Ok(
            Reaction::Custom { animated, id: id.get(), name },
        ),
        Ok(ReactionType::Unicode(text)) => Ok(Reaction::Unicode(text)),
        Ok(_) => Err(ReactionConversionError),
        Err(e) => Err(e),
    }
}

/// The decimal digit of `d`.
pub open spec fn digit_char(d: nat) -> char {
    if d == 0 { '0' } else if d == 1 { '1' } else if d == 2 { '2' } else if d == 3 { '3' }
    else if d == 4 { '4' } else if d == 5 { '5' } else if d == 6 { '6' } else if d == 7 { '7' }
    else if d == 8 { '8' } else { '9' }
}

/// The decimal form of `n`, without leading zeros.
pub open spec fn decimal(n: nat) -> Seq<char>
    decreases n,
{
    if n < 10 {
        seq![digit_char(n)]
    } else {
        decimal(n / 10).push(digit_char(n % 10))
    }
}

/// Appends the decimal form of `n` to `s`.
pub fn push_decimal(s: &mut String, n: u64)
    ensures
        final(s)@ == old(s)@ + decimal(n as nat),
    decreases n,
{
    if n >= 10 {
        push_decimal(s, n / 10);
    }
    let d = n % 10;
    let c = if d == 0 { '0' } else if d == 1 { '1' } else if d == 2 { '2' } else if d == 3 { '3' }
    else if d == 4 { '4' } else if d == 5 { '5' } else if d == 6 { '6' } else if d == 7 { '7' }
    else if d == 8 { '8' } else { '9' };
    push_char(s, c);
    proof {
        if n >= 10 {
            assert(old(s)@ + decimal(n as nat) =~= old(s)@ + decimal((n / 10) as nat) + seq![c]);
        } else {
            assert(old(s)@ + decimal(n as nat) =~= old(s)@ + seq![c]);
        }
    }
}

/// How a reaction is written in a message: the Unicode text itself, or
/// `<:name:id>` (`<a:name:id>` when animated) for a custom emoji.
pub open spec fn reaction_text(r: ReactionView) -> Seq<char> {
    match r {
        ReactionView::Custom { animated, id, name } => (if animated {
            seq!['<', 'a', ':']
        } else {
            seq!['<', ':']
        }) + (match name {
            Some(n) => n,
            None => seq![],
        }) + seq![':'] + decimal(id as nat) + seq!['>'],
        ReactionView::Unicode(s) => s,
    }
}

impl Reaction {
    /// Parses a reaction from its text: a Unicode emoji, or `<:name:id>` /
    /// `<a:name:id>` for a custom emoji.
    pub fn parse(s: &str) -> (r: Option<Reaction>)
        ensures
            r is Some <==> parse_reaction_spec(s@) is Some,
            r matches Some(x) ==> parse_reaction_spec(s@) == Some(x@),
    {
        match reaction_type_try_from(s) {
            Ok(x) => Some(x),
            Err(_) => None,
        }
    }

    /// A copy of the reaction.
    pub fn cloned(&self) -> (r: Reaction)
        ensures
            r@ == self@,
    {
        match self {
            Reaction::Custom { animated, id, name } => Reaction::Custom {
                animated: *animated,
                id: *id,
                name: match name {
                    Some(n) => Some(n.clone()),
                    None => None,
                },
            },
            Reaction::Unicode(text) => Reaction::Unicode(text.clone()),
        }
    }

    /// Whether the two reactions are the same emoji.
    pub fn same_as(&self, other: &Reaction) -> (r: bool)
        ensures
            r == (self@ == other@),
    {
        match (self, other) {
            (
                Reaction::Custom { animated: a1, id: i1, name: n1 },
                Reaction::Custom { animated: a2, id: i2, name: n2 },
            ) => {
                let same_name = match (n1, n2) {
                    (Some(x), Some(y)) => str_eq(x.as_str(), y.as_str()),
                    (None, None) => true,
                    _ => false,
                };
                *a1 == *a2 && *i1 == *i2 && same_name
            },
            (Reaction::Unicode(x), Reaction::Unicode(y)) => str_eq(x.as_str(), y.as_str()),
            _ => false,
        }
    }

    /// How the reaction is written in a message.
    pub fn to_text(&self) -> (r: String)
        ensures
            r@ == reaction_text(self@),
    {
        match self {
            Reaction::Custom { animated, id, name } => {
                let mut s = String::new();
                if *animated {
                    s.append("<a:");
                } else {
                    s.append("<:");
                }
                proof {
                    reveal_strlit("<a:");
                    reveal_strlit("<:");
                }
                match name {
                    Some(n) => s.append(n.as_str()),
                    None => {},
                }
                push_char(&mut s, ':');
                push_decimal(&mut s, *id);
                push_char(&mut s, '>');
                proof {
                    let head = if *animated {
                        seq!['<', 'a', ':']
                    } else {
                        seq!['<', ':']
                    };
                    let nm = match self@ {
                        ReactionView::Custom { name, .. } => match name {
                            Some(n) => n,
                            None => seq![],
                        },
                        _ => seq![],
                    };
                    assert(s@ =~= head + nm + seq![':'] + decimal(*id as nat) + seq!['>']);
                }
                s
            },
            Reaction::Unicode(text) => text.clone(),
        }
    }
}

impl PartialEq for Reaction {
    fn eq(&self, other: &Reaction) -> (r: bool) {
        self.same_as(other)
    }
}

impl vstd::std_specs::cmp::PartialEqSpecImpl for Reaction {
    open spec fn obeys_eq_spec() -> bool {
        true
    }

    open spec fn eq_spec(&self, other: &Reaction) -> bool {
        self@ == other@
    }
}

} // verus!
