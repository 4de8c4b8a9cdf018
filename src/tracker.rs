//! The reactions that the bot added on a user's behalf, waiting for the user
//! to react with the same emoji.
//!
//! Each set is tracked under an id of its own. A user reaction that matches a
//! pending emoji of a set confirms it and takes it out of the set; a set whose
//! last emoji is confirmed leaves the tracker at once. When a set's timeout
//! fires, whatever is still pending is taken back and the user is told.

use vstd::prelude::*;

use crate::reaction::{push_decimal, decimal, reaction_text, Reaction, ReactionView};
use crate::text::join_with;

verus! {

/// Seconds that a user has to react before the bot takes its reactions back.
pub const REACTION_TIMEOUT_TIME_IN_SECONDS: u64 = 10;

/// Whether no emoji occurs twice in `s`.
pub open spec fn no_duplicates(s: Seq<ReactionView>) -> bool {
    forall|i: int, j: int| 0 <= i < j < s.len() ==> s[i] != s[j]
}

/// The views of a sequence of reactions.
pub open spec fn reaction_views(s: Seq<Reaction>) -> Seq<ReactionView> {
    s.map_values(|r: Reaction| r@)
}

/// `s` with its first occurrence of `r` taken out.
pub open spec fn without(s: Seq<ReactionView>, r: ReactionView) -> Seq<ReactionView>
    decreases s.len(),
{
    if s.len() == 0 {
        s
    } else if s[0] == r {
        s.drop_first()
    } else {
        seq![s[0]] + without(s.drop_first(), r)
    }
}

/// Reactions that the bot added to one message for one user.
pub struct BotAddedReactions {
    /// The channel of the message.
    pub channel_id: u64,
    /// The message that was reacted to.
    pub message_id: u64,
    /// The user on whose behalf the bot reacted.
    pub user_id: u64,
    /// The emoji still waiting for the user's own reaction, each once.
    pub reaction_types: Vec<Reaction>,
    /// When the set was made, in the caller's clock.
    pub creation_time: u64,
}

/// What a [`BotAddedReactions`] holds, as plain values.
pub struct PendingView {
    pub channel_id: u64,
    pub message_id: u64,
    pub user_id: u64,
    pub reactions: Seq<ReactionView>,
    pub creation_time: u64,
}

impl View for BotAddedReactions {
    type V = PendingView;

    open spec fn view(&self) -> PendingView {
        PendingView {
            channel_id: self.channel_id,
            message_id: self.message_id,
            user_id: self.user_id,
            reactions: reaction_views(self.reaction_types@),
            creation_time: self.creation_time,
        }
    }
}

/// The first index of `r` in `v`.
fn position_of(v: &Vec<Reaction>, r: &Reaction) -> (k: Option<usize>)
    ensures
        k matches Some(k) ==> k < v@.len() && v@[k as int]@ == r@ && forall|j: int|
            0 <= j < k ==> v@[j]@ != r@,
        k is None ==> forall|j: int| 0 <= j < v@.len() ==> v@[j]@ != r@,
{
    let mut i: usize = 0;
    while i < v.len()
        invariant
            i <= v@.len(),
            forall|j: int| 0 <= j < i ==> v@[j]@ != r@,
        decreases v@.len() - i,
    {
        if v[i].same_as(r) {
            return Some(i);
        }
        i = i + 1;
    }
    None
}

/// Taking out the first occurrence of `r` is removing it at its first index.
proof fn lemma_without_is_remove(s: Seq<ReactionView>, r: ReactionView, k: int)
    requires
        0 <= k < s.len(),
        s[k] == r,
        forall|j: int| 0 <= j < k ==> s[j] != r,
    ensures
        without(s, r) == s.remove(k),
    decreases k,
{
    if k == 0 {
        assert(s.drop_first() =~= s.remove(0));
    } else {
        lemma_without_is_remove(s.drop_first(), r, k - 1);
        assert(seq![s[0]] + s.drop_first().remove(k - 1) =~= s.remove(k));
    }
}

impl BotAddedReactions {
    /// An empty set of reactions for `user_id` on message `message_id` of
    /// channel `channel_id`, made at `creation_time`.
    pub fn new(channel_id: u64, message_id: u64, user_id: u64, creation_time: u64) -> (r: Self)
        ensures
            r@ == (PendingView {
                channel_id,
                message_id,
                user_id,
                reactions: seq![],
                creation_time,
            }),
    {
        let r = BotAddedReactions {
            channel_id,
            message_id,
            user_id,
            reaction_types: Vec::new(),
            creation_time,
        };
        proof {
            assert(reaction_views(r.reaction_types@) =~= seq![]);
        }
        r
    }

    /// Whether `reaction` is in the set.
    pub fn contains(&self, reaction: &Reaction) -> (r: bool)
        ensures
            r == self@.reactions.contains(reaction@),
    {
        match position_of(&self.reaction_types, reaction) {
            Some(k) => {
                proof {
                    assert(self@.reactions[k as int] == reaction@);
                }
                true
            },
            None => {
                proof {
                    if self@.reactions.contains(reaction@) {
                        let j = choose|j: int|
                            0 <= j < self@.reactions.len() && self@.reactions[j] == reaction@;
                        assert(self.reaction_types@[j]@ == reaction@);
                    }
                }
                false
            },
        }
    }

    /// Adds `reaction` to the set; adding one that is there already changes nothing.
    pub fn insert(&mut self, reaction: Reaction)
        requires
            no_duplicates(old(self)@.reactions),
        ensures
            no_duplicates(final(self)@.reactions),
            final(self)@.reactions == if old(self)@.reactions.contains(reaction@) {
                old(self)@.reactions
            } else {
                old(self)@.reactions.push(reaction@)
            },
            final(self)@.channel_id == old(self)@.channel_id,
            final(self)@.message_id == old(self)@.message_id,
            final(self)@.user_id == old(self)@.user_id,
            final(self)@.creation_time == old(self)@.creation_time,
    {
        if !self.contains(&reaction) {
            let ghost rv = reaction@;
            self.reaction_types.push(reaction);
            proof {
                assert(reaction_views(self.reaction_types@) =~= old(self)@.reactions.push(rv));
            }
        }
    }

    /// The number of pending reactions.
    pub fn len(&self) -> (r: usize)
        ensures
            r == self@.reactions.len(),
    {
        self.reaction_types.len()
    }

    /// Whether no reaction is pending.
    pub fn is_empty(&self) -> (r: bool)
        ensures
            r == (self@.reactions.len() == 0),
    {
        self.reaction_types.len() == 0
    }
}

/// One tracked set: its id, its guild and its reactions.
pub struct TrackedReactions {
    /// The id under which the tracker knows the set.
    pub id: u64,
    /// The guild of the message.
    pub guild_id: u64,
    /// The set itself.
    pub reactions: BotAddedReactions,
}

/// What a [`TrackedReactions`] holds, as plain values.
pub struct EntryView {
    pub id: u64,
    pub guild_id: u64,
    pub pending: PendingView,
}

impl View for TrackedReactions {
    type V = EntryView;

    open spec fn view(&self) -> EntryView {
        EntryView { id: self.id, guild_id: self.guild_id, pending: self.reactions@ }
    }
}

/// What a [`ReactionTracker`] holds: the id the next set gets, and the live sets
/// in the order they came.
pub struct TrackerView {
    pub next_id: u64,
    pub entries: Seq<EntryView>,
}

/// The invariant of the tracker: ids are below the next id and distinct, and
/// every live set has at least one pending emoji, none twice.
pub open spec fn tracker_wf(t: TrackerView) -> bool {
    &&& forall|i: int| 0 <= i < t.entries.len() ==> #[trigger] t.entries[i].id < t.next_id
    &&& forall|i: int| 0 <= i < t.entries.len() ==> #[trigger] t.entries[i].pending.reactions.len() > 0
    &&& forall|i: int| 0 <= i < t.entries.len() ==> no_duplicates(#[trigger] t.entries[i].pending.reactions)
    &&& forall|i: int, j: int| 0 <= i < j < t.entries.len() ==> t.entries[i].id != t.entries[j].id
}

/// Whether the tracker holds a set with id `id`.
pub open spec fn has_entry(t: TrackerView, id: u64) -> bool {
    exists|i: int| 0 <= i < t.entries.len() && t.entries[i].id == id
}

/// Tracking `p` in guild `guild_id`: it gets the next id, unless it is empty or
/// the ids are used up.
pub open spec fn track_spec(t: TrackerView, guild_id: u64, p: PendingView) -> (TrackerView, Option<u64>) {
    if p.reactions.len() == 0 || t.next_id == u64::MAX {
        (t, None)
    } else {
        (
            TrackerView {
                next_id: (t.next_id + 1) as u64,
                entries: t.entries.push(EntryView { id: t.next_id, guild_id, pending: p }),
            },
            Some(t.next_id),
        )
    }
}

/// Whether a reaction of `user_id` with `r` on message `message_id` of channel
/// `channel_id` in guild `guild_id` confirms a pending emoji of `e`.
pub open spec fn event_matches(
    e: EntryView,
    guild_id: u64,
    channel_id: u64,
    message_id: u64,
    user_id: u64,
    r: ReactionView,
) -> bool {
    &&& e.guild_id == guild_id
    &&& e.pending.channel_id == channel_id
    &&& e.pending.message_id == message_id
    &&& e.pending.user_id == user_id
    &&& e.pending.reactions.contains(r)
}

/// Whether the set at index `i` is the first that the reaction matches.
pub open spec fn is_first_match(
    entries: Seq<EntryView>,
    i: int,
    guild_id: u64,
    channel_id: u64,
    message_id: u64,
    user_id: u64,
    r: ReactionView,
) -> bool {
    &&& 0 <= i < entries.len()
    &&& event_matches(entries[i], guild_id, channel_id, message_id, user_id, r)
    &&& forall|j: int|
        0 <= j < i ==> !event_matches(#[trigger] entries[j], guild_id, channel_id, message_id, user_id, r)
}

/// A user's reaction: the first set that it matches loses that emoji, and
/// leaves the tracker when nothing is left pending. Also whether a set matched.
pub open spec fn confirm_spec(
    t: TrackerView,
    guild_id: u64,
    channel_id: u64,
    message_id: u64,
    user_id: u64,
    r: ReactionView,
) -> (TrackerView, bool) {
    if exists|i: int| is_first_match(t.entries, i, guild_id, channel_id, message_id, user_id, r) {
        let i = choose|i: int| is_first_match(t.entries, i, guild_id, channel_id, message_id, user_id, r);
        let e = t.entries[i];
        let rest = without(e.pending.reactions, r);
        if rest.len() == 0 {
            (TrackerView { next_id: t.next_id, entries: t.entries.remove(i) }, true)
        } else {
            (
                TrackerView {
                    next_id: t.next_id,
                    entries: t.entries.update(
                        i,
                        EntryView {
                            id: e.id,
                            guild_id: e.guild_id,
                            pending: PendingView { reactions: rest, ..e.pending },
                        },
                    ),
                },
                true,
            )
        }
    } else {
        (t, false)
    }
}

/// The timeout of set `id`: it leaves the tracker, and is handed back if it was there.
pub open spec fn expire_spec(t: TrackerView, id: u64) -> (TrackerView, Option<EntryView>) {
    if has_entry(t, id) {
        let i = choose|i: int| 0 <= i < t.entries.len() && t.entries[i].id == id;
        (TrackerView { next_id: t.next_id, entries: t.entries.remove(i) }, Some(t.entries[i]))
    } else {
        (t, None)
    }
}

/// Tracks the sets of reactions of all guilds.
pub struct ReactionTracker {
    next_id: u64,
    entries: Vec<TrackedReactions>,
}

impl View for ReactionTracker {
    type V = TrackerView;

    closed spec fn view(&self) -> TrackerView {
        TrackerView { next_id: self.next_id, entries: self.entries@.map_values(|e: TrackedReactions| e@) }
    }
}

impl ReactionTracker {
    /// The invariant of the tracker.
    pub open spec fn wf(&self) -> bool {
        tracker_wf(self@)
    }

    /// A tracker with no sets.
    pub fn new() -> (r: Self)
        ensures
            r.wf(),
            r@.entries.len() == 0,
            r@.next_id == 0,
    {
        let r = ReactionTracker { next_id: 0, entries: Vec::new() };
        proof {
            assert(r@.entries =~= seq![]);
        }
        r
    }

    /// The number of live sets.
    pub fn len(&self) -> (r: usize)
        ensures
            r == self@.entries.len(),
    {
        self.entries.len()
    }

    /// Starts tracking `reactions`, added in guild `guild_id`; returns its id.
    /// An empty set is not tracked, nor any set once the ids are used up.
    pub fn track(&mut self, guild_id: u64, reactions: BotAddedReactions) -> (r: Option<u64>)
        requires
            old(self).wf(),
            no_duplicates(reactions@.reactions),
        ensures
            final(self).wf(),
            (final(self)@, r) == track_spec(old(self)@, guild_id, reactions@),
    {
        if reactions.is_empty() || self.next_id == u64::MAX {
            return None;
        }
        let id = self.next_id;
        let ghost p = reactions@;
        self.entries.push(TrackedReactions { id, guild_id, reactions });
        self.next_id = self.next_id + 1;
        proof {
            assert(self@.entries =~= old(self)@.entries.push(EntryView { id, guild_id, pending: p }));
        }
        Some(id)
    }

    /// A reaction of `user_id` with `reaction` on message `message_id` of channel
    /// `channel_id` in guild `guild_id`. Returns whether it confirmed a pending
    /// emoji, in which case the bot's own reaction can go.
    pub fn confirm(
        &mut self,
        guild_id: u64,
        channel_id: u64,
        message_id: u64,
        user_id: u64,
        reaction: &Reaction,
    ) -> (r: bool)
        requires
            old(self).wf(),
        ensures
            final(self).wf(),
            (final(self)@, r) == confirm_spec(old(self)@, guild_id, channel_id, message_id, user_id, reaction@),
    {
        let ghost t = self@;
        let ghost rv = reaction@;
        let mut i: usize = 0;
        while i < self.entries.len()
            invariant
                self@ == t,
                t == old(self)@,
                rv == reaction@,
                tracker_wf(t),
                i <= t.entries.len(),
                forall|j: int|
                    0 <= j < i ==> !event_matches(#[trigger] t.entries[j], guild_id, channel_id, message_id, user_id, rv),
            decreases t.entries.len() - i,
        {
            let e = &self.entries[i];
            proof {
                assert(t.entries[i as int] == e@);
            }
            if e.guild_id == guild_id && e.reactions.channel_id == channel_id
                && e.reactions.message_id == message_id && e.reactions.user_id == user_id {
                match position_of(&e.reactions.reaction_types, reaction) {
                    Some(k) => {
                        proof {
                            assert(reaction_views(e.reactions.reaction_types@)[k as int]
                                == e.reactions.reaction_types@[k as int]@);
                            assert(is_first_match(t.entries, i as int, guild_id, channel_id, message_id, user_id, rv));
                            let c = choose|c: int| is_first_match(t.entries, c, guild_id, channel_id, message_id, user_id, rv);
                            if c < i {
                                assert(!event_matches(t.entries[c], guild_id, channel_id, message_id, user_id, rv));
                            }
                            if c > i {
                                assert(!event_matches(t.entries[i as int], guild_id, channel_id, message_id, user_id, rv));
                            }
                            assert(c == i);
                            lemma_without_is_remove(e@.pending.reactions, rv, k as int);
                        }
                        let mut entry = self.entries.remove(i);
                        let ghost before = entry@;
                        let _gone = entry.reactions.reaction_types.remove(k);
                        proof {
                            assert(entry@.pending.reactions =~= before.pending.reactions.remove(k as int));
                        }
                        if entry.reactions.reaction_types.len() > 0 {
                            let ghost ev = entry@;
                            self.entries.insert(i, entry);
                            proof {
                                assert(self@.entries =~= t.entries.update(i as int, ev));
                                assert(ev == (EntryView {
                                    id: before.id,
                                    guild_id: before.guild_id,
                                    pending: PendingView { reactions: without(before.pending.reactions, rv), ..before.pending },
                                }));
                            }
                        } else {
                            proof {
                                assert(self@.entries =~= t.entries.remove(i as int));
                            }
                        }
                        proof {
                            lemma_confirm_keeps_wf(t, guild_id, channel_id, message_id, user_id, rv);
                        }
                        return true;
                    },
                    None => {
                        proof {
                            if e@.pending.reactions.contains(rv) {
                                let j = choose|j: int| 0 <= j < e@.pending.reactions.len() && e@.pending.reactions[j] == rv;
                                assert(e.reactions.reaction_types@[j]@ == rv);
                            }
                        }
                    },
                }
            }
            i = i + 1;
        }
        false
    }

    /// The timeout of set `id` fired: the set leaves the tracker and is handed
    /// back, or `None` if it had left already.
    pub fn expire(&mut self, id: u64) -> (r: Option<TrackedReactions>)
        requires
            old(self).wf(),
        ensures
            final(self).wf(),
            final(self)@ == expire_spec(old(self)@, id).0,
            match r {
                Some(e) => expire_spec(old(self)@, id).1 == Some(e@),
                None => expire_spec(old(self)@, id).1 is None,
            },
    {
        let ghost t = self@;
        let mut i: usize = 0;
        while i < self.entries.len()
            invariant
                self@ == t,
                t == old(self)@,
                tracker_wf(t),
                i <= t.entries.len(),
                forall|j: int| 0 <= j < i ==> t.entries[j].id != id,
            decreases t.entries.len() - i,
        {
            if self.entries[i].id == id {
                proof {
                    assert(t.entries[i as int].id == id);
                    let c = choose|c: int| 0 <= c < t.entries.len() && t.entries[c].id == id;
                    if c != i {
                        if c < i {
                            assert(t.entries[c].id != t.entries[i as int].id);
                        } else {
                            assert(t.entries[i as int].id != t.entries[c].id);
                        }
                    }
                }
                proof {
                    assert(t.entries[i as int] == self.entries@[i as int]@);
                }
                let e = self.entries.remove(i);
                proof {
                    assert(e@ == t.entries[i as int]);
                    assert(self@.entries =~= t.entries.remove(i as int));
                    assert forall|a: int, b: int| 0 <= a < b < self@.entries.len() implies self@.entries[a].id
                        != self@.entries[b].id by {
                        let a2 = if a < i { a } else { a + 1 };
                        let b2 = if b < i { b } else { b + 1 };
                        assert(self@.entries[a] == t.entries[a2]);
                        assert(self@.entries[b] == t.entries[b2]);
                    }
                    assert forall|a: int| 0 <= a < self@.entries.len() implies no_duplicates(
                        #[trigger] self@.entries[a].pending.reactions,
                    ) by {
                        let a2 = if a < i { a } else { a + 1 };
                        assert(self@.entries[a] == t.entries[a2]);
                    }
                }
                return Some(e);
            }
            i = i + 1;
        }
        None
    }
}

/// The message that tells a user which reactions were taken back.
pub open spec fn removal_notice_spec(p: PendingView) -> Seq<char> {
    "Removed reactions \""@ + join_with(p.reactions.map_values(|r: ReactionView| reaction_text(r)), ", "@)
        + "\" for message `"@ + decimal(p.message_id as nat) + "` since you did **not** react within "@
        + decimal(REACTION_TIMEOUT_TIME_IN_SECONDS as nat) + " seconds."@
}

/// What the bot does when a set times out.
#[derive(Debug)]
pub enum TimeoutAction {
    /// Take back the bot's own `reaction` from message `message_id` of channel `channel_id`.
    RemoveReaction { channel_id: u64, message_id: u64, reaction: Reaction },
    /// Send `message` to user `user_id`.
    NotifyUser { user_id: u64, message: String },
}

/// What a [`TimeoutAction`] is, as plain values.
pub enum ActionView {
    RemoveReaction { channel_id: u64, message_id: u64, reaction: ReactionView },
    NotifyUser { user_id: u64, message: Seq<char> },
}

impl View for TimeoutAction {
    type V = ActionView;

    open spec fn view(&self) -> ActionView {
        match self {
            TimeoutAction::RemoveReaction { channel_id, message_id, reaction } => ActionView::RemoveReaction {
                channel_id: *channel_id,
                message_id: *message_id,
                reaction: reaction@,
            },
            TimeoutAction::NotifyUser { user_id, message } => ActionView::NotifyUser {
                user_id: *user_id,
                message: message@,
            },
        }
    }
}

/// The views of a sequence of actions.
pub open spec fn action_views(s: Seq<TimeoutAction>) -> Seq<ActionView> {
    s.map_values(|a: TimeoutAction| a@)
}

/// The actions for a set that timed out: one removal for each pending emoji,
/// in order, then one notice to the user.
pub open spec fn timeout_actions_spec(p: PendingView) -> Seq<ActionView> {
    p.reactions.map_values(
        |r: ReactionView|
            ActionView::RemoveReaction { channel_id: p.channel_id, message_id: p.message_id, reaction: r },
    ).push(ActionView::NotifyUser { user_id: p.user_id, message: removal_notice_spec(p) })
}

/// A timeout of set `id`: the tracker after it, and the actions to take.
pub open spec fn on_timeout_spec(t: TrackerView, id: u64) -> (TrackerView, Seq<ActionView>) {
    match expire_spec(t, id).1 {
        Some(e) => (expire_spec(t, id).0, timeout_actions_spec(e.pending)),
        None => (expire_spec(t, id).0, seq![]),
    }
}

/// The message that tells the user of `p` which reactions were taken back.
pub fn removal_notice(p: &BotAddedReactions) -> (r: String)
    ensures
        r@ == removal_notice_spec(p@),
{
    let mut list = String::new();
    let ghost texts = p@.reactions.map_values(|r: ReactionView| reaction_text(r));
    let mut i: usize = 0;
    while i < p.reaction_types.len()
        invariant
            i <= p@.reactions.len(),
            texts == p@.reactions.map_values(|r: ReactionView| reaction_text(r)),
            list@ == join_with(texts.subrange(0, i as int), ", "@),
        decreases p@.reactions.len() - i,
    {
        let t = p.reaction_types[i].to_text();
        proof {
            assert(p@.reactions[i as int] == p.reaction_types@[i as int]@);
            assert(texts.subrange(0, i + 1).drop_last() =~= texts.subrange(0, i as int));
            assert(texts.subrange(0, i + 1).last() == t@);
        }
        if i > 0 {
            list.append(", ");
        }
        list.append(t.as_str());
        proof {
            if i == 0 {
                assert(list@ =~= join_with(texts.subrange(0, 1), ", "@));
            }
        }
        i = i + 1;
    }
    proof {
        assert(texts.subrange(0, i as int) =~= texts);
    }
    let mut s = String::new();
    s.append("Removed reactions \"");
    s.append(list.as_str());
    s.append("\" for message `");
    push_decimal(&mut s, p.message_id);
    s.append("` since you did **not** react within ");
    push_decimal(&mut s, REACTION_TIMEOUT_TIME_IN_SECONDS);
    s.append(" seconds.");
    proof {
        assert(s@ =~= removal_notice_spec(p@));
    }
    s
}

/// The actions for a set that timed out.
pub fn timeout_actions(p: &BotAddedReactions) -> (r: Vec<TimeoutAction>)
    ensures
        action_views(r@) == timeout_actions_spec(p@),
{
    let mut r: Vec<TimeoutAction> = Vec::new();
    let mut i: usize = 0;
    while i < p.reaction_types.len()
        invariant
            i <= p@.reactions.len(),
            r@.len() == i,
            action_views(r@) =~= timeout_actions_spec(p@).subrange(0, i as int),
        decreases p@.reactions.len() - i,
    {
        let reaction = p.reaction_types[i].cloned();
        proof {
            assert(p@.reactions[i as int] == p.reaction_types@[i as int]@);
        }
        let ghost old_r = r@;
        r.push(TimeoutAction::RemoveReaction {
            channel_id: p.channel_id,
            message_id: p.message_id,
            reaction,
        });
        proof {
            let removals = p@.reactions.map_values(
                |x: ReactionView|
                    ActionView::RemoveReaction { channel_id: p.channel_id, message_id: p.message_id, reaction: x },
            );
            assert(removals[i as int] == ActionView::RemoveReaction {
                channel_id: p.channel_id,
                message_id: p.message_id,
                reaction: p@.reactions[i as int],
            });
            assert(timeout_actions_spec(p@)[i as int] == removals[i as int]);
            assert(r@[i as int]@ == removals[i as int]);
            assert forall|j: int| 0 <= j < i implies action_views(r@)[j] == action_views(old_r)[j] by {
                assert(r@[j] == old_r[j]);
            }
            assert(action_views(r@) =~= timeout_actions_spec(p@).subrange(0, i + 1));
        }
        i = i + 1;
    }
    let message = removal_notice(p);
    let ghost before = r@;
    r.push(TimeoutAction::NotifyUser { user_id: p.user_id, message });
    proof {
        let spec = timeout_actions_spec(p@);
        assert(action_views(r@)[i as int] == spec[i as int]);
        assert forall|j: int| 0 <= j < i implies action_views(r@)[j] == spec[j] by {
            assert(r@[j] == before[j]);
            assert(action_views(before)[j] == spec.subrange(0, i as int)[j]);
        }
        assert(action_views(r@) =~= spec);
    }
    r
}

impl ReactionTracker {
    /// The timeout of set `id` fired: the set leaves the tracker, and the
    /// actions that take its pending emoji back are returned; none if the set
    /// had left already.
    pub fn time_out(&mut self, id: u64) -> (r: Vec<TimeoutAction>)
        requires
            old(self).wf(),
        ensures
            final(self).wf(),
            final(self)@ == on_timeout_spec(old(self)@, id).0,
            action_views(r@) == on_timeout_spec(old(self)@, id).1,
    {
        match self.expire(id) {
            Some(e) => timeout_actions(&e.reactions),
            None => {
                let r: Vec<TimeoutAction> = Vec::new();
                proof {
                    assert(action_views(r@) =~= seq![]);
                }
                r
            },
        }
    }
}

/// A user's reaction to a message, as the tracker sees it.
pub struct UserReaction {
    pub guild_id: u64,
    pub channel_id: u64,
    pub message_id: u64,
    pub user_id: u64,
    pub reaction: ReactionView,
}

/// The tracker after the user reactions `events`, in order.
pub open spec fn confirm_all(t: TrackerView, events: Seq<UserReaction>) -> TrackerView
    decreases events.len(),
{
    if events.len() == 0 {
        t
    } else {
        let e = events[0];
        confirm_all(
            confirm_spec(t, e.guild_id, e.channel_id, e.message_id, e.user_id, e.reaction).0,
            events.drop_first(),
        )
    }
}

/// Taking a pending emoji out of a set without duplicates shortens it by one
/// and keeps it without duplicates.
proof fn lemma_without_pending(s: Seq<ReactionView>, r: ReactionView)
    requires
        no_duplicates(s),
        s.contains(r),
    ensures
        without(s, r).len() == s.len() - 1,
        no_duplicates(without(s, r)),
{
    let k = choose|k: int| 0 <= k < s.len() && s[k] == r;
    assert forall|j: int| 0 <= j < k implies s[j] != r by {
        assert(s[j] != s[k]);
    }
    lemma_without_is_remove(s, r, k);
    let w = s.remove(k);
    assert forall|a: int, b: int| 0 <= a < b < w.len() implies w[a] != w[b] by {
        let a2 = if a < k { a } else { a + 1 };
        let b2 = if b < k { b } else { b + 1 };
        assert(w[a] == s[a2]);
        assert(w[b] == s[b2]);
    }
}

/// A user's reaction keeps the tracker's invariant.
proof fn lemma_confirm_keeps_wf(
    t: TrackerView,
    guild_id: u64,
    channel_id: u64,
    message_id: u64,
    user_id: u64,
    r: ReactionView,
)
    requires
        tracker_wf(t),
    ensures
        tracker_wf(confirm_spec(t, guild_id, channel_id, message_id, user_id, r).0),
{
    if exists|i: int| is_first_match(t.entries, i, guild_id, channel_id, message_id, user_id, r) {
        let i = choose|i: int| is_first_match(t.entries, i, guild_id, channel_id, message_id, user_id, r);
        let e = t.entries[i];
        lemma_without_pending(e.pending.reactions, r);
        let t2 = confirm_spec(t, guild_id, channel_id, message_id, user_id, r).0;
        if without(e.pending.reactions, r).len() == 0 {
            assert(t2.entries == t.entries.remove(i));
            assert forall|a: int, b: int| 0 <= a < b < t2.entries.len() implies t2.entries[a].id
                != t2.entries[b].id by {
                let a2 = if a < i { a } else { a + 1 };
                let b2 = if b < i { b } else { b + 1 };
                assert(t2.entries[a] == t.entries[a2]);
                assert(t2.entries[b] == t.entries[b2]);
            }
            assert forall|a: int| 0 <= a < t2.entries.len() implies {
                &&& #[trigger] t2.entries[a].id < t2.next_id
                &&& t2.entries[a].pending.reactions.len() > 0
                &&& no_duplicates(t2.entries[a].pending.reactions)
            } by {
                let a2 = if a < i { a } else { a + 1 };
                assert(t2.entries[a] == t.entries[a2]);
            }
        } else {
            assert forall|a: int, b: int| 0 <= a < b < t2.entries.len() implies t2.entries[a].id
                != t2.entries[b].id by {
                assert(t2.entries[a].id == t.entries[a].id);
                assert(t2.entries[b].id == t.entries[b].id);
            }
            assert forall|a: int| 0 <= a < t2.entries.len() implies {
                &&& #[trigger] t2.entries[a].id < t2.next_id
                &&& t2.entries[a].pending.reactions.len() > 0
                &&& no_duplicates(t2.entries[a].pending.reactions)
            } by {
                if a != i {
                    assert(t2.entries[a] == t.entries[a]);
                }
            }
        }
    }
}

/// A set whose user confirmed every pending emoji times out quietly: after any
/// user reactions every set still tracked has an emoji pending, so a set whose
/// pending emoji are all confirmed has left the tracker; confirming the last
/// one takes it out; and the timeout of a set that has left changes nothing,
/// removes no reaction and notifies nobody.
pub proof fn lemma_confirmed_set_times_out_quietly(t: TrackerView, events: Seq<UserReaction>, id: u64)
    requires
        tracker_wf(t),
    ensures
        tracker_wf(confirm_all(t, events)),
        forall|i: int, g: u64, c: u64, m: u64, u: u64, r: ReactionView|
            #![trigger is_first_match(t.entries, i, g, c, m, u, r)]
            is_first_match(t.entries, i, g, c, m, u, r) && t.entries[i].pending.reactions == seq![r]
                ==> !has_entry(confirm_spec(t, g, c, m, u, r).0, t.entries[i].id),
        !has_entry(confirm_all(t, events), id) ==> on_timeout_spec(confirm_all(t, events), id) == (
            confirm_all(t, events),
            Seq::<ActionView>::empty(),
        ),
    decreases events.len(),
{
    assert forall|i: int, g: u64, c: u64, m: u64, u: u64, r: ReactionView|
        #![trigger is_first_match(t.entries, i, g, c, m, u, r)]
        is_first_match(t.entries, i, g, c, m, u, r) && t.entries[i].pending.reactions == seq![r]
            implies !has_entry(confirm_spec(t, g, c, m, u, r).0, t.entries[i].id) by {
        let k = choose|k: int| is_first_match(t.entries, k, g, c, m, u, r);
        if k != i {
            if k < i {
                assert(!event_matches(t.entries[k], g, c, m, u, r));
            } else {
                assert(!event_matches(t.entries[i], g, c, m, u, r));
            }
        }
        assert(without(seq![r], r) =~= seq![]);
        let t2 = confirm_spec(t, g, c, m, u, r).0;
        assert(t2.entries == t.entries.remove(i));
        if has_entry(t2, t.entries[i].id) {
            let a = choose|a: int| 0 <= a < t2.entries.len() && t2.entries[a].id == t.entries[i].id;
            let a2 = if a < i { a } else { a + 1 };
            assert(t2.entries[a] == t.entries[a2]);
        }
    }
    if events.len() > 0 {
        let e = events[0];
        lemma_confirm_keeps_wf(t, e.guild_id, e.channel_id, e.message_id, e.user_id, e.reaction);
        lemma_confirmed_set_times_out_quietly(
            confirm_spec(t, e.guild_id, e.channel_id, e.message_id, e.user_id, e.reaction).0,
            events.drop_first(),
            id,
        );
    }
}

/// Whether the tracker holds the set `e`, as it is.
pub open spec fn holds_entry(t: TrackerView, e: EntryView) -> bool {
    exists|k: int| 0 <= k < t.entries.len() && t.entries[k] == e
}

/// A user reaction that does not match a set leaves that set as it is.
proof fn lemma_confirm_keeps_untouched(
    t: TrackerView,
    guild_id: u64,
    channel_id: u64,
    message_id: u64,
    user_id: u64,
    r: ReactionView,
    e: EntryView,
)
    requires
        tracker_wf(t),
        holds_entry(t, e),
        !event_matches(e, guild_id, channel_id, message_id, user_id, r),
    ensures
        holds_entry(confirm_spec(t, guild_id, channel_id, message_id, user_id, r).0, e),
{
    let k = choose|k: int| 0 <= k < t.entries.len() && t.entries[k] == e;
    if exists|i: int| is_first_match(t.entries, i, guild_id, channel_id, message_id, user_id, r) {
        let i = choose|i: int| is_first_match(t.entries, i, guild_id, channel_id, message_id, user_id, r);
        assert(i != k);
        let t2 = confirm_spec(t, guild_id, channel_id, message_id, user_id, r).0;
        if without(t.entries[i].pending.reactions, r).len() == 0 {
            let k2 = if k < i { k } else { k - 1 };
            assert(t2.entries[k2] == e);
        } else {
            assert(t2.entries[k] == e);
        }
    }
}

/// User reactions none of which matches set `e` leave it as it is, and keep
/// the tracker's invariant.
proof fn lemma_confirm_all_keeps_untouched(t: TrackerView, events: Seq<UserReaction>, e: EntryView)
    requires
        tracker_wf(t),
        holds_entry(t, e),
        forall|j: int|
            0 <= j < events.len() ==> !event_matches(
                e,
                #[trigger] events[j].guild_id,
                events[j].channel_id,
                events[j].message_id,
                events[j].user_id,
                events[j].reaction,
            ),
    ensures
        tracker_wf(confirm_all(t, events)),
        holds_entry(confirm_all(t, events), e),
    decreases events.len(),
{
    if events.len() > 0 {
        let ev = events[0];
        assert(!event_matches(e, events[0].guild_id, ev.channel_id, ev.message_id, ev.user_id, ev.reaction));
        lemma_confirm_keeps_wf(t, ev.guild_id, ev.channel_id, ev.message_id, ev.user_id, ev.reaction);
        lemma_confirm_keeps_untouched(t, ev.guild_id, ev.channel_id, ev.message_id, ev.user_id, ev.reaction, e);
        let rest = events.drop_first();
        assert forall|j: int| 0 <= j < rest.len() implies !event_matches(
            e,
            #[trigger] rest[j].guild_id,
            rest[j].channel_id,
            rest[j].message_id,
            rest[j].user_id,
            rest[j].reaction,
        ) by {
            assert(rest[j] == events[j + 1]);
        }
        lemma_confirm_all_keeps_untouched(
            confirm_spec(t, ev.guild_id, ev.channel_id, ev.message_id, ev.user_id, ev.reaction).0,
            rest,
            e,
        );
    }
}

/// A set that nobody confirmed is taken back whole when its timeout fires:
/// once tracked, whatever user reactions come that match none of its emoji,
/// its timeout gives one removal for each of its emoji, in order, then one
/// notice to its user.
pub proof fn lemma_untouched_set_times_out_fully(
    t: TrackerView,
    guild_id: u64,
    p: PendingView,
    events: Seq<UserReaction>,
)
    requires
        tracker_wf(t),
        t.next_id < u64::MAX,
        p.reactions.len() > 0,
        no_duplicates(p.reactions),
        forall|j: int|
            0 <= j < events.len() ==> !event_matches(
                EntryView { id: t.next_id, guild_id, pending: p },
                #[trigger] events[j].guild_id,
                events[j].channel_id,
                events[j].message_id,
                events[j].user_id,
                events[j].reaction,
            ),
    ensures
        track_spec(t, guild_id, p).1 == Some(t.next_id),
        on_timeout_spec(confirm_all(track_spec(t, guild_id, p).0, events), t.next_id).1 == timeout_actions_spec(p),
        timeout_actions_spec(p).len() == p.reactions.len() + 1,
        forall|j: int|
            0 <= j < p.reactions.len() ==> #[trigger] timeout_actions_spec(p)[j] == (ActionView::RemoveReaction {
                channel_id: p.channel_id,
                message_id: p.message_id,
                reaction: p.reactions[j],
            }),
        timeout_actions_spec(p).last() == (ActionView::NotifyUser {
            user_id: p.user_id,
            message: removal_notice_spec(p),
        }),
{
    let e = EntryView { id: t.next_id, guild_id, pending: p };
    let t1 = track_spec(t, guild_id, p).0;
    let n = t.entries.len() as int;
    assert(t1.entries[n] == e);
    assert forall|a: int, b: int| 0 <= a < b < t1.entries.len() implies t1.entries[a].id != t1.entries[b].id by {
        if b == n {
            assert(t1.entries[a] == t.entries[a]);
        } else {
            assert(t1.entries[a] == t.entries[a]);
            assert(t1.entries[b] == t.entries[b]);
        }
    }
    assert forall|a: int| 0 <= a < t1.entries.len() implies {
        &&& #[trigger] t1.entries[a].id < t1.next_id
        &&& t1.entries[a].pending.reactions.len() > 0
        &&& no_duplicates(t1.entries[a].pending.reactions)
    } by {
        if a < n {
            assert(t1.entries[a] == t.entries[a]);
        }
    }
    lemma_confirm_all_keeps_untouched(t1, events, e);
    let t2 = confirm_all(t1, events);
    let k = choose|k: int| 0 <= k < t2.entries.len() && t2.entries[k] == e;
    assert(has_entry(t2, e.id));
    let c = choose|c: int| 0 <= c < t2.entries.len() && t2.entries[c].id == e.id;
    if c != k {
        if c < k {
            assert(t2.entries[c].id != t2.entries[k].id);
        } else {
            assert(t2.entries[k].id != t2.entries[c].id);
        }
    }
}

} // verus!
