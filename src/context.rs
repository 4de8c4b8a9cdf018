//! The state that the bot keeps between events: the last message seen on each
//! channel, and the custom emoji of each guild with their listing.

use vstd::prelude::*;

use std::collections::HashMap;

use crate::commands::ListCustomEmojis;
use crate::reaction::{decimal, push_decimal};
use crate::text::{chars_of, join_with, push_char, str_eq};

verus! {

broadcast use vstd::std_specs::hash::group_hash_axioms;

/// The last message seen on each channel.
pub struct LastMessages {
    ids: HashMap<u64, u64>,
}

impl View for LastMessages {
    type V = Map<u64, u64>;

    closed spec fn view(&self) -> Map<u64, u64> {
        self.ids@
    }
}

impl LastMessages {
    /// No message seen yet.
    pub fn new() -> (r: Self)
        ensures
            r@ == Map::<u64, u64>::empty(),
    {
        LastMessages { ids: HashMap::new() }
    }

    /// Message `message_id` by `author_id` was seen on channel `channel_id`;
    /// the bot's own messages, by `bot_id`, do not count.
    pub fn record(&mut self, channel_id: u64, message_id: u64, author_id: u64, bot_id: u64)
        ensures
            final(self)@ == if author_id == bot_id {
                old(self)@
            } else {
                old(self)@.insert(channel_id, message_id)
            },
    {
        if author_id != bot_id {
            self.ids.insert(channel_id, message_id);
        }
    }

    /// The last message seen on channel `channel_id`.
    pub fn last(&self, channel_id: u64) -> (r: Option<u64>)
        ensures
            r == if self@.contains_key(channel_id) {
                Some(self@[channel_id])
            } else {
                None
            },
    {
        match self.ids.get(&channel_id) {
            Some(m) => Some(*m),
            None => None,
        }
    }
}

/// A custom emoji of a guild.
#[derive(Debug, Clone)]
pub struct CustomEmoji {
    /// Its name.
    pub name: String,
    /// Its id.
    pub id: u64,
    /// Whether it is animated.
    pub animated: bool,
}

/// What a [`CustomEmoji`] is, as plain values.
pub struct EmojiView {
    pub name: Seq<char>,
    pub id: u64,
    pub animated: bool,
}

impl View for CustomEmoji {
    type V = EmojiView;

    open spec fn view(&self) -> EmojiView {
        EmojiView { name: self.name@, id: self.id, animated: self.animated }
    }
}

impl CustomEmoji {
    /// A copy of the emoji.
    pub fn cloned(&self) -> (r: CustomEmoji)
        ensures
            r@ == self@,
    {
        CustomEmoji { name: self.name.clone(), id: self.id, animated: self.animated }
    }
}

/// The views of a sequence of emoji.
pub open spec fn emoji_views(s: Seq<CustomEmoji>) -> Seq<EmojiView> {
    s.map_values(|e: CustomEmoji| e@)
}

/// `s` with `e` in place of the first emoji of its name, or at the end if
/// none has that name.
pub open spec fn upsert(s: Seq<EmojiView>, e: EmojiView) -> Seq<EmojiView>
    decreases s.len(),
{
    if s.len() == 0 {
        seq![e]
    } else if s[0].name == e.name {
        s.update(0, e)
    } else {
        seq![s[0]] + upsert(s.drop_first(), e)
    }
}

/// `s` with each emoji of `new`, in order, put in by `upsert`.
pub open spec fn upsert_all(s: Seq<EmojiView>, new: Seq<EmojiView>) -> Seq<EmojiView>
    decreases new.len(),
{
    if new.len() == 0 {
        s
    } else {
        upsert(upsert_all(s, new.drop_last()), new.last())
    }
}

/// `upsert` where the first emoji of the name is at `i`.
proof fn lemma_upsert_at(s: Seq<EmojiView>, e: EmojiView, i: int)
    requires
        0 <= i < s.len(),
        s[i].name == e.name,
        forall|j: int| 0 <= j < i ==> s[j].name != e.name,
    ensures
        upsert(s, e) == s.update(i, e),
    decreases i,
{
    if i > 0 {
        lemma_upsert_at(s.drop_first(), e, i - 1);
        assert(seq![s[0]] + s.drop_first().update(i - 1, e) =~= s.update(i, e));
    }
}

/// `upsert` where no emoji has the name.
proof fn lemma_upsert_new(s: Seq<EmojiView>, e: EmojiView)
    requires
        forall|j: int| 0 <= j < s.len() ==> s[j].name != e.name,
    ensures
        upsert(s, e) == s.push(e),
    decreases s.len(),
{
    if s.len() > 0 {
        lemma_upsert_new(s.drop_first(), e);
        assert(seq![s[0]] + s.drop_first().push(e) =~= s.push(e));
    } else {
        assert(seq![e] =~= s.push(e));
    }
}

/// Puts `e` in place of the first emoji of its name in `v`, or at its end.
fn upsert_emoji(v: &mut Vec<CustomEmoji>, e: CustomEmoji)
    ensures
        emoji_views(final(v)@) == upsert(emoji_views(old(v)@), e@),
{
    let ghost s = emoji_views(v@);
    let ghost ev = e@;
    let mut i: usize = 0;
    while i < v.len()
        invariant
            s == emoji_views(v@),
            v@ == old(v)@,
            ev == e@,
            i <= v@.len(),
            forall|j: int| 0 <= j < i ==> s[j].name != ev.name,
        decreases v@.len() - i,
    {
        proof {
            assert(s[i as int] == v@[i as int]@);
        }
        if str_eq(v[i].name.as_str(), e.name.as_str()) {
            v.set(i, e);
            proof {
                lemma_upsert_at(s, ev, i as int);
                assert(emoji_views(v@) =~= s.update(i as int, ev));
            }
            return;
        }
        i = i + 1;
    }
    v.push(e);
    proof {
        lemma_upsert_new(s, ev);
        assert(emoji_views(v@) =~= s.push(ev));
    }
}

/// The custom emoji of each guild, by name.
pub struct GuildEmojis {
    guilds: HashMap<u64, Vec<CustomEmoji>>,
}

impl View for GuildEmojis {
    type V = Map<u64, Seq<EmojiView>>;

    closed spec fn view(&self) -> Map<u64, Seq<EmojiView>> {
        Map::new(|g: u64| self.guilds@.contains_key(g), |g: u64| emoji_views(self.guilds@[g]@))
    }
}

impl GuildEmojis {
    /// No emoji of any guild.
    pub fn new() -> (r: Self)
        ensures
            r@ == Map::<u64, Seq<EmojiView>>::empty(),
    {
        let r = GuildEmojis { guilds: HashMap::new() };
        proof {
            assert(r@ =~= Map::<u64, Seq<EmojiView>>::empty());
        }
        r
    }

    /// Adds the emoji `emojis` to those of guild `guild_id`; one whose name is
    /// known replaces the emoji of that name.
    pub fn extend(&mut self, guild_id: u64, emojis: Vec<CustomEmoji>)
        ensures
            final(self)@ == old(self)@.insert(
                guild_id,
                upsert_all(
                    if old(self)@.contains_key(guild_id) {
                        old(self)@[guild_id]
                    } else {
                        seq![]
                    },
                    emoji_views(emojis@),
                ),
            ),
    {
        let ghost old_guilds = self.guilds@;
        let mut known = match self.guilds.remove(&guild_id) {
            Some(v) => v,
            None => Vec::new(),
        };
        let ghost start = emoji_views(known@);
        proof {
            assert(emoji_views(emojis@).subrange(0, 0) =~= seq![]);
            assert(start == if old(self)@.contains_key(guild_id) {
                old(self)@[guild_id]
            } else {
                seq![]
            });
        }
        let mut i: usize = 0;
        while i < emojis.len()
            invariant
                i <= emojis@.len(),
                emoji_views(known@) == upsert_all(start, emoji_views(emojis@).subrange(0, i as int)),
            decreases emojis@.len() - i,
        {
            let e = emojis[i].cloned();
            proof {
                let sub = emoji_views(emojis@).subrange(0, i + 1);
                assert(sub.drop_last() =~= emoji_views(emojis@).subrange(0, i as int));
                assert(sub.last() == e@);
            }
            upsert_emoji(&mut known, e);
            i = i + 1;
        }
        self.guilds.insert(guild_id, known);
        proof {
            assert(emoji_views(emojis@).subrange(0, i as int) =~= emoji_views(emojis@));
            assert(self@ =~= old(self)@.insert(guild_id, emoji_views(known@)));
        }
    }

    /// The emoji of guild `guild_id`, if any are known.
    pub fn emojis_of(&self, guild_id: u64) -> (r: Option<&Vec<CustomEmoji>>)
        ensures
            match r {
                Some(v) => self@.contains_key(guild_id) && emoji_views(v@) == self@[guild_id],
                None => !self@.contains_key(guild_id),
            },
    {
        self.guilds.get(&guild_id)
    }
}

/// The most characters that one reply may hold, plus one.
pub const RESPONSE_CEILING: usize = 2000;

/// How a custom emoji is written in a message: `<:name:id>`, or `<a:name:id>`
/// when animated.
pub open spec fn emoji_mention(e: EmojiView) -> Seq<char> {
    (if e.animated {
        seq!['<', 'a', ':']
    } else {
        seq!['<', ':']
    }) + e.name + seq![':'] + decimal(e.id as nat) + seq!['>']
}

/// The line of the listing for `e`: the emoji, then its name between colons.
pub open spec fn emoji_line(e: EmojiView) -> Seq<char> {
    emoji_mention(e) + " - `:"@ + e.name + ":`"@
}

/// The line of the listing for `e`.
pub fn listing_line(e: &CustomEmoji) -> (r: String)
    ensures
        r@ == emoji_line(e@),
{
    let mut s = String::new();
    if e.animated {
        s.append("<a:");
    } else {
        s.append("<:");
    }
    proof {
        reveal_strlit("<a:");
        reveal_strlit("<:");
    }
    s.append(e.name.as_str());
    push_char(&mut s, ':');
    push_decimal(&mut s, e.id);
    push_char(&mut s, '>');
    s.append(" - `:");
    s.append(e.name.as_str());
    s.append(":`");
    proof {
        let head = if e.animated {
            seq!['<', 'a', ':']
        } else {
            seq!['<', ':']
        };
        assert(s@ =~= head + e.name@ + seq![':'] + decimal(e.id as nat) + seq!['>'] + " - `:"@ + e.name@ + ":`"@);
    }
    s
}

/// The lines grouped into replies, in order: a line joins the reply before it
/// while that reply, the newline and the line stay under the ceiling, and
/// starts a new reply otherwise.
pub open spec fn group_lines(lines: Seq<Seq<char>>) -> Seq<Seq<Seq<char>>>
    decreases lines.len(),
{
    if lines.len() == 0 {
        seq![]
    } else {
        let groups = group_lines(lines.drop_last());
        let line = lines.last();
        if groups.len() > 0 && join_with(groups.last(), seq!['\n']).len() + 1 + line.len()
            < RESPONSE_CEILING {
            groups.drop_last().push(groups.last().push(line))
        } else {
            groups.push(seq![line])
        }
    }
}

/// The replies for the lines: each group of lines joined by newlines.
pub open spec fn chunks_spec(lines: Seq<Seq<char>>) -> Seq<Seq<char>> {
    group_lines(lines).map_values(|g: Seq<Seq<char>>| join_with(g, seq!['\n']))
}

/// The lines of the groups, in order.
pub open spec fn flatten_groups(groups: Seq<Seq<Seq<char>>>) -> Seq<Seq<char>>
    decreases groups.len(),
{
    if groups.len() == 0 {
        seq![]
    } else {
        flatten_groups(groups.drop_last()) + groups.last()
    }
}

/// Splits the lines into replies, as `chunks_spec` says.
pub fn chunk_lines(lines: &Vec<String>) -> (r: Vec<String>)
    ensures
        r@.map_values(|s: String| s@) == chunks_spec(lines@.map_values(|s: String| s@)),
{
    let ghost ls = lines@.map_values(|s: String| s@);
    let mut chunks: Vec<String> = Vec::new();
    let mut current = String::new();
    let mut current_len: usize = 0;
    let mut have_current = false;
    let ghost mut groups: Seq<Seq<Seq<char>>> = seq![];
    let mut i: usize = 0;
    while i < lines.len()
        invariant
            ls == lines@.map_values(|s: String| s@),
            i <= lines@.len(),
            groups == group_lines(ls.subrange(0, i as int)),
            have_current == (groups.len() > 0),
            have_current ==> current@ == join_with(groups.last(), seq!['\n']),
            current_len == current@.len(),
            chunks@.map_values(|s: String| s@) == if have_current {
                groups.drop_last().map_values(|g: Seq<Seq<char>>| join_with(g, seq!['\n']))
            } else {
                seq![]
            },
        decreases lines@.len() - i,
    {
        let line = &lines[i];
        let line_len = chars_of(line.as_str()).len();
        let ghost sub = ls.subrange(0, i + 1);
        proof {
            assert(sub.drop_last() =~= ls.subrange(0, i as int));
            assert(sub.last() == line@);
        }
        let fits = have_current && current_len < RESPONSE_CEILING - 1 && line_len < RESPONSE_CEILING - 1
            - current_len;
        let ghost old_groups = groups;
        let ghost old_chunks = chunks@.map_values(|s: String| s@);
        if fits {
            push_char(&mut current, '\n');
            current.append(line.as_str());
            current_len = current_len + 1 + line_len;
            proof {
                groups = old_groups.drop_last().push(old_groups.last().push(line@));
                let g = old_groups.last();
                if g.len() == 0 {
                    assert(false) by {
                        lemma_groups_nonempty(ls.subrange(0, i as int));
                    }
                }
                assert(g.push(line@).drop_last() =~= g);
                assert(current@ =~= join_with(groups.last(), seq!['\n']));
                assert(groups.drop_last() =~= old_groups.drop_last());
            }
        } else {
            if have_current {
                let ghost cv = current@;
                let done = current;
                chunks.push(done);
                proof {
                    assert(chunks@.map_values(|s: String| s@) =~= old_chunks.push(cv));
                    assert(old_groups.drop_last().push(old_groups.last()) =~= old_groups);
                    assert(old_groups.map_values(|g: Seq<Seq<char>>| join_with(g, seq!['\n'])) =~= old_groups.drop_last().map_values(
                        |g: Seq<Seq<char>>| join_with(g, seq!['\n']),
                    ).push(cv));
                }
            }
            current = line.clone();
            current_len = line_len;
            proof {
                groups = old_groups.push(seq![line@]);
                assert(groups.drop_last() =~= old_groups);
                if !have_current {
                    assert(old_groups.len() == 0);
                    assert(old_groups.map_values(|g: Seq<Seq<char>>| join_with(g, seq!['\n'])) =~= seq![]);
                }
            }
            have_current = true;
        }
        i = i + 1;
    }
    proof {
        assert(ls.subrange(0, i as int) =~= ls);
    }
    if have_current {
        let ghost cv = current@;
        let ghost before = chunks@.map_values(|s: String| s@);
        chunks.push(current);
        proof {
            assert(chunks@.map_values(|s: String| s@) =~= before.push(cv));
            assert(groups.drop_last().push(groups.last()) =~= groups);
            assert(groups.map_values(|g: Seq<Seq<char>>| join_with(g, seq!['\n'])) =~= groups.drop_last().map_values(
                |g: Seq<Seq<char>>| join_with(g, seq!['\n']),
            ).push(cv));
        }
    } else {
        proof {
            assert(groups.map_values(|g: Seq<Seq<char>>| join_with(g, seq!['\n'])) =~= seq![]);
        }
    }
    chunks
}

/// Every group holds at least one line.
proof fn lemma_groups_nonempty(lines: Seq<Seq<char>>)
    ensures
        forall|k: int| 0 <= k < group_lines(lines).len() ==> (#[trigger] group_lines(lines)[k]).len() > 0,
    decreases lines.len(),
{
    if lines.len() > 0 {
        lemma_groups_nonempty(lines.drop_last());
        let groups = group_lines(lines.drop_last());
        let g = group_lines(lines);
        assert forall|k: int| 0 <= k < g.len() implies (#[trigger] g[k]).len() > 0 by {
            if k < groups.len() - 1 || (k == groups.len() - 1 && g.len() > groups.len()) {
                assert(g[k] == groups[k]);
            }
        }
    }
}

/// A listing's replies hold whole lines, in order, in groups that are never
/// empty; each reply stays under the ceiling when each line does; and a
/// listing that reaches the ceiling when joined takes two replies or more.
pub proof fn lemma_listing_replies(lines: Seq<Seq<char>>)
    requires
        forall|i: int| 0 <= i < lines.len() ==> (#[trigger] lines[i]).len() < RESPONSE_CEILING,
    ensures
        flatten_groups(group_lines(lines)) == lines,
        forall|k: int| 0 <= k < group_lines(lines).len() ==> (#[trigger] group_lines(lines)[k]).len() > 0,
        chunks_spec(lines).len() == group_lines(lines).len(),
        forall|k: int|
            0 <= k < chunks_spec(lines).len() ==> #[trigger] chunks_spec(lines)[k] == join_with(
                group_lines(lines)[k],
                seq!['\n'],
            ),
        forall|k: int| 0 <= k < chunks_spec(lines).len() ==> (#[trigger] chunks_spec(lines)[k]).len() < RESPONSE_CEILING,
        join_with(lines, seq!['\n']).len() >= RESPONSE_CEILING ==> chunks_spec(lines).len() >= 2,
    decreases lines.len(),
{
    lemma_groups_nonempty(lines);
    let groups = group_lines(lines);
    if lines.len() > 0 {
        let prev = group_lines(lines.drop_last());
        lemma_listing_replies(lines.drop_last());
        let line = lines.last();
        assert(lines.drop_last().push(line) =~= lines);
        if prev.len() > 0 && join_with(prev.last(), seq!['\n']).len() + 1 + line.len() < RESPONSE_CEILING {
            let g = prev.last();
            assert(g.len() > 0);
            assert(g.push(line).drop_last() =~= g);
            assert(groups.drop_last() =~= prev.drop_last());
            assert(prev.drop_last().push(g) =~= prev);
            assert(flatten_groups(prev) == flatten_groups(prev.drop_last()) + g);
            assert(flatten_groups(groups) == flatten_groups(prev.drop_last()) + g.push(line));
            assert(flatten_groups(groups) =~= lines);
            assert forall|k: int| 0 <= k < groups.len() implies join_with(#[trigger] groups[k], seq!['\n']).len()
                < RESPONSE_CEILING by {
                if k < groups.len() - 1 {
                    assert(groups[k] == prev[k]);
                    assert(chunks_spec(lines.drop_last())[k] == join_with(prev[k], seq!['\n']));
                }
            }
        } else {
            assert(groups.drop_last() =~= prev);
            assert(flatten_groups(groups) =~= lines);
            assert forall|k: int| 0 <= k < groups.len() implies join_with(#[trigger] groups[k], seq!['\n']).len()
                < RESPONSE_CEILING by {
                if k < groups.len() - 1 {
                    assert(groups[k] == prev[k]);
                    assert(chunks_spec(lines.drop_last())[k] == join_with(prev[k], seq!['\n']));
                } else {
                    assert(groups[k] == seq![line]);
                    assert(line == lines[lines.len() - 1]);
                }
            }
        }
        if join_with(lines, seq!['\n']).len() >= RESPONSE_CEILING && groups.len() < 2 {
            assert(groups.len() == 1);
            assert(groups.drop_last() =~= seq![]);
            assert(flatten_groups(groups) =~= groups[0]);
            assert(chunks_spec(lines)[0] == join_with(groups[0], seq!['\n']));
        }
    } else {
        assert(flatten_groups(groups) =~= lines);
    }
}

/// The reply when a guild has no custom emoji.
pub const NO_CUSTOM_EMOJIS: &'static str = "No custom emojis";

/// The replies that list `emojis`: their lines in order, split into replies
/// under the ceiling; the fixed reply when there is none.
pub open spec fn responses_spec(emojis: Option<Seq<EmojiView>>) -> Seq<Seq<char>> {
    match emojis {
        Some(s) => if s.len() > 0 {
            chunks_spec(s.map_values(|e: EmojiView| emoji_line(e)))
        } else {
            seq![NO_CUSTOM_EMOJIS@]
        },
        None => seq![NO_CUSTOM_EMOJIS@],
    }
}

impl ListCustomEmojis {
    /// The replies that list the custom emoji of a guild, `None` if none are known.
    pub fn responses(emojis: Option<&Vec<CustomEmoji>>) -> (r: Vec<String>)
        ensures
            r@.map_values(|s: String| s@) == responses_spec(
                match emojis {
                    Some(v) => Some(emoji_views(v@)),
                    None => None,
                },
            ),
    {
        match emojis {
            Some(v) => {
                if v.len() > 0 {
                    let mut lines: Vec<String> = Vec::new();
                    let mut i: usize = 0;
                    while i < v.len()
                        invariant
                            i <= v@.len(),
                            lines@.len() == i,
                            lines@.map_values(|s: String| s@) =~= emoji_views(v@).map_values(
                                |e: EmojiView| emoji_line(e),
                            ).subrange(0, i as int),
                        decreases v@.len() - i,
                    {
                        let line = listing_line(&v[i]);
                        proof {
                            assert(emoji_views(v@)[i as int] == v@[i as int]@);
                        }
                        let ghost before = lines@;
                        lines.push(line);
                        proof {
                            assert forall|j: int| 0 <= j < i implies lines@[j] == before[j] by {}
                            assert(lines@.map_values(|s: String| s@) =~= emoji_views(v@).map_values(
                                |e: EmojiView| emoji_line(e),
                            ).subrange(0, i + 1));
                        }
                        i = i + 1;
                    }
                    proof {
                        assert(emoji_views(v@).map_values(|e: EmojiView| emoji_line(e)).subrange(0, i as int)
                            =~= emoji_views(v@).map_values(|e: EmojiView| emoji_line(e)));
                    }
                    chunk_lines(&lines)
                } else {
                    let r = vec![String::from_str(NO_CUSTOM_EMOJIS)];
                    proof {
                        assert(r@.map_values(|s: String| s@) =~= seq![NO_CUSTOM_EMOJIS@]);
                    }
                    r
                }
            },
            None => {
                let r = vec![String::from_str(NO_CUSTOM_EMOJIS)];
                proof {
                    assert(r@.map_values(|s: String| s@) =~= seq![NO_CUSTOM_EMOJIS@]);
                }
                r
            },
        }
    }
}

} // verus!
