//! Conversion of free text into a sequence of emoji, one for each character.
//!
//! Every letter and digit has an ordered list of emoji names; the n-th time a
//! character occurs it takes the n-th name of its list. A letter whose list is
//! used up borrows the next free name of a look-alike character ("a" becomes
//! "4"). Each name then resolves to its glyph.

use vstd::prelude::*;

use crate::commands::{
    find_option, message_id, message_id_spec, option_value, option_views, CommandOption, MessageIdError,
    MessageIdErrorView, OptionValue, OptionView, ReactToMessageWithError, ReactionRequest, TextToReactions,
    ValueView, OPTION_TEXT,
};
use crate::text::{
    chars_of, is_white_space, is_white_space_spec, lower_of, opt_string_view, push_char, str_eq, to_lowercase,
};

verus! {

/// The views of a sequence of string slices.
pub open spec fn str_views(v: Seq<&str>) -> Seq<Seq<char>> {
    v.map_values(|s: &str| s@)
}

/// The view of an optional string slice.
pub open spec fn opt_str_view(o: Option<&str>) -> Option<Seq<char>> {
    match o {
        Some(s) => Some(s@),
        None => None,
    }
}

/// The emoji names of character `c`, in the order its occurrences take them:
/// a keycap for a digit; the regional indicator first for a letter, then its
/// look-alike emoji.
pub open spec fn emoji_names_spec(c: char) -> Seq<Seq<char>> {
    if c == '0' {
        seq![":zero:"@]
    } else if c == '1' {
        seq![":one:"@]
    } else if c == '2' {
        seq![":two:"@]
    } else if c == '3' {
        seq![":three:"@]
    } else if c == '4' {
        seq![":four:"@]
    } else if c == '5' {
        seq![":five:"@]
    } else if c == '6' {
        seq![":six:"@]
    } else if c == '7' {
        seq![":seven:"@]
    } else if c == '8' {
        seq![":eight:"@]
    } else if c == '9' {
        seq![":nine:"@]
    } else if c == 'a' {
        seq![":regional_indicator_a:"@, ":a:"@]
    } else if c == 'b' {
        seq![":regional_indicator_b:"@, ":b:"@]
    } else if c == 'c' {
        seq![":regional_indicator_c:"@]
    } else if c == 'd' {
        seq![":regional_indicator_d:"@]
    } else if c == 'e' {
        seq![":regional_indicator_e:"@]
    } else if c == 'f' {
        seq![":regional_indicator_f:"@]
    } else if c == 'g' {
        seq![":regional_indicator_g:"@]
    } else if c == 'h' {
        seq![":regional_indicator_h:"@]
    } else if c == 'i' {
        seq![":regional_indicator_i:"@, ":information_source:"@]
    } else if c == 'j' {
        seq![":regional_indicator_j:"@]
    } else if c == 'k' {
        seq![":regional_indicator_k:"@]
    } else if c == 'l' {
        seq![":regional_indicator_l:"@]
    } else if c == 'm' {
        seq![":regional_indicator_m:"@, ":m:"@]
    } else if c == 'n' {
        seq![":regional_indicator_n:"@]
    } else if c == 'o' {
        seq![":regional_indicator_o:"@, ":o:"@, ":o2:"@]
    } else if c == 'p' {
        seq![":regional_indicator_p:"@, ":parking:"@]
    } else if c == 'q' {
        seq![":regional_indicator_q:"@]
    } else if c == 'r' {
        seq![":regional_indicator_r:"@]
    } else if c == 's' {
        seq![":regional_indicator_s:"@]
    } else if c == 't' {
        seq![":regional_indicator_t:"@]
    } else if c == 'u' {
        seq![":regional_indicator_u:"@]
    } else if c == 'v' {
        seq![":regional_indicator_v:"@]
    } else if c == 'w' {
        seq![":regional_indicator_w:"@]
    } else if c == 'x' {
        seq![":regional_indicator_x:"@]
    } else if c == 'y' {
        seq![":regional_indicator_y:"@]
    } else if c == 'z' {
        seq![":regional_indicator_z:"@]
    } else {
        seq![]
    }
}

/// The emoji names of character `c`, in the order its occurrences take them.
pub fn char_to_emoji_names(c: char) -> (r: Vec<&'static str>)
    ensures
        str_views(r@) == emoji_names_spec(c),
{
    let r: Vec<&'static str> = match c {
        '0' => vec![":zero:"],
        '1' => vec![":one:"],
        '2' => vec![":two:"],
        '3' => vec![":three:"],
        '4' => vec![":four:"],
        '5' => vec![":five:"],
        '6' => vec![":six:"],
        '7' => vec![":seven:"],
        '8' => vec![":eight:"],
        '9' => vec![":nine:"],
        'a' => vec![":regional_indicator_a:", ":a:"],
        'b' => vec![":regional_indicator_b:", ":b:"],
        'c' => vec![":regional_indicator_c:"],
        'd' => vec![":regional_indicator_d:"],
        'e' => vec![":regional_indicator_e:"],
        'f' => vec![":regional_indicator_f:"],
        'g' => vec![":regional_indicator_g:"],
        'h' => vec![":regional_indicator_h:"],
        'i' => vec![":regional_indicator_i:", ":information_source:"],
        'j' => vec![":regional_indicator_j:"],
        'k' => vec![":regional_indicator_k:"],
        'l' => vec![":regional_indicator_l:"],
        'm' => vec![":regional_indicator_m:", ":m:"],
        'n' => vec![":regional_indicator_n:"],
        'o' => vec![":regional_indicator_o:", ":o:", ":o2:"],
        'p' => vec![":regional_indicator_p:", ":parking:"],
        'q' => vec![":regional_indicator_q:"],
        'r' => vec![":regional_indicator_r:"],
        's' => vec![":regional_indicator_s:"],
        't' => vec![":regional_indicator_t:"],
        'u' => vec![":regional_indicator_u:"],
        'v' => vec![":regional_indicator_v:"],
        'w' => vec![":regional_indicator_w:"],
        'x' => vec![":regional_indicator_x:"],
        'y' => vec![":regional_indicator_y:"],
        'z' => vec![":regional_indicator_z:"],
        _ => vec![],
    };
    proof {
        assert(str_views(r@) =~= emoji_names_spec(c));
    }
    r
}

/// The look-alike characters that stand in for `c` once its own names are used up.
pub open spec fn alternatives_spec(c: char) -> Seq<char> {
    if c == 'a' {
        seq!['4']
    } else if c == 'b' {
        seq!['8']
    } else if c == 'e' {
        seq!['3']
    } else if c == 'g' {
        seq!['9']
    } else if c == 'i' {
        seq!['1', '!']
    } else if c == 'l' {
        seq!['1']
    } else if c == 'o' {
        seq!['0']
    } else if c == 's' {
        seq!['5', '$', 'z']
    } else if c == 't' {
        seq!['7']
    } else if c == 'u' {
        seq!['v']
    } else if c == 'z' {
        seq!['s']
    } else {
        seq![]
    }
}

/// The look-alike characters of `c`, in order of preference.
pub fn alternatives(c: char) -> (r: Vec<char>)
    ensures
        r@ == alternatives_spec(c),
{
    let r: Vec<char> = match c {
        'a' => vec!['4'],
        'b' => vec!['8'],
        'e' => vec!['3'],
        'g' => vec!['9'],
        'i' => vec!['1', '!'],
        'l' => vec!['1'],
        'o' => vec!['0'],
        's' => vec!['5', '$', 'z'],
        't' => vec!['7'],
        'u' => vec!['v'],
        'z' => vec!['s'],
        _ => vec![],
    };
    proof {
        assert(r@ =~= alternatives_spec(c));
    }
    r
}

/// The glyph of the emoji named `name`, if the table knows the name.
pub open spec fn emoji_of_name_spec(name: Seq<char>) -> Option<Seq<char>> {
    if name == ":regional_indicator_a:"@ {
        Some("\u{1F1E6}"@)
    } else if name == ":regional_indicator_b:"@ {
        Some("\u{1F1E7}"@)
    } else if name == ":regional_indicator_c:"@ {
        Some("\u{1F1E8}"@)
    } else if name == ":regional_indicator_d:"@ {
        Some("\u{1F1E9}"@)
    } else if name == ":regional_indicator_e:"@ {
        Some("\u{1F1EA}"@)
    } else if name == ":regional_indicator_f:"@ {
        Some("\u{1F1EB}"@)
    } else if name == ":regional_indicator_g:"@ {
        Some("\u{1F1EC}"@)
    } else if name == ":regional_indicator_h:"@ {
        Some("\u{1F1ED}"@)
    } else if name == ":regional_indicator_i:"@ {
        Some("\u{1F1EE}"@)
    } else if name == ":regional_indicator_j:"@ {
        Some("\u{1F1EF}"@)
    } else if name == ":regional_indicator_k:"@ {
        Some("\u{1F1F0}"@)
    } else if name == ":regional_indicator_l:"@ {
        Some("\u{1F1F1}"@)
    } else if name == ":regional_indicator_m:"@ {
        Some("\u{1F1F2}"@)
    } else if name == ":regional_indicator_n:"@ {
        Some("\u{1F1F3}"@)
    } else if name == ":regional_indicator_o:"@ {
        Some("\u{1F1F4}"@)
    } else if name == ":regional_indicator_p:"@ {
        Some("\u{1F1F5}"@)
    } else if name == ":regional_indicator_q:"@ {
        Some("\u{1F1F6}"@)
    } else if name == ":regional_indicator_r:"@ {
        Some("\u{1F1F7}"@)
    } else if name == ":regional_indicator_s:"@ {
        Some("\u{1F1F8}"@)
    } else if name == ":regional_indicator_t:"@ {
        Some("\u{1F1F9}"@)
    } else if name == ":regional_indicator_u:"@ {
        Some("\u{1F1FA}"@)
    } else if name == ":regional_indicator_v:"@ {
        Some("\u{1F1FB}"@)
    } else if name == ":regional_indicator_w:"@ {
        Some("\u{1F1FC}"@)
    } else if name == ":regional_indicator_x:"@ {
        Some("\u{1F1FD}"@)
    } else if name == ":regional_indicator_y:"@ {
        Some("\u{1F1FE}"@)
    } else if name == ":regional_indicator_z:"@ {
        Some("\u{1F1FF}"@)
    } else if name == ":zero:"@ {
        Some("0\u{FE0F}\u{20E3}"@)
    } else if name == ":one:"@ {
        Some("1\u{FE0F}\u{20E3}"@)
    } else if name == ":two:"@ {
        Some("2\u{FE0F}\u{20E3}"@)
    } else if name == ":three:"@ {
        Some("3\u{FE0F}\u{20E3}"@)
    } else if name == ":four:"@ {
        Some("4\u{FE0F}\u{20E3}"@)
    } else if name == ":five:"@ {
        Some("5\u{FE0F}\u{20E3}"@)
    } else if name == ":six:"@ {
        Some("6\u{FE0F}\u{20E3}"@)
    } else if name == ":seven:"@ {
        Some("7\u{FE0F}\u{20E3}"@)
    } else if name == ":eight:"@ {
        Some("8\u{FE0F}\u{20E3}"@)
    } else if name == ":nine:"@ {
        Some("9\u{FE0F}\u{20E3}"@)
    } else if name == ":keycap_ten:"@ {
        Some("\u{1F51F}"@)
    } else if name == ":information_source:"@ {
        Some("\u{2139}\u{FE0F}"@)
    } else if name == ":a:"@ {
        Some("\u{1F170}\u{FE0F}"@)
    } else if name == ":b:"@ {
        Some("\u{1F171}\u{FE0F}"@)
    } else if name == ":o2:"@ {
        Some("\u{1F17E}\u{FE0F}"@)
    } else if name == ":o:"@ {
        Some("\u{2B55}"@)
    } else if name == ":m:"@ {
        Some("\u{24C2}\u{FE0F}"@)
    } else if name == ":parking:"@ {
        Some("\u{1F17F}\u{FE0F}"@)
    } else {
        None
    }
}

/// The glyph of the emoji named `name`, if the table knows the name.
pub fn emoji_name_to_emoji(name: &str) -> (r: Option<&'static str>)
    ensures
        opt_str_view(r) == emoji_of_name_spec(name@),
{
    if str_eq(name, ":regional_indicator_a:") {
        Some("\u{1F1E6}")
    } else if str_eq(name, ":regional_indicator_b:") {
        Some("\u{1F1E7}")
    } else if str_eq(name, ":regional_indicator_c:") {
        Some("\u{1F1E8}")
    } else if str_eq(name, ":regional_indicator_d:") {
        Some("\u{1F1E9}")
    } else if str_eq(name, ":regional_indicator_e:") {
        Some("\u{1F1EA}")
    } else if str_eq(name, ":regional_indicator_f:") {
        Some("\u{1F1EB}")
    } else if str_eq(name, ":regional_indicator_g:") {
        Some("\u{1F1EC}")
    } else if str_eq(name, ":regional_indicator_h:") {
        Some("\u{1F1ED}")
    } else if str_eq(name, ":regional_indicator_i:") {
        Some("\u{1F1EE}")
    } else if str_eq(name, ":regional_indicator_j:") {
        Some("\u{1F1EF}")
    } else if str_eq(name, ":regional_indicator_k:") {
        Some("\u{1F1F0}")
    } else if str_eq(name, ":regional_indicator_l:") {
        Some("\u{1F1F1}")
    } else if str_eq(name, ":regional_indicator_m:") {
        Some("\u{1F1F2}")
    } else if str_eq(name, ":regional_indicator_n:") {
        Some("\u{1F1F3}")
    } else if str_eq(name, ":regional_indicator_o:") {
        Some("\u{1F1F4}")
    } else if str_eq(name, ":regional_indicator_p:") {
        Some("\u{1F1F5}")
    } else if str_eq(name, ":regional_indicator_q:") {
        Some("\u{1F1F6}")
    } else if str_eq(name, ":regional_indicator_r:") {
        Some("\u{1F1F7}")
    } else if str_eq(name, ":regional_indicator_s:") {
        Some("\u{1F1F8}")
    } else if str_eq(name, ":regional_indicator_t:") {
        Some("\u{1F1F9}")
    } else if str_eq(name, ":regional_indicator_u:") {
        Some("\u{1F1FA}")
    } else if str_eq(name, ":regional_indicator_v:") {
        Some("\u{1F1FB}")
    } else if str_eq(name, ":regional_indicator_w:") {
        Some("\u{1F1FC}")
    } else if str_eq(name, ":regional_indicator_x:") {
        Some("\u{1F1FD}")
    } else if str_eq(name, ":regional_indicator_y:") {
        Some("\u{1F1FE}")
    } else if str_eq(name, ":regional_indicator_z:") {
        Some("\u{1F1FF}")
    } else if str_eq(name, ":zero:") {
        Some("0\u{FE0F}\u{20E3}")
    } else if str_eq(name, ":one:") {
        Some("1\u{FE0F}\u{20E3}")
    } else if str_eq(name, ":two:") {
        Some("2\u{FE0F}\u{20E3}")
    } else if str_eq(name, ":three:") {
        Some("3\u{FE0F}\u{20E3}")
    } else if str_eq(name, ":four:") {
        Some("4\u{FE0F}\u{20E3}")
    } else if str_eq(name, ":five:") {
        Some("5\u{FE0F}\u{20E3}")
    } else if str_eq(name, ":six:") {
        Some("6\u{FE0F}\u{20E3}")
    } else if str_eq(name, ":seven:") {
        Some("7\u{FE0F}\u{20E3}")
    } else if str_eq(name, ":eight:") {
        Some("8\u{FE0F}\u{20E3}")
    } else if str_eq(name, ":nine:") {
        Some("9\u{FE0F}\u{20E3}")
    } else if str_eq(name, ":keycap_ten:") {
        Some("\u{1F51F}")
    } else if str_eq(name, ":information_source:") {
        Some("\u{2139}\u{FE0F}")
    } else if str_eq(name, ":a:") {
        Some("\u{1F170}\u{FE0F}")
    } else if str_eq(name, ":b:") {
        Some("\u{1F171}\u{FE0F}")
    } else if str_eq(name, ":o2:") {
        Some("\u{1F17E}\u{FE0F}")
    } else if str_eq(name, ":o:") {
        Some("\u{2B55}")
    } else if str_eq(name, ":m:") {
        Some("\u{24C2}\u{FE0F}")
    } else if str_eq(name, ":parking:") {
        Some("\u{1F17F}\u{FE0F}")
    } else {
        None
    }
}

/// Every emoji name that a character maps to resolves to a glyph.
pub proof fn lemma_emoji_names_resolve(c: char, i: int)
    requires
        0 <= i < emoji_names_spec(c).len(),
    ensures
        emoji_of_name_spec(emoji_names_spec(c)[i]) is Some,
{
}

/// How many times `c` occurs in `s`.
pub open spec fn occurrences(s: Seq<char>, c: char) -> nat
    decreases s.len(),
{
    if s.len() == 0 {
        0
    } else {
        occurrences(s.drop_last(), c) + if s.last() == c {
            1nat
        } else {
            0nat
        }
    }
}

/// Whether `c` has an emoji name left, given the characters whose names were taken so far.
pub open spec fn has_capacity(used: Seq<char>, c: char) -> bool {
    occurrences(used, c) < emoji_names_spec(c).len()
}

/// The first character of `alts` that has an emoji name left.
pub open spec fn first_available(alts: Seq<char>, used: Seq<char>) -> Option<char>
    decreases alts.len(),
{
    if alts.len() == 0 {
        None
    } else if has_capacity(used, alts[0]) {
        Some(alts[0])
    } else {
        first_available(alts.drop_first(), used)
    }
}

/// The look-alike that `first_available` picks has a name left.
proof fn lemma_first_available_has_capacity(alts: Seq<char>, used: Seq<char>)
    ensures
        first_available(alts, used) matches Some(a) ==> has_capacity(used, a),
    decreases alts.len(),
{
    if alts.len() > 0 && !has_capacity(used, alts[0]) {
        lemma_first_available_has_capacity(alts.drop_first(), used);
    }
}

/// The character whose next emoji name stands for `c`: `c` itself while it has
/// names left, else its first look-alike that has.
pub open spec fn pick(c: char, used: Seq<char>) -> Option<char> {
    if has_capacity(used, c) {
        Some(c)
    } else {
        first_available(alternatives_spec(c), used)
    }
}

/// The emoji names for the characters of `cs`, whitespace skipped, after the
/// characters `used` took their names; `None` where a character finds no name.
pub open spec fn names_from(cs: Seq<char>, used: Seq<char>) -> Option<Seq<Seq<char>>>
    decreases cs.len(),
{
    if cs.len() == 0 {
        Some(seq![])
    } else if is_white_space_spec(cs[0]) {
        names_from(cs.drop_first(), used)
    } else {
        match pick(cs[0], used) {
            None => None,
            Some(d) => match names_from(cs.drop_first(), used.push(d)) {
                None => None,
                Some(rest) => Some(seq![emoji_names_spec(d)[occurrences(used, d) as int]] + rest),
            },
        }
    }
}

/// The characters of `s` that are not whitespace, in order.
pub open spec fn non_white(s: Seq<char>) -> Seq<char>
    decreases s.len(),
{
    if s.len() == 0 {
        seq![]
    } else if is_white_space_spec(s[0]) {
        non_white(s.drop_first())
    } else {
        seq![s[0]] + non_white(s.drop_first())
    }
}

/// Whether no character of `s` but whitespace occurs more often than it has
/// emoji names.
pub open spec fn within_capacity(s: Seq<char>) -> bool {
    forall|c: char| #[trigger] occurrences(non_white(s), c) <= emoji_names_spec(c).len()
}

/// Counting in a sequence with one more character in front.
proof fn lemma_occurrences_prepend(c: char, r: Seq<char>, x: char)
    ensures
        occurrences(seq![c] + r, x) == occurrences(r, x) + if c == x {
            1nat
        } else {
            0nat
        },
    decreases r.len(),
{
    if r.len() == 0 {
        assert((seq![c] + r).drop_last() =~= r);
    } else {
        lemma_occurrences_prepend(c, r.drop_last(), x);
        assert((seq![c] + r).drop_last() =~= seq![c] + r.drop_last());
    }
}

/// Characters that, with those already taken, stay within their number of
/// names always find a name, each its own.
proof fn lemma_names_from_within_capacity(cs: Seq<char>, used: Seq<char>)
    requires
        forall|x: char|
            occurrences(used, x) + #[trigger] occurrences(non_white(cs), x) <= emoji_names_spec(x).len(),
    ensures
        names_from(cs, used) is Some,
    decreases cs.len(),
{
    if cs.len() > 0 {
        let rest = cs.drop_first();
        let c = cs[0];
        if is_white_space_spec(c) {
            assert(non_white(cs) == non_white(rest));
            assert forall|x: char|
                occurrences(used, x) + #[trigger] occurrences(non_white(rest), x) <= emoji_names_spec(x).len() by {
                assert(occurrences(non_white(cs), x) == occurrences(non_white(rest), x));
            }
            lemma_names_from_within_capacity(rest, used);
        } else {
            assert forall|x: char|
                occurrences(used.push(c), x) + #[trigger] occurrences(non_white(rest), x)
                    <= emoji_names_spec(x).len() by {
                lemma_occurrences_prepend(c, non_white(rest), x);
                assert(used.push(c).drop_last() =~= used);
                assert(occurrences(non_white(cs), x) <= emoji_names_spec(x).len() - occurrences(used, x));
            }
            lemma_occurrences_prepend(c, non_white(rest), c);
            assert(occurrences(non_white(cs), c) <= emoji_names_spec(c).len() - occurrences(used, c));
            assert(has_capacity(used, c));
            lemma_names_from_within_capacity(rest, used.push(c));
        }
    }
}

/// Text in which no character but whitespace occurs more often than it has
/// emoji names converts: every character finds a name of its own.
pub proof fn lemma_text_within_capacity_converts(lowered: Seq<char>)
    requires
        within_capacity(lowered),
    ensures
        emoji_text_spec(lowered) is Some,
{
    assert forall|x: char|
        occurrences(Seq::<char>::empty(), x) + #[trigger] occurrences(non_white(lowered), x)
            <= emoji_names_spec(x).len() by {
        assert(occurrences(non_white(lowered), x) <= emoji_names_spec(x).len());
    }
    lemma_names_from_within_capacity(lowered, seq![]);
}

/// The glyph of an emoji name, empty for a name without one.
pub open spec fn glyph_of(name: Seq<char>) -> Seq<char> {
    match emoji_of_name_spec(name) {
        Some(g) => g,
        None => seq![],
    }
}

/// The parts joined by single spaces.
pub open spec fn join_spaced(parts: Seq<Seq<char>>) -> Seq<char>
    decreases parts.len(),
{
    if parts.len() == 0 {
        seq![]
    } else if parts.len() == 1 {
        parts[0]
    } else {
        join_spaced(parts.drop_last()) + seq![' '] + parts.last()
    }
}

/// The emoji text of already lower-cased text: the glyphs of its characters'
/// names joined by spaces, or `None` where a character finds no name.
pub open spec fn emoji_text_spec(lowered: Seq<char>) -> Option<Seq<char>> {
    match names_from(lowered, seq![]) {
        Some(names) => Some(join_spaced(names.map_values(|n: Seq<char>| glyph_of(n)))),
        None => None,
    }
}

/// How many times `c` occurs in `s`.
fn count_occurrences(s: &Vec<char>, c: char) -> (r: usize)
    ensures
        r == occurrences(s@, c),
{
    let mut n: usize = 0;
    let mut i: usize = 0;
    while i < s.len()
        invariant
            i <= s@.len(),
            n == occurrences(s@.subrange(0, i as int), c),
            n <= i,
        decreases s@.len() - i,
    {
        proof {
            assert(s@.subrange(0, i + 1).drop_last() =~= s@.subrange(0, i as int));
        }
        if s[i] == c {
            n = n + 1;
        }
        i = i + 1;
    }
    proof {
        assert(s@.subrange(0, i as int) =~= s@);
    }
    n
}

/// The first look-alike of `c` with an emoji name left.
fn find_alternative(c: char, used: &Vec<char>) -> (r: Option<char>)
    ensures
        r == first_available(alternatives_spec(c), used@),
{
    let alts = alternatives(c);
    let mut j: usize = 0;
    proof {
        assert(alts@.skip(0) =~= alts@);
    }
    while j < alts.len()
        invariant
            alts@ == alternatives_spec(c),
            j <= alts@.len(),
            first_available(alts@, used@) == first_available(alts@.skip(j as int), used@),
        decreases alts@.len() - j,
    {
        let a = alts[j];
        proof {
            assert(alts@.skip(j as int).drop_first() =~= alts@.skip(j + 1));
        }
        let names = char_to_emoji_names(a);
        if count_occurrences(used, a) < names.len() {
            return Some(a);
        }
        j = j + 1;
    }
    None
}

/// The emoji text of text that is already lower case: for each character but
/// whitespace, in order, the glyph of its next free emoji name, joined by
/// spaces; `None` where some character finds no name.
pub fn lowercase_text_to_emojis(lowered: &str) -> (r: Option<String>)
    ensures
        opt_string_view(r) == emoji_text_spec(lowered@),
{
    let cs = chars_of(lowered);
    let mut used: Vec<char> = Vec::new();
    let mut out = String::new();
    let mut any = false;
    let ghost mut names: Seq<Seq<char>> = seq![];
    let mut i: usize = 0;
    proof {
        assert(cs@.skip(0) =~= cs@);
        assert(used@ =~= seq![]);
        match names_from(cs@, seq![]) {
            Some(rest) => {
                assert(names + rest =~= rest);
            },
            None => {},
        }
    }
    while i < cs.len()
        invariant
            cs@ == lowered@,
            i <= cs@.len(),
            any == (names.len() > 0),
            out@ == join_spaced(names.map_values(|n: Seq<char>| glyph_of(n))),
            names_from(cs@, seq![]) == match names_from(cs@.skip(i as int), used@) {
                Some(rest) => Some(names + rest),
                None => None,
            },
        decreases cs@.len() - i,
    {
        let c = cs[i];
        proof {
            assert(cs@.skip(i as int).drop_first() =~= cs@.skip(i + 1));
        }
        if !is_white_space(c) {
            let own = char_to_emoji_names(c);
            let n = count_occurrences(&used, c);
            let d = if n < own.len() {
                c
            } else {
                match find_alternative(c, &used) {
                    Some(a) => a,
                    None => {
                        return None;
                    },
                }
            };
            let d_names = char_to_emoji_names(d);
            let k = count_occurrences(&used, d);
            proof {
                lemma_first_available_has_capacity(alternatives_spec(c), used@);
                assert(str_views(own@).len() == own@.len());
                assert(str_views(d_names@).len() == d_names@.len());
                assert(pick(c, used@) == Some(d));
            }
            let name = d_names[k];
            let ghost name_v = emoji_names_spec(d)[k as int];
            proof {
                assert(str_views(d_names@)[k as int] == d_names@[k as int]@);
                lemma_emoji_names_resolve(d, k as int);
            }
            let glyph = match emoji_name_to_emoji(name) {
                Some(g) => g,
                None => {
                    return None;
                },
            };
            let ghost old_names = names;
            proof {
                names = names.push(name_v);
                assert(names.map_values(|n: Seq<char>| glyph_of(n)).drop_last() =~= old_names.map_values(
                    |n: Seq<char>| glyph_of(n),
                ));
                match names_from(cs@.skip(i + 1), used@.push(d)) {
                    Some(rest) => {
                        assert(old_names + (seq![name_v] + rest) =~= names + rest);
                    },
                    None => {},
                }
            }
            if any {
                push_char(&mut out, ' ');
            }
            out.append(glyph);
            used.push(d);
            any = true;
        }
        i = i + 1;
    }
    proof {
        assert(names + seq![] =~= names);
    }
    Some(out)
}

/// The emoji text of `text`: lower-cased, then converted character by
/// character as `lowercase_text_to_emojis` does.
pub fn text_to_emojis(text: &str) -> (r: Option<String>)
    ensures
        opt_string_view(r) == emoji_text_spec(lower_of(text@)),
{
    let lowered = to_lowercase(text);
    lowercase_text_to_emojis(lowered.as_str())
}

/// Why `text_to_reactions` failed.
#[derive(Debug)]
pub enum Error {
    /// The option `text` is missing.
    RequiresText,
    /// The option `text` is no string; its value.
    TextMustBeProvidedInString(String),
    /// A token is no emoji; the token.
    InvalidEmoji(String),
    /// The option `message_id` is no string; its value.
    MessageIdMustBeString(String),
    /// The option `message_id` is no message id; its text.
    InvalidMessageId(String),
    /// The platform refused to add a reaction; its reason.
    CouldNotReactToMessage(String),
    /// No `message_id` was given and no message was seen on the channel.
    NoLastMessageAvailableAndNoMessageIdProvided,
    /// Some character of the text found no emoji.
    CouldNotConvertTextToEmojis,
}

/// What an [`Error`] is, as plain values.
pub enum ErrorView {
    RequiresText,
    TextMustBeProvidedInString(Seq<char>),
    InvalidEmoji(Seq<char>),
    MessageIdMustBeString(Seq<char>),
    InvalidMessageId(Seq<char>),
    CouldNotReactToMessage(Seq<char>),
    NoLastMessageAvailableAndNoMessageIdProvided,
    CouldNotConvertTextToEmojis,
}

impl View for Error {
    type V = ErrorView;

    open spec fn view(&self) -> ErrorView {
        match self {
            Error::RequiresText => ErrorView::RequiresText,
            Error::TextMustBeProvidedInString(v) => ErrorView::TextMustBeProvidedInString(v@),
            Error::InvalidEmoji(t) => ErrorView::InvalidEmoji(t@),
            Error::MessageIdMustBeString(v) => ErrorView::MessageIdMustBeString(v@),
            Error::InvalidMessageId(t) => ErrorView::InvalidMessageId(t@),
            Error::CouldNotReactToMessage(e) => ErrorView::CouldNotReactToMessage(e@),
            Error::NoLastMessageAvailableAndNoMessageIdProvided => ErrorView::NoLastMessageAvailableAndNoMessageIdProvided,
            Error::CouldNotConvertTextToEmojis => ErrorView::CouldNotConvertTextToEmojis,
        }
    }
}

/// The error of `text_to_reactions` for an error in choosing the message.
pub open spec fn from_message_id_error(e: MessageIdErrorView) -> ErrorView {
    match e {
        MessageIdErrorView::MessageIdMustBeString(v) => ErrorView::MessageIdMustBeString(v),
        MessageIdErrorView::InvalidMessageId(t) => ErrorView::InvalidMessageId(t),
        MessageIdErrorView::NoLastMessageAvailableAndNoMessageIdProvided => ErrorView::NoLastMessageAvailableAndNoMessageIdProvided,
    }
}

/// What `text_to_reactions` asks for, given its options and the last message
/// seen on the channel: the emoji text of option `text` and the message to
/// react to. An error in `text` comes first, then one in converting it, then
/// one in choosing the message.
pub open spec fn request_spec(options: Seq<OptionView>, last_message_id: Option<u64>) -> Result<
    (Seq<char>, u64),
    ErrorView,
> {
    match find_option(options, OPTION_TEXT@) {
        Some(Some(ValueView::Text(t))) => match emoji_text_spec(lower_of(t)) {
            Some(e) => match message_id_spec(options, last_message_id) {
                Ok(n) => Ok((e, n)),
                Err(err) => Err(from_message_id_error(err)),
            },
            None => Err(ErrorView::CouldNotConvertTextToEmojis),
        },
        Some(Some(ValueView::Other(v))) => Err(ErrorView::TextMustBeProvidedInString(v)),
        _ => Err(ErrorView::RequiresText),
    }
}

/// How an [`Error`] reads.
pub open spec fn error_text(e: ErrorView) -> Seq<char> {
    "text_to_reactions: "@ + match e {
        ErrorView::RequiresText => "requires text"@,
        ErrorView::TextMustBeProvidedInString(v) => "text must be provided in a string, got `"@ + v + "`"@,
        ErrorView::InvalidEmoji(t) => "invalid emoji: `"@ + t + "`"@,
        ErrorView::MessageIdMustBeString(v) => "message id must be a string, got `"@ + v + "`"@,
        ErrorView::InvalidMessageId(t) => "invalid message id, got `"@ + t + "`"@,
        ErrorView::CouldNotReactToMessage(x) => "could not react to message: "@ + x,
        ErrorView::NoLastMessageAvailableAndNoMessageIdProvided => "no last message available and no message id provided"@,
        ErrorView::CouldNotConvertTextToEmojis => "could not convert text to emojis"@,
    }
}

impl Error {
    /// The error for an error in choosing the message.
    pub fn from_message_id_error(e: MessageIdError) -> (r: Error)
        ensures
            r@ == from_message_id_error(e@),
    {
        match e {
            MessageIdError::MessageIdMustBeString(v) => Error::MessageIdMustBeString(v),
            MessageIdError::InvalidMessageId(t) => Error::InvalidMessageId(t),
            MessageIdError::NoLastMessageAvailableAndNoMessageIdProvided => Error::NoLastMessageAvailableAndNoMessageIdProvided,
        }
    }

    /// How the error reads.
    pub fn message(&self) -> (r: String)
        ensures
            r@ == error_text(self@),
    {
        let mut s = String::from_str("text_to_reactions: ");
        match self {
            Error::RequiresText => s.append("requires text"),
            Error::TextMustBeProvidedInString(v) => {
                s.append("text must be provided in a string, got `");
                s.append(v.as_str());
                s.append("`");
            },
            Error::InvalidEmoji(t) => {
                s.append("invalid emoji: `");
                s.append(t.as_str());
                s.append("`");
            },
            Error::MessageIdMustBeString(v) => {
                s.append("message id must be a string, got `");
                s.append(v.as_str());
                s.append("`");
            },
            Error::InvalidMessageId(t) => {
                s.append("invalid message id, got `");
                s.append(t.as_str());
                s.append("`");
            },
            Error::CouldNotReactToMessage(x) => {
                s.append("could not react to message: ");
                s.append(x.as_str());
            },
            Error::NoLastMessageAvailableAndNoMessageIdProvided => s.append(
                "no last message available and no message id provided",
            ),
            Error::CouldNotConvertTextToEmojis => s.append("could not convert text to emojis"),
        }
        proof {
            assert(s@ =~= error_text(self@));
        }
        s
    }
}

impl From<ReactToMessageWithError> for Error {
    fn from(err: ReactToMessageWithError) -> (r: Error) {
        match err {
            ReactToMessageWithError::CouldNotReactToMessage(e) => Error::CouldNotReactToMessage(e),
            ReactToMessageWithError::InvalidEmoji(t) => Error::InvalidEmoji(t),
        }
    }
}

impl vstd::std_specs::convert::FromSpecImpl<ReactToMessageWithError> for Error {
    open spec fn obeys_from_spec() -> bool {
        true
    }

    open spec fn from_spec(err: ReactToMessageWithError) -> Error {
        match err {
            ReactToMessageWithError::CouldNotReactToMessage(e) => Error::CouldNotReactToMessage(e),
            ReactToMessageWithError::InvalidEmoji(t) => Error::InvalidEmoji(t),
        }
    }
}

impl TextToReactions {
    /// What the command asks for, given its options and the last message seen
    /// on the channel of the interaction.
    pub fn request(options: &Vec<CommandOption>, last_message_id: Option<u64>) -> (r: Result<ReactionRequest, Error>)
        ensures
            request_spec(option_views(options@), last_message_id) == match r {
                Ok(q) => Ok((q.emojis@, q.message_id)),
                Err(e) => Err(e@),
            },
    {
        match option_value(options, OPTION_TEXT) {
            Some(Some(OptionValue::Text(t))) => match text_to_emojis(t.as_str()) {
                Some(emojis) => match message_id(options, last_message_id) {
                    Ok(n) => Ok(ReactionRequest { emojis, message_id: n }),
                    Err(e) => Err(Error::from_message_id_error(e)),
                },
                None => Err(Error::CouldNotConvertTextToEmojis),
            },
            Some(Some(OptionValue::Other(v))) => Err(Error::TextMustBeProvidedInString(v.clone())),
            _ => Err(Error::RequiresText),
        }
    }
}

} // verus!
