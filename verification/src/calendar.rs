//! The daily-reward calendar: the text form of the obtained rewards, and
//! the arguments that carry a calendar update from the HTTP API to the
//! command handlers.
use vstd::prelude::*;
use crate::args::{arg_int, int_arg, int_arg_error};
use crate::error::ApiError;
use crate::numbers::{
    format_i32, int_text, lemma_i32_text_roundtrip, lemma_int_text_chars, lemma_decimal_digits,
    parse_i32, parse_i32_or_zero, IntErrorKind,
};
use crate::text::{join_on, lemma_split_join, push_char, split_fields, split_on, views};

verus! {

/// The texts of the rewards, one per reward.
pub open spec fn reward_texts(rewards: Seq<i32>) -> Seq<Seq<char>> {
    Seq::new(rewards.len(), |i: int| int_text(rewards[i] as int))
}

/// The stored form of a list of obtained rewards: the numbers joined by `|`.
pub open spec fn rewards_text(rewards: Seq<i32>) -> Seq<char> {
    join_on(reward_texts(rewards), '|')
}

/// The rewards read back from their stored form: empty text gives no
/// rewards, otherwise each `|`-separated piece is read as an `i32`, a
/// piece that is not one counting as 0.
pub open spec fn spec_parse_rewards(s: Seq<char>) -> Seq<i32> {
    if s.len() == 0 {
        Seq::<i32>::empty()
    } else {
        Seq::new(split_on(s, '|').len(), |i: int| parse_i32_or_zero(split_on(s, '|')[i]) as i32)
    }
}

/// The stored form of the obtained rewards.
pub fn join_rewards(rewards: &Vec<i32>) -> (s: String)
    ensures
        s@ == rewards_text(rewards@),
{
    let ghost texts = reward_texts(rewards@);
    let mut s = String::new();
    let mut i: usize = 0;
    while i < rewards.len()
        invariant
            i <= rewards.len(),
            texts == reward_texts(rewards@),
            s@ == join_on(texts.take(i as int), '|'),
        decreases rewards.len() - i,
    {
        let piece = format_i32(rewards[i]);
        let ghost before = s@;
        if i > 0 {
            push_char(&mut s, '|');
        }
        s.append(piece.as_str());
        proof {
            assert(texts.take(i + 1).drop_last() == texts.take(i as int));
            assert(texts.take(i + 1).last() == piece@);
            if i == 0 {
                assert(before == Seq::<char>::empty());
                assert(s@ == piece@);
            }
        }
        i = i + 1;
    }
    proof {
        assert(texts.take(rewards.len() as int) == texts);
    }
    s
}

/// Reads the obtained rewards from their stored form.
pub fn parse_rewards(s: &str) -> (v: Vec<i32>)
    ensures
        v@ == spec_parse_rewards(s@),
{
    let mut v: Vec<i32> = Vec::new();
    if s.is_empty() {
        return v;
    }
    let pieces = split_fields(s, '|');
    let mut i: usize = 0;
    while i < pieces.len()
        invariant
            i <= pieces.len(),
            views(pieces@) == split_on(s@, '|'),
            v@.len() == i,
            forall|j: int| 0 <= j < i ==> #[trigger] v@[j] == parse_i32_or_zero(split_on(s@, '|')[j]) as i32,
        decreases pieces.len() - i,
    {
        let value = match parse_i32(pieces[i].as_str()) {
            Ok(x) => x,
            Err(_) => 0,
        };
        proof {
            assert(pieces@[i as int]@ == split_on(s@, '|')[i as int]);
        }
        v.push(value);
        i = i + 1;
    }
    proof {
        assert(v@ =~= spec_parse_rewards(s@));
    }
    v
}

/// What a stored list of rewards reads back as: exactly the list.
pub proof fn lemma_rewards_roundtrip(rewards: Seq<i32>)
    ensures
        spec_parse_rewards(rewards_text(rewards)) == rewards,
{
    let texts = reward_texts(rewards);
    if rewards.len() == 0 {
        assert(rewards_text(rewards) == Seq::<char>::empty());
        assert(spec_parse_rewards(rewards_text(rewards)) =~= rewards);
    } else {
        assert forall|i: int| 0 <= i < texts.len() implies !(#[trigger] texts[i]).contains('|') by {
            lemma_int_text_chars(rewards[i] as int);
            if texts[i].contains('|') {
                let k = choose|k: int| 0 <= k < texts[i].len() && texts[i][k] == '|';
                assert(int_text(rewards[i] as int)[k] == '|');
            }
        }
        lemma_split_join(texts, '|');
        lemma_join_nonempty(texts, rewards);
        assert forall|i: int| 0 <= i < rewards.len() implies
            parse_i32_or_zero(texts[i]) as i32 == rewards[i] by {
            lemma_i32_text_roundtrip(rewards[i] as int);
        }
        assert(spec_parse_rewards(rewards_text(rewards)) =~= rewards);
    }
}

/// The stored form of a non-empty list of rewards is not empty.
proof fn lemma_join_nonempty(texts: Seq<Seq<char>>, rewards: Seq<i32>)
    requires
        texts == reward_texts(rewards),
        rewards.len() >= 1,
    ensures
        join_on(texts, '|').len() >= 1,
    decreases rewards.len(),
{
    if rewards.len() == 1 {
        lemma_decimal_digits(if rewards[0] < 0 { (-rewards[0]) as nat } else { rewards[0] as nat });
    } else {
        assert(texts.drop_last() == reward_texts(rewards.drop_last()));
        lemma_join_nonempty(texts.drop_last(), rewards.drop_last());
    }
}

/// A calendar as a client sends it: current step, streak, the rewards
/// obtained so far, and when the last one was obtained (as text).
pub struct CalendarEntity {
    pub step: i32,
    pub streak: i32,
    pub obtained_rewards: Vec<i32>,
    pub last_obtained: String,
}

/// The arguments that carry a calendar update of the user `uuid`:
/// uuid, step, streak, stored rewards, time of the last reward.
pub open spec fn calendar_args(uuid: Seq<char>, step: i32, streak: i32, rewards: Seq<i32>, last: Seq<char>) -> Seq<Seq<char>> {
    seq![uuid, int_text(step as int), int_text(streak as int), rewards_text(rewards), last]
}

/// Builds the arguments of a calendar update for the user `uuid`.
pub fn calendar_update_args(uuid: String, body: &CalendarEntity) -> (args: Vec<String>)
    ensures
        views(args@) == calendar_args(uuid@, body.step, body.streak, body.obtained_rewards@, body.last_obtained@),
{
    let mut args: Vec<String> = Vec::new();
    let ghost u = uuid@;
    args.push(uuid);
    args.push(format_i32(body.step));
    args.push(format_i32(body.streak));
    args.push(join_rewards(&body.obtained_rewards));
    args.push(body.last_obtained.clone());
    proof {
        assert(views(args@) =~= calendar_args(u, body.step, body.streak, body.obtained_rewards@, body.last_obtained@));
    }
    args
}

/// The values of a calendar update read from its arguments. The stored
/// rewards are absent when the update does not carry them, and then stay
/// as they are.
pub struct CalendarUpdate {
    pub step: i32,
    pub streak: i32,
    pub obtained_rewards: Option<String>,
}

/// Why the arguments of a calendar update (`{uuid} {step} {streak}`,
/// optionally followed by the stored rewards) are refused, checked in
/// order: step, then streak.
pub open spec fn calendar_update_error(args: Seq<Seq<char>>) -> Option<ApiError> {
    if int_arg_error(args, 1, "Calendar step") is Some {
        int_arg_error(args, 1, "Calendar step")
    } else if int_arg_error(args, 2, "Calendar streak") is Some {
        int_arg_error(args, 2, "Calendar streak")
    } else {
        None
    }
}

/// Reads a calendar update from its arguments (the user's uuid at 0 is
/// read by the caller); the stored rewards at 3, when present, replace
/// the old ones.
pub fn parse_calendar_update(args: &Vec<String>) -> (r: Result<CalendarUpdate, ApiError>)
    ensures
        r is Ok <==> calendar_update_error(views(args@)) is None,
        r matches Err(e) ==> calendar_update_error(views(args@)) == Some(e),
        r matches Ok(u) ==> {
            &&& arg_int(views(args@), 1) == Some(Ok::<int, IntErrorKind>(u.step as int))
            &&& arg_int(views(args@), 2) == Some(Ok::<int, IntErrorKind>(u.streak as int))
            &&& (args@.len() > 3 ==> (u.obtained_rewards matches Some(s) && s@ == args@[3]@))
            &&& (args@.len() <= 3 ==> u.obtained_rewards is None)
        },
{
    let step = match int_arg(args, 1, "Calendar step") {
        Ok(v) => v,
        Err(e) => return Err(e),
    };
    let streak = match int_arg(args, 2, "Calendar streak") {
        Ok(v) => v,
        Err(e) => return Err(e),
    };
    let rewards = if args.len() > 3 { Some(args[3].clone()) } else { None };
    Ok(CalendarUpdate { step, streak, obtained_rewards: rewards })
}

/// A calendar update read back from the arguments it was sent with gives
/// the sent step, streak and rewards.
pub proof fn lemma_calendar_update_roundtrip(
    uuid: Seq<char>,
    step: i32,
    streak: i32,
    rewards: Seq<i32>,
    last: Seq<char>,
)
    ensures
        calendar_update_error(calendar_args(uuid, step, streak, rewards, last)) is None,
        arg_int(calendar_args(uuid, step, streak, rewards, last), 1) == Some(Ok::<int, IntErrorKind>(step as int)),
        arg_int(calendar_args(uuid, step, streak, rewards, last), 2) == Some(Ok::<int, IntErrorKind>(streak as int)),
        spec_parse_rewards(calendar_args(uuid, step, streak, rewards, last)[3]) == rewards,
{
    lemma_i32_text_roundtrip(step as int);
    lemma_i32_text_roundtrip(streak as int);
    lemma_rewards_roundtrip(rewards);
}

} // verus!
