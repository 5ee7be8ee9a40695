//! Game servers: the economy kept per player, its top list, and the player
//! count shown publicly.
use vstd::prelude::*;
use crate::args::{arg_int, int_arg, int_arg_error};
use crate::error::ApiError;
use crate::numbers::{decimal, digit_char, digit_value, is_digit, lemma_decimal_digits, lemma_digit_char, format_i32, format_u64, int_text, lemma_i32_text_roundtrip, IntErrorKind};
use crate::text::{push_char, views};

verus! {

/// The kinds of game server that keep an economy.
#[derive(Debug, Clone, Copy, PartialEq, Eq, Structural)]
pub enum ServerType {
    Survival,
}

/// A new balance, as a client sends it.
pub struct Economy {
    pub balance: i32,
}

/// How many entries a top list holds.
pub struct TopsQuery {
    pub limit: u64,
}

/// One entry of a top list: the player's UUID (128-bit value) and balance.
pub struct EconomyTop {
    pub uuid: u128,
    pub balance: i32,
}

/// The balance after adding the amount at argument 1 to `current`, or why
/// that amount cannot be read ("User balance" when it is missing).
pub fn added_balance(current: i32, args: &Vec<String>) -> (r: Result<i32, ApiError>)
    requires
        arg_int(views(args@), 1) matches Some(Ok(d)) ==> i32::MIN <= current + d <= i32::MAX,
    ensures
        match r {
            Ok(b) => arg_int(views(args@), 1) matches Some(Ok(d)) && b == current + d,
            Err(e) => int_arg_error(views(args@), 1, "User balance") == Some(e),
        },
{
    let amount = match int_arg(args, 1, "User balance") {
        Ok(v) => v,
        Err(e) => return Err(e),
    };
    Ok(current + amount)
}

/// Like `added_balance`, but refuses with `None` an amount whose sum with
/// `current` does not fit in an `i32`.
pub fn checked_added_balance(current: i32, args: &Vec<String>) -> (r: Option<Result<i32, ApiError>>)
    ensures
        match r {
            None => arg_int(views(args@), 1) matches Some(Ok(d))
                && !(i32::MIN <= current + d <= i32::MAX),
            Some(Ok(b)) => arg_int(views(args@), 1) matches Some(Ok(d)) && b == current + d,
            Some(Err(e)) => int_arg_error(views(args@), 1, "User balance") == Some(e),
        },
{
    match int_arg(args, 1, "User balance") {
        Ok(v) => {
            let sum: i64 = current as i64 + v as i64;
            if sum < i32::MIN as i64 || sum > i32::MAX as i64 {
                None
            } else {
                Some(added_balance(current, args))
            }
        },
        Err(e) => Some(Err(e)),
    }
}

/// The top list made from the rows a database query returned, each a
/// balance and the UUID of its player, in the same order.
pub fn economy_tops(rows: &Vec<(i32, Option<u128>)>) -> (tops: Vec<EconomyTop>)
    requires
        forall|i: int| 0 <= i < rows@.len() ==> (#[trigger] rows@[i]).1 is Some,
    ensures
        tops@.len() == rows@.len(),
        forall|i: int| 0 <= i < rows@.len() ==> {
            &&& (#[trigger] tops@[i]).balance == rows@[i].0
            &&& Some(tops@[i].uuid) == rows@[i].1
        },
{
    let mut tops: Vec<EconomyTop> = Vec::new();
    let mut i: usize = 0;
    while i < rows.len()
        invariant
            i <= rows@.len(),
            forall|j: int| 0 <= j < rows@.len() ==> (#[trigger] rows@[j]).1 is Some,
            tops@.len() == i,
            forall|j: int| 0 <= j < i ==> {
                &&& (#[trigger] tops@[j]).balance == rows@[j].0
                &&& Some(tops@[j].uuid) == rows@[j].1
            },
        decreases rows@.len() - i,
    {
        let (balance, user) = rows[i];
        proof {
            assert(rows@[i as int].1 is Some);
        }
        let uuid = user.unwrap();
        tops.push(EconomyTop { uuid, balance });
        i = i + 1;
    }
    tops
}

/// The public player count of a game server: `online/max`.
pub open spec fn online_text(online: nat, max: nat) -> Seq<char> {
    decimal(online) + seq!['/'] + decimal(max)
}

/// Formats the player count of a game server.
pub fn format_online(online: u64, max: u64) -> (s: String)
    ensures
        s@ == online_text(online as nat, max as nat),
        exists|k: int| #![trigger s@[k]] {
            &&& 0 < k < s@.len() - 1
            &&& s@[k] == '/'
            &&& is_numeral(s@.subrange(0, k))
            &&& numeral_value(s@.subrange(0, k)) == online
            &&& is_numeral(s@.subrange(k + 1, s@.len() as int))
            &&& numeral_value(s@.subrange(k + 1, s@.len() as int)) == max
        },
{
    let mut s = format_u64(online);
    push_char(&mut s, '/');
    let m = format_u64(max);
    s.append(m.as_str());
    proof {
        lemma_online_text_reads_back(online as nat, max as nat);
        let txt = online_text(online as nat, max as nat);
        let k = choose|k: int| #![trigger txt[k]] {
            &&& 0 < k < txt.len() - 1
            &&& txt[k] == '/'
            &&& is_numeral(txt.subrange(0, k))
            &&& numeral_value(txt.subrange(0, k)) == online
            &&& is_numeral(txt.subrange(k + 1, txt.len() as int))
            &&& numeral_value(txt.subrange(k + 1, txt.len() as int)) == max
        };
        assert(s@[k] == '/');
    }
    s
}

/// The arguments that carry a new balance of the user `uuid`: uuid, balance.
pub open spec fn economy_args_of(uuid: Seq<char>, balance: i32) -> Seq<Seq<char>> {
    seq![uuid, int_text(balance as int)]
}

/// Builds the arguments that set the balance of the user `uuid`.
pub fn economy_args(uuid: String, body: &Economy) -> (args: Vec<String>)
    ensures
        views(args@) == economy_args_of(uuid@, body.balance),
{
    let ghost u = uuid@;
    let mut args: Vec<String> = Vec::new();
    args.push(uuid);
    args.push(format_i32(body.balance));
    proof {
        assert(views(args@) =~= economy_args_of(u, body.balance));
    }
    args
}

/// The balance read back from the arguments it was sent with is the
/// balance sent.
pub proof fn lemma_economy_args_roundtrip(uuid: Seq<char>, balance: i32)
    ensures
        arg_int(economy_args_of(uuid, balance), 1) == Some(Ok::<int, IntErrorKind>(balance as int)),
        int_arg_error(economy_args_of(uuid, balance), 1, "User balance") is None,
{
    lemma_i32_text_roundtrip(balance as int);
}

/// A numeral: a non-empty run of decimal digits.
pub open spec fn is_numeral(s: Seq<char>) -> bool {
    s.len() > 0 && forall|i: int| 0 <= i < s.len() ==> is_digit(#[trigger] s[i])
}

/// The number a run of decimal digits stands for.
pub open spec fn numeral_value(s: Seq<char>) -> int
    decreases s.len(),
{
    if s.len() == 0 {
        0
    } else {
        numeral_value(s.drop_last()) * 10 + digit_value(s.last())
    }
}

proof fn lemma_decimal_numeral(n: nat)
    ensures
        numeral_value(decimal(n)) == n,
    decreases n,
{
    if n < 10 {
        lemma_digit_char(n as int);
        assert(decimal(n).drop_last() =~= Seq::<char>::empty());
        assert(decimal(n).last() == digit_char(n as int));
        assert(numeral_value(Seq::<char>::empty()) == 0);
        assert(decimal(n).len() == 1);
        assert(numeral_value(decimal(n)) == numeral_value(decimal(n).drop_last()) * 10 + digit_value(decimal(n).last()));
    } else {
        lemma_digit_char((n % 10) as int);
        lemma_decimal_numeral(n / 10);
        lemma_decimal_digits(n);
        assert(decimal(n).drop_last() == decimal(n / 10));
        assert(decimal(n).last() == digit_char((n % 10) as int));
        assert((n / 10) * 10 + n % 10 == n);
        assert(numeral_value(decimal(n)) == numeral_value(decimal(n).drop_last()) * 10 + digit_value(decimal(n).last()));
    }
}

/// The player count reads back: before the one `/` stands a numeral whose
/// value is the number of players online (also when none is), after it a
/// numeral whose value is the number of slots.
pub proof fn lemma_online_text_reads_back(online: nat, max: nat)
    ensures
        exists|k: int| #![trigger online_text(online, max)[k]] {
            &&& 0 < k < online_text(online, max).len() - 1
            &&& online_text(online, max)[k] == '/'
            &&& is_numeral(online_text(online, max).subrange(0, k))
            &&& numeral_value(online_text(online, max).subrange(0, k)) == online
            &&& is_numeral(online_text(online, max).subrange(k + 1, online_text(online, max).len() as int))
            &&& numeral_value(online_text(online, max).subrange(k + 1, online_text(online, max).len() as int)) == max
        },
{
    let s = online_text(online, max);
    let k = decimal(online).len() as int;
    lemma_decimal_digits(online);
    lemma_decimal_digits(max);
    assert(s.subrange(0, k) =~= decimal(online));
    assert(s.subrange(k + 1, s.len() as int) =~= decimal(max));
    assert(s[k] == '/');
    assert(numeral_value(decimal(online)) == online) by {
        lemma_decimal_numeral(online);
    }
    assert(numeral_value(decimal(max)) == max) by {
        lemma_decimal_numeral(max);
    }
}

} // verus!
