//! Admission of requests, and the creation of a new player's records.
use vstd::prelude::*;
use crate::text::{chars_of, same_text};

verus! {

/// What became of the key a request carried.
#[derive(Debug, Clone, Copy, PartialEq, Eq, Structural)]
pub enum TokenCheck {
    /// The request carried no key.
    Missing,
    /// The key names no known player.
    Rejected,
    /// The key names a known player.
    Accepted,
}

/// Whether a request goes on to its handler.
#[derive(Debug, Clone, Copy, PartialEq, Eq, Structural)]
pub enum AuthDecision {
    /// Go on, with the player of the key as the current user.
    ContinueAsUser,
    /// Go on without a current user (sign-up of a new player).
    Continue,
    /// Answer 401 Unauthorized.
    Unauthorized,
}

/// The path on which a key that names no player is let through.
pub open spec fn signup_path() -> Seq<char> {
    "/auth/signUp"@
}

pub open spec fn spec_auth_decision(check: TokenCheck, uri: Seq<char>) -> AuthDecision {
    match check {
        TokenCheck::Missing => AuthDecision::Unauthorized,
        TokenCheck::Accepted => AuthDecision::ContinueAsUser,
        TokenCheck::Rejected => if uri == signup_path() {
            AuthDecision::Continue
        } else {
            AuthDecision::Unauthorized
        },
    }
}

/// Decides whether a request to `uri` goes on, given what became of its key.
pub fn auth_decision(check: TokenCheck, uri: &str) -> (d: AuthDecision)
    ensures
        d == spec_auth_decision(check, uri@),
{
    match check {
        TokenCheck::Missing => AuthDecision::Unauthorized,
        TokenCheck::Accepted => AuthDecision::ContinueAsUser,
        TokenCheck::Rejected => if same_text(uri, "/auth/signUp") {
            AuthDecision::Continue
        } else {
            AuthDecision::Unauthorized
        },
    }
}

/// A request without a key is refused, whatever its path; a request goes
/// on without a current user only when it signs up with a key that names
/// no player yet.
pub proof fn lemma_admission(check: TokenCheck, uri: Seq<char>)
    ensures
        check == TokenCheck::Missing ==> spec_auth_decision(check, uri) == AuthDecision::Unauthorized,
        check == TokenCheck::Accepted ==> spec_auth_decision(check, uri) == AuthDecision::ContinueAsUser,
        spec_auth_decision(check, uri) == AuthDecision::Continue <==> (check == TokenCheck::Rejected && uri == signup_path()),
{
}

/// The records of a player, in the order sign-up creates them.
#[derive(Debug, Clone, Copy, PartialEq, Eq, Structural)]
pub enum Record {
    User,
    SurvivalEconomy,
    Wallet,
    Calendar,
}

/// The next thing sign-up does.
#[derive(Debug, Clone, Copy)]
pub enum SignupAction {
    /// Insert this record.
    Insert(Record),
    /// Answer with this status; a message is sent as JSON `{"message": ...}`.
    Respond { status: u16, message: Option<&'static str> },
}

pub open spec fn spec_signup_next(done: Record, inserted: bool) -> SignupAction {
    match done {
        Record::User => if inserted {
            SignupAction::Insert(Record::SurvivalEconomy)
        } else {
            SignupAction::Respond { status: 409, message: Some("User with that uuid already exists") }
        },
        Record::SurvivalEconomy => if inserted {
            SignupAction::Insert(Record::Wallet)
        } else {
            SignupAction::Respond { status: 500, message: Some("Failed to create SurvivalEconomy Table") }
        },
        Record::Wallet => if inserted {
            SignupAction::Insert(Record::Calendar)
        } else {
            SignupAction::Respond { status: 500, message: Some("Failed to create Wallet Table") }
        },
        Record::Calendar => if inserted {
            SignupAction::Respond { status: 201, message: None }
        } else {
            SignupAction::Respond { status: 500, message: Some("Failed to create Calendars Table") }
        },
    }
}

/// The first thing sign-up does.
pub open spec fn signup_start_action() -> SignupAction {
    SignupAction::Insert(Record::User)
}

/// Sign-up starts with the user record.
pub fn signup_start() -> (a: SignupAction)
    ensures
        a == signup_start_action(),
{
    SignupAction::Insert(Record::User)
}

/// What sign-up does after trying to insert the record `done`.
pub fn signup_next(done: Record, inserted: bool) -> (a: SignupAction)
    ensures
        a == spec_signup_next(done, inserted),
        forall|i: int| 0 <= i < 3 && inserted && done == #[trigger] signup_order()[i]
            ==> (a matches SignupAction::Insert(r) && r == signup_order()[i + 1]),
        inserted && done == Record::Calendar ==> (a matches SignupAction::Respond { status, .. } && status == 201),
        !inserted ==> (a matches SignupAction::Respond { status, .. } && status != 201),
{
    proof {
        lemma_signup_inserts_in_order();
    }
    match done {
        Record::User => if inserted {
            SignupAction::Insert(Record::SurvivalEconomy)
        } else {
            SignupAction::Respond { status: 409, message: Some("User with that uuid already exists") }
        },
        Record::SurvivalEconomy => if inserted {
            SignupAction::Insert(Record::Wallet)
        } else {
            SignupAction::Respond { status: 500, message: Some("Failed to create SurvivalEconomy Table") }
        },
        Record::Wallet => if inserted {
            SignupAction::Insert(Record::Calendar)
        } else {
            SignupAction::Respond { status: 500, message: Some("Failed to create Wallet Table") }
        },
        Record::Calendar => if inserted {
            SignupAction::Respond { status: 201, message: None }
        } else {
            SignupAction::Respond { status: 500, message: Some("Failed to create Calendars Table") }
        },
    }
}

/// The record inserted at each step of a sign-up, in order.
pub open spec fn record_at(i: int) -> Record {
    if i == 0 {
        Record::User
    } else if i == 1 {
        Record::SurvivalEconomy
    } else if i == 2 {
        Record::Wallet
    } else {
        Record::Calendar
    }
}

/// The answer of a sign-up run to its end, given whether each insert
/// (user, survival economy, wallet, calendar) succeeded, from step `i` on.
pub open spec fn signup_answer_from(i: int, inserted: Seq<bool>) -> SignupAction
    decreases 4 - i,
{
    if i < 0 || i >= 4 {
        SignupAction::Respond { status: 201, message: None }
    } else {
        match spec_signup_next(record_at(i), inserted[i]) {
            SignupAction::Insert(_) => signup_answer_from(i + 1, inserted),
            answer => answer,
        }
    }
}

/// A sign-up answers 201 Created exactly when all four records were
/// inserted, 409 Conflict exactly when the user record was refused, and
/// 500 when a later record was refused.
pub proof fn lemma_signup_answer(inserted: Seq<bool>)
    requires
        inserted.len() == 4,
    ensures
        (signup_answer_from(0, inserted) == SignupAction::Respond { status: 201, message: None })
            <==> (inserted[0] && inserted[1] && inserted[2] && inserted[3]),
        (signup_answer_from(0, inserted) matches SignupAction::Respond { status, .. } && status == 409)
            <==> !inserted[0],
        (signup_answer_from(0, inserted) matches SignupAction::Respond { status, .. } && status == 500)
            <==> (inserted[0] && !(inserted[1] && inserted[2] && inserted[3])),
{
    reveal_with_fuel(signup_answer_from, 5);
}

/// The records of a player, in the order sign-up creates them.
pub open spec fn signup_order() -> Seq<Record> {
    seq![Record::User, Record::SurvivalEconomy, Record::Wallet, Record::Calendar]
}

/// Sign-up inserts every record of a player, one after the other in the
/// order user, survival economy, wallet, calendar: it starts with the
/// first, each successful insert is followed by the insert of the next
/// record, and only the successful insert of the last one answers
/// 201 Created; a refused insert always ends the sign-up with an error
/// status.
pub proof fn lemma_signup_inserts_in_order()
    ensures
        signup_start_action() matches SignupAction::Insert(r) && r == signup_order()[0],
        forall|i: int| 0 <= i < 3 ==> (spec_signup_next(#[trigger] signup_order()[i], true) matches SignupAction::Insert(r)
            && r == signup_order()[i + 1]),
        spec_signup_next(signup_order()[3], true) matches SignupAction::Respond { status, message }
            && status == 201 && message is None,
        forall|r: Record| (#[trigger] spec_signup_next(r, false)) matches SignupAction::Respond { status, .. }
            && (status == 409 || status == 500),
        forall|r: Record| (#[trigger] spec_signup_next(r, false) matches SignupAction::Respond { status, .. } && status == 409)
            <==> r == Record::User,
{
    assert(signup_order()[0] == Record::User);
    assert(signup_order()[1] == Record::SurvivalEconomy);
    assert(signup_order()[2] == Record::Wallet);
    assert(signup_order()[3] == Record::Calendar);
}

/// The records that setting up an existing player creates: those missing,
/// in the order survival economy, wallet, calendar.
pub open spec fn spec_setup_records(has_survival_economy: bool, has_wallet: bool, has_calendar: bool) -> Seq<Record> {
    (if has_survival_economy { Seq::<Record>::empty() } else { seq![Record::SurvivalEconomy] })
        + (if has_wallet { Seq::<Record>::empty() } else { seq![Record::Wallet] })
        + (if has_calendar { Seq::<Record>::empty() } else { seq![Record::Calendar] })
}

/// Setting up twice creates nothing the second time: once the records
/// that setup creates are added to those the player had, every record is
/// present and setup has nothing left to create.
pub proof fn lemma_setup_idempotent(has_survival_economy: bool, has_wallet: bool, has_calendar: bool)
    ensures
        ({
            let created = spec_setup_records(has_survival_economy, has_wallet, has_calendar);
            let survival_after = has_survival_economy || created.contains(Record::SurvivalEconomy);
            let wallet_after = has_wallet || created.contains(Record::Wallet);
            let calendar_after = has_calendar || created.contains(Record::Calendar);
            &&& survival_after && wallet_after && calendar_after
            &&& spec_setup_records(survival_after, wallet_after, calendar_after).len() == 0
        }),
{
    let created = spec_setup_records(has_survival_economy, has_wallet, has_calendar);
    let a = if has_survival_economy { Seq::<Record>::empty() } else { seq![Record::SurvivalEconomy] };
    let b = if has_wallet { Seq::<Record>::empty() } else { seq![Record::Wallet] };
    let c = if has_calendar { Seq::<Record>::empty() } else { seq![Record::Calendar] };
    if !has_survival_economy {
        assert(created[0] == Record::SurvivalEconomy);
    }
    if !has_wallet {
        assert(created[a.len() as int] == Record::Wallet);
    }
    if !has_calendar {
        assert(created[(a.len() + b.len()) as int] == Record::Calendar);
    }
    assert(spec_setup_records(true, true, true) =~= Seq::<Record>::empty());
}

/// Lists the records that setting up a player with the given records
/// creates.
pub fn setup_records(has_survival_economy: bool, has_wallet: bool, has_calendar: bool) -> (v: Vec<Record>)
    ensures
        v@ == spec_setup_records(has_survival_economy, has_wallet, has_calendar),
{
    let mut v: Vec<Record> = Vec::new();
    if !has_survival_economy {
        v.push(Record::SurvivalEconomy);
    }
    let ghost a = v@;
    if !has_wallet {
        v.push(Record::Wallet);
    }
    let ghost b = v@;
    if !has_calendar {
        v.push(Record::Calendar);
    }
    proof {
        assert(v@ =~= spec_setup_records(has_survival_economy, has_wallet, has_calendar));
    }
    v
}

/// The token of an `Authorization` header value: what follows the prefix
/// `Bearer ` (`value.strip_prefix("Bearer ")`).
pub open spec fn spec_bearer_token(value: Seq<char>) -> Option<Seq<char>> {
    if value.len() >= 7 && value.subrange(0, 7) == "Bearer "@ {
        Some(value.subrange(7, value.len() as int))
    } else {
        None
    }
}

/// Takes the token out of an `Authorization` header value.
pub fn bearer_token(value: &str) -> (r: Option<String>)
    ensures
        match r {
            Some(t) => spec_bearer_token(value@) == Some(t@),
            None => spec_bearer_token(value@) is None,
        },
{
    let cs = chars_of(value);
    let prefix = chars_of("Bearer ");
    proof {
        reveal_strlit("Bearer ");
    }
    if cs.len() < 7 {
        return None;
    }
    let mut i: usize = 0;
    while i < 7
        invariant
            i <= 7,
            cs@ == value@,
            cs@.len() >= 7,
            prefix@ == "Bearer "@,
            prefix@.len() == 7,
            forall|j: int| 0 <= j < i ==> cs@[j] == prefix@[j],
        decreases 7 - i,
    {
        if cs[i] != prefix[i] {
            proof {
                assert(value@.subrange(0, 7)[i as int] != "Bearer "@[i as int]);
            }
            return None;
        }
        i = i + 1;
    }
    proof {
        assert(value@.subrange(0, 7) =~= "Bearer "@);
    }
    let mut token = String::new();
    let mut k: usize = 7;
    while k < cs.len()
        invariant
            7 <= k <= cs@.len(),
            cs@ == value@,
            token@ == value@.subrange(7, k as int),
        decreases cs.len() - k,
    {
        crate::text::push_char(&mut token, cs[k]);
        proof {
            assert(value@.subrange(7, k + 1) =~= value@.subrange(7, k as int).push(cs@[k as int]));
        }
        k = k + 1;
    }
    Some(token)
}

} // verus!
