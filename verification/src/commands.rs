//! Commands that game servers send over the websocket: a line of words,
//! `METHOD PATH ARG...` (with `|` also separating words), routed to a
//! handler and answered with a response body.
use vstd::prelude::*;
use crate::error::{spec_code, spec_message, ApiError};
use crate::key::{parse_uuid, spec_parse_uuid};
use crate::text::{bars_to_spaces, command_words, push_char, same_text, views, words};

verus! {

/// The handler a command goes to.
#[derive(Debug, Clone, Copy, PartialEq, Eq, Structural)]
pub enum Route {
    PublicOnline,
    PublicServers,
    PublicCosmetics,
    CalendarsGet,
    CalendarsUpdate,
    CalendarsRewards,
    SurvivalEconomySet,
    SurvivalEconomyAdd,
    SurvivalEconomyGet,
    WalletGet,
    WalletBuy,
    /// No handler: answered with an empty result.
    Unknown,
}

/// The routes of the websocket commands.
pub open spec fn spec_command_route(method: Seq<char>, path: Seq<char>) -> Route {
    if method == "GET"@ && path == "/public/online"@ {
        Route::PublicOnline
    } else if method == "GET"@ && path == "/public/servers"@ {
        Route::PublicServers
    } else if method == "GET"@ && path == "/public/cosmetics"@ {
        Route::PublicCosmetics
    } else if method == "GET"@ && path == "/calendars"@ {
        Route::CalendarsGet
    } else if method == "PUT"@ && path == "/calendars"@ {
        Route::CalendarsUpdate
    } else if method == "GET"@ && path == "/calendars/rewards"@ {
        Route::CalendarsRewards
    } else if method == "POST"@ && path == "/servers/Survival/economy"@ {
        Route::SurvivalEconomySet
    } else if method == "POST"@ && path == "/servers/Survival/economy/add"@ {
        Route::SurvivalEconomyAdd
    } else if method == "GET"@ && path == "/servers/Survival/economy"@ {
        Route::SurvivalEconomyGet
    } else if method == "GET"@ && path == "/wallet"@ {
        Route::WalletGet
    } else if method == "GET"@ && path == "/wallet/buy"@ {
        Route::WalletBuy
    } else {
        Route::Unknown
    }
}

/// Routes a websocket command by its method and path.
pub fn command_route(method: &str, path: &str) -> (r: Route)
    ensures
        r == spec_command_route(method@, path@),
        r != Route::Unknown ==> method@ == route_method(r) && path@ == route_path(r),
{
    proof {
        lemma_command_routes(method@, path@);
    }
    let get = same_text(method, "GET");
    let put = same_text(method, "PUT");
    let post = same_text(method, "POST");
    if get && same_text(path, "/public/online") {
        Route::PublicOnline
    } else if get && same_text(path, "/public/servers") {
        Route::PublicServers
    } else if get && same_text(path, "/public/cosmetics") {
        Route::PublicCosmetics
    } else if get && same_text(path, "/calendars") {
        Route::CalendarsGet
    } else if put && same_text(path, "/calendars") {
        Route::CalendarsUpdate
    } else if get && same_text(path, "/calendars/rewards") {
        Route::CalendarsRewards
    } else if post && same_text(path, "/servers/Survival/economy") {
        Route::SurvivalEconomySet
    } else if post && same_text(path, "/servers/Survival/economy/add") {
        Route::SurvivalEconomyAdd
    } else if get && same_text(path, "/servers/Survival/economy") {
        Route::SurvivalEconomyGet
    } else if get && same_text(path, "/wallet") {
        Route::WalletGet
    } else if get && same_text(path, "/wallet/buy") {
        Route::WalletBuy
    } else {
        Route::Unknown
    }
}

/// The routes of the older command table, which knows no calendars.
pub open spec fn spec_handler_route(method: Seq<char>, path: Seq<char>) -> Route {
    if method == "GET"@ && path == "/public/online"@ {
        Route::PublicOnline
    } else if method == "GET"@ && path == "/public/servers"@ {
        Route::PublicServers
    } else if method == "GET"@ && path == "/public/cosmetics"@ {
        Route::PublicCosmetics
    } else if method == "POST"@ && path == "/servers/Survival/economy"@ {
        Route::SurvivalEconomySet
    } else if method == "GET"@ && path == "/servers/Survival/economy"@ {
        Route::SurvivalEconomyGet
    } else if method == "GET"@ && path == "/wallet"@ {
        Route::WalletGet
    } else if method == "GET"@ && path == "/wallet/buy"@ {
        Route::WalletBuy
    } else {
        Route::Unknown
    }
}

/// Routes a command by the older command table.
pub fn handler_route(method: &str, path: &str) -> (r: Route)
    ensures
        r == spec_handler_route(method@, path@),
        r != Route::Unknown ==> in_handler_table(r) && method@ == route_method(r) && path@ == route_path(r),
{
    proof {
        lemma_handler_routes(method@, path@);
    }
    let get = same_text(method, "GET");
    let post = same_text(method, "POST");
    if get && same_text(path, "/public/online") {
        Route::PublicOnline
    } else if get && same_text(path, "/public/servers") {
        Route::PublicServers
    } else if get && same_text(path, "/public/cosmetics") {
        Route::PublicCosmetics
    } else if post && same_text(path, "/servers/Survival/economy") {
        Route::SurvivalEconomySet
    } else if get && same_text(path, "/servers/Survival/economy") {
        Route::SurvivalEconomyGet
    } else if get && same_text(path, "/wallet") {
        Route::WalletGet
    } else if get && same_text(path, "/wallet/buy") {
        Route::WalletBuy
    } else {
        Route::Unknown
    }
}

/// The method a routed command carries to reach each handler.
pub open spec fn route_method(r: Route) -> Seq<char> {
    match r {
        Route::CalendarsUpdate => "PUT"@,
        Route::SurvivalEconomySet => "POST"@,
        Route::SurvivalEconomyAdd => "POST"@,
        _ => "GET"@,
    }
}

/// The path a routed command carries to reach each handler.
pub open spec fn route_path(r: Route) -> Seq<char> {
    match r {
        Route::PublicOnline => "/public/online"@,
        Route::PublicServers => "/public/servers"@,
        Route::PublicCosmetics => "/public/cosmetics"@,
        Route::CalendarsGet => "/calendars"@,
        Route::CalendarsUpdate => "/calendars"@,
        Route::CalendarsRewards => "/calendars/rewards"@,
        Route::SurvivalEconomySet => "/servers/Survival/economy"@,
        Route::SurvivalEconomyAdd => "/servers/Survival/economy/add"@,
        Route::SurvivalEconomyGet => "/servers/Survival/economy"@,
        Route::WalletGet => "/wallet"@,
        Route::WalletBuy => "/wallet/buy"@,
        Route::Unknown => Seq::<char>::empty(),
    }
}

/// The handlers that the older command table knows.
pub open spec fn in_handler_table(r: Route) -> bool {
    match r {
        Route::PublicOnline | Route::PublicServers | Route::PublicCosmetics | Route::SurvivalEconomySet
        | Route::SurvivalEconomyGet | Route::WalletGet | Route::WalletBuy => true,
        _ => false,
    }
}

proof fn lemma_route_texts_differ()
    ensures
        "GET"@ != "PUT"@,
        "GET"@ != "POST"@,
        "PUT"@ != "POST"@,
        forall|a: Route, b: Route| a != Route::Unknown && b != Route::Unknown && a != b
            ==> (route_method(a) != route_method(b) || #[trigger] route_path(a) != #[trigger] route_path(b)),
{
    reveal_strlit("GET");
    reveal_strlit("PUT");
    reveal_strlit("POST");
    reveal_strlit("/public/online");
    reveal_strlit("/public/servers");
    reveal_strlit("/public/cosmetics");
    reveal_strlit("/calendars");
    reveal_strlit("/calendars/rewards");
    reveal_strlit("/servers/Survival/economy");
    reveal_strlit("/servers/Survival/economy/add");
    reveal_strlit("/wallet");
    reveal_strlit("/wallet/buy");
    assert("GET"@[0] != "PUT"@[0]);
    assert("GET"@[0] != "POST"@[0]);
    assert("PUT"@[1] != "POST"@[1]);
    assert forall|a: Route, b: Route| a != Route::Unknown && b != Route::Unknown && a != b
        implies (route_method(a) != route_method(b) || #[trigger] route_path(a) != #[trigger] route_path(b)) by {
        if route_method(a) == route_method(b) && route_path(a) == route_path(b) {
            let pa = route_path(a);
            let pb = route_path(b);
            assert(pa.len() == pb.len());
            assert(pa[1] == pb[1]);
            assert(pa[pa.len() - 1] == pb[pb.len() - 1]);
        }
    }
}

/// Every websocket command reaches the handler of its method and path, and
/// only that one: a routed command carries exactly the method and path of
/// its handler, and every handler is reached by its method and path. So
/// two different commands never share a handler, the read and the update
/// of a calendar are apart, and a balance is only set or added by POST.
pub proof fn lemma_command_routes(method: Seq<char>, path: Seq<char>)
    ensures
        spec_command_route(method, path) != Route::Unknown ==> method == route_method(spec_command_route(method, path))
            && path == route_path(spec_command_route(method, path)),
        forall|r: Route| r != Route::Unknown ==> #[trigger] spec_command_route(route_method(r), route_path(r)) == r,
{
    lemma_route_texts_differ();
    assert forall|r: Route| r != Route::Unknown implies #[trigger] spec_command_route(route_method(r), route_path(r)) == r by {
        let m = route_method(r);
        let p = route_path(r);
        let found = spec_command_route(m, p);
        if found != Route::Unknown {
            assert(m == route_method(found) && p == route_path(found));
        }
        lemma_route_reached(r);
    }
}

proof fn lemma_route_reached(r: Route)
    requires
        r != Route::Unknown,
    ensures
        spec_command_route(route_method(r), route_path(r)) != Route::Unknown,
        in_handler_table(r) ==> spec_handler_route(route_method(r), route_path(r)) != Route::Unknown,
{
}

/// The older table routes each command it knows to the handler of its
/// method and path, and reaches every handler it knows; a GET never sets
/// a balance.
pub proof fn lemma_handler_routes(method: Seq<char>, path: Seq<char>)
    ensures
        spec_handler_route(method, path) != Route::Unknown ==> {
            &&& in_handler_table(spec_handler_route(method, path))
            &&& method == route_method(spec_handler_route(method, path))
            &&& path == route_path(spec_handler_route(method, path))
        },
        forall|r: Route| in_handler_table(r) ==> #[trigger] spec_handler_route(route_method(r), route_path(r)) == r,
{
    lemma_route_texts_differ();
    assert forall|r: Route| in_handler_table(r) implies #[trigger] spec_handler_route(route_method(r), route_path(r)) == r by {
        let m = route_method(r);
        let p = route_path(r);
        let found = spec_handler_route(m, p);
        lemma_route_reached(r);
        assert(m == route_method(found) && p == route_path(found));
    }
}

/// A line of text received on the websocket.
pub enum CommandLine {
    /// An empty line, which is not answered.
    Empty,
    /// A line of fewer than two words, which has no method and path.
    Incomplete,
    /// A command: method, path, and the words after them.
    Command { method: String, path: String, args: Vec<String> },
}

/// Reads a websocket line: the words of the line (with `|` as a space),
/// the first two being method and path.
pub fn parse_command_line(text: &str) -> (r: CommandLine)
    ensures
        text@.len() == 0 ==> r is Empty,
        text@.len() > 0 && words(bars_to_spaces(text@)).len() < 2 ==> r is Incomplete,
        text@.len() > 0 && words(bars_to_spaces(text@)).len() >= 2 ==> (r matches CommandLine::Command { method, path, args } && {
            let w = words(bars_to_spaces(text@));
            &&& method@ == w[0]
            &&& path@ == w[1]
            &&& views(args@) == w.subrange(2, w.len() as int)
        }),
{
    if text.is_empty() {
        return CommandLine::Empty;
    }
    let w = command_words(text);
    if w.len() < 2 {
        return CommandLine::Incomplete;
    }
    let ghost all = views(w@);
    let mut args: Vec<String> = Vec::new();
    let mut i: usize = 2;
    while i < w.len()
        invariant
            2 <= i <= w.len(),
            all == views(w@),
            args@.len() == i - 2,
            forall|k: int| 0 <= k < args@.len() ==> #[trigger] args@[k]@ == all[k + 2],
        decreases w.len() - i,
    {
        let item = w[i].clone();
        args.push(item);
        i = i + 1;
    }
    proof {
        assert(views(args@) =~= all.subrange(2, all.len() as int));
    }
    let method = w[0].clone();
    let path = w[1].clone();
    proof {
        assert(method@ == all[0]);
        assert(path@ == all[1]);
    }
    CommandLine::Command { method, path, args }
}

/// The answer to a command.
pub struct ResponseBody {
    pub code: u16,
    pub message: String,
    pub data: Option<String>,
    pub endpoint: String,
    pub uuid: Option<u128>,
}

impl ResponseBody {
    /// An answer not yet filled in: status 200, nothing else.
    pub fn new() -> (r: Self)
        ensures
            r.code == 200,
            r.message@ == Seq::<char>::empty(),
            r.data is None,
            r.endpoint@ == Seq::<char>::empty(),
            r.uuid is None,
    {
        ResponseBody { code: 200, message: String::new(), data: None, endpoint: String::new(), uuid: None }
    }
}

/// The UUID that the first argument names, if any (no argument reads as "").
pub open spec fn first_arg_uuid(args: Seq<Seq<char>>) -> Option<u128> {
    spec_parse_uuid(if args.len() > 0 { args[0] } else { Seq::<char>::empty() })
}

/// The answer to the command `method path args` that ended with `outcome`:
/// status 200 and message "Ok" with the result as data (none when the
/// result is empty), or the error's status and message; the endpoint
/// `method path`; and the UUID named by the first argument.
pub fn command_response(method: &str, path: &str, args: &Vec<String>, outcome: Result<String, ApiError>) -> (r: ResponseBody)
    ensures
        r.endpoint@ == method@ + seq![' '] + path@,
        r.uuid == first_arg_uuid(views(args@)),
        outcome matches Ok(v) ==> {
            &&& r.code == 200
            &&& r.message@ == "Ok"@
            &&& (v@.len() == 0 ==> r.data is None)
            &&& (v@.len() > 0 ==> (r.data matches Some(d) && d@ == v@))
        },
        outcome matches Err(e) ==> {
            &&& r.code == spec_code(e)
            &&& r.message@ == spec_message(e)
            &&& r.data is None
        },
{
    let mut endpoint = String::from_str(method);
    push_char(&mut endpoint, ' ');
    endpoint.append(path);
    let first = if args.len() > 0 { args[0].clone() } else { String::new() };
    proof {
        assert(first@ == (if views(args@).len() > 0 { views(args@)[0] } else { Seq::<char>::empty() }));
    }
    let uuid = match parse_uuid(first.as_str()) {
        Ok(u) => Some(u),
        Err(_) => None,
    };
    match outcome {
        Ok(v) => {
            let data = if v.as_str().is_empty() { None } else { Some(v) };
            ResponseBody { code: 200, message: String::from_str("Ok"), data, endpoint, uuid }
        },
        Err(e) => {
            ResponseBody { code: e.code(), message: e.message(), data: None, endpoint, uuid }
        },
    }
}

/// What the heartbeat does on each tick.
#[derive(Debug, Clone, Copy, PartialEq, Eq, Structural)]
pub enum HeartbeatAction {
    /// The client has been silent too long: stop the connection.
    Disconnect,
    /// Ping the client.
    Ping,
}

/// Seconds between heartbeats.
pub const HEARTBEAT_INTERVAL_SECS: u64 = 10;

/// Silence after which a client is dropped, in nanoseconds (15 s).
pub const CLIENT_TIMEOUT_NANOS: u128 = 15_000_000_000;

/// The heartbeat's decision, given how long ago (in nanoseconds) the
/// client was last heard from.
pub fn heartbeat_action(silent_nanos: u128) -> (a: HeartbeatAction)
    ensures
        a == (if silent_nanos > CLIENT_TIMEOUT_NANOS { HeartbeatAction::Disconnect } else { HeartbeatAction::Ping }),
{
    if silent_nanos > CLIENT_TIMEOUT_NANOS {
        HeartbeatAction::Disconnect
    } else {
        HeartbeatAction::Ping
    }
}

} // verus!
