use exotia_core::auth::{bearer_token, auth_decision, setup_records, signup_next, signup_start, AuthDecision, Record, SignupAction, TokenCheck};
use exotia_core::commands::{
    command_response, command_route, handler_route, heartbeat_action, parse_command_line, CommandLine, HeartbeatAction,
    ResponseBody, Route,
};
use exotia_core::servers::{added_balance, checked_added_balance, economy_tops, format_online};
use exotia_core::users::{update_columns, UserEntity};
use exotia_core::utils::init::{database_url, init_statements, DbBackend};
use exotia_core::ApiError;

#[test]
fn websocket_routes() {
    assert_eq!(command_route("GET", "/public/online"), Route::PublicOnline);
    assert_eq!(command_route("PUT", "/calendars"), Route::CalendarsUpdate);
    assert_eq!(command_route("GET", "/calendars/rewards"), Route::CalendarsRewards);
    assert_eq!(command_route("POST", "/servers/Survival/economy/add"), Route::SurvivalEconomyAdd);
    assert_eq!(command_route("POST", "/servers/Survival/economy"), Route::SurvivalEconomySet);
    assert_eq!(command_route("GET", "/servers/Survival/economy"), Route::SurvivalEconomyGet);
    assert_eq!(command_route("GET", "/wallet/buy"), Route::WalletBuy);
    assert_eq!(command_route("DELETE", "/wallet"), Route::Unknown);
    assert_eq!(handler_route("GET", "/calendars"), Route::Unknown);
    assert_eq!(handler_route("POST", "/servers/Survival/economy"), Route::SurvivalEconomySet);
    assert_eq!(handler_route("GET", "/public/cosmetics"), Route::PublicCosmetics);
}

#[test]
fn command_lines() {
    assert!(matches!(parse_command_line(""), CommandLine::Empty));
    assert!(matches!(parse_command_line("GET"), CommandLine::Incomplete));
    assert!(matches!(parse_command_line("   "), CommandLine::Incomplete));
    match parse_command_line("GET|/wallet|abc def") {
        CommandLine::Command { method, path, args } => {
            assert_eq!(method, "GET");
            assert_eq!(path, "/wallet");
            assert_eq!(args, vec!["abc", "def"]);
        }
        _ => panic!("expected a command"),
    }
}

#[test]
fn responses() {
    let args = vec!["550e8400-e29b-41d4-a716-446655440000".to_string()];
    let r: ResponseBody = command_response("GET", "/wallet", &args, Ok("12".to_string()));
    assert_eq!(r.code, 200);
    assert_eq!(r.message, "Ok");
    assert_eq!(r.data, Some("12".to_string()));
    assert_eq!(r.endpoint, "GET /wallet");
    assert_eq!(r.uuid, Some(0x550e8400e29b41d4a716446655440000));
    let r = command_response("GET", "/x", &vec![], Ok(String::new()));
    assert_eq!(r.data, None);
    assert_eq!(r.uuid, None);
    let r = command_response("GET", "/wallet", &vec!["bad".to_string()], Err(ApiError::NoneValue("Wallet")));
    assert_eq!(r.code, 404);
    assert_eq!(r.message, "Wallet returned None");
    assert_eq!(r.data, None);
    assert_eq!(r.uuid, None);
    let fresh = ResponseBody::new();
    assert_eq!(fresh.code, 200);
    assert!(fresh.message.is_empty() && fresh.data.is_none() && fresh.endpoint.is_empty() && fresh.uuid.is_none());
}

#[test]
fn heartbeat() {
    assert_eq!(heartbeat_action(0), HeartbeatAction::Ping);
    assert_eq!(heartbeat_action(15_000_000_000), HeartbeatAction::Ping);
    assert_eq!(heartbeat_action(15_000_000_001), HeartbeatAction::Disconnect);
}

#[test]
fn admission() {
    assert_eq!(auth_decision(TokenCheck::Missing, "/auth/signUp"), AuthDecision::Unauthorized);
    assert_eq!(auth_decision(TokenCheck::Missing, "/api/wallet"), AuthDecision::Unauthorized);
    assert_eq!(auth_decision(TokenCheck::Accepted, "/api/wallet"), AuthDecision::ContinueAsUser);
    assert_eq!(auth_decision(TokenCheck::Rejected, "/auth/signUp"), AuthDecision::Continue);
    assert_eq!(auth_decision(TokenCheck::Rejected, "/auth/me"), AuthDecision::Unauthorized);
}

#[test]
fn signup_machine() {
    assert!(matches!(signup_start(), SignupAction::Insert(Record::User)));
    assert!(matches!(signup_next(Record::User, true), SignupAction::Insert(Record::SurvivalEconomy)));
    assert!(matches!(signup_next(Record::User, false), SignupAction::Respond { status: 409, message: Some("User with that uuid already exists") }));
    assert!(matches!(signup_next(Record::SurvivalEconomy, false), SignupAction::Respond { status: 500, message: Some("Failed to create SurvivalEconomy Table") }));
    assert!(matches!(signup_next(Record::Wallet, true), SignupAction::Insert(Record::Calendar)));
    assert!(matches!(signup_next(Record::Wallet, false), SignupAction::Respond { status: 500, message: Some("Failed to create Wallet Table") }));
    assert!(matches!(signup_next(Record::Calendar, false), SignupAction::Respond { status: 500, message: Some("Failed to create Calendars Table") }));
    assert!(matches!(signup_next(Record::Calendar, true), SignupAction::Respond { status: 201, message: None }));
}

#[test]
fn setup_plan() {
    assert_eq!(setup_records(true, true, true), vec![]);
    assert_eq!(setup_records(false, true, false), vec![Record::SurvivalEconomy, Record::Calendar]);
    assert_eq!(setup_records(false, false, false), vec![Record::SurvivalEconomy, Record::Wallet, Record::Calendar]);
}

#[test]
fn database_creation() {
    assert_eq!(init_statements(DbBackend::MySql, "exotia"), vec!["CREATE DATABASE IF NOT EXISTS `exotia`;"]);
    assert_eq!(
        init_statements(DbBackend::Postgres, "exotia"),
        vec!["DROP DATABASE IF EXISTS \"exotia\";", "CREATE DATABASE \"exotia\";"]
    );
    assert!(init_statements(DbBackend::Sqlite, "exotia").is_empty());
    assert_eq!(database_url(DbBackend::Postgres, "postgres://h", "exotia"), Some("postgres://h/exotia".to_string()));
    assert_eq!(database_url(DbBackend::Sqlite, "sqlite::memory:", "exotia"), None);
}

#[test]
fn economy() {
    let args = vec!["u".to_string(), "15".to_string()];
    assert!(matches!(added_balance(10, &args), Ok(25)));
    assert!(matches!(added_balance(10, &vec!["u".to_string()]), Err(ApiError::NoneValue("User balance"))));
    assert!(checked_added_balance(i32::MAX, &args).is_none());
    assert!(matches!(checked_added_balance(-5, &args), Some(Ok(10))));
    let tops = economy_tops(&vec![(30, Some(7)), (20, Some(9))]);
    assert_eq!(tops.len(), 2);
    assert_eq!((tops[0].uuid, tops[0].balance), (7, 30));
    assert_eq!((tops[1].uuid, tops[1].balance), (9, 20));
    assert_eq!(format_online(3, 20), "3/20");
}

#[test]
fn user_columns() {
    let body = vec![
        UserEntity { uuid: "a".to_string(), nick: "n1".to_string(), first_ip: None, last_ip: "1.1.1.1".to_string() },
        UserEntity { uuid: "b".to_string(), nick: "n2".to_string(), first_ip: Some("x".to_string()), last_ip: "2.2.2.2".to_string() },
    ];
    let (u, ip, n) = update_columns(&body);
    assert_eq!(u, vec!["a", "b"]);
    assert_eq!(ip, vec!["1.1.1.1", "2.2.2.2"]);
    assert_eq!(n, vec!["n1", "n2"]);
}

#[test]
fn bearer_tokens() {
    assert_eq!(bearer_token("Bearer abc"), Some("abc".to_string()));
    assert_eq!(bearer_token("Bearer "), Some(String::new()));
    assert_eq!(bearer_token("bearer abc"), None);
    assert_eq!(bearer_token("Bear"), None);
    for v in ["Bearer x y", "Basic abc", "Bearerabc", "Bearer  z"] {
        assert_eq!(bearer_token(v), v.strip_prefix("Bearer ").map(str::to_owned));
    }
}

#[test]
fn economy_arguments_roundtrip() {
    let body = exotia_core::servers::Economy { balance: -40 };
    let args = exotia_core::servers::economy_args("u".to_string(), &body);
    assert_eq!(args, vec!["u", "-40"]);
    assert!(matches!(exotia_core::args::int_arg(&args, 1, "User balance"), Ok(-40)));
}
