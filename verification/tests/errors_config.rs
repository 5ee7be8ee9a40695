use exotia_core::{ApiError, Config};

#[test]
fn error_codes() {
    assert_eq!(ApiError::NoneValue("User").code(), 404);
    assert_eq!(ApiError::DbError("x".to_string()).code(), 500);
    assert_eq!(ApiError::PoisonError().code(), 500);
    assert_eq!(ApiError::UuidError("bad".to_string()).code(), 500);
}

#[test]
fn error_messages() {
    assert_eq!(ApiError::NoneValue("User uuid").message(), "User uuid returned None");
    assert_eq!(ApiError::DbError("gone".to_string()).message(), "DbError: gone");
    assert_eq!(ApiError::IoError("no file".to_string()).message(), "IoError: no file");
    assert_eq!(ApiError::PoisonError().message(), "Poison Error");
    assert_eq!(ApiError::ChronoParseError("bad".to_string()).message(), "ChronoParseError: bad");
    assert_eq!(ApiError::SerdeError("eof".to_string()).message(), "SerdeError: eof");
    assert_eq!(ApiError::CraftpingError("down".to_string()).message(), "CraftpingError: down");
    assert_eq!(ApiError::ParseFloatError("x".to_string()).message(), "ParseFloatError: x");
    assert_eq!(ApiError::UuidError("y".to_string()).message(), "UuidError: y");
}

#[test]
fn config_default() {
    let c = Config::default();
    assert_eq!(c.addr, "127.0.0.1");
    assert_eq!(c.port, 3000);
    assert_eq!(c.threads, 4);
    assert_eq!(c.database_table, "");
    assert_eq!(c.database_url, "");
    assert_eq!(c.key, "basic_key");
    assert_eq!(c.minecraft_address, "127.0.0.1");
    assert_eq!(c.minecraft_port, 25565);
}
