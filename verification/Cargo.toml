[package]
name = "exotia_core"
version = "0.1.0"
edition = "2021"
publish = false

[dependencies]
magic-crypt = "=3.1.13"
rand = "=0.8.8"
uuid = { version = "=1.29.1", features = ["v4", "serde"] }
actix = "=0.13.5"
actix-web = "=4.18.1"
actix-web-actors = "=4.3.1"
actix-cors = "=0.6.5"
actix-web-lab = "=0.19.2"
sea-orm = { version = "=0.11.3", default-features = false, features = ["macros", "with-chrono", "with-uuid", "with-json", "sqlx-postgres", "runtime-actix-rustls", "postgres-array"] }
sea-orm-migration = { version = "=0.11.3", default-features = false, features = ["runtime-actix-rustls", "sqlx-postgres"] }
serde = { version = "=1.0.229", features = ["derive"] }
serde_json = "=1.0.154"
thiserror = "=1.0.69"
utoipa = { version = "=3.5.0", features = ["actix_extras", "chrono", "uuid"] }
utoipa-swagger-ui = { version = "=3.1.5", features = ["actix-web"] }
chrono = { version = "=0.4.45", features = ["serde"] }
craftping = "=0.4.1"
env_logger = "=0.10.2"
futures = "=0.3.34"
log = "=0.4.35"
once_cell = "=1.21.4"
async-trait = "=0.1.92"
