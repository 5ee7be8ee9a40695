//! Server configuration, as read from `config.json`.
use vstd::prelude::*;

verus! {

/// Where the server listens, the database it uses, the secret that keys
/// are encrypted with, and the game server it asks for player counts.
pub struct Config {
    pub addr: String,
    pub port: u16,
    pub threads: usize,
    pub database_table: String,
    pub database_url: String,
    pub key: String,
    pub minecraft_address: String,
    pub minecraft_port: u16,
}

impl Default for Config {
    /// The configuration used when `config.json` cannot be read: local
    /// addresses, port 3000, four workers, no database, key `basic_key`,
    /// game server on the default Minecraft port.
    fn default() -> (c: Self)
        ensures
            c.addr@ == "127.0.0.1"@,
            c.port == 3000,
            c.threads == 4,
            c.database_table@ == Seq::<char>::empty(),
            c.database_url@ == Seq::<char>::empty(),
            c.key@ == "basic_key"@,
            c.minecraft_address@ == "127.0.0.1"@,
            c.minecraft_port == 25565,
    {
        Config {
            addr: String::from_str("127.0.0.1"),
            port: 3000,
            threads: 4,
            database_table: String::new(),
            database_url: String::new(),
            key: String::from_str("basic_key"),
            minecraft_address: String::from_str("127.0.0.1"),
            minecraft_port: 25565,
        }
    }
}

} // verus!
