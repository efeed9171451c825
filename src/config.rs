use vstd::prelude::*;

verus! {

/// The process settings, read from the environment at startup.
pub struct Settings {
    pub server: ServerConfig,
    pub database: DatabaseConfig,
    pub mongodb: MongoConfig,
    pub jwt: JwtConfig,
}

pub struct ServerConfig {
    pub host: String,
    pub port: u16,
}

pub struct DatabaseConfig {
    pub url: String,
    pub max_connections: u32,
}

pub struct MongoConfig {
    pub url: String,
    pub database: String,
}

/// The token signing secret and the token lifetime in days.
pub struct JwtConfig {
    pub secret: String,
    pub expiration: i64,
}

impl JwtConfig {
    /// The token lifetime in days, with a negative setting read as zero.
    pub fn expiration_days(&self) -> (r: u64)
        ensures
            r as int == if self.expiration < 0 { 0 } else { self.expiration as int },
    {
        if self.expiration < 0 {
            0
        } else {
            self.expiration as u64
        }
    }
}

} // verus!
