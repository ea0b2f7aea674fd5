//! The server's configuration shape. Loading it from a file and the
//! environment happens outside the library; these are the plain values the
//! rest of the code reads.

use vstd::prelude::*;

verus! {

#[derive(Debug, Clone)]
pub struct Server {
    pub host: String,
    pub port: u16,
}

#[derive(Debug, Clone)]
pub struct Database {
    pub mysql_host: String,
    pub mysql_port: String,
    pub mysql_user: String,
    pub mysql_password: String,
    pub mysql_database: String,
}

#[derive(Debug, Clone)]
pub struct Config {
    pub server: Server,
    pub database: Database,
}

} // verus!
