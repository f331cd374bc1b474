//! Configuration data the application persists. Reading and writing
//! the configuration file is the application shell's business.

use vstd::prelude::*;

verus! {

/// How to reach one remote host over SSH. The password is never kept
/// here.
#[derive(Debug)]
pub struct SshConnectionConfig {
    pub name: String,
    pub host: String,
    pub port: u16,
    pub username: String,
}

impl SshConnectionConfig {
    pub fn new(name: String, host: String, port: u16, username: String) -> (r: SshConnectionConfig)
        ensures
            r.name == name,
            r.host == host,
            r.port == port,
            r.username == username,
    {
        SshConnectionConfig { name, host, port, username }
    }
}

} // verus!
