//! Persistent client configuration, as plain data.
//!
//! Reading and writing configuration files is I/O and lives outside the
//! library; this type only holds and defaults the values.

use vstd::prelude::*;

verus! {

/// The client settings a configuration file carries.
#[derive(Debug)]
pub struct Config {
    pub timeout: u64,
    pub follow_redirects: bool,
    pub verify_ssl: bool,
    pub proxy: Option<String>,
    pub user_agent: Option<String>,
    pub headers: Vec<(String, String)>,
}

impl Default for Config {
    fn default() -> (r: Config)
        ensures
            r.timeout == 30,
            r.follow_redirects,
            r.verify_ssl,
            r.proxy is None,
            r.user_agent is None,
            r.headers@.len() == 0,
    {
        Config {
            timeout: 30,
            follow_redirects: true,
            verify_ssl: true,
            proxy: None,
            user_agent: None,
            headers: Vec::new(),
        }
    }
}

} // verus!
