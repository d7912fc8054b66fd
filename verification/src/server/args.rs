use vstd::prelude::*;

use crate::text::{parse_u16, parse_u16_spec};

verus! {

/// The command line arguments of the server
#[derive(Debug)]
pub struct Args {
    /// The host to listen on for the API server
    pub host: String,
    /// The port to listen on for the API server
    pub port: String,
    /// json file containing proxies to create on startup
    pub config: Option<String>,
    /// Seed for randomizing toxics with
    pub seed: Option<u64>,
}

impl Args {
    /// The port number that the `port` argument gives. The port must be the
    /// decimal notation of a `u16`.
    pub fn get_port_number(&self) -> (r: u16)
        requires
            parse_u16_spec(self.port@) is Some,
        ensures
            parse_u16_spec(self.port@) == Some(r),
    {
        match parse_u16(self.port.as_str()) {
            Some(port) => port,
            None => 0,
        }
    }
}

} // verus!
