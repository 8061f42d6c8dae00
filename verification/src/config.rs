//! Where the calendar server is.
use vstd::prelude::*;
use vstd::string::StringExecFns;

verus! {

/// Where the calendar server is, and whether it runs on this machine.
#[derive(Debug)]
pub struct Config {
    pub is_localhost: bool,
    pub api_url: String,
}

impl Clone for Config {
    fn clone(&self) -> (r: Self)
        ensures
            r.is_localhost == self.is_localhost,
            r.api_url@ == self.api_url@,
    {
        Config { is_localhost: self.is_localhost, api_url: self.api_url.clone() }
    }
}

/// Whether a page served from host `hostname` runs on this machine.
pub open spec fn is_local_host(hostname: Seq<char>) -> bool {
    hostname == "locahost"@ || hostname == "127.0.0.1"@
}

/// The address of the server for a page served from `hostname` at `port`:
/// the `api.` subdomain of that host and port; for a page on this machine,
/// of host `locahost` at port 8081.
pub open spec fn api_url_for(hostname: Seq<char>, port: Seq<char>) -> Seq<char> {
    let local = is_local_host(hostname);
    let host = if local { "locahost"@ } else { hostname };
    let p = if local { "8081"@ } else { port };
    "http://api."@ + host + ":"@ + p + "/"@
}

impl Config {
    /// The configuration for a page served from `hostname` at `port`.
    pub fn from_location(hostname: &str, port: &str) -> (c: Config)
        ensures
            c.is_localhost == is_local_host(hostname@),
            c.api_url@ == api_url_for(hostname@, port@),
    {
        let host = hostname.to_owned();
        let is_localhost = host == "locahost".to_owned() || host == "127.0.0.1".to_owned();
        let mut api_url = "http://api.".to_owned();
        if is_localhost {
            api_url.append("locahost");
            api_url.append(":");
            api_url.append("8081");
        } else {
            api_url.append(hostname);
            api_url.append(":");
            api_url.append(port);
        }
        api_url.append("/");
        proof {
            reveal_strlit("locahost");
            reveal_strlit("127.0.0.1");
            reveal_strlit("8081");
            reveal_strlit("http://api.");
            reveal_strlit(":");
            reveal_strlit("/");
        }
        Config { is_localhost, api_url }
    }
}

} // verus!
