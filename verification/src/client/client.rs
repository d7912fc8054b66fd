use vstd::prelude::*;
use vstd::string::*;

use crate::text::{has_prefix, starts_with};

verus! {

/// A client for Noxious and Toxiproxy
/// It follows the same naming conventions for the methods.
#[derive(Debug)]
pub struct Client {
    base_url: String,
}

/// The base URL that a client made for `url` talks to: `url` itself when it
/// starts with `http://`, else `url` behind `http://`
pub open spec fn base_url_for(url: Seq<char>) -> Seq<char> {
    if has_prefix(url, "http://"@) {
        url
    } else {
        "http://"@ + url
    }
}

/// The base URL always starts with `http://`: a URL that starts with it is
/// kept as it is, any other gets it put in front, and nothing else changes.
pub proof fn law_base_url_has_scheme(url: Seq<char>)
    ensures
        has_prefix(base_url_for(url), "http://"@),
        has_prefix(url, "http://"@) ==> base_url_for(url) == url,
        !has_prefix(url, "http://"@) ==> base_url_for(url) == "http://"@ + url,
        base_url_for(url).skip(base_url_for(url).len() - url.len()) == url,
{
    let p = "http://"@;
    assert((p + url).take(p.len() as int) =~= p);
    assert((p + url).skip(p.len() as int) =~= url);
    assert(url.skip(0) =~= url);
}

impl Client {
    /// The base URL of the server
    pub closed spec fn base(&self) -> Seq<char> {
        self.base_url@
    }

    /// Create a new client. The client does not support `https://` URLs.
    pub fn new(url: &str) -> (r: Client)
        requires
            !has_prefix(url@, "https://"@),
        ensures
            r.base() == base_url_for(url@),
            has_prefix(r.base(), "http://"@),
            has_prefix(url@, "http://"@) ==> r.base() == url@,
            !has_prefix(url@, "http://"@) ==> r.base() == "http://"@ + url@,
    {
        proof {
            law_base_url_has_scheme(url@);
        }
        let base_url = if !starts_with(url, "http://") {
            let mut s = "http://".to_owned();
            s.append(url);
            s
        } else {
            url.to_owned()
        };
        Client { base_url }
    }

    /// The base URL of the server
    pub fn base_url(&self) -> (r: &str)
        ensures
            r@ == self.base(),
    {
        self.base_url.as_str()
    }

    /// The URL of `path` on the server
    pub fn url(&self, path: &str) -> (r: String)
        ensures
            r@ == self.base() + path@,
    {
        let mut s = self.base_url.clone();
        s.append(path);
        s
    }

    /// The URL of the proxy of this name
    pub fn proxy_url(&self, name: &str) -> (r: String)
        ensures
            r@ == self.base() + "/proxies/"@ + name@,
    {
        let mut s = self.url("/proxies/");
        s.append(name);
        s
    }
}

} // verus!
