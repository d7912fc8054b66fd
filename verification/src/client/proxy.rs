use vstd::prelude::*;
use vstd::string::*;

use crate::proxy::{clone_toxic_vec, ProxyConfig, ProxyWithToxics};
use crate::toxic::Toxic;

verus! {

/// A proxy object returned by the client. To manipulate this proxy and its
/// toxics, call methods on it.
#[derive(Debug, PartialEq)]
pub struct Proxy {
    base_url: String,
    created: bool,
    /// Contains the proxy listen and upstream address, name. You can mutate them
    /// and call `.save()` to update the proxy.
    pub config: ProxyConfig,
    toxics: Vec<Toxic>,
}

/// Where saving a proxy goes, and the status that answers a success
#[derive(Debug)]
pub struct SaveTarget {
    /// The URL the configuration is posted to
    pub url: String,
    /// The status code of a successful answer
    pub expected_status: u16,
}

impl Proxy {
    /// The base URL of the server
    pub closed spec fn base(&self) -> Seq<char> {
        self.base_url@
    }

    /// The proxy configuration
    pub closed spec fn configuration(&self) -> ProxyConfig {
        self.config
    }

    /// Whether the proxy exists on the server
    pub closed spec fn is_created(&self) -> bool {
        self.created
    }

    /// The toxics the proxy had when it was read from the server
    pub closed spec fn toxic_list(&self) -> Seq<Toxic> {
        self.toxics@
    }

    /// A proxy that does not exist on the server yet, enabled
    pub fn new(base_url: &str, name: &str, listen: &str, upstream: &str) -> (r: Proxy)
        ensures
            r.base() == base_url@,
            !r.is_created(),
            r.configuration().name@ == name@,
            r.configuration().listen@ == listen@,
            r.configuration().upstream@ == upstream@,
            r.configuration().enabled,
            r.configuration().rand_seed is None,
            r.toxic_list().len() == 0,
    {
        Proxy {
            base_url: base_url.to_owned(),
            created: false,
            config: ProxyConfig {
                name: name.to_owned(),
                listen: listen.to_owned(),
                upstream: upstream.to_owned(),
                enabled: true,
                rand_seed: None,
            },
            toxics: Vec::new(),
        }
    }

    /// The proxy that the server described with its configuration and toxics
    pub fn from_proxy_with_toxics(base_url: &str, obj: ProxyWithToxics) -> (r: Proxy)
        ensures
            r.base() == base_url@,
            r.is_created(),
            r.configuration() == obj.proxy,
            r.toxic_list() == obj.toxics@,
    {
        Proxy { base_url: base_url.to_owned(), created: true, config: obj.proxy, toxics: obj.toxics }
    }

    /// Returns whether this proxy is enabled or not
    pub fn is_enabled(&self) -> (r: bool)
        ensures
            r == self.configuration().enabled,
    {
        self.config.enabled
    }

    /// The toxics the proxy had when it was read from the server
    pub fn toxic_list_copy(&self) -> (r: Vec<Toxic>)
        ensures
            r@ == self.toxic_list(),
    {
        clone_toxic_vec(&self.toxics)
    }

    /// The URL of this proxy on the server
    pub fn proxy_url(&self) -> (r: String)
        ensures
            r@ == self.base() + "/proxies/"@ + self.configuration().name@,
    {
        let mut s = self.base_url.clone();
        s.append("/proxies/");
        s.append(self.config.name.as_str());
        s
    }

    /// The URL of the toxics of this proxy on the server
    pub fn toxics_url(&self) -> (r: String)
        ensures
            r@ == self.base() + "/proxies/"@ + self.configuration().name@ + "/toxics"@,
    {
        let mut s = self.proxy_url();
        s.append("/toxics");
        s
    }

    /// The URL of the toxic of this name of this proxy on the server
    pub fn toxic_url(&self, toxic_name: &str) -> (r: String)
        ensures
            r@ == self.base() + "/proxies/"@ + self.configuration().name@ + "/toxics/"@ + toxic_name@,
    {
        let mut s = self.proxy_url();
        s.append("/toxics/");
        s.append(toxic_name);
        s
    }

    /// Where saving this proxy goes: a proxy that exists is updated under its
    /// name (answered with 200), a new one is created (answered with 201)
    pub fn save_target(&self) -> (r: SaveTarget)
        ensures
            self.is_created() ==> r.url@ == self.base() + "/proxies/"@ + self.configuration().name@
                && r.expected_status == 200,
            !self.is_created() ==> r.url@ == self.base() + "/proxies"@ && r.expected_status == 201,
    {
        if self.created {
            SaveTarget { url: self.proxy_url(), expected_status: 200 }
        } else {
            let mut s = self.base_url.clone();
            s.append("/proxies");
            SaveTarget { url: s, expected_status: 201 }
        }
    }

    /// Record that the server accepted the save: the proxy exists now
    pub fn mark_saved(&mut self)
        ensures
            final(self).is_created(),
            final(self).base() == old(self).base(),
            final(self).configuration() == old(self).configuration(),
            final(self).toxic_list() == old(self).toxic_list(),
    {
        self.created = true;
    }

    /// Give this proxy a new name; returns the URL of the proxy under its old
    /// name, where the renamed configuration is posted
    pub fn rename(&mut self, new_name: &str) -> (r: String)
        ensures
            r@ == old(self).base() + "/proxies/"@ + old(self).configuration().name@,
            final(self).configuration().name@ == new_name@,
            final(self).configuration().listen == old(self).configuration().listen,
            final(self).configuration().upstream == old(self).configuration().upstream,
            final(self).configuration().enabled == old(self).configuration().enabled,
            final(self).configuration().rand_seed == old(self).configuration().rand_seed,
            final(self).base() == old(self).base(),
            final(self).is_created() == old(self).is_created(),
            final(self).toxic_list() == old(self).toxic_list(),
    {
        let url = self.proxy_url();
        self.config.name = new_name.to_owned();
        url
    }
}

} // verus!
