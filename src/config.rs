//! The per-request settings of the gateway.
use vstd::prelude::*;

verus! {

/// Settings fixed for one incoming request: the 128-bit credential, the
/// observed host, the default egress endpoint and two informational pages.
/// Only the egress endpoint is ever replaced, by a route override.
#[derive(Debug)]
pub struct Config {
    pub uuid: [u8; 16],
    pub host: String,
    pub proxy_addr: String,
    pub proxy_port: u16,
    pub main_page_url: String,
    pub sub_page_url: String,
}

/// Whether `a` and `b` agree on everything but the egress endpoint.
pub open spec fn same_but_egress(a: &Config, b: &Config) -> bool {
    &&& a.uuid@ == b.uuid@
    &&& a.host@ == b.host@
    &&& a.main_page_url@ == b.main_page_url@
    &&& a.sub_page_url@ == b.sub_page_url@
}

impl Config {
    /// A copy of this configuration with the egress endpoint replaced.
    pub fn with_egress(&self, addr: String, port: u16) -> (r: Config)
        ensures
            same_but_egress(&r, self),
            r.proxy_addr@ == addr@,
            r.proxy_port == port,
    {
        Config {
            uuid: self.uuid,
            host: self.host.clone(),
            proxy_addr: addr,
            proxy_port: port,
            main_page_url: self.main_page_url.clone(),
            sub_page_url: self.sub_page_url.clone(),
        }
    }

    /// A copy of this configuration.
    pub fn duplicate(&self) -> (r: Config)
        ensures
            same_but_egress(&r, self),
            r.proxy_addr@ == self.proxy_addr@,
            r.proxy_port == self.proxy_port,
    {
        self.with_egress(self.proxy_addr.clone(), self.proxy_port)
    }
}

} // verus!
