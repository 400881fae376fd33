use vstd::prelude::*;

use crate::client::text::string_of;
use crate::client::{is_request, ApiRequest, Api, Base, Client, Method};
use crate::error::Error;

verus! {

/// The listing of the account's resources.
pub trait ResourcesRequest {
    /// The request that lists the resources, asking for HTTPS, relay and
    /// IPv6 connections as chosen.
    fn get_resources(
        &self,
        include_https: bool,
        include_relay: bool,
        include_ipv6: bool,
    ) -> Result<ApiRequest, Error>;
}

/// `"1"` or `"0"`.
pub open spec fn flag_text(b: bool) -> Seq<char> {
    if b { "1"@ } else { "0"@ }
}

pub open spec fn query_texts(q: Seq<(String, String)>) -> Seq<(Seq<char>, Seq<char>)> {
    q.map_values(|p: (String, String)| (p.0@, p.1@))
}

fn flag(b: bool) -> (r: String)
    ensures
        r@ == flag_text(b),
{
    if b { string_of("1") } else { string_of("0") }
}

impl ResourcesRequest for Client {
    /// Refused without an account token.
    fn get_resources(
        &self,
        include_https: bool,
        include_relay: bool,
        include_ipv6: bool,
    ) -> (r: Result<ApiRequest, Error>)
        ensures
            self@.token is None ==> (r matches Err(Error::Generic(m)) && m@
                == "Missing authentication key"@),
            self@.token is Some ==> (r matches Ok(req) && is_request(
                req,
                self@.token,
                Method::Get,
                Base::Clients,
                Api::V2,
                "/resources"@,
                req.query@,
            ) && query_texts(req.query@) == seq![
                ("includeHttps"@, flag_text(include_https)),
                ("includeRelay"@, flag_text(include_relay)),
                ("includeIPv6"@, flag_text(include_ipv6)),
            ]),
    {
        if !self.is_authenticated() {
            return Err(Error::Generic(string_of("Missing authentication key")));
        }
        let mut query: Vec<(String, String)> = Vec::new();
        query.push((string_of("includeHttps"), flag(include_https)));
        query.push((string_of("includeRelay"), flag(include_relay)));
        query.push((string_of("includeIPv6"), flag(include_ipv6)));
        let ghost q = query@;
        let req = self.request(Method::Get, Base::Clients, Api::V2, "/resources", query);
        proof {
            assert(query_texts(q) =~= seq![
                ("includeHttps"@, flag_text(include_https)),
                ("includeRelay"@, flag_text(include_relay)),
                ("includeIPv6"@, flag_text(include_ipv6)),
            ]);
        }
        Ok(req)
    }
}

} // verus!
