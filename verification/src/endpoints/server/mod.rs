use vstd::prelude::*;

use crate::client::server::{first_server, request_targets_of, Connection, ProbeTarget};
use crate::client::{is_request, ApiRequest, Api, Base, Client, Method};

verus! {

/// Requests to the media servers themselves.
pub trait ServerRequest {
    /// The attempts of an identity request to the server called `id`.
    fn get_identity_with(&self, id: &str) -> Vec<(ProbeTarget, ApiRequest)>;

    /// The identity request over one connection.
    fn get_identity(&self, connection: &Connection) -> ApiRequest;
}

impl ServerRequest for Client {
    fn get_identity_with(&self, server_id: &str) -> (r: Vec<(ProbeTarget, ApiRequest)>)
        ensures
            match first_server(self@.registry.servers, server_id@) {
                Some(k) => {
                    let targets = request_targets_of(self@.registry.servers[k]);
                    &&& r@.len() == targets.len()
                    &&& forall|i: int|
                        0 <= i < r@.len() ==> {
                            &&& (#[trigger] r@[i]).0 == targets[i]
                            &&& is_request(
                                r@[i].1,
                                self@.token,
                                Method::Get,
                                Base::Connection(targets[i].connection),
                                Api::Raw,
                                "/identity"@,
                                Seq::empty(),
                            )
                        }
                },
                None => r@.len() == 0,
            },
    {
        self.server_requests(server_id, Method::Get, Api::Raw, "/identity", &Vec::new())
    }

    fn get_identity(&self, connection: &Connection) -> (r: ApiRequest)
        ensures
            is_request(
                r,
                self@.token,
                Method::Get,
                Base::Connection(*connection),
                Api::Raw,
                "/identity"@,
                Seq::empty(),
            ),
    {
        self.request(Method::Get, Base::Connection(connection.clone()), Api::Raw, "/identity", Vec::new())
    }
}

} // verus!
