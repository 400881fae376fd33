pub mod auth;
pub mod builder;
pub mod crypto;
pub mod server;
pub(crate) mod text;

use vstd::prelude::*;

use crate::client::builder::ClientBuilder;
use crate::client::server::{
    all_targets, best_is_reachable, first_server, needs_refresh_step, refresh_step,
    request_targets_of, server_reset, servers_marked, Connection, ProbeTarget, RegistryModel,
    ServerRegistry, Status,
};
use crate::client::text::string_of;
use crate::error::{is_transport_failure_spec, Error};
use crate::models::resource::Resource;

verus! {

/// Where a request goes.
#[derive(Debug)]
pub enum Base {
    /// plex.tv
    Plex,
    /// clients.plex.tv
    Clients,
    /// One connection of a media server.
    Connection(Connection),
}

pub open spec fn base_url(base: Base) -> Seq<char> {
    match base {
        Base::Plex => "https://plex.tv"@,
        Base::Clients => "https://clients.plex.tv"@,
        Base::Connection(c) => c.url@,
    }
}

impl Base {
    pub fn as_str(&self) -> (r: &str)
        ensures
            r@ == base_url(*self),
    {
        match self {
            Base::Plex => "https://plex.tv",
            Base::Clients => "https://clients.plex.tv",
            Base::Connection(c) => c.url.as_str(),
        }
    }
}

/// The path prefix of a request.
#[derive(Debug, Clone, Copy)]
pub enum Api {
    Raw,
    V2,
}

pub open spec fn api_prefix(api: Api) -> Seq<char> {
    match api {
        Api::Raw => ""@,
        Api::V2 => "/api/v2"@,
    }
}

impl Api {
    pub fn as_str(&self) -> (r: &str)
        ensures
            r@ == api_prefix(*self),
    {
        match self {
            Api::Raw => "",
            Api::V2 => "/api/v2",
        }
    }
}

#[derive(Debug, Clone, Copy, PartialEq, Eq, Structural)]
pub enum Method {
    Get,
    Post,
}

/// A request, as far as this library decides it: method, URL, the token to
/// send in the `X-Plex-Token` header, and the query parameters. Where a
/// request has a body, the function that makes the request returns the body
/// beside it (`PinRequest`, `TokenRequest`), to be sent as JSON.
#[derive(Debug)]
pub struct ApiRequest {
    pub method: Method,
    pub url: String,
    pub token: Option<String>,
    pub query: Vec<(String, String)>,
}

/// A client of the Plex services: who it is, the headers it sends with
/// every request, and what it knows of the account's servers.
#[derive(Debug)]
pub struct Client {
    token: Option<String>,
    client_id: String,
    product: Option<String>,
    default_headers: Vec<(String, String)>,
    registry: ServerRegistry,
}

/// What a client holds: the account token, if any, its client id and
/// product, the headers it sends with every request, as (name, value)
/// pairs, and its registry of servers. No method changes the first four
/// once the client is built.
pub struct ClientModel {
    pub token: Option<Seq<char>>,
    pub client_id: Seq<char>,
    pub product: Option<Seq<char>>,
    pub default_headers: Seq<(String, String)>,
    pub registry: RegistryModel,
}

pub open spec fn token_text(t: Option<String>) -> Option<Seq<char>> {
    match t {
        Some(s) => Some(s@),
        None => None,
    }
}

impl View for Client {
    type V = ClientModel;

    closed spec fn view(&self) -> ClientModel {
        ClientModel {
            token: token_text(self.token),
            client_id: self.client_id@,
            product: token_text(self.product),
            default_headers: self.default_headers@,
            registry: self.registry@,
        }
    }
}

/// `new` is `old` with only the registry changed: the token, client id,
/// product and headers are kept.
pub open spec fn same_identity(old: ClientModel, new: ClientModel) -> bool {
    &&& new.token == old.token
    &&& new.client_id == old.client_id
    &&& new.product == old.product
    &&& new.default_headers == old.default_headers
}

/// The token sent with a request to `base`: a server connection carries
/// its own, everything else gets the account's token, if any.
pub open spec fn request_token(client_token: Option<Seq<char>>, base: Base) -> Option<Seq<char>> {
    match base {
        Base::Connection(c) => Some(c.token@),
        _ => client_token,
    }
}

/// `r` is the request `method` to `path` under `api` at `base`, with `query`.
pub open spec fn is_request(
    r: ApiRequest,
    client_token: Option<Seq<char>>,
    method: Method,
    base: Base,
    api: Api,
    path: Seq<char>,
    query: Seq<(String, String)>,
) -> bool {
    &&& r.method == method
    &&& r.url@ == base_url(base) + api_prefix(api) + path
    &&& token_text(r.token) == request_token(client_token, base)
    &&& r.query@ == query
}

/// `"Server (" + id + ") has no connections"`.
pub open spec fn no_connections_message(server_id: Seq<char>) -> Seq<char> {
    "Server ("@ + server_id + ") has no connections"@
}

impl Client {
    pub fn builder() -> (r: ClientBuilder)
        ensures
            r.is_empty(),
    {
        ClientBuilder::default()
    }

    /// Whether the client holds an account token.
    pub fn is_authenticated(&self) -> (r: bool)
        ensures
            r == self@.token is Some,
    {
        self.token.is_some()
    }

    /// The identifier this client sends as `X-Plex-Client-Identifier`.
    pub fn client_id(&self) -> (r: &str)
        ensures
            r@ == self@.client_id,
    {
        self.client_id.as_str()
    }

    /// The product name set at build time, if any.
    pub fn product(&self) -> (r: Option<&str>)
        ensures
            match r {
                Some(p) => self@.product == Some(p@),
                None => self@.product is None,
            },
    {
        match &self.product {
            Some(p) => Some(p.as_str()),
            None => None,
        }
    }

    /// The headers sent with every request, as (name, value) pairs.
    pub fn default_headers(&self) -> (r: &Vec<(String, String)>)
        ensures
            r@ == self@.default_headers,
    {
        &self.default_headers
    }

    /// What the client knows of the account's servers.
    pub fn registry(&self) -> (r: &ServerRegistry)
        ensures
            r@ == self@.registry,
    {
        &self.registry
    }

    /// `ServerRegistry::needs_refresh` on this client's registry.
    pub fn needs_refresh(&mut self) -> (r: bool)
        ensures
            exists|now: u128| needs_refresh_step(old(self)@.registry, now, final(self)@.registry, r),
            same_identity(old(self)@, final(self)@),
    {
        self.registry.needs_refresh()
    }

    /// `ServerRegistry::complete_refresh` on this client's registry.
    pub fn complete_refresh(&mut self, listing: Result<Vec<Resource>, Error>) -> (r: Result<(), Error>)
        ensures
            match listing {
                Ok(resources) => {
                    &&& r is Ok
                    &&& exists|now: u128| refresh_step(resources@, now, final(self)@.registry)
                },
                Err(e) => {
                    &&& r == Err::<(), Error>(e)
                    &&& !final(self)@.registry.refreshing
                    &&& final(self)@.registry.servers == old(self)@.registry.servers
                    &&& final(self)@.registry.last_refreshed == old(self)@.registry.last_refreshed
                },
            },
            final(self)@.registry.origin == old(self)@.registry.origin,
            same_identity(old(self)@, final(self)@),
    {
        self.registry.complete_refresh(listing)
    }

    /// `ServerRegistry::probe_targets` on this client's registry.
    pub fn probe_targets(&mut self) -> (targets: Vec<ProbeTarget>)
        ensures
            final(self)@.registry.servers.len() == old(self)@.registry.servers.len(),
            forall|k: int|
                0 <= k < old(self)@.registry.servers.len() ==> server_reset(
                    old(self)@.registry.servers[k],
                    #[trigger] final(self)@.registry.servers[k],
                ),
            targets@ == all_targets(old(self)@.registry.servers),
            best_is_reachable(final(self)@.registry.servers),
            final(self)@.registry.last_refreshed == old(self)@.registry.last_refreshed,
            final(self)@.registry.origin == old(self)@.registry.origin,
            final(self)@.registry.refreshing == old(self)@.registry.refreshing,
            same_identity(old(self)@, final(self)@),
    {
        self.registry.probe_targets()
    }

    /// `ServerRegistry::record_probe` on this client's registry.
    pub fn record_probe(&mut self, target: &ProbeTarget, reachable: bool)
        ensures
            servers_marked(
                old(self)@.registry.servers,
                *target,
                if reachable { Status::Reachable } else { Status::Unreachable },
                final(self)@.registry.servers,
            ),
            best_is_reachable(old(self)@.registry.servers) ==> best_is_reachable(
                final(self)@.registry.servers,
            ),
            final(self)@.registry.last_refreshed == old(self)@.registry.last_refreshed,
            final(self)@.registry.origin == old(self)@.registry.origin,
            final(self)@.registry.refreshing == old(self)@.registry.refreshing,
            same_identity(old(self)@, final(self)@),
    {
        self.registry.record_probe(target, reachable)
    }

    /// The request `method` to `path` under `api` at `base`.
    pub fn request(
        &self,
        method: Method,
        base: Base,
        api: Api,
        path: &str,
        query: Vec<(String, String)>,
    ) -> (r: ApiRequest)
        ensures
            is_request(r, self@.token, method, base, api, path@, query@),
    {
        let mut url = string_of(base.as_str());
        url.append(api.as_str());
        url.append(path);
        let token = match &base {
            Base::Connection(c) => Some(c.token.clone()),
            _ => match &self.token {
                Some(t) => Some(t.clone()),
                None => None,
            },
        };
        ApiRequest { method, url, token, query }
    }

    /// The attempts of a request to the server called `server_id`: for each
    /// connection to try, in turn, the request to send over it.
    pub fn server_requests(
        &self,
        server_id: &str,
        method: Method,
        api: Api,
        path: &str,
        query: &Vec<(String, String)>,
    ) -> (r: Vec<(ProbeTarget, ApiRequest)>)
        ensures
            match first_server(self@.registry.servers, server_id@) {
                Some(k) => {
                    let targets = request_targets_of(self@.registry.servers[k]);
                    &&& r@.len() == targets.len()
                    &&& forall|i: int|
                        0 <= i < r@.len() ==> {
                            &&& (#[trigger] r@[i]).0 == targets[i]
                            &&& is_request(
                                r@[i].1,
                                self@.token,
                                method,
                                Base::Connection(targets[i].connection),
                                api,
                                path@,
                                query@,
                            )
                        }
                },
                None => r@.len() == 0,
            },
    {
        let targets = self.registry.server_targets(server_id);
        let mut out: Vec<(ProbeTarget, ApiRequest)> = Vec::new();
        let mut i: usize = 0;
        while i < targets.len()
            invariant
                i <= targets@.len(),
                out@.len() == i,
                forall|j: int|
                    0 <= j < i ==> {
                        &&& (#[trigger] out@[j]).0 == targets@[j]
                        &&& is_request(
                            out@[j].1,
                            self@.token,
                            method,
                            Base::Connection(targets@[j].connection),
                            api,
                            path@,
                            query@,
                        )
                    },
            decreases targets@.len() - i,
        {
            let t = &targets[i];
            let target = ProbeTarget {
                server_id: t.server_id.clone(),
                connection_index: t.connection_index,
                connection: t.connection.clone(),
            };
            let req = self.request(
                method,
                Base::Connection(t.connection.clone()),
                api,
                path,
                copy_pairs(query),
            );
            out.push((target, req));
            i = i + 1;
        }
        out
    }

    /// Takes in the outcome of one attempt of a request to a server, over
    /// the connection of `target`. An answer ends the request and marks the
    /// connection reachable. A transport failure marks it unreachable, is
    /// kept as the last such failure, and the next connection is to be
    /// tried (`None`). Any other error ends the request as it is.
    pub fn server_attempt<T>(
        &mut self,
        target: &ProbeTarget,
        result: Result<T, Error>,
        last_transport_error: &mut Option<Error>,
    ) -> (r: Option<Result<T, Error>>)
        ensures
            (r, *final(last_transport_error)) == attempt_step(result, *old(last_transport_error)),
            match result {
                Ok(v) => {
                    &&& r == Some(Ok::<T, Error>(v))
                    &&& servers_marked(
                        old(self)@.registry.servers,
                        *target,
                        Status::Reachable,
                        final(self)@.registry.servers,
                    )
                    &&& *final(last_transport_error) == *old(last_transport_error)
                },
                Err(e) => if is_transport_failure_spec(e) {
                    &&& r is None
                    &&& servers_marked(
                        old(self)@.registry.servers,
                        *target,
                        Status::Unreachable,
                        final(self)@.registry.servers,
                    )
                    &&& *final(last_transport_error) == Some(e)
                } else {
                    &&& r == Some(Err::<T, Error>(e))
                    &&& final(self)@.registry.servers == old(self)@.registry.servers
                    &&& *final(last_transport_error) == *old(last_transport_error)
                },
            },
            final(self)@.registry.last_refreshed == old(self)@.registry.last_refreshed,
            final(self)@.registry.origin == old(self)@.registry.origin,
            final(self)@.registry.refreshing == old(self)@.registry.refreshing,
            same_identity(old(self)@, final(self)@),
    {
        match result {
            Ok(value) => {
                self.registry.mark_probe_result(target, Status::Reachable);
                Some(Ok(value))
            },
            Err(error) => {
                if error.is_transport_failure() {
                    self.registry.mark_probe_result(target, Status::Unreachable);
                    *last_transport_error = Some(error);
                    None
                } else {
                    Some(Err(error))
                }
            },
        }
    }
}

fn copy_pairs(pairs: &Vec<(String, String)>) -> (r: Vec<(String, String)>)
    ensures
        r@ == pairs@,
{
    let mut out: Vec<(String, String)> = Vec::new();
    let mut i: usize = 0;
    while i < pairs.len()
        invariant
            i <= pairs@.len(),
            out@ == pairs@.take(i as int),
        decreases pairs@.len() - i,
    {
        let (a, b) = &pairs[i];
        out.push((a.clone(), b.clone()));
        proof {
            assert(pairs@.take(i + 1) =~= pairs@.take(i as int).push(pairs@[i as int]));
        }
        i = i + 1;
    }
    proof {
        assert(pairs@.take(pairs@.len() as int) =~= pairs@);
    }
    out
}

/// One attempt of a request to a server: an answer or an error other than
/// a transport failure ends the request with it; a transport failure
/// becomes the last one seen and lets the next connection be tried.
pub open spec fn attempt_step<T>(result: Result<T, Error>, last: Option<Error>) -> (Option<
    Result<T, Error>,
>, Option<Error>) {
    match result {
        Ok(v) => (Some(Ok(v)), last),
        Err(e) => if is_transport_failure_spec(e) {
            (None, Some(e))
        } else {
            (Some(Err(e)), last)
        },
    }
}

/// The attempts of a request, one `server_attempt` after another over the
/// `results` of its connections, until one ends the request: what ended it,
/// if anything did, and the last transport failure seen.
pub open spec fn run_attempts<T>(results: Seq<Result<T, Error>>, last: Option<Error>) -> (Option<
    Result<T, Error>,
>, Option<Error>)
    decreases results.len(),
{
    if results.len() == 0 {
        (None, last)
    } else {
        let step = attempt_step(results[0], last);
        if step.0 is Some {
            step
        } else {
            run_attempts(results.drop_first(), step.1)
        }
    }
}

/// An outcome that ends a request: an answer, or an error other than a
/// transport failure.
pub open spec fn is_decisive<T>(result: Result<T, Error>) -> bool {
    match result {
        Ok(_) => true,
        Err(e) => !is_transport_failure_spec(e),
    }
}

/// The error of a failed outcome.
pub open spec fn error_of<T>(result: Result<T, Error>) -> Option<Error> {
    match result {
        Ok(_) => None,
        Err(e) => Some(e),
    }
}

/// A request to a server tries its connections in order and ends with the
/// first outcome that is an answer or an error other than a transport
/// failure.
pub proof fn lemma_attempts_end_at_first_decisive<T>(
    results: Seq<Result<T, Error>>,
    last: Option<Error>,
    i: int,
)
    requires
        0 <= i < results.len(),
        is_decisive(results[i]),
        forall|j: int| 0 <= j < i ==> !is_decisive(#[trigger] results[j]),
    ensures
        run_attempts(results, last).0 == Some(results[i]),
    decreases results.len(),
{
    if i > 0 {
        let step = attempt_step(results[0], last);
        assert(!is_decisive(results[0]));
        lemma_attempts_end_at_first_decisive(results.drop_first(), step.1, i - 1);
    }
}

/// When every connection failed in transport, nothing ends the request, and
/// the last failure is the one kept (with no connection at all, the one
/// kept before).
pub proof fn lemma_attempts_all_failed<T>(results: Seq<Result<T, Error>>, last: Option<Error>)
    requires
        forall|j: int| 0 <= j < results.len() ==> !is_decisive(#[trigger] results[j]),
    ensures
        run_attempts(results, last) == (None::<Result<T, Error>>, if results.len() == 0 {
            last
        } else {
            error_of(results.last())
        }),
    decreases results.len(),
{
    if results.len() > 0 {
        assert(!is_decisive(results[0]));
        let step = attempt_step(results[0], last);
        let rest = results.drop_first();
        assert forall|j: int| 0 <= j < rest.len() implies !is_decisive(#[trigger] rest[j]) by {
            assert(rest[j] == results[j + 1]);
        }
        lemma_attempts_all_failed(rest, step.1);
        if rest.len() > 0 {
            assert(rest.last() == results.last());
        }
    }
}

/// Whether an HTTP status code means success: 200 to 299.
pub fn is_success_status(status: u16) -> (r: bool)
    ensures
        r == (200 <= status && status <= 299),
{
    200 <= status && status <= 299
}

/// The message of an answer with a failure status: the text of its body,
/// or `Unknown error` when the body could not be read.
pub open spec fn api_error_message(body: Option<String>) -> Seq<char> {
    match body {
        Some(b) => b@,
        None => "Unknown error"@,
    }
}

/// The error for an answer with status `status` that is not a success,
/// given the text of its body, if it could be read.
pub fn api_error(status: u16, body: Option<String>) -> (e: Error)
    ensures
        e matches Error::Api { status: s, message: m } && s == status && m@ == api_error_message(body),
{
    let message = match body {
        Some(b) => b,
        None => string_of("Unknown error"),
    };
    Error::Api { status, message }
}

/// The error of a request to a server whose every connection was tried and
/// failed: the last transport failure, or, when there was nothing to try,
/// a `Generic` error saying so.
pub fn no_connection_left(server_id: &str, last_transport_error: Option<Error>) -> (e: Error)
    ensures
        match last_transport_error {
            Some(l) => e == l,
            None => e matches Error::Generic(m) && m@ == no_connections_message(server_id@),
        },
{
    match last_transport_error {
        Some(l) => l,
        None => {
            let mut m = string_of("Server (");
            m.append(server_id);
            m.append(") has no connections");
            Error::Generic(m)
        },
    }
}

} // verus!
