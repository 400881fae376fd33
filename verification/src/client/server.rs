use vstd::prelude::*;
use vstd::string::StringSliceAdditionalSpecFns;

use std::time::Instant;

use crate::client::text::str_eq;
use crate::error::Error;
use crate::models::resource::{Connection as ResourceConnection, Resource};

verus! {

broadcast use vstd::seq_lib::group_seq_properties;

/// How long a server list stays fresh: 150 seconds, in nanoseconds.
pub const MAX_AGE_NANOS: u128 = 150_000_000_000;

/// What is known about a connection since the last probe.
#[derive(Debug, Clone, Copy, PartialEq, Eq, Structural)]
pub enum Status {
    Idle,
    Reachable,
    Unreachable,
}

/// A way of reaching one media server, with the token that server accepts.
#[derive(Debug)]
pub struct Connection {
    pub url: String,
    pub token: String,
    pub status: Status,
    pub is_https: bool,
    pub is_relay: bool,
    pub is_local: bool,
}

impl Clone for Connection {
    fn clone(&self) -> (r: Self)
        ensures
            r == *self,
    {
        Connection {
            url: self.url.clone(),
            token: self.token.clone(),
            status: self.status,
            is_https: self.is_https,
            is_relay: self.is_relay,
            is_local: self.is_local,
        }
    }
}

/// One connection of one server, singled out to be tried.
#[derive(Debug)]
pub struct ProbeTarget {
    pub server_id: String,
    pub connection_index: u8,
    pub connection: Connection,
}

/// A media server of the account and the ways of reaching it, best first.
#[derive(Debug)]
pub struct Server {
    pub id: String,
    pub token: String,
    /// The connection that last answered, if any is known to.
    pub best_connection_index: Option<u8>,
    pub connections: Vec<Connection>,
}

/// The servers of the account, when they were last listed, and whether a
/// new listing is under way.
#[derive(Debug)]
pub struct ServerRegistry {
    origin: Instant,
    servers: Vec<Server>,
    last_refreshed: Option<u128>,
    refreshing: bool,
}

/// What a registry holds: the instant from which it measures time, the
/// servers, when they were last listed (nanoseconds since `origin`), and
/// whether a new listing is under way.
pub struct RegistryModel {
    pub origin: Instant,
    pub servers: Seq<Server>,
    pub last_refreshed: Option<u128>,
    pub refreshing: bool,
}

impl View for ServerRegistry {
    type V = RegistryModel;

    closed spec fn view(&self) -> RegistryModel {
        RegistryModel {
            origin: self.origin,
            servers: self.servers@,
            last_refreshed: self.last_refreshed,
            refreshing: self.refreshing,
        }
    }
}

// ---------------------------------------------------------------------------
// Ranking of connections
// ---------------------------------------------------------------------------

/// Preference order of connections: local before remote, direct before
/// relayed, and HTTPS before plain HTTP within each of those groups.
pub open spec fn rank_of(is_local: bool, is_relay: bool, is_https: bool) -> u8 {
    if is_local {
        if is_https { 0 } else { 1 }
    } else if !is_relay {
        if is_https { 2 } else { 3 }
    } else {
        if is_https { 4 } else { 5 }
    }
}

pub open spec fn connection_rank(c: Connection) -> u8 {
    rank_of(c.is_local, c.is_relay, c.is_https)
}

pub open spec fn has_rank(r: u8) -> spec_fn(Connection) -> bool {
    |c: Connection| connection_rank(c) == r
}

/// The connections of `s` whose rank is below `r`, grouped by rank in
/// increasing order, each group in the order of `s`.
pub open spec fn ranks_below(s: Seq<Connection>, r: nat) -> Seq<Connection>
    decreases r,
{
    if r == 0 {
        Seq::empty()
    } else {
        ranks_below(s, (r - 1) as nat) + s.filter(has_rank((r - 1) as u8))
    }
}

/// `s` sorted by rank; connections of equal rank keep their order.
pub open spec fn sort_by_rank(s: Seq<Connection>) -> Seq<Connection> {
    ranks_below(s, 6)
}

impl Connection {
    /// The place of this connection in the order of preference; 0 is best.
    pub fn rank(&self) -> (r: u8)
        ensures
            r == connection_rank(*self),
    {
        match (self.is_local, self.is_relay, self.is_https) {
            (true, _, true) => 0,
            (true, _, false) => 1,
            (false, false, true) => 2,
            (false, false, false) => 3,
            (false, true, true) => 4,
            (false, true, false) => 5,
        }
    }
}

/// Stable sort of connections by rank.
fn sort_connections(conns: &Vec<Connection>) -> (out: Vec<Connection>)
    ensures
        out@ == sort_by_rank(conns@),
{
    let mut out: Vec<Connection> = Vec::new();
    let mut r: u8 = 0;
    while r < 6
        invariant
            r <= 6,
            out@ == ranks_below(conns@, r as nat),
        decreases 6 - r,
    {
        let mut i: usize = 0;
        while i < conns.len()
            invariant
                r < 6,
                i <= conns.len(),
                out@ == ranks_below(conns@, r as nat) + conns@.take(i as int).filter(has_rank(r)),
            decreases conns.len() - i,
        {
            let c = &conns[i];
            proof {
                assert(conns@.take(i + 1) == conns@.take(i as int).push(conns@[i as int]));
                conns@.take(i as int).lemma_filter_push(conns@[i as int], has_rank(r));
            }
            if c.rank() == r {
                out.push(c.clone());
            }
            proof {
                assert(out@ == ranks_below(conns@, r as nat) + conns@.take(i + 1).filter(has_rank(r)));
            }
            i = i + 1;
        }
        proof {
            assert(conns@.take(conns@.len() as int) == conns@);
        }
        r = r + 1;
    }
    out
}

// ---------------------------------------------------------------------------
// Laws of the ordering of connections
// ---------------------------------------------------------------------------

proof fn lemma_ranks_below_bounded_sorted(s: Seq<Connection>, r: nat)
    requires
        r <= 6,
    ensures
        forall|i: int|
            0 <= i < ranks_below(s, r).len() ==> connection_rank(#[trigger] ranks_below(s, r)[i])
                < r,
        forall|i: int, j: int|
            0 <= i <= j < ranks_below(s, r).len() ==> connection_rank(
                #[trigger] ranks_below(s, r)[i],
            ) <= connection_rank(#[trigger] ranks_below(s, r)[j]),
    decreases r,
{
    broadcast use vstd::seq_lib::group_filter_ensures;

    if r > 0 {
        lemma_ranks_below_bounded_sorted(s, (r - 1) as nat);
        let a = ranks_below(s, (r - 1) as nat);
        let b = s.filter(has_rank((r - 1) as u8));
        assert(ranks_below(s, r) == a + b);
        assert forall|i: int| 0 <= i < b.len() implies connection_rank(#[trigger] b[i]) == r - 1 by {
            s.lemma_filter_pred(has_rank((r - 1) as u8), i);
        }
    }
}

/// Sorting by rank leaves the connections in order of rank.
pub proof fn lemma_sort_by_rank_sorted(s: Seq<Connection>)
    ensures
        forall|i: int, j: int|
            0 <= i <= j < sort_by_rank(s).len() ==> connection_rank(#[trigger] sort_by_rank(s)[i])
                <= connection_rank(#[trigger] sort_by_rank(s)[j]),
{
    lemma_ranks_below_bounded_sorted(s, 6);
}

proof fn lemma_ranks_below_empty(r: nat)
    ensures
        ranks_below(Seq::<Connection>::empty(), r) == Seq::<Connection>::empty(),
    decreases r,
{
    reveal(Seq::filter);
    if r > 0 {
        lemma_ranks_below_empty((r - 1) as nat);
        assert(Seq::<Connection>::empty().filter(has_rank((r - 1) as u8)) == Seq::<
            Connection,
        >::empty());
    }
}

proof fn lemma_ranks_below_push_multiset(s: Seq<Connection>, e: Connection, r: nat)
    requires
        r <= 6,
    ensures
        ranks_below(s.push(e), r).to_multiset() == (if connection_rank(e) < r {
            ranks_below(s, r).to_multiset().insert(e)
        } else {
            ranks_below(s, r).to_multiset()
        }),
    decreases r,
{
    broadcast use vstd::seq_lib::to_multiset_build, vstd::seq_lib::lemma_multiset_commutative;
    broadcast use vstd::multiset::group_multiset_axioms;

    if r > 0 {
        let k = (r - 1) as nat;
        lemma_ranks_below_push_multiset(s, e, k);
        s.lemma_filter_push(e, has_rank(k as u8));
        let a = ranks_below(s, k);
        let a2 = ranks_below(s.push(e), k);
        let b = s.filter(has_rank(k as u8));
        let b2 = s.push(e).filter(has_rank(k as u8));
        assert(ranks_below(s, r) == a + b);
        assert(ranks_below(s.push(e), r) == a2 + b2);
        assert((a + b).to_multiset() == a.to_multiset().add(b.to_multiset()));
        assert((a2 + b2).to_multiset() == a2.to_multiset().add(b2.to_multiset()));
        if connection_rank(e) == k {
            assert(b2 == b.push(e));
            assert(b2.to_multiset() == b.to_multiset().insert(e));
            assert(ranks_below(s.push(e), r).to_multiset() =~= ranks_below(s, r).to_multiset().insert(e));
        } else if connection_rank(e) < k {
            assert(b2 == b);
            assert(ranks_below(s.push(e), r).to_multiset() =~= ranks_below(s, r).to_multiset().insert(e));
        } else {
            assert(b2 == b);
        }
    }
}

/// Sorting by rank neither loses nor duplicates a connection.
pub proof fn lemma_sort_by_rank_permutation(s: Seq<Connection>)
    ensures
        sort_by_rank(s).to_multiset() == s.to_multiset(),
        sort_by_rank(s).len() == s.len(),
    decreases s.len(),
{
    broadcast use vstd::seq_lib::to_multiset_build, vstd::seq_lib::to_multiset_len;

    if s.len() == 0 {
        lemma_ranks_below_empty(6);
        assert(s == Seq::<Connection>::empty());
    } else {
        let t = s.drop_last();
        let e = s.last();
        assert(s == t.push(e));
        lemma_sort_by_rank_permutation(t);
        lemma_ranks_below_push_multiset(t, e, 6);
        assert(connection_rank(e) < 6);
    }
    vstd::seq_lib::to_multiset_len(sort_by_rank(s));
    vstd::seq_lib::to_multiset_len(s);
}

proof fn lemma_filter_rank_twice(s: Seq<Connection>, k: u8, r: u8)
    ensures
        s.filter(has_rank(k)).filter(has_rank(r)) == (if k == r {
            s.filter(has_rank(r))
        } else {
            Seq::<Connection>::empty()
        }),
    decreases s.len(),
{
    reveal(Seq::filter);
    if s.len() > 0 {
        let t = s.drop_last();
        let e = s.last();
        assert(s == t.push(e));
        lemma_filter_rank_twice(t, k, r);
        t.lemma_filter_push(e, has_rank(k));
        t.lemma_filter_push(e, has_rank(r));
        t.filter(has_rank(k)).lemma_filter_push(e, has_rank(r));
    } else {
        assert(s.filter(has_rank(k)) == s);
    }
}

proof fn lemma_ranks_below_filter(s: Seq<Connection>, n: nat, r: u8)
    requires
        n <= 6,
    ensures
        ranks_below(s, n).filter(has_rank(r)) == (if (r as nat) < n {
            s.filter(has_rank(r))
        } else {
            Seq::<Connection>::empty()
        }),
    decreases n,
{
    reveal(Seq::filter);
    if n > 0 {
        let k = (n - 1) as nat;
        lemma_ranks_below_filter(s, k, r);
        lemma_filter_rank_twice(s, k as u8, r);
        Seq::filter_distributes_over_add(
            ranks_below(s, k),
            s.filter(has_rank(k as u8)),
            has_rank(r),
        );
        if (r as nat) < k {
            assert(s.filter(has_rank(k as u8)).filter(has_rank(r)) == Seq::<Connection>::empty());
            assert(s.filter(has_rank(r)) + Seq::<Connection>::empty() == s.filter(has_rank(r)));
        } else if (r as nat) == k {
            assert(Seq::<Connection>::empty() + s.filter(has_rank(r)) == s.filter(has_rank(r)));
        } else {
            assert(Seq::<Connection>::empty() + Seq::<Connection>::empty() == Seq::<Connection>::empty());
        }
    } else {
        assert(Seq::<Connection>::empty().filter(has_rank(r)) == Seq::<Connection>::empty());
    }
}

/// Sorting by rank is stable: the connections of any one rank come out in
/// the order in which they went in.
pub proof fn lemma_sort_by_rank_stable(s: Seq<Connection>, r: u8)
    requires
        r < 6,
    ensures
        sort_by_rank(s).filter(has_rank(r)) == s.filter(has_rank(r)),
{
    lemma_ranks_below_filter(s, 6, r);
}

// ---------------------------------------------------------------------------
// Building the server list
// ---------------------------------------------------------------------------

/// ASCII case folding of one byte.
pub open spec fn ascii_lower(b: u8) -> u8 {
    if 65 <= b <= 90 { (b + 32) as u8 } else { b }
}

/// Byte strings equal up to ASCII case.
pub open spec fn eq_ignore_ascii_case_spec(a: Seq<u8>, b: Seq<u8>) -> bool {
    &&& a.len() == b.len()
    &&& forall|i: int| 0 <= i < a.len() ==> ascii_lower(#[trigger] a[i]) == ascii_lower(b[i])
}

/// Whether a protocol name is "https" in any letter case.
pub open spec fn protocol_is_https(protocol: Seq<char>) -> bool {
    eq_ignore_ascii_case_spec(
        vstd::utf8::encode_utf8(protocol),
        seq![104u8, 116u8, 116u8, 112u8, 115u8],
    )
}

fn is_https_protocol(protocol: &str) -> (r: bool)
    ensures
        r == protocol_is_https(protocol@),
{
    let target: [u8; 5] = [104, 116, 116, 112, 115];
    let bytes = protocol.as_bytes();
    proof {
        assert(target@ == seq![104u8, 116u8, 116u8, 112u8, 115u8]);
    }
    if bytes.len() != 5 {
        return false;
    }
    let mut i: usize = 0;
    while i < 5
        invariant
            i <= 5,
            bytes@.len() == 5,
            bytes@ == protocol.spec_bytes(),
            target@ == seq![104u8, 116u8, 116u8, 112u8, 115u8],
            forall|j: int| 0 <= j < i ==> ascii_lower(#[trigger] bytes@[j]) == ascii_lower(target@[j]),
        decreases 5 - i,
    {
        let b = bytes[i];
        let lb: u8 = if 65 <= b && b <= 90 { b + 32 } else { b };
        let t = target[i];
        let lt: u8 = if 65 <= t && t <= 90 { t + 32 } else { t };
        if lb != lt {
            return false;
        }
        i = i + 1;
    }
    true
}

/// The connection of a server that a listed connection becomes.
pub open spec fn connection_from(c: ResourceConnection, token: String) -> Connection {
    Connection {
        url: c.uri,
        token: token,
        status: Status::Idle,
        is_https: protocol_is_https(c.protocol@),
        is_relay: c.relay,
        is_local: c.local,
    }
}

pub open spec fn connections_from(cs: Seq<ResourceConnection>, token: String) -> Seq<Connection> {
    cs.map_values(|c: ResourceConnection| connection_from(c, token))
}

pub open spec fn has_access_token() -> spec_fn(Resource) -> bool {
    |r: Resource| r.access_token is Some
}

/// `s` is the server that the listed resource `r` (which has a token) becomes.
pub open spec fn server_from(s: Server, r: Resource) -> bool {
    &&& r.access_token == Some(s.token)
    &&& s.id == r.client_identifier
    &&& s.best_connection_index is None
    &&& s.connections@ == sort_by_rank(connections_from(r.connections@, s.token))
}

/// `out` is the server list made of the resources `rs`: one server for each
/// resource with an access token, in order.
pub open spec fn servers_from(rs: Seq<Resource>, out: Seq<Server>) -> bool {
    let kept = rs.filter(has_access_token());
    &&& out.len() == kept.len()
    &&& forall|i: int| 0 <= i < out.len() ==> server_from(#[trigger] out[i], kept[i])
}

impl Server {
    /// The servers among the listed resources: those with an access token,
    /// each with its connections ordered by preference.
    pub fn from_resources(rs: Vec<Resource>) -> (out: Vec<Self>)
        ensures
            servers_from(rs@, out@),
    {
        let mut out: Vec<Server> = Vec::new();
        let mut i: usize = 0;
        while i < rs.len()
            invariant
                i <= rs.len(),
                servers_from(rs@.take(i as int), out@),
            decreases rs.len() - i,
        {
            let r = &rs[i];
            proof {
                assert(rs@.take(i + 1) == rs@.take(i as int).push(rs@[i as int]));
                rs@.take(i as int).lemma_filter_push(rs@[i as int], has_access_token());
            }
            match &r.access_token {
                Some(token) => {
                    let mut conns: Vec<Connection> = Vec::new();
                    let mut j: usize = 0;
                    while j < r.connections.len()
                        invariant
                            j <= r.connections.len(),
                            conns@ == connections_from(r.connections@.take(j as int), *token),
                        decreases r.connections.len() - j,
                    {
                        let c = &r.connections[j];
                        let conn = Connection {
                            url: c.uri.clone(),
                            token: token.clone(),
                            status: Status::Idle,
                            is_https: is_https_protocol(c.protocol.as_str()),
                            is_relay: c.relay,
                            is_local: c.local,
                        };
                        conns.push(conn);
                        proof {
                            assert(r.connections@.take(j + 1) == r.connections@.take(j as int).push(
                                r.connections@[j as int],
                            ));
                            assert(conns@ == connections_from(
                                r.connections@.take(j + 1),
                                *token,
                            ));
                        }
                        j = j + 1;
                    }
                    proof {
                        assert(r.connections@.take(r.connections@.len() as int) == r.connections@);
                    }
                    let sorted = sort_connections(&conns);
                    let server = Server {
                        id: r.client_identifier.clone(),
                        token: token.clone(),
                        best_connection_index: None,
                        connections: sorted,
                    };
                    out.push(server);
                    proof {
                        let kept = rs@.take(i + 1).filter(has_access_token());
                        assert(kept == rs@.take(i as int).filter(has_access_token()).push(*r));
                    }
                },
                None => {},
            }
            i = i + 1;
        }
        proof {
            assert(rs@.take(rs@.len() as int) == rs@);
        }
        out
    }
}

} // verus!

verus! {

// ---------------------------------------------------------------------------
// The registry of servers
// ---------------------------------------------------------------------------

/// Whether a listing taken at `last` is too old at `now` (clock readings in
/// nanoseconds; a clock that went backwards counts as no time elapsed).
pub open spec fn is_stale(last: Option<u128>, now: u128) -> bool {
    match last {
        None => true,
        Some(t) => (if now >= t { now - t } else { 0 }) > MAX_AGE_NANOS,
    }
}

/// A connection as it is after a probe round has been started.
pub open spec fn reset_connection(c: Connection) -> Connection {
    Connection {
        url: c.url,
        token: c.token,
        status: Status::Idle,
        is_https: c.is_https,
        is_relay: c.is_relay,
        is_local: c.is_local,
    }
}

/// `new` is `old` with its choice of connection forgotten and every
/// connection back to `Idle`.
pub open spec fn server_reset(old: Server, new: Server) -> bool {
    &&& new.id == old.id
    &&& new.token == old.token
    &&& new.best_connection_index is None
    &&& new.connections@ == old.connections@.map_values(|c: Connection| reset_connection(c))
}

/// The targets of one server: its first 256 connections (an index must fit
/// in a byte), in order, each reset to `Idle`.
pub open spec fn targets_of(s: Server) -> Seq<ProbeTarget> {
    let n = if s.connections@.len() < 256 { s.connections@.len() } else { 256 };
    Seq::new(
        n,
        |i: int|
            ProbeTarget {
                server_id: s.id,
                connection_index: i as u8,
                connection: reset_connection(s.connections@[i]),
            },
    )
}

/// The targets of all servers, server by server.
pub open spec fn all_targets(servers: Seq<Server>) -> Seq<ProbeTarget>
    decreases servers.len(),
{
    if servers.len() == 0 {
        Seq::empty()
    } else {
        all_targets(servers.drop_last()) + targets_of(servers.last())
    }
}

/// `k` is the position of the first server called `id`.
pub open spec fn is_first_with_id(servers: Seq<Server>, id: Seq<char>, k: int) -> bool {
    &&& 0 <= k < servers.len()
    &&& servers[k].id@ == id
    &&& forall|j: int| 0 <= j < k ==> (#[trigger] servers[j]).id@ != id
}

/// The choice of connection after a probe of connection `index` came back
/// with `status`: the first reachable connection is chosen, and the chosen
/// one is dropped when it turns out unreachable.
pub open spec fn next_best(best: Option<u8>, index: u8, status: Status) -> Option<u8> {
    match status {
        Status::Reachable => if best is None { Some(index) } else { best },
        Status::Unreachable => if best == Some(index) { None } else { best },
        Status::Idle => best,
    }
}

pub open spec fn with_status(c: Connection, status: Status) -> Connection {
    Connection {
        url: c.url,
        token: c.token,
        status: status,
        is_https: c.is_https,
        is_relay: c.is_relay,
        is_local: c.is_local,
    }
}

/// Whether a probe result for `target` applies to server `s`: the
/// connection it names exists and still has the URL that was probed.
pub open spec fn target_applies(s: Server, target: ProbeTarget) -> bool {
    let i = target.connection_index as int;
    &&& i < s.connections@.len()
    &&& s.connections@[i].url@ == target.connection.url@
}

/// `new` is server `old` after the result `status` for `target` was recorded.
pub open spec fn server_marked(old: Server, target: ProbeTarget, status: Status, new: Server) -> bool {
    let i = target.connection_index as int;
    if target_applies(old, target) {
        &&& new.id == old.id
        &&& new.token == old.token
        &&& new.connections@ == old.connections@.update(i, with_status(old.connections@[i], status))
        &&& new.best_connection_index == next_best(
            old.best_connection_index,
            target.connection_index,
            status,
        )
    } else {
        new == old
    }
}

/// `new` is the server list `old` after the result `status` for `target`
/// was recorded: only the first server with the target's id can change.
pub open spec fn servers_marked(
    old: Seq<Server>,
    target: ProbeTarget,
    status: Status,
    new: Seq<Server>,
) -> bool {
    if exists|k: int| is_first_with_id(old, target.server_id@, k) {
        let k = choose|k: int| is_first_with_id(old, target.server_id@, k);
        &&& new.len() == old.len()
        &&& forall|j: int| 0 <= j < old.len() && j != k ==> new[j] == old[j]
        &&& server_marked(old[k], target, status, new[k])
    } else {
        new == old
    }
}

/// The choice of connection of every server is a connection that answered.
pub open spec fn best_is_reachable(servers: Seq<Server>) -> bool {
    forall|k: int|
        0 <= k < servers.len() ==> match (#[trigger] servers[k]).best_connection_index {
            Some(i) => (i as int) < servers[k].connections@.len()
                && servers[k].connections@[i as int].status == Status::Reachable,
            None => true,
        }
}

/// The targets for a request to server `s`: its chosen connection first,
/// then its other connections in order of preference (indices below 256).
pub open spec fn request_targets_of(s: Server) -> Seq<ProbeTarget> {
    let all = Seq::new(
        if s.connections@.len() < 256 { s.connections@.len() } else { 256 },
        |i: int|
            ProbeTarget {
                server_id: s.id,
                connection_index: i as u8,
                connection: s.connections@[i],
            },
    );
    match s.best_connection_index {
        Some(b) => if (b as int) < all.len() {
            seq![all[b as int]] + all.remove(b as int)
        } else {
            all
        },
        None => all,
    }
}

fn first_with_id(servers: &Vec<Server>, id: &str) -> (r: Option<usize>)
    ensures
        match r {
            Some(k) => is_first_with_id(servers@, id@, k as int),
            None => !(exists|k: int| is_first_with_id(servers@, id@, k)),
        },
{
    let mut k: usize = 0;
    while k < servers.len()
        invariant
            k <= servers.len(),
            forall|j: int| 0 <= j < k ==> (#[trigger] servers@[j]).id@ != id@,
        decreases servers.len() - k,
    {
        if str_eq(servers[k].id.as_str(), id) {
            return Some(k);
        }
        k = k + 1;
    }
    None
}

/// The registry `new` after a listing of `resources` taken at `now`.
pub open spec fn refresh_step(resources: Seq<Resource>, now: u128, new: RegistryModel) -> bool {
    &&& servers_from(resources, new.servers)
    &&& best_is_reachable(new.servers)
    &&& new.last_refreshed == Some(now)
    &&& !new.refreshing
}

/// `new` and the answer `r` after asking `old` at `now` whether to list
/// the servers anew: yes exactly when no refresh is under way and the list
/// is stale, and a yes marks a refresh as under way.
pub open spec fn needs_refresh_step(old: RegistryModel, now: u128, new: RegistryModel, r: bool) -> bool {
    &&& r == (!old.refreshing && is_stale(old.last_refreshed, now))
    &&& new.origin == old.origin
    &&& new.refreshing == (old.refreshing || r)
    &&& new.servers == old.servers
    &&& new.last_refreshed == old.last_refreshed
}

#[verifier::external_type_specification]
#[verifier::external_body]
pub struct ExInstant(std::time::Instant);

/// Calls `std::time::Instant::now`. Nothing is claimed of the instant.
#[verifier::external_body]
fn instant_now() -> Instant {
    Instant::now()
}

/// Calls `Instant::elapsed` on `origin`, in nanoseconds. Nothing is claimed
/// of the reading: it is the clock.
#[verifier::external_body]
fn nanos_since(origin: &Instant) -> u128 {
    origin.elapsed().as_nanos()
}

impl Default for ServerRegistry {
    /// An empty registry that measures time from now.
    fn default() -> (r: Self)
        ensures
            r@.servers.len() == 0,
            r@.last_refreshed is None,
            !r@.refreshing,
    {
        ServerRegistry {
            origin: instant_now(),
            servers: Vec::new(),
            last_refreshed: None,
            refreshing: false,
        }
    }
}

impl ServerRegistry {
    /// The servers, in the order of the last listing.
    pub fn servers(&self) -> (r: &Vec<Server>)
        ensures
            r@ == self@.servers,
    {
        &self.servers
    }

    /// When the servers were last listed, in nanoseconds since `origin`.
    pub fn last_refreshed(&self) -> (r: Option<u128>)
        ensures
            r == self@.last_refreshed,
    {
        self.last_refreshed
    }

    /// Whether a new listing is under way.
    pub fn is_refreshing(&self) -> (r: bool)
        ensures
            r == self@.refreshing,
    {
        self.refreshing
    }

    /// Replaces the server list with the servers among `resources`, notes
    /// the time `now` of the listing, and ends the refresh under way.
    pub fn refresh(&mut self, resources: Vec<Resource>)
        ensures
            exists|now: u128| refresh_step(resources@, now, final(self)@),
            final(self)@.origin == old(self)@.origin,
    {
        let now = nanos_since(&self.origin);
        self.refresh_at(resources, now);
    }

    /// `refresh`, with the clock read `now` nanoseconds after `origin`.
    pub fn refresh_at(&mut self, resources: Vec<Resource>, now: u128)
        ensures
            refresh_step(resources@, now, final(self)@),
            final(self)@.origin == old(self)@.origin,
    {
        self.servers = Server::from_resources(resources);
        self.last_refreshed = Some(now);
        self.release_refreshing();
    }

    /// Whether the caller should list the servers anew. At most one caller
    /// is told so until the refresh ends: a `true` answer marks a refresh as
    /// under way.
    pub fn needs_refresh(&mut self) -> (r: bool)
        ensures
            exists|now: u128| needs_refresh_step(old(self)@, now, final(self)@, r),
    {
        let now = nanos_since(&self.origin);
        self.needs_refresh_at(now)
    }

    /// `needs_refresh`, with the clock read `now` nanoseconds after `origin`.
    pub fn needs_refresh_at(&mut self, now: u128) -> (r: bool)
        ensures
            needs_refresh_step(old(self)@, now, final(self)@, r),
    {
        if self.refreshing {
            return false;
        }
        let stale = match self.last_refreshed {
            None => true,
            Some(t) => {
                let elapsed: u128 = if now >= t { now - t } else { 0 };
                elapsed > MAX_AGE_NANOS
            },
        };
        if !stale {
            return false;
        }
        self.refreshing = true;
        true
    }

    /// Ends the refresh under way with the outcome of the listing: a list
    /// replaces the servers, a failure leaves them and is handed back.
    pub fn complete_refresh(&mut self, listing: Result<Vec<Resource>, Error>) -> (r: Result<(), Error>)
        ensures
            match listing {
                Ok(resources) => {
                    &&& r is Ok
                    &&& exists|now: u128| refresh_step(resources@, now, final(self)@)
                },
                Err(e) => {
                    &&& r == Err::<(), Error>(e)
                    &&& !final(self)@.refreshing
                    &&& final(self)@.servers == old(self)@.servers
                    &&& final(self)@.last_refreshed == old(self)@.last_refreshed
                },
            },
            final(self)@.origin == old(self)@.origin,
    {
        match listing {
            Ok(resources) => {
                self.refresh(resources);
                Ok(())
            },
            Err(e) => {
                self.release_refreshing();
                Err(e)
            },
        }
    }

    /// Ends the refresh under way, if any.
    pub fn release_refreshing(&mut self)
        ensures
            !final(self)@.refreshing,
            final(self)@.servers == old(self)@.servers,
            final(self)@.last_refreshed == old(self)@.last_refreshed,
            final(self)@.origin == old(self)@.origin,
    {
        self.refreshing = false;
    }

    /// Starts a probe round: forgets every server's choice of connection,
    /// sets every connection back to `Idle`, and returns one target for each
    /// connection (of the first 256 of each server).
    pub fn probe_targets(&mut self) -> (targets: Vec<ProbeTarget>)
        ensures
            final(self)@.servers.len() == old(self)@.servers.len(),
            forall|k: int|
                0 <= k < old(self)@.servers.len() ==> server_reset(
                    old(self)@.servers[k],
                    #[trigger] final(self)@.servers[k],
                ),
            targets@ == all_targets(old(self)@.servers),
            best_is_reachable(final(self)@.servers),
            final(self)@.last_refreshed == old(self)@.last_refreshed,
            final(self)@.origin == old(self)@.origin,
            final(self)@.refreshing == old(self)@.refreshing,
    {
        let mut old_servers: Vec<Server> = Vec::new();
        std::mem::swap(&mut old_servers, &mut self.servers);
        let mut servers: Vec<Server> = Vec::new();
        let mut targets: Vec<ProbeTarget> = Vec::new();
        let mut i: usize = 0;
        while i < old_servers.len()
            invariant
                i <= old_servers.len(),
                servers@.len() == i,
                forall|k: int|
                    0 <= k < i ==> server_reset(old_servers@[k], #[trigger] servers@[k]),
                targets@ == all_targets(old_servers@.take(i as int)),
            decreases old_servers.len() - i,
        {
            let s = &old_servers[i];
            let mut conns: Vec<Connection> = Vec::new();
            let mut server_targets: Vec<ProbeTarget> = Vec::new();
            let mut j: usize = 0;
            while j < s.connections.len()
                invariant
                    j <= s.connections.len(),
                    conns@ == s.connections@.take(j as int).map_values(
                        |c: Connection| reset_connection(c),
                    ),
                    server_targets@ == targets_of(*s).take(
                        if j < 256 { j as int } else { 256 },
                    ),
                decreases s.connections.len() - j,
            {
                let c = &s.connections[j];
                let reset = Connection {
                    url: c.url.clone(),
                    token: c.token.clone(),
                    status: Status::Idle,
                    is_https: c.is_https,
                    is_relay: c.is_relay,
                    is_local: c.is_local,
                };
                if j < 256 {
                    server_targets.push(
                        ProbeTarget {
                            server_id: s.id.clone(),
                            connection_index: j as u8,
                            connection: reset.clone(),
                        },
                    );
                }
                conns.push(reset);
                proof {
                    assert(s.connections@.take(j + 1) == s.connections@.take(j as int).push(
                        s.connections@[j as int],
                    ));
                    assert(conns@ == s.connections@.take(j + 1).map_values(
                        |c: Connection| reset_connection(c),
                    ));
                    if j < 256 {
                        assert(server_targets@ == targets_of(*s).take(j + 1));
                    }
                }
                j = j + 1;
            }
            proof {
                assert(s.connections@.take(s.connections@.len() as int) == s.connections@);
                assert(server_targets@ == targets_of(*s));
            }
            servers.push(
                Server {
                    id: s.id.clone(),
                    token: s.token.clone(),
                    best_connection_index: None,
                    connections: conns,
                },
            );
            targets.append(&mut server_targets);
            proof {
                let pre = old_servers@.take(i + 1);
                assert(pre.drop_last() == old_servers@.take(i as int));
                assert(pre.last() == old_servers@[i as int]);
            }
            i = i + 1;
        }
        proof {
            assert(old_servers@.take(old_servers@.len() as int) == old_servers@);
        }
        self.servers = servers;
        targets
    }

    /// Records the outcome of a probe of `target`. The result is dropped
    /// when no server has the target's id, or the connection it names is
    /// gone or has another URL by now. Otherwise the connection takes the
    /// status, and the server's choice of connection follows `next_best`.
    pub fn mark_probe_result(&mut self, target: &ProbeTarget, status: Status)
        ensures
            servers_marked(old(self)@.servers, *target, status, final(self)@.servers),
            best_is_reachable(old(self)@.servers) && status != Status::Idle ==> best_is_reachable(
                final(self)@.servers,
            ),
            final(self)@.last_refreshed == old(self)@.last_refreshed,
            final(self)@.origin == old(self)@.origin,
            final(self)@.refreshing == old(self)@.refreshing,
    {
        let k = match first_with_id(&self.servers, target.server_id.as_str()) {
            Some(k) => k,
            None => return ,
        };
        let ghost old_servers = self.servers@;
        proof {
            assert forall|k2: int| is_first_with_id(old_servers, target.server_id@, k2) implies k2
                == k by {
                if k2 < k {
                    assert(old_servers[k2].id@ != target.server_id@);
                } else if k < k2 {
                    assert(old_servers[k as int].id@ != target.server_id@);
                }
            }
        }
        let index = target.connection_index as usize;
        if index >= self.servers[k].connections.len() {
            return ;
        }
        if self.servers[k].connections[index].url != target.connection.url {
            return ;
        }
        let mut server = self.servers.remove(k);
        let c = &server.connections[index];
        let updated = Connection {
            url: c.url.clone(),
            token: c.token.clone(),
            status: status,
            is_https: c.is_https,
            is_relay: c.is_relay,
            is_local: c.is_local,
        };
        server.connections.set(index, updated);
        match status {
            Status::Reachable => {
                if server.best_connection_index.is_none() {
                    server.best_connection_index = Some(target.connection_index);
                }
            },
            Status::Unreachable => {
                if server.best_connection_index == Some(target.connection_index) {
                    server.best_connection_index = None;
                }
            },
            Status::Idle => {},
        }
        self.servers.insert(k, server);
        proof {
            assert(self.servers@ == old_servers.update(k as int, self.servers@[k as int]));
        }
    }

    /// Records whether a probe of `target` got an answer.
    pub fn record_probe(&mut self, target: &ProbeTarget, reachable: bool)
        ensures
            servers_marked(
                old(self)@.servers,
                *target,
                if reachable { Status::Reachable } else { Status::Unreachable },
                final(self)@.servers,
            ),
            best_is_reachable(old(self)@.servers) ==> best_is_reachable(final(self)@.servers),
            final(self)@.last_refreshed == old(self)@.last_refreshed,
            final(self)@.origin == old(self)@.origin,
            final(self)@.refreshing == old(self)@.refreshing,
    {
        let status = if reachable { Status::Reachable } else { Status::Unreachable };
        self.mark_probe_result(target, status);
    }

    /// The connections to try, in turn, for a request to the server called
    /// `server_id`: the one that last answered first, then the others in
    /// order of preference. Empty when no server has that id.
    pub fn server_targets(&self, server_id: &str) -> (targets: Vec<ProbeTarget>)
        ensures
            match first_server(self@.servers, server_id@) {
                Some(k) => targets@ == request_targets_of(self@.servers[k]),
                None => targets@.len() == 0,
            },
    {
        let k = match first_with_id(&self.servers, server_id) {
            Some(k) => k,
            None => return Vec::new(),
        };
        let ghost ks = k as int;
        proof {
            assert forall|k2: int| is_first_with_id(self.servers@, server_id@, k2) implies k2
                == ks by {
                if k2 < ks {
                    assert(self.servers@[k2].id@ != server_id@);
                } else if ks < k2 {
                    assert(self.servers@[ks].id@ != server_id@);
                }
            }
        }
        let s = &self.servers[k];
        let n: usize = if s.connections.len() < 256 { s.connections.len() } else { 256 };
        let ghost all = Seq::new(
            n as nat,
            |i: int|
                ProbeTarget {
                    server_id: s.id,
                    connection_index: i as u8,
                    connection: s.connections@[i],
                },
        );
        let mut targets: Vec<ProbeTarget> = Vec::new();
        let best: Option<usize> = match s.best_connection_index {
            Some(b) => if (b as usize) < n { Some(b as usize) } else { None },
            None => None,
        };
        if let Some(b) = best {
            targets.push(
                ProbeTarget {
                    server_id: s.id.clone(),
                    connection_index: b as u8,
                    connection: s.connections[b].clone(),
                },
            );
        }
        let ghost head: Seq<ProbeTarget> = match best {
            Some(b) => seq![all[b as int]],
            None => Seq::empty(),
        };
        let mut i: usize = 0;
        while i < n
            invariant
                i <= n,
                n <= s.connections@.len(),
                n <= 256,
                all.len() == n,
                forall|t: int| 0 <= t < n ==> #[trigger] all[t] == (ProbeTarget {
                    server_id: s.id,
                    connection_index: t as u8,
                    connection: s.connections@[t],
                }),
                best matches Some(b) ==> b < n,
                targets@ == head + (match best {
                    Some(b) => if b < i { all.take(i as int).remove(b as int) } else { all.take(i as int) },
                    None => all.take(i as int),
                }),
            decreases n - i,
        {
            let skip = match best {
                Some(b) => b == i,
                None => false,
            };
            if !skip {
                targets.push(
                    ProbeTarget {
                        server_id: s.id.clone(),
                        connection_index: i as u8,
                        connection: s.connections[i].clone(),
                    },
                );
            }
            proof {
                assert(all.take(i + 1) == all.take(i as int).push(all[i as int]));
                match best {
                    Some(b) => {
                        if b < i {
                            assert(all.take(i + 1).remove(b as int) == all.take(i as int).remove(
                                b as int,
                            ).push(all[i as int]));
                        } else if b == i {
                            assert(all.take(i + 1).remove(b as int) == all.take(i as int));
                        }
                    },
                    None => {},
                }
            }
            i = i + 1;
        }
        proof {
            assert(all.take(n as int) == all);
            assert(all == Seq::new(
                if s.connections@.len() < 256 { s.connections@.len() } else { 256 },
                |i: int|
                    ProbeTarget {
                        server_id: s.id,
                        connection_index: i as u8,
                        connection: s.connections@[i],
                    },
            ));
        }
        targets
    }
}

/// The position of the first server called `id`, if any.
pub open spec fn first_server(servers: Seq<Server>, id: Seq<char>) -> Option<int> {
    if exists|k: int| is_first_with_id(servers, id, k) {
        Some(choose|k: int| is_first_with_id(servers, id, k))
    } else {
        None
    }
}

} // verus!

verus! {

// ---------------------------------------------------------------------------
// Laws of the registry
// ---------------------------------------------------------------------------

/// Once a caller has been told to refresh, every later caller is told not to,
/// whatever the time, until the refresh ends.
pub proof fn lemma_single_refresher(
    r0: RegistryModel,
    now1: u128,
    r1: RegistryModel,
    now2: u128,
    r2: RegistryModel,
    answer2: bool,
)
    requires
        needs_refresh_step(r0, now1, r1, true),
        needs_refresh_step(r1, now2, r2, answer2),
    ensures
        !answer2,
        r2.refreshing,
{
}

/// A list taken at `t` is not listed anew before `MAX_AGE_NANOS` have passed.
pub proof fn lemma_fresh_after_refresh(
    resources: Seq<Resource>,
    t: u128,
    r1: RegistryModel,
    now: u128,
    r2: RegistryModel,
    answer: bool,
)
    requires
        refresh_step(resources, t, r1),
        t <= now,
        now - t <= MAX_AGE_NANOS,
        needs_refresh_step(r1, now, r2, answer),
    ensures
        !answer,
{
}

/// After a refresh, a listing is asked for again once it is stale.
pub proof fn lemma_stale_after_max_age(
    resources: Seq<Resource>,
    t: u128,
    r1: RegistryModel,
    now: u128,
    r2: RegistryModel,
    answer: bool,
)
    requires
        refresh_step(resources, t, r1),
        t <= now,
        now - t > MAX_AGE_NANOS,
        needs_refresh_step(r1, now, r2, answer),
    ensures
        answer,
{
}

/// In a probe round, the first connection of a server that answers becomes
/// that server's chosen connection, with status `Reachable`.
pub proof fn lemma_first_answer_is_chosen(
    before: Seq<Server>,
    after_reset: Seq<Server>,
    k: int,
    i: int,
    marked: Seq<Server>,
)
    requires
        before.len() == after_reset.len(),
        forall|j: int| 0 <= j < before.len() ==> server_reset(before[j], #[trigger] after_reset[j]),
        0 <= k < before.len(),
        is_first_with_id(after_reset, before[k].id@, k),
        0 <= i < targets_of(before[k]).len(),
        servers_marked(after_reset, targets_of(before[k])[i], Status::Reachable, marked),
    ensures
        marked[k].best_connection_index == Some(i as u8),
        marked[k].connections@[i].status == Status::Reachable,
        marked[k].connections@.len() == before[k].connections@.len(),
{
    let t = targets_of(before[k])[i];
    assert(t.server_id@ == before[k].id@);
    assert(is_first_with_id(after_reset, t.server_id@, k));
    assert forall|k2: int| is_first_with_id(after_reset, t.server_id@, k2) implies k2 == k by {
        if k2 < k {
            assert(after_reset[k2].id@ != t.server_id@);
        } else if k < k2 {
            assert(after_reset[k].id@ != t.server_id@);
        }
    }
    assert(after_reset[k].connections@[i] == reset_connection(before[k].connections@[i]));
    assert(target_applies(after_reset[k], t));
}

} // verus!

verus! {

// ---------------------------------------------------------------------------
// A probe round of one server
// ---------------------------------------------------------------------------

/// The position of the first `Reachable` in `statuses`, if any.
pub open spec fn first_reachable(statuses: Seq<Status>) -> Option<u8>
    decreases statuses.len(),
{
    if statuses.len() == 0 {
        None
    } else {
        match first_reachable(statuses.drop_last()) {
            Some(i) => Some(i),
            None => if statuses.last() == Status::Reachable {
                Some((statuses.len() - 1) as u8)
            } else {
                None
            },
        }
    }
}

proof fn lemma_first_reachable_bound(statuses: Seq<Status>)
    requires
        statuses.len() <= 256,
    ensures
        match first_reachable(statuses) {
            Some(i) => (i as int) < statuses.len(),
            None => true,
        },
    decreases statuses.len(),
{
    if statuses.len() > 0 {
        lemma_first_reachable_bound(statuses.drop_last());
    }
}

/// `states` is server `before` through a probe round: first reset, then
/// the result `statuses[i]` of each of its targets recorded in turn.
pub open spec fn probe_round(before: Server, statuses: Seq<Status>, states: Seq<Server>) -> bool {
    let targets = targets_of(before);
    &&& statuses.len() == targets.len()
    &&& states.len() == targets.len() + 1
    &&& server_reset(before, states[0])
    &&& forall|i: int|
        0 <= i < targets.len() ==> server_marked(
            #[trigger] states[i],
            targets[i],
            statuses[i],
            states[i + 1],
        )
    &&& forall|i: int| 0 <= i < statuses.len() ==> #[trigger] statuses[i] != Status::Idle
}

proof fn lemma_probe_round_prefix(before: Server, statuses: Seq<Status>, states: Seq<Server>, m: int)
    requires
        probe_round(before, statuses, states),
        0 <= m <= statuses.len(),
    ensures
        states[m].best_connection_index == first_reachable(statuses.take(m)),
        states[m].connections@.len() == before.connections@.len(),
        forall|j: int|
            0 <= j < before.connections@.len() ==> (#[trigger] states[m].connections@[j]).url
                == before.connections@[j].url,
    decreases m,
{
    if m == 0 {
        assert(statuses.take(0) =~= Seq::<Status>::empty());
        assert forall|j: int| 0 <= j < before.connections@.len() implies (
        #[trigger] states[0].connections@[j]).url == before.connections@[j].url by {
            assert(states[0].connections@[j] == reset_connection(before.connections@[j]));
        }
    } else {
        let p = m - 1;
        lemma_probe_round_prefix(before, statuses, states, p);
        let t = targets_of(before)[p];
        assert(server_marked(states[p], t, statuses[p], states[p + 1]));
        assert(t.connection_index as int == p);
        assert(t.connection == reset_connection(before.connections@[p]));
        assert(target_applies(states[p], t));
        let prefix = statuses.take(m);
        assert(prefix.drop_last() =~= statuses.take(p));
        assert(prefix.last() == statuses[p]);
        lemma_first_reachable_bound(statuses.take(p));
        assert forall|j: int| 0 <= j < before.connections@.len() implies (
        #[trigger] states[m].connections@[j]).url == before.connections@[j].url by {
            assert(states[p].connections@[j].url == before.connections@[j].url);
            if j == p {
                assert(states[m].connections@[j] == with_status(states[p].connections@[p], statuses[p]));
            } else {
                assert(states[m].connections@[j] == states[p].connections@[j]);
            }
        }
    }
}

/// After a probe round of a server, its chosen connection is the first
/// one that answered, and none when no connection answered.
pub proof fn lemma_probe_round_chooses_first_answer(
    before: Server,
    statuses: Seq<Status>,
    states: Seq<Server>,
)
    requires
        probe_round(before, statuses, states),
    ensures
        states.last().best_connection_index == first_reachable(statuses),
{
    lemma_probe_round_prefix(before, statuses, states, statuses.len() as int);
    assert(statuses.take(statuses.len() as int) =~= statuses);
}

/// A probe result for a target of another server leaves a server as it is,
/// when no two servers share an id.
pub proof fn lemma_probe_leaves_other_servers(
    old: Seq<Server>,
    target: ProbeTarget,
    status: Status,
    new: Seq<Server>,
    k: int,
)
    requires
        forall|a: int, b: int|
            0 <= a < old.len() && 0 <= b < old.len() && a != b ==> (#[trigger] old[a]).id@
                != (#[trigger] old[b]).id@,
        0 <= k < old.len(),
        target.server_id@ != old[k].id@,
        servers_marked(old, target, status, new),
    ensures
        new.len() == old.len(),
        new[k] == old[k],
{
    if exists|k2: int| is_first_with_id(old, target.server_id@, k2) {
        let k2 = choose|k2: int| is_first_with_id(old, target.server_id@, k2);
        assert(k2 != k);
    }
}

/// A probe result for a target of a server is recorded on that server,
/// when no two servers share an id.
pub proof fn lemma_probe_marks_own_server(
    old: Seq<Server>,
    target: ProbeTarget,
    status: Status,
    new: Seq<Server>,
    k: int,
)
    requires
        forall|a: int, b: int|
            0 <= a < old.len() && 0 <= b < old.len() && a != b ==> (#[trigger] old[a]).id@
                != (#[trigger] old[b]).id@,
        0 <= k < old.len(),
        target.server_id@ == old[k].id@,
        servers_marked(old, target, status, new),
    ensures
        new.len() == old.len(),
        server_marked(old[k], target, status, new[k]),
{
    assert(is_first_with_id(old, target.server_id@, k)) by {
        assert forall|j: int| 0 <= j < k implies (#[trigger] old[j]).id@ != target.server_id@ by {
            assert(old[j].id@ != old[k].id@);
        }
    }
    let k2 = choose|k2: int| is_first_with_id(old, target.server_id@, k2);
    if k2 != k {
        assert(old[k2].id@ == old[k].id@);
    }
}

} // verus!

verus! {

// ---------------------------------------------------------------------------
// A probe round of the registry
// ---------------------------------------------------------------------------

/// No two servers share an id.
pub open spec fn distinct_ids(servers: Seq<Server>) -> bool {
    forall|a: int, b: int|
        0 <= a < servers.len() && 0 <= b < servers.len() && a != b ==> (#[trigger] servers[a]).id@
            != (#[trigger] servers[b]).id@
}

/// Where the targets of server `k` start among the targets of all servers.
pub open spec fn target_offset(servers: Seq<Server>, k: int) -> int {
    all_targets(servers.take(k)).len() as int
}

/// `states` is the server list `before` through a probe round: every server
/// reset, then the result `statuses[i]` of each target of
/// `all_targets(before)` recorded in turn.
pub open spec fn registry_probe_round(
    before: Seq<Server>,
    statuses: Seq<Status>,
    states: Seq<Seq<Server>>,
) -> bool {
    let targets = all_targets(before);
    &&& statuses.len() == targets.len()
    &&& states.len() == targets.len() + 1
    &&& states[0].len() == before.len()
    &&& forall|k: int| 0 <= k < before.len() ==> server_reset(before[k], #[trigger] states[0][k])
    &&& forall|i: int|
        0 <= i < targets.len() ==> servers_marked(
            states[i],
            targets[i],
            #[trigger] statuses[i],
            states[i + 1],
        )
    &&& forall|i: int| 0 <= i < statuses.len() ==> #[trigger] statuses[i] != Status::Idle
}

proof fn lemma_all_targets_append(a: Seq<Server>, b: Seq<Server>)
    ensures
        all_targets(a + b) == all_targets(a) + all_targets(b),
    decreases b.len(),
{
    if b.len() == 0 {
        assert(a + b =~= a);
        assert(all_targets(a) + all_targets(b) =~= all_targets(a));
    } else {
        lemma_all_targets_append(a, b.drop_last());
        assert((a + b).drop_last() =~= a + b.drop_last());
        assert((a + b).last() == b.last());
        assert(all_targets(a + b) =~= all_targets(a) + all_targets(b));
    }
}

proof fn lemma_target_ids(s: Seq<Server>, i: int)
    requires
        0 <= i < all_targets(s).len(),
    ensures
        exists|j: int| 0 <= j < s.len() && all_targets(s)[i].server_id == #[trigger] s[j].id,
    decreases s.len(),
{
    let front = all_targets(s.drop_last());
    if i < front.len() {
        lemma_target_ids(s.drop_last(), i);
        let j = choose|j: int|
            0 <= j < s.drop_last().len() && front[i].server_id == #[trigger] s.drop_last()[j].id;
        assert(s[j] == s.drop_last()[j]);
    } else {
        assert(all_targets(s)[i] == targets_of(s.last())[i - front.len()]);
        assert(s[s.len() - 1] == s.last());
    }
}

/// The targets of all servers are those before server `k`, then the
/// targets of server `k`, then those after it; none but the targets of
/// server `k` carry its id.
proof fn lemma_all_targets_split(s: Seq<Server>, k: int)
    requires
        distinct_ids(s),
        0 <= k < s.len(),
    ensures
        target_offset(s, k) + targets_of(s[k]).len() <= all_targets(s).len(),
        forall|m: int|
            0 <= m < targets_of(s[k]).len() ==> all_targets(s)[target_offset(s, k) + m]
                == #[trigger] targets_of(s[k])[m],
        forall|i: int|
            0 <= i < all_targets(s).len() && !(target_offset(s, k) <= i < target_offset(s, k)
                + targets_of(s[k]).len()) ==> (#[trigger] all_targets(s)[i]).server_id@ != s[k].id@,
{
    let front = s.take(k);
    let back = s.skip(k + 1);
    assert(s =~= front + seq![s[k]] + back);
    lemma_all_targets_append(front + seq![s[k]], back);
    lemma_all_targets_append(front, seq![s[k]]);
    assert(seq![s[k]].drop_last() =~= Seq::<Server>::empty());
    assert(all_targets(seq![s[k]]) =~= targets_of(s[k]));
    let all = all_targets(s);
    let off = target_offset(s, k);
    let n = targets_of(s[k]).len() as int;
    assert(all == all_targets(front) + targets_of(s[k]) + all_targets(back));
    assert forall|i: int|
        0 <= i < all.len() && !(off <= i < off + n) implies (#[trigger] all_targets(s)[i]).server_id@
        != s[k].id@ by {
        if i < off {
            lemma_target_ids(front, i);
            let j = choose|j: int| 0 <= j < front.len() && all_targets(front)[i].server_id == #[trigger] front[j].id;
            assert(front[j] == s[j]);
        } else {
            let i2 = i - off - n;
            assert(all[i] == all_targets(back)[i2]);
            lemma_target_ids(back, i2);
            let j = choose|j: int| 0 <= j < back.len() && all_targets(back)[i2].server_id == #[trigger] back[j].id;
            assert(back[j] == s[k + 1 + j]);
        }
    }
}

proof fn lemma_round_keeps_ids(before: Seq<Server>, statuses: Seq<Status>, states: Seq<Seq<Server>>, i: int)
    requires
        registry_probe_round(before, statuses, states),
        0 <= i < states.len(),
    ensures
        states[i].len() == before.len(),
        forall|j: int| 0 <= j < before.len() ==> (#[trigger] states[i][j]).id == before[j].id,
    decreases i,
{
    if i == 0 {
        assert forall|j: int| 0 <= j < before.len() implies (#[trigger] states[0][j]).id == before[j].id by {
            assert(server_reset(before[j], states[0][j]));
        }
    } else {
        let p = i - 1;
        lemma_round_keeps_ids(before, statuses, states, p);
        let t = all_targets(before)[p];
        assert(servers_marked(states[p], t, statuses[p], states[i]));
        if exists|k: int| is_first_with_id(states[p], t.server_id@, k) {
            let k = choose|k: int| is_first_with_id(states[p], t.server_id@, k);
            assert forall|j: int| 0 <= j < before.len() implies (#[trigger] states[i][j]).id == before[j].id by {
                if j != k {
                    assert(states[i][j] == states[p][j]);
                } else {
                    assert(server_marked(states[p][k], t, statuses[p], states[i][k]));
                }
            }
        }
    }
}

proof fn lemma_round_distinct(before: Seq<Server>, statuses: Seq<Status>, states: Seq<Seq<Server>>, i: int)
    requires
        registry_probe_round(before, statuses, states),
        distinct_ids(before),
        0 <= i < states.len(),
    ensures
        distinct_ids(states[i]),
        states[i].len() == before.len(),
        forall|j: int| 0 <= j < before.len() ==> (#[trigger] states[i][j]).id == before[j].id,
{
    lemma_round_keeps_ids(before, statuses, states, i);
    assert forall|a: int, b: int|
        0 <= a < states[i].len() && 0 <= b < states[i].len() && a != b implies (
        #[trigger] states[i][a]).id@ != (#[trigger] states[i][b]).id@ by {
        assert(states[i][a].id == before[a].id);
        assert(states[i][b].id == before[b].id);
        assert(before[a].id@ != before[b].id@);
    }
}

proof fn lemma_round_untouched(
    before: Seq<Server>,
    statuses: Seq<Status>,
    states: Seq<Seq<Server>>,
    k: int,
    lo: int,
    hi: int,
)
    requires
        registry_probe_round(before, statuses, states),
        distinct_ids(before),
        0 <= k < before.len(),
        0 <= lo <= hi < states.len(),
        forall|i: int| lo <= i < hi ==> (#[trigger] all_targets(before)[i]).server_id@ != before[k].id@,
    ensures
        states[hi][k] == states[lo][k],
    decreases hi - lo,
{
    if lo < hi {
        let p = hi - 1;
        lemma_round_untouched(before, statuses, states, k, lo, p);
        lemma_round_distinct(before, statuses, states, p);
        let t = all_targets(before)[p];
        assert(servers_marked(states[p], t, statuses[p], states[hi]));
        assert(t.server_id@ != before[k].id@);
        lemma_probe_leaves_other_servers(states[p], t, statuses[p], states[hi], k);
    }
}

proof fn lemma_round_segment_step(
    before: Seq<Server>,
    statuses: Seq<Status>,
    states: Seq<Seq<Server>>,
    k: int,
    m: int,
)
    requires
        registry_probe_round(before, statuses, states),
        distinct_ids(before),
        0 <= k < before.len(),
        0 <= m < targets_of(before[k]).len(),
    ensures
        server_marked(
            states[target_offset(before, k) + m][k],
            targets_of(before[k])[m],
            statuses[target_offset(before, k) + m],
            states[target_offset(before, k) + m + 1][k],
        ),
{
    let off = target_offset(before, k);
    lemma_all_targets_split(before, k);
    lemma_round_distinct(before, statuses, states, off + m);
    let t = all_targets(before)[off + m];
    assert(t == targets_of(before[k])[m]);
    assert(servers_marked(states[off + m], t, statuses[off + m], states[off + m + 1]));
    lemma_probe_marks_own_server(states[off + m], t, statuses[off + m], states[off + m + 1], k);
}

/// After a probe round of the registry, when no two servers share an id,
/// each server's chosen connection is the first of its own connections that
/// answered, and none when none of them answered.
pub proof fn lemma_registry_probe_round(
    before: Seq<Server>,
    statuses: Seq<Status>,
    states: Seq<Seq<Server>>,
    k: int,
)
    requires
        registry_probe_round(before, statuses, states),
        distinct_ids(before),
        0 <= k < before.len(),
    ensures
        states.last()[k].best_connection_index == first_reachable(
            statuses.subrange(target_offset(before, k), target_offset(before, k) + targets_of(before[k]).len()),
        ),
{
    let off = target_offset(before, k);
    let n = targets_of(before[k]).len() as int;
    let total = all_targets(before).len() as int;
    lemma_all_targets_split(before, k);
    lemma_round_untouched(before, statuses, states, k, 0, off);
    lemma_round_untouched(before, statuses, states, k, off + n, total);
    let seg = statuses.subrange(off, off + n);
    let ss = Seq::new((n + 1) as nat, |m: int| states[off + m][k]);
    assert forall|m: int| 0 <= m < n implies server_marked(
        #[trigger] ss[m],
        targets_of(before[k])[m],
        seg[m],
        ss[m + 1],
    ) by {
        lemma_round_segment_step(before, statuses, states, k, m);
    }
    assert forall|m: int| 0 <= m < seg.len() implies #[trigger] seg[m] != Status::Idle by {
        assert(seg[m] == statuses[off + m]);
    }
    assert(ss[0] == states[0][k]);
    assert(probe_round(before[k], seg, ss));
    lemma_probe_round_chooses_first_answer(before[k], seg, ss);
    assert(ss.last() == states[off + n][k]);
}

} // verus!
