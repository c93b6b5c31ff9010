use vstd::prelude::*;

pub mod authorization;
pub mod error;
pub mod find;
pub mod generate;
pub mod redirect;
pub mod store;
pub mod text;
pub mod token;

use crate::find::{
    find_by, distinct_by, lemma_find_by_none, lemma_find_by_skip_found, lemma_find_by_skip_step,
    lemma_distinct_by_push,
};
use crate::store::{find_access_token, AccessToken, Store};
use crate::text::str_eq;

verus! {

/// A statically registered OAuth2 client: its secret and the one redirect
/// URI it may be sent to. Entries are immutable for the life of the server.
#[derive(Debug, Clone)]
pub struct PermittedClient {
    pub client_secret: String,
    pub redirect_uri: String,
}

/// The key a registry entry is looked up by.
pub open spec fn client_id_key() -> spec_fn((String, PermittedClient)) -> Seq<char> {
    |e: (String, PermittedClient)| e.0@
}

/// The static mapping from client identifier to its registration.
#[derive(Debug, Clone)]
pub struct ClientRegistry {
    pub clients: Vec<(String, PermittedClient)>,
}

impl ClientRegistry {
    /// Client identifiers are unique.
    pub open spec fn wf(self) -> bool {
        distinct_by(self.clients@, client_id_key())
    }

    /// The registration under `client_id`, if any.
    pub open spec fn spec_lookup(self, client_id: Seq<char>) -> Option<PermittedClient> {
        match find_by(self.clients@, client_id_key(), client_id) {
            Some(e) => Some(e.1),
            None => None,
        }
    }

    /// An empty registry.
    pub fn new() -> (r: ClientRegistry)
        ensures
            r.wf(),
            r.clients@.len() == 0,
    {
        ClientRegistry { clients: Vec::new() }
    }

    /// Register a client. `false` (registry unchanged) when the identifier
    /// is already taken.
    pub fn register(&mut self, client_id: String, client: PermittedClient) -> (ok: bool)
        requires
            old(self).wf(),
        ensures
            final(self).wf(),
            ok == (old(self).spec_lookup(client_id@) is None),
            ok ==> final(self).clients@ == old(self).clients@.push((client_id, client)),
            !ok ==> final(self).clients@ == old(self).clients@,
    {
        if self.lookup(client_id.as_str()).is_some() {
            return false;
        }
        proof {
            lemma_find_by_none(self.clients@, client_id_key(), client_id@);
            lemma_distinct_by_push(self.clients@, client_id_key(), (client_id, client));
        }
        self.clients.push((client_id, client));
        true
    }

    /// The registration under `client_id`, if any. Pure: absence is the only
    /// failure mode.
    pub fn lookup(&self, client_id: &str) -> (r: Option<&PermittedClient>)
        ensures
            match r {
                Some(pc) => self.spec_lookup(client_id@) == Some(*pc),
                None => self.spec_lookup(client_id@) is None,
            },
    {
        let s = &self.clients;
        let n: usize = s.len();
        let mut i: usize = 0;
        proof {
            assert(s@.skip(0) =~= s@);
        }
        while i < n
            invariant
                i <= n,
                n == s@.len(),
                s@ == self.clients@,
                find_by(s@, client_id_key(), client_id@) == find_by(
                    s@.skip(i as int),
                    client_id_key(),
                    client_id@,
                ),
            decreases n - i,
        {
            if str_eq(s[i].0.as_str(), client_id) {
                proof {
                    lemma_find_by_skip_found(s@, client_id_key(), client_id@, i as int);
                }
                return Some(&s[i].1);
            }
            proof {
                lemma_find_by_skip_step(s@, client_id_key(), client_id@, i as int);
            }
            i = i + 1;
        }
        proof {
            assert(s@.skip(n as int) =~= Seq::<(String, PermittedClient)>::empty());
        }
        None
    }
}

/// What the host supplies at startup: where durable storage may live, and
/// which clients are permitted.
#[derive(Debug, Clone)]
pub struct ServerConfig {
    /// Where the host keeps the backing storage. The core holds its state in
    /// the store it owns; the path is carried for the host's own wiring.
    pub database_path: String,
    pub permitted_clients: ClientRegistry,
}

/// The authorization-server core: the client registry and the one storage
/// handle. Every read and write of an exchange goes through one value of
/// this type, so the read-then-write sequences of the flows are never
/// interleaved (the host serialises access, e.g. behind a mutex).
#[derive(Debug)]
pub struct OAuth2Server {
    pub permitted_clients: ClientRegistry,
    pub store: Store,
}

impl OAuth2Server {
    pub open spec fn wf(self) -> bool {
        self.permitted_clients.wf() && self.store.wf()
    }
}

/// Build a server from its configuration: the registry is taken as given
/// and the storage starts empty.
pub fn configure_server(server: ServerConfig) -> (r: OAuth2Server)
    requires
        server.permitted_clients.wf(),
    ensures
        r.wf(),
        r.permitted_clients == server.permitted_clients,
        r.store.pending_authorizations@.len() == 0,
        r.store.authorizations@.len() == 0,
        r.store.access_tokens@.len() == 0,
{
    OAuth2Server { permitted_clients: server.permitted_clients, store: Store::new() }
}

/// Whether a live (non-expired) access-token row for `token` exists at time
/// `now`.
pub open spec fn access_allowed(tokens: Seq<AccessToken>, token: Seq<char>, now: int) -> bool {
    match find_access_token(tokens, token) {
        Some(t) => now < t.expires_at,
        None => false,
    }
}

/// Check if an access token is valid: a row for it exists and has not yet
/// expired at `now` (seconds of unix time). Validity is recomputed from the
/// stored state on every call; absence is `false`, not an error.
pub fn check_access(oauth2_server: &OAuth2Server, access_token: &str, now: i64) -> (r: bool)
    ensures
        r == access_allowed(oauth2_server.store.access_tokens@, access_token@, now as int),
{
    match oauth2_server.store.find_access_token(access_token) {
        Some(t) => now < t.expires_at,
        None => false,
    }
}

/// A token stored with an expiry after `now` passes the access check at
/// `now`; in particular a token minted by a successful exchange (its expiry
/// stands an hour ahead) is accepted right after that exchange.
pub proof fn lemma_fresh_token_accepted(tokens: Seq<AccessToken>, token: Seq<char>, now: int)
    requires
        find_access_token(tokens, token) matches Some(t) && now < t.expires_at,
    ensures
        access_allowed(tokens, token, now),
{
}

/// A token string that no stored row carries is never accepted.
pub proof fn lemma_unissued_token_rejected(tokens: Seq<AccessToken>, token: Seq<char>, now: int)
    requires
        find_access_token(tokens, token) is None,
    ensures
        !access_allowed(tokens, token, now),
{
}

} // verus!

