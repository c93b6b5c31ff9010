use vstd::prelude::*;
use crate::find::{
    find_by, distinct_by, lemma_find_by_none, lemma_find_by_push, lemma_find_by_skip_found,
    lemma_find_by_skip_step, lemma_find_by_remove_distinct, lemma_distinct_by_push,
    lemma_distinct_by_remove,
};
use crate::text::str_eq;

verus! {

/// A server-side record of an issued-but-unredeemed authorization code.
#[derive(Debug, Clone)]
pub struct PendingAuthorization {
    pub client_id: String,
    pub authorization_code: String,
    pub redirect_uri: String,
    pub expires_at: i64,
}

/// The durable result of a redeemed authorization code: the client it was
/// granted to and the refresh token that can mint new access tokens.
#[derive(Debug, Clone)]
pub struct Authorization {
    pub authorization_id: String,
    pub client_id: String,
    pub client_secret: String,
    pub refresh_token: String,
}

/// One issued access token and when it stops being valid.
#[derive(Debug, Clone)]
pub struct AccessToken {
    pub access_token: String,
    pub expires_at: i64,
    pub authorization_id: String,
}

/// The key a pending authorization is looked up by.
pub open spec fn pending_key() -> spec_fn(PendingAuthorization) -> Seq<char> {
    |p: PendingAuthorization| p.authorization_code@
}

/// The key an authorization row is unique by.
pub open spec fn authorization_key() -> spec_fn(Authorization) -> Seq<char> {
    |a: Authorization| a.authorization_id@
}

/// The key a refresh-token exchange looks an authorization up by.
pub open spec fn refresh_key() -> spec_fn(Authorization) -> Seq<char> {
    |a: Authorization| a.refresh_token@
}

/// The key an access-token row is looked up by.
pub open spec fn access_token_key() -> spec_fn(AccessToken) -> Seq<char> {
    |t: AccessToken| t.access_token@
}

/// The pending authorization carrying `code`, if any.
pub open spec fn find_pending(s: Seq<PendingAuthorization>, code: Seq<char>) -> Option<
    PendingAuthorization,
> {
    find_by(s, pending_key(), code)
}

/// The authorization carrying `refresh_token`, if any.
pub open spec fn find_authorization(s: Seq<Authorization>, refresh_token: Seq<char>) -> Option<
    Authorization,
> {
    find_by(s, refresh_key(), refresh_token)
}

/// The access-token row carrying `token`, if any.
pub open spec fn find_access_token(s: Seq<AccessToken>, token: Seq<char>) -> Option<AccessToken> {
    find_by(s, access_token_key(), token)
}

/// The storage gateway: the three persisted entities, owned by one place so
/// every read-then-write sequence of an exchange happens against a single
/// consistent state (the caller holds the one handle; there is no second
/// writer).
#[derive(Debug)]
pub struct Store {
    pub pending_authorizations: Vec<PendingAuthorization>,
    pub authorizations: Vec<Authorization>,
    pub access_tokens: Vec<AccessToken>,
}

impl Store {
    /// Storage keys are unique: authorization codes, authorization ids,
    /// refresh tokens and access tokens each name at most one row.
    pub open spec fn wf(self) -> bool {
        &&& distinct_by(self.pending_authorizations@, pending_key())
        &&& distinct_by(self.authorizations@, authorization_key())
        &&& distinct_by(self.authorizations@, refresh_key())
        &&& distinct_by(self.access_tokens@, access_token_key())
    }

    /// An empty store.
    pub fn new() -> (s: Store)
        ensures
            s.wf(),
            s.pending_authorizations@.len() == 0,
            s.authorizations@.len() == 0,
            s.access_tokens@.len() == 0,
    {
        Store { pending_authorizations: Vec::new(), authorizations: Vec::new(), access_tokens: Vec::new() }
    }

    /// Index of the pending authorization carrying `code`.
    fn index_of_pending(&self, code: &str) -> (r: Option<usize>)
        ensures
            match r {
                Some(k) => k < self.pending_authorizations@.len()
                    && self.pending_authorizations@[k as int].authorization_code@ == code@
                    && find_pending(self.pending_authorizations@, code@) == Some(
                    self.pending_authorizations@[k as int],
                ),
                None => find_pending(self.pending_authorizations@, code@) is None,
            },
    {
        let s = &self.pending_authorizations;
        let n: usize = s.len();
        let mut i: usize = 0;
        proof {
            assert(s@.skip(0) =~= s@);
        }
        while i < n
            invariant
                i <= n,
                n == s@.len(),
                s@ == self.pending_authorizations@,
                find_by(s@, pending_key(), code@) == find_by(s@.skip(i as int), pending_key(), code@),
            decreases n - i,
        {
            if str_eq(s[i].authorization_code.as_str(), code) {
                proof {
                    lemma_find_by_skip_found(s@, pending_key(), code@, i as int);
                }
                return Some(i);
            }
            proof {
                lemma_find_by_skip_step(s@, pending_key(), code@, i as int);
            }
            i = i + 1;
        }
        proof {
            assert(s@.skip(n as int) =~= Seq::<PendingAuthorization>::empty());
        }
        None
    }

    /// The pending authorization carrying `code`, if any.
    pub fn find_pending_authorization(&self, code: &str) -> (r: Option<&PendingAuthorization>)
        ensures
            match r {
                Some(p) => find_pending(self.pending_authorizations@, code@) == Some(*p),
                None => find_pending(self.pending_authorizations@, code@) is None,
            },
    {
        match self.index_of_pending(code) {
            Some(k) => Some(&self.pending_authorizations[k]),
            None => None,
        }
    }

    /// The authorization carrying `refresh_token`, if any.
    pub fn find_authorization_by_refresh_token(&self, refresh_token: &str) -> (r: Option<
        &Authorization,
    >)
        ensures
            match r {
                Some(a) => find_authorization(self.authorizations@, refresh_token@) == Some(*a),
                None => find_authorization(self.authorizations@, refresh_token@) is None,
            },
    {
        let s = &self.authorizations;
        let n: usize = s.len();
        let mut i: usize = 0;
        proof {
            assert(s@.skip(0) =~= s@);
        }
        while i < n
            invariant
                i <= n,
                n == s@.len(),
                s@ == self.authorizations@,
                find_by(s@, refresh_key(), refresh_token@) == find_by(
                    s@.skip(i as int),
                    refresh_key(),
                    refresh_token@,
                ),
            decreases n - i,
        {
            if str_eq(s[i].refresh_token.as_str(), refresh_token) {
                proof {
                    lemma_find_by_skip_found(s@, refresh_key(), refresh_token@, i as int);
                }
                return Some(&s[i]);
            }
            proof {
                lemma_find_by_skip_step(s@, refresh_key(), refresh_token@, i as int);
            }
            i = i + 1;
        }
        proof {
            assert(s@.skip(n as int) =~= Seq::<Authorization>::empty());
        }
        None
    }

    /// The access-token row carrying `access_token`, if any.
    pub fn find_access_token(&self, access_token: &str) -> (r: Option<&AccessToken>)
        ensures
            match r {
                Some(t) => find_access_token(self.access_tokens@, access_token@) == Some(*t),
                None => find_access_token(self.access_tokens@, access_token@) is None,
            },
    {
        let s = &self.access_tokens;
        let n: usize = s.len();
        let mut i: usize = 0;
        proof {
            assert(s@.skip(0) =~= s@);
        }
        while i < n
            invariant
                i <= n,
                n == s@.len(),
                s@ == self.access_tokens@,
                find_by(s@, access_token_key(), access_token@) == find_by(
                    s@.skip(i as int),
                    access_token_key(),
                    access_token@,
                ),
            decreases n - i,
        {
            if str_eq(s[i].access_token.as_str(), access_token) {
                proof {
                    lemma_find_by_skip_found(s@, access_token_key(), access_token@, i as int);
                }
                return Some(&s[i]);
            }
            proof {
                lemma_find_by_skip_step(s@, access_token_key(), access_token@, i as int);
            }
            i = i + 1;
        }
        proof {
            assert(s@.skip(n as int) =~= Seq::<AccessToken>::empty());
        }
        None
    }

    /// Whether some authorization row already carries `authorization_id`.
    fn contains_authorization_id(&self, authorization_id: &str) -> (r: bool)
        ensures
            r == (find_by(self.authorizations@, authorization_key(), authorization_id@) is Some),
    {
        let s = &self.authorizations;
        let n: usize = s.len();
        let mut i: usize = 0;
        proof {
            assert(s@.skip(0) =~= s@);
        }
        while i < n
            invariant
                i <= n,
                n == s@.len(),
                s@ == self.authorizations@,
                find_by(s@, authorization_key(), authorization_id@) == find_by(
                    s@.skip(i as int),
                    authorization_key(),
                    authorization_id@,
                ),
            decreases n - i,
        {
            if str_eq(s[i].authorization_id.as_str(), authorization_id) {
                proof {
                    lemma_find_by_skip_found(s@, authorization_key(), authorization_id@, i as int);
                }
                return true;
            }
            proof {
                lemma_find_by_skip_step(s@, authorization_key(), authorization_id@, i as int);
            }
            i = i + 1;
        }
        proof {
            assert(s@.skip(n as int) =~= Seq::<Authorization>::empty());
        }
        false
    }

    /// Persist a pending authorization. `false` (store unchanged) when the
    /// code is already taken, as the unique-key constraint would report.
    pub fn insert_pending_authorization(
        &mut self,
        client_id: String,
        authorization_code: String,
        redirect_uri: String,
        expires_at: i64,
    ) -> (ok: bool)
        requires
            old(self).wf(),
        ensures
            final(self).wf(),
            final(self).authorizations@ == old(self).authorizations@,
            final(self).access_tokens@ == old(self).access_tokens@,
            ok == (find_pending(old(self).pending_authorizations@, authorization_code@) is None),
            ok ==> final(self).pending_authorizations@ == old(self).pending_authorizations@.push(
                (PendingAuthorization { client_id, authorization_code, redirect_uri, expires_at }),
            ),
            !ok ==> final(self).pending_authorizations@ == old(self).pending_authorizations@,
    {
        if self.index_of_pending(authorization_code.as_str()).is_some() {
            return false;
        }
        let p = PendingAuthorization { client_id, authorization_code, redirect_uri, expires_at };
        proof {
            lemma_find_by_none(self.pending_authorizations@, pending_key(), p.authorization_code@);
            lemma_distinct_by_push(self.pending_authorizations@, pending_key(), p);
        }
        self.pending_authorizations.push(p);
        true
    }

    /// Persist an authorization row. `false` (store unchanged) when its id
    /// or refresh token is already taken.
    pub fn insert_authorization(
        &mut self,
        authorization_id: String,
        client_id: String,
        client_secret: String,
        refresh_token: String,
    ) -> (ok: bool)
        requires
            old(self).wf(),
        ensures
            final(self).wf(),
            final(self).pending_authorizations@ == old(self).pending_authorizations@,
            final(self).access_tokens@ == old(self).access_tokens@,
            ok == ((find_by(old(self).authorizations@, authorization_key(), authorization_id@)
                is None) && (find_authorization(old(self).authorizations@, refresh_token@)
                is None)),
            ok ==> final(self).authorizations@ == old(self).authorizations@.push(
                (Authorization { authorization_id, client_id, client_secret, refresh_token }),
            ),
            !ok ==> final(self).authorizations@ == old(self).authorizations@,
    {
        if self.contains_authorization_id(authorization_id.as_str()) {
            return false;
        }
        if self.find_authorization_by_refresh_token(refresh_token.as_str()).is_some() {
            return false;
        }
        let a = Authorization { authorization_id, client_id, client_secret, refresh_token };
        proof {
            lemma_find_by_none(self.authorizations@, authorization_key(), a.authorization_id@);
            lemma_find_by_none(self.authorizations@, refresh_key(), a.refresh_token@);
            lemma_distinct_by_push(self.authorizations@, authorization_key(), a);
            lemma_distinct_by_push(self.authorizations@, refresh_key(), a);
        }
        self.authorizations.push(a);
        true
    }

    /// Persist an access-token row. `false` (store unchanged) when the token
    /// value is already taken.
    pub fn insert_access_token(
        &mut self,
        access_token: String,
        expires_at: i64,
        authorization_id: String,
    ) -> (ok: bool)
        requires
            old(self).wf(),
        ensures
            final(self).wf(),
            final(self).pending_authorizations@ == old(self).pending_authorizations@,
            final(self).authorizations@ == old(self).authorizations@,
            ok == (find_access_token(old(self).access_tokens@, access_token@) is None),
            ok ==> final(self).access_tokens@ == old(self).access_tokens@.push(
                (AccessToken { access_token, expires_at, authorization_id }),
            ),
            ok ==> find_access_token(final(self).access_tokens@, access_token@) == Some(
                (AccessToken { access_token, expires_at, authorization_id }),
            ),
            !ok ==> final(self).access_tokens@ == old(self).access_tokens@,
    {
        if self.find_access_token(access_token.as_str()).is_some() {
            return false;
        }
        let t = AccessToken { access_token, expires_at, authorization_id };
        proof {
            lemma_find_by_none(self.access_tokens@, access_token_key(), t.access_token@);
            lemma_distinct_by_push(self.access_tokens@, access_token_key(), t);
            lemma_find_by_push(self.access_tokens@, access_token_key(), t.access_token@, t);
        }
        self.access_tokens.push(t);
        true
    }

    /// The one critical section of the authorization-code grant: consume the
    /// pending authorization carrying `code` and persist the authorization
    /// and access-token rows it buys, all or nothing. `false` (store
    /// unchanged) when the code is not pending or one of the keys to be
    /// written is already taken.
    pub fn redeem_pending_authorization(
        &mut self,
        code: &str,
        authorization_id: String,
        client_id: String,
        client_secret: String,
        refresh_token: String,
        access_token: String,
        access_token_expires_at: i64,
    ) -> (ok: bool)
        requires
            old(self).wf(),
        ensures
            final(self).wf(),
            ok == ((find_pending(old(self).pending_authorizations@, code@) is Some) && (find_by(
                old(self).authorizations@,
                authorization_key(),
                authorization_id@,
            ) is None) && (find_authorization(old(self).authorizations@, refresh_token@) is None)
                && (find_access_token(old(self).access_tokens@, access_token@) is None)),
            !ok ==> final(self).pending_authorizations@ == old(self).pending_authorizations@
                && final(self).authorizations@ == old(self).authorizations@
                && final(self).access_tokens@ == old(self).access_tokens@,
            ok ==> exists|k: int|
                0 <= k < old(self).pending_authorizations@.len()
                    && old(self).pending_authorizations@[k].authorization_code@ == code@
                    && final(self).pending_authorizations@
                    == old(self).pending_authorizations@.remove(k),
            ok ==> find_pending(final(self).pending_authorizations@, code@) is None,
            ok ==> final(self).authorizations@ == old(self).authorizations@.push(
                (Authorization { authorization_id, client_id, client_secret, refresh_token }),
            ),
            ok ==> find_authorization(final(self).authorizations@, refresh_token@) == Some(
                (Authorization { authorization_id, client_id, client_secret, refresh_token }),
            ),
            ok ==> final(self).access_tokens@ == old(self).access_tokens@.push(
                (AccessToken {
                    access_token,
                    expires_at: access_token_expires_at,
                    authorization_id,
                }),
            ),
            ok ==> find_access_token(final(self).access_tokens@, access_token@) == Some(
                (AccessToken {
                    access_token,
                    expires_at: access_token_expires_at,
                    authorization_id,
                }),
            ),
    {
        let idx = match self.index_of_pending(code) {
            Some(k) => k,
            None => {
                return false;
            },
        };
        if self.contains_authorization_id(authorization_id.as_str()) {
            return false;
        }
        if self.find_authorization_by_refresh_token(refresh_token.as_str()).is_some() {
            return false;
        }
        if self.find_access_token(access_token.as_str()).is_some() {
            return false;
        }
        proof {
            lemma_find_by_remove_distinct(
                self.pending_authorizations@,
                pending_key(),
                code@,
                idx as int,
            );
            lemma_distinct_by_remove(self.pending_authorizations@, pending_key(), idx as int);
        }
        self.pending_authorizations.remove(idx);
        let a = Authorization {
            authorization_id: authorization_id.clone(),
            client_id,
            client_secret,
            refresh_token,
        };
        proof {
            lemma_find_by_none(self.authorizations@, authorization_key(), a.authorization_id@);
            lemma_find_by_none(self.authorizations@, refresh_key(), a.refresh_token@);
            lemma_distinct_by_push(self.authorizations@, authorization_key(), a);
            lemma_distinct_by_push(self.authorizations@, refresh_key(), a);
            lemma_find_by_push(self.authorizations@, refresh_key(), a.refresh_token@, a);
        }
        self.authorizations.push(a);
        let t = AccessToken {
            access_token,
            expires_at: access_token_expires_at,
            authorization_id,
        };
        proof {
            lemma_find_by_none(self.access_tokens@, access_token_key(), t.access_token@);
            lemma_distinct_by_push(self.access_tokens@, access_token_key(), t);
            lemma_find_by_push(self.access_tokens@, access_token_key(), t.access_token@, t);
        }
        self.access_tokens.push(t);
        true
    }
}

} // verus!
