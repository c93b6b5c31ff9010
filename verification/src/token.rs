use vstd::prelude::*;
use vstd::string::StringExecFns;
use crate::error::WebError;
use crate::generate::{all_alphanumeric, random_string};
use crate::store::{
    find_access_token, find_authorization, find_pending, Authorization, PendingAuthorization, Store,
};
use crate::text::{str_eq, str_eq_constant_time};
use crate::{ClientRegistry, OAuth2Server};

verus! {

/// Which exchange a token request asks for.
#[derive(Clone, Copy, Debug, PartialEq, Eq, Structural)]
pub enum GrantType {
    AuthorizationCode,
    RefreshToken,
}

/// The fields of a token request, already parsed from the query string by
/// the host. `code` and `redirect_uri` belong to the authorization_code
/// grant, `refresh_token` to the refresh_token grant.
#[derive(Debug, Clone)]
pub struct RequestQuery {
    pub client_id: String,
    pub client_secret: String,
    pub grant_type: GrantType,
    pub code: Option<String>,
    pub redirect_uri: Option<String>,
    pub refresh_token: Option<String>,
}

/// A successful token response.
#[derive(Debug)]
pub struct ResponseBody {
    pub token_type: String,
    pub access_token: String,
    pub refresh_token: Option<String>,
    pub expires_in: i64,
}

/// How a token request is judged against the registry and the stored state:
/// the first failing check decides, in this order; `None` means the
/// exchange is owed.
pub open spec fn token_verdict(
    registry: ClientRegistry,
    pending: Seq<PendingAuthorization>,
    authorizations: Seq<Authorization>,
    q: RequestQuery,
    now: int,
) -> Option<WebError> {
    match registry.spec_lookup(q.client_id@) {
        None => Some(WebError::InvalidGrant),
        Some(pc) => if pc.client_secret@ != q.client_secret@ {
            Some(WebError::InvalidGrant)
        } else {
            match q.grant_type {
                GrantType::AuthorizationCode => match (q.code, q.redirect_uri) {
                    (Some(code), Some(redirect_uri)) => match find_pending(pending, code@) {
                        None => Some(WebError::InvalidGrant),
                        Some(p) => if p.client_id@ != q.client_id@ {
                            Some(WebError::InvalidGrant)
                        } else if now >= p.expires_at {
                            Some(WebError::InvalidGrant)
                        } else if p.redirect_uri@ != redirect_uri@ {
                            Some(WebError::InvalidGrant)
                        } else {
                            None
                        },
                    },
                    _ => Some(WebError::BadRequest),
                },
                GrantType::RefreshToken => match q.refresh_token {
                    Some(refresh_token) => match find_authorization(
                        authorizations,
                        refresh_token@,
                    ) {
                        None => Some(WebError::InvalidGrant),
                        Some(a) => if a.client_id@ != q.client_id@ {
                            Some(WebError::InvalidGrant)
                        } else {
                            None
                        },
                    },
                    None => Some(WebError::BadRequest),
                },
            }
        },
    }
}

/// What a successful exchange guarantees, over the store before and after
/// the call and the returned body.
pub open spec fn token_success(
    old_store: Store,
    new_store: Store,
    q: RequestQuery,
    now: int,
    body: ResponseBody,
) -> bool {
    let newp = new_store.pending_authorizations@;
    let newa = new_store.authorizations@;
    let newt = new_store.access_tokens@;
    &&& body.token_type@ == "Bearer"@
    &&& body.expires_in == 3600
    &&& body.access_token@.len() == 32
    &&& all_alphanumeric(body.access_token@)
    &&& newt == old_store.access_tokens@.push(newt.last())
    &&& newt.last().access_token@ == body.access_token@
    &&& newt.last().expires_at == now + 3600
    &&& find_access_token(newt, body.access_token@) == Some(newt.last())
    &&& (q.grant_type is AuthorizationCode ==> {
        &&& body.refresh_token matches Some(rt) && rt@.len() == 32 && all_alphanumeric(rt@)
            && newa.last().refresh_token@ == rt@ && find_authorization(newa, rt@) == Some(
            newa.last(),
        )
        &&& q.code matches Some(code) && find_pending(newp, code@) is None
        &&& exists|k: int|
            0 <= k < old_store.pending_authorizations@.len() && newp
                == old_store.pending_authorizations@.remove(k)
        &&& newa == old_store.authorizations@.push(newa.last())
        &&& newa.last().client_id@ == q.client_id@
        &&& newa.last().client_secret@ == q.client_secret@
        &&& newa.last().authorization_id@.len() == 16
        &&& all_alphanumeric(newa.last().authorization_id@)
        &&& newt.last().authorization_id@ == newa.last().authorization_id@
    })
    &&& (q.grant_type is RefreshToken ==> {
        &&& body.refresh_token is None
        &&& newp == old_store.pending_authorizations@
        &&& newa == old_store.authorizations@
        &&& q.refresh_token matches Some(rt) && (find_authorization(
            old_store.authorizations@,
            rt@,
        ) matches Some(a) && newt.last().authorization_id@ == a.authorization_id@)
    })
}

/// The token-exchange flow. The request is judged as `token_verdict` says;
/// on a verdict the store is left unchanged and that error returned. When
/// the exchange is owed, an authorization_code grant consumes the pending
/// authorization and persists the authorization and access-token rows, and
/// a refresh_token grant persists a fresh access-token row; either way the
/// body carries a fresh access token that expires an hour after `now`.
/// `Internal` (store unchanged) is returned only when a freshly generated
/// key was already taken.
pub fn token(server: &mut OAuth2Server, query: &RequestQuery, now: i64) -> (r: Result<
    ResponseBody,
    WebError,
>)
    requires
        old(server).wf(),
        now + 3600 <= i64::MAX,
    ensures
        final(server).wf(),
        final(server).permitted_clients == old(server).permitted_clients,
        match token_verdict(
            old(server).permitted_clients,
            old(server).store.pending_authorizations@,
            old(server).store.authorizations@,
            *query,
            now as int,
        ) {
            Some(e) => r matches Err(e2) && e2 == e && final(server).store.pending_authorizations@
                == old(server).store.pending_authorizations@ && final(server).store.authorizations@
                == old(server).store.authorizations@ && final(server).store.access_tokens@
                == old(server).store.access_tokens@,
            None => match r {
                Ok(body) => token_success(
                    old(server).store,
                    final(server).store,
                    *query,
                    now as int,
                    body,
                ),
                Err(e) => e == WebError::Internal && final(server).store.pending_authorizations@
                    == old(server).store.pending_authorizations@
                    && final(server).store.authorizations@ == old(server).store.authorizations@
                    && final(server).store.access_tokens@ == old(server).store.access_tokens@,
            },
        },
{
    let pc = match server.permitted_clients.lookup(query.client_id.as_str()) {
        None => {
            return Err(WebError::InvalidGrant);
        },
        Some(pc) => pc,
    };
    if !str_eq_constant_time(pc.client_secret.as_str(), query.client_secret.as_str()) {
        return Err(WebError::InvalidGrant);
    }
    match query.grant_type {
        GrantType::AuthorizationCode => {
            let code = match &query.code {
                None => {
                    return Err(WebError::BadRequest);
                },
                Some(c) => c,
            };
            let redirect_uri = match &query.redirect_uri {
                None => {
                    return Err(WebError::BadRequest);
                },
                Some(u) => u,
            };
            let pending = match server.store.find_pending_authorization(code.as_str()) {
                None => {
                    return Err(WebError::InvalidGrant);
                },
                Some(p) => p,
            };
            if !str_eq(pending.client_id.as_str(), query.client_id.as_str()) {
                return Err(WebError::InvalidGrant);
            }
            if now >= pending.expires_at {
                return Err(WebError::InvalidGrant);
            }
            if !str_eq(pending.redirect_uri.as_str(), redirect_uri.as_str()) {
                return Err(WebError::InvalidGrant);
            }
            let authorization_id = random_string(16);
            let access_token = random_string(32);
            let refresh_token = random_string(32);
            let access_token_expires_at: i64 = now + 3600;
            let ok = server.store.redeem_pending_authorization(
                code.as_str(),
                authorization_id,
                query.client_id.clone(),
                query.client_secret.clone(),
                refresh_token.clone(),
                access_token.clone(),
                access_token_expires_at,
            );
            if !ok {
                return Err(WebError::Internal);
            }
            Ok(
                ResponseBody {
                    token_type: String::from_str("Bearer"),
                    access_token,
                    refresh_token: Some(refresh_token),
                    expires_in: access_token_expires_at - now,
                },
            )
        },
        GrantType::RefreshToken => {
            let refresh_token = match &query.refresh_token {
                None => {
                    return Err(WebError::BadRequest);
                },
                Some(t) => t,
            };
            let authorization_id = match server.store.find_authorization_by_refresh_token(
                refresh_token.as_str(),
            ) {
                None => {
                    return Err(WebError::InvalidGrant);
                },
                Some(a) => {
                    if !str_eq(a.client_id.as_str(), query.client_id.as_str()) {
                        return Err(WebError::InvalidGrant);
                    }
                    a.authorization_id.clone()
                },
            };
            let access_token = random_string(32);
            let access_token_expires_at: i64 = now + 3600;
            let ok = server.store.insert_access_token(
                access_token.clone(),
                access_token_expires_at,
                authorization_id,
            );
            if !ok {
                return Err(WebError::Internal);
            }
            Ok(
                ResponseBody {
                    token_type: String::from_str("Bearer"),
                    access_token,
                    refresh_token: None,
                    expires_in: access_token_expires_at - now,
                },
            )
        },
    }
}

/// Replay protection: when no pending authorization carries a code any
/// longer (as after the exchange that consumed it), an authorization_code
/// exchange of that code fails with InvalidGrant, whatever client identity
/// and secret are presented. Together with `token`'s guarantee that a
/// successful exchange leaves no pending record for its code, a code can be
/// redeemed at most once.
pub proof fn lemma_exchange_is_single_use(
    registry: ClientRegistry,
    pending: Seq<PendingAuthorization>,
    authorizations: Seq<Authorization>,
    q: RequestQuery,
    now: int,
)
    requires
        q.grant_type is AuthorizationCode,
        q.code matches Some(code) && find_pending(pending, code@) is None,
        q.redirect_uri is Some,
    ensures
        token_verdict(registry, pending, authorizations, q, now) == Some(WebError::InvalidGrant),
{
}

/// An authorization code exchanged at or after its expiry fails with
/// InvalidGrant.
pub proof fn lemma_expired_code_rejected(
    registry: ClientRegistry,
    pending: Seq<PendingAuthorization>,
    authorizations: Seq<Authorization>,
    q: RequestQuery,
    now: int,
)
    requires
        q.grant_type is AuthorizationCode,
        q.code matches Some(code) && (find_pending(pending, code@) matches Some(p) && now
            >= p.expires_at),
        q.redirect_uri is Some,
    ensures
        token_verdict(registry, pending, authorizations, q, now) == Some(WebError::InvalidGrant),
{
}

/// A refresh-token exchange whose stored authorization belongs to another
/// client fails with InvalidGrant, however correct the presented secret is.
pub proof fn lemma_refresh_client_mismatch(
    registry: ClientRegistry,
    pending: Seq<PendingAuthorization>,
    authorizations: Seq<Authorization>,
    q: RequestQuery,
    now: int,
)
    requires
        q.grant_type is RefreshToken,
        q.refresh_token matches Some(rt) && (find_authorization(authorizations, rt@) matches Some(a)
            && a.client_id@ != q.client_id@),
    ensures
        token_verdict(registry, pending, authorizations, q, now) == Some(WebError::InvalidGrant),
{
}

} // verus!
