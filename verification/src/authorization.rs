use vstd::prelude::*;
use vstd::string::StringExecFns;
use crate::error::WebError;
use crate::generate::{all_alphanumeric, random_string};
use crate::redirect::Redirect;
use crate::store::{find_pending, pending_key};
use crate::text::{qs_encode, qs_encode_str, str_eq};
use crate::{ClientRegistry, OAuth2Server};

verus! {

/// The fields of an authorization request, already parsed from the query
/// string by the host.
#[derive(Debug, Clone)]
pub struct RequestQuery {
    pub client_id: String,
    pub redirect_uri: String,
    pub state: String,
    pub response_type: String,
}

/// How an authorization request is judged against the registry: the first
/// failing check decides, in this order; `None` means a code is owed.
pub open spec fn authorization_verdict(registry: ClientRegistry, q: RequestQuery) -> Option<
    WebError,
> {
    match registry.spec_lookup(q.client_id@) {
        None => Some(WebError::UnknownClient),
        Some(pc) => if pc.redirect_uri@ != q.redirect_uri@ {
            Some(WebError::RedirectUriMismatch)
        } else if q.response_type@ != "code"@ {
            Some(WebError::ResponseTypeMismatch)
        } else {
            None
        },
    }
}

/// The redirect target of a successful authorization: the redirect URI with
/// the code and the caller's state (echoed verbatim, query-string encoded)
/// appended.
pub open spec fn redirect_target(redirect_uri: Seq<char>, code: Seq<char>, state: Seq<char>) -> Seq<
    char,
> {
    redirect_uri + "?code="@ + qs_encode(code) + "&state="@ + qs_encode(state)
}

/// The authorization flow: validate the request against the registry, and
/// on success mint a 32-character authorization code, persist a pending
/// authorization that expires ten minutes after `now`, and return the
/// redirect target carrying the code. On any failure nothing is written.
pub fn authorization(server: &mut OAuth2Server, query: &RequestQuery, now: i64) -> (r: Result<
    Redirect,
    WebError,
>)
    requires
        old(server).wf(),
        now + 600 <= i64::MAX,
    ensures
        final(server).wf(),
        final(server).permitted_clients == old(server).permitted_clients,
        final(server).store.authorizations@ == old(server).store.authorizations@,
        final(server).store.access_tokens@ == old(server).store.access_tokens@,
        match authorization_verdict(old(server).permitted_clients, *query) {
            Some(e) => r matches Err(e2) && e2 == e && final(server).store.pending_authorizations@
                == old(server).store.pending_authorizations@,
            None => match r {
                Ok(redirect) => {
                    let newp = final(server).store.pending_authorizations@;
                    &&& newp == old(server).store.pending_authorizations@.push(newp.last())
                    &&& newp.last().client_id@ == query.client_id@
                    &&& newp.last().redirect_uri@ == query.redirect_uri@
                    &&& newp.last().expires_at == now + 600
                    &&& newp.last().authorization_code@.len() == 32
                    &&& all_alphanumeric(newp.last().authorization_code@)
                    &&& find_pending(newp, newp.last().authorization_code@) == Some(newp.last())
                    &&& redirect@ == redirect_target(
                        query.redirect_uri@,
                        newp.last().authorization_code@,
                        query.state@,
                    )
                },
                Err(e) => e == WebError::Internal && final(server).store.pending_authorizations@
                    == old(server).store.pending_authorizations@,
            },
        },
{
    let pc = match server.permitted_clients.lookup(query.client_id.as_str()) {
        None => {
            return Err(WebError::UnknownClient);
        },
        Some(pc) => pc,
    };
    if !str_eq(pc.redirect_uri.as_str(), query.redirect_uri.as_str()) {
        return Err(WebError::RedirectUriMismatch);
    }
    if !str_eq(query.response_type.as_str(), "code") {
        return Err(WebError::ResponseTypeMismatch);
    }
    let authorization_code = random_string(32);
    let expires_at: i64 = now + 600;
    let ghost old_pending = server.store.pending_authorizations@;
    let ok = server.store.insert_pending_authorization(
        query.client_id.clone(),
        authorization_code.clone(),
        query.redirect_uri.clone(),
        expires_at,
    );
    if !ok {
        return Err(WebError::Internal);
    }
    proof {
        let newp = server.store.pending_authorizations@;
        assert(newp == old_pending.push(newp.last()));
        crate::find::lemma_find_by_push(old_pending, pending_key(), authorization_code@, newp.last());
    }
    let mut target = query.redirect_uri.clone();
    target.append("?code=");
    let encoded_code = qs_encode_str(authorization_code.as_str());
    target.append(encoded_code.as_str());
    target.append("&state=");
    let encoded_state = qs_encode_str(query.state.as_str());
    target.append(encoded_state.as_str());
    proof {
        assert(target@ =~= redirect_target(query.redirect_uri@, authorization_code@, query.state@));
    }
    Ok(Redirect::new(target))
}

} // verus!
