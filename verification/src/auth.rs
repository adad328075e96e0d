//! The session authenticator: login issues the credential digest itself as
//! a stateless session token, and authorization re-couples a presented
//! token to the tenant named by the requested path's first segment.

use vstd::prelude::*;
use vstd::string::StringExecFns;
use crate::credentials::{Credential, CredentialStore, lookup_spec};
use crate::hashing::{sha384_hex, sha384_of, to_hex_lower};
use crate::paths::DotPathBuf;
use crate::strutil::str_eq;

verus! {

/// An authentication or authorization failure. It deliberately carries no
/// detail: the caller renders one uniform access-denied outcome, whether
/// the session was missing, unknown, or owned by another tenant.
#[derive(Debug, Clone, Copy, PartialEq, Eq, Structural)]
pub struct AuthFailure;

/// A stateless session token, held in a client-side cookie; nothing is
/// stored server-side.
pub struct SessionToken {
    /// The hex digest that doubles as the token value.
    pub value: String,
}

/// The token value a login with these credentials produces: the hex
/// SHA-384 digest of the password concatenated with the username, in that
/// order.
pub open spec fn login_token(username: Seq<char>, password: Seq<char>) -> Seq<char> {
    to_hex_lower(sha384_of(password + username))
}

/// Some record couples this digest to this username.
pub open spec fn authorized_tenant(
    records: Seq<Credential>,
    token: Seq<char>,
    tenant: Seq<char>,
) -> bool {
    exists|i: int|
        0 <= i < records.len() && (#[trigger] records[i]).digest@ == token
            && records[i].username@ == tenant
}

/// Verifies a username/password pair against the store. On a hit the
/// digest itself becomes the session token, and the matched username (of
/// the first record carrying the digest) is returned with it.
pub fn login(store: &CredentialStore, username: &str, password: &str) -> (r: Result<
    (SessionToken, String),
    AuthFailure,
>)
    ensures
        r is Ok <==> lookup_spec(store.records@, login_token(username@, password@)) is Some,
        r is Ok <==> exists|i: int|
            0 <= i < store.records@.len() && (#[trigger] store.records@[i]).digest@ == login_token(
                username@,
                password@,
            ),
        r matches Ok((t, u)) ==> t.value@ == login_token(username@, password@) && Some(u@)
            == lookup_spec(store.records@, login_token(username@, password@)),
{
    proof {
        crate::credentials::lemma_lookup_spec_hit(
            store.records@,
            login_token(username@, password@),
        );
    }
    let mut combined = password.to_owned();
    combined.append(username);
    let token = sha384_hex(combined.as_str());
    match store.lookup(token.as_str()) {
        Some(matched) => Ok((SessionToken { value: token }, matched)),
        None => Err(AuthFailure),
    }
}

/// Authorizes one operation: the presented token must be coupled, by some
/// stored credential, to exactly the tenant that the requested path's
/// first segment names. Everything else is the one undifferentiated
/// failure.
pub fn authorize(store: &CredentialStore, token: &str, path: &DotPathBuf) -> (r: Result<
    String,
    AuthFailure,
>)
    ensures
        r is Ok <==> path.segs().len() > 0 && authorized_tenant(
            store.records@,
            token@,
            path.segs()[0],
        ),
        r matches Ok(u) ==> u@ == path.segs()[0],
{
    let tenant = match path.tenant() {
        Some(t) => t,
        None => {
            return Err(AuthFailure);
        },
    };
    let n = store.records.len();
    let mut i: usize = 0;
    while i < n
        invariant
            n == store.records@.len(),
            i <= n,
            path.segs().len() > 0,
            tenant@ == path.segs()[0],
            forall|j: int|
                0 <= j < i ==> !((#[trigger] store.records@[j]).digest@ == token@
                    && store.records@[j].username@ == tenant@),
        decreases n - i,
    {
        if str_eq(store.records[i].digest.as_str(), token) && str_eq(
            store.records[i].username.as_str(),
            tenant.as_str(),
        ) {
            proof {
                assert((store.records@[i as int]).digest@ == token@
                    && store.records@[i as int].username@ == path.segs()[0]);
            }
            return Ok(tenant.clone());
        }
        i = i + 1;
    }
    Err(AuthFailure)
}

} // verus!
