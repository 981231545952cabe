//! The per-request authentication gate and the startup bootstrap.
//!
//! A request arrives with a bearer token and a path.  When no
//! `Authorization` header was sent, what arrives is the placeholder token
//! `_`, which may reach only the health-check route; every other token must
//! resolve to a user in the directory.

use vstd::prelude::*;

use crate::config::AuthConfig;
use crate::error_handler::CustomError;
use crate::hashing::credential_of;
use crate::text::str_eq;
use crate::users::{resolve_spec, MaybeUser, User, UserDirectory};

verus! {

/// The outcome of gating one request: let it through, together with the
/// resolved user when a real token was presented, or reject it.
pub enum GateDecision {
    Allow(Option<User>),
    Deny,
}

/// The placeholder token that stands for a missing `Authorization` header.
pub open spec fn anonymous_token() -> Seq<char> {
    seq!['_']
}

/// The one route an anonymous request may reach.
pub open spec fn health_route() -> Seq<char> {
    seq!['/', 'h', 'e', 'a', 'l', 't', 'h']
}

/// Decide one request.  The anonymous placeholder is allowed exactly on the
/// health-check route and carries no user; any other token is allowed
/// exactly when it resolves, and then carries the user it resolved to.
pub fn validator(directory: &UserDirectory, config: &AuthConfig, token: &str, path: &str) -> (r:
    GateDecision)
    requires
        config.wf(),
    ensures
        token@ == anonymous_token() ==> r == (if path@ == health_route() {
            GateDecision::Allow(Option::<User>::None)
        } else {
            GateDecision::Deny
        }),
        token@ != anonymous_token() ==> (match resolve_spec(
            directory@,
            config.key_spec(),
            config.iv_spec(),
            token@,
        ) {
            Some(u) => r == GateDecision::Allow(Some(u)),
            None => r == GateDecision::Deny,
        }),
{
    proof {
        reveal_strlit("_");
        reveal_strlit("/health");
        assert("_"@ =~= anonymous_token());
        assert("/health"@ =~= health_route());
    }
    if str_eq(token, "_") {
        if str_eq(path, "/health") {
            GateDecision::Allow(None)
        } else {
            GateDecision::Deny
        }
    } else {
        match directory.find_by_token(config, String::from_str(token)) {
            Ok(user) => GateDecision::Allow(Some(user)),
            Err(_) => GateDecision::Deny,
        }
    }
}

/// Whether the user a request resolved to may rotate the record with
/// `target_id`: only the owner of a record may change its own username and
/// credential.  Callers place this check in front of every rotation, so
/// one authenticated user cannot change another.
pub fn may_update(caller: &User, target_id: i64) -> (r: bool)
    ensures
        r <==> caller.id == target_id,
{
    caller.id == target_id
}

/// Run once at process start, before serving traffic: when the directory is
/// empty, create the fixed default `admin`/`admin` account.  Returns whether
/// the account was created, so the caller can emit its operator-facing
/// warning to rotate the credentials.
pub fn init(directory: &mut UserDirectory, now: i64) -> (r: Result<bool, CustomError>)
    requires
        old(directory).wf(),
    ensures
        final(directory).wf(),
        old(directory)@.len() > 0 ==> r == Ok::<bool, CustomError>(false) && final(directory)@
            == old(directory)@,
        old(directory)@.len() == 0 ==> (r is Ok <==> old(directory).next_id_spec() < i64::MAX),
        old(directory)@.len() == 0 && r is Ok ==> ({
            let made = final(directory)@;
            &&& r == Ok::<bool, CustomError>(true)
            &&& made.len() == 1
            &&& made[0].username@ == "admin"@
            &&& exists|salt: Seq<u8>|
                salt.len() == 16 && made[0].token@ == credential_of(salt, "admin"@)
        }),
        r is Err ==> final(directory)@ == old(directory)@,
{
    if directory.count() > 0 {
        return Ok(false);
    }
    proof {
        reveal_strlit("admin");
        assert(vstd::utf8::is_ascii_chars("admin"@));
        vstd::utf8::is_ascii_chars_encode_utf8("admin"@);
    }
    let bootstrap = MaybeUser {
        username: String::from_str("admin"),
        password: String::from_str("admin"),
    };
    match directory.create(bootstrap, now) {
        Ok(_) => Ok(true),
        Err(e) => Err(e),
    }
}

} // verus!
