//! The keys under which a profile's fields stand in the credentials store.

use vstd::prelude::*;

verus! {

pub const ACCESS_KEY: &'static str = "aws_access_key_id";

pub const SECRET_KEY: &'static str = "aws_secret_access_key";

pub const MFA_DEVICE: &'static str = "aws_mfa_device";

pub const SESSION_TOKEN: &'static str = "aws_session_token";

pub const ASSUMED_ROLE_ARN: &'static str = "assumed_role_arn";

pub const ASSUMED_ROLE_ID: &'static str = "assumed_role_id";

pub const EXPIRATION: &'static str = "expiration";

/// The keys under which a short-term identity is written differ from one
/// another.
pub proof fn lemma_keys_differ()
    ensures
        ASSUMED_ROLE_ARN@ != ASSUMED_ROLE_ID@,
        ASSUMED_ROLE_ARN@ != EXPIRATION@,
        ASSUMED_ROLE_ARN@ != ACCESS_KEY@,
        ASSUMED_ROLE_ARN@ != SECRET_KEY@,
        ASSUMED_ROLE_ARN@ != SESSION_TOKEN@,
        ASSUMED_ROLE_ID@ != EXPIRATION@,
        ASSUMED_ROLE_ID@ != ACCESS_KEY@,
        ASSUMED_ROLE_ID@ != SECRET_KEY@,
        ASSUMED_ROLE_ID@ != SESSION_TOKEN@,
        EXPIRATION@ != ACCESS_KEY@,
        EXPIRATION@ != SECRET_KEY@,
        EXPIRATION@ != SESSION_TOKEN@,
        ACCESS_KEY@ != SECRET_KEY@,
        ACCESS_KEY@ != SESSION_TOKEN@,
        SECRET_KEY@ != SESSION_TOKEN@,
{
    reveal_strlit("assumed_role_arn");
    reveal_strlit("assumed_role_id");
    reveal_strlit("expiration");
    reveal_strlit("aws_access_key_id");
    reveal_strlit("aws_secret_access_key");
    reveal_strlit("aws_session_token");
    assert(ASSUMED_ROLE_ARN@.len() == 16);
    assert(ASSUMED_ROLE_ID@.len() == 15);
    assert(EXPIRATION@.len() == 10);
    assert(ACCESS_KEY@.len() == 17);
    assert(SECRET_KEY@.len() == 21);
    assert(SESSION_TOKEN@.len() == 17);
    assert(ACCESS_KEY@[4] != SESSION_TOKEN@[4]);
}

} // verus!
