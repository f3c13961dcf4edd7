//! Short-term credentials for the long-term user itself.

use crate::creds::lemma_merge;
use crate::error::{RunError, RunErrorView};
use crate::keys;
use crate::keys::lemma_keys_differ;
use crate::profile::{
    LongTermProfile, LongTermProfileView, ShortTermProfile, ShortTermProfileView, identity_of,
};
use crate::sts::config::CommonStsConfig;
use crate::store::{Sections, lookup};
use crate::sts::{
    ActionView, EventView, ShortTermCredentials, StateView, StsOutput, StsOutputView, StsRequest,
    StsRequestView, plain_request, request_without_role, transition,
};
use crate::text::is_suffix;
use vstd::prelude::*;

verus! {

/// A request for a session token.
#[derive(Debug, Default, Clone)]
pub struct SessionToken {
    pub config: CommonStsConfig,
}

/// For how many seconds a session token stays valid where the settings name
/// no duration: twelve hours.
pub const SESSION_TOKEN_DEFAULT_DURATION: i32 = 43200;

/// The name under which a session token of `profile` is stored: the profile
/// name, a hyphen and the short-term suffix.
pub open spec fn session_token_profile_name(profile: Seq<char>, suffix: Seq<char>) -> Seq<char> {
    profile + seq!['-'] + suffix
}

/// The name under which a session token is stored ends with the short-term
/// suffix, so it is the name of no long-term profile that the settings
/// accept.
pub proof fn lemma_session_token_name_ends_with_suffix(
    profile: Seq<char>,
    suffix: Seq<char>,
    long_term: Seq<char>,
)
    ensures
        is_suffix(suffix, session_token_profile_name(profile, suffix)),
        !is_suffix(suffix, long_term) ==> session_token_profile_name(profile, suffix) != long_term,
{
    let name = session_token_profile_name(profile, suffix);
    assert(name.subrange(name.len() - suffix.len(), name.len() as int) =~= suffix);
}

/// Taking in a session token leaves the assumed role in place that an
/// earlier rotation wrote to the same section: the identity of a session
/// token names no role, so the role fields are not written.
pub proof fn lemma_session_token_keeps_assumed_role(
    cmd: &SessionToken,
    store: Sections,
    st_profile_name: Seq<char>,
    output: StsOutputView,
    next: StateView,
    action: ActionView,
    store_after: Sections,
)
    requires
        transition(
            cmd,
            store,
            StateView::AwaitingCredentials { st_profile_name },
            EventView::Issued(output),
            next,
            action,
            store_after,
        ),
    ensures
        lookup(store_after, st_profile_name, keys::ASSUMED_ROLE_ARN@) == lookup(
            store,
            st_profile_name,
            keys::ASSUMED_ROLE_ARN@,
        ),
        lookup(store_after, st_profile_name, keys::ASSUMED_ROLE_ID@) == lookup(
            store,
            st_profile_name,
            keys::ASSUMED_ROLE_ID@,
        ),
{
    match cmd.identity_from(output) {
        Ok(identity) => {
            lemma_keys_differ();
            lemma_merge(store, st_profile_name, identity, st_profile_name, keys::ASSUMED_ROLE_ARN@);
            lemma_merge(store, st_profile_name, identity, st_profile_name, keys::ASSUMED_ROLE_ID@);
        },
        Err(_) => {},
    }
}

/// What is asked of the issuing service for a session token: the keys and
/// the device of the long-term profile; the MFA code; the configured
/// duration, or 43200 seconds where none is configured; and no role.
pub proof fn lemma_session_token_request(
    cmd: &SessionToken,
    mfa_token: Seq<char>,
    lt_profile: LongTermProfileView,
)
    ensures
        cmd.request_for(mfa_token, lt_profile) == (StsRequestView {
            access_key: lt_profile.access_key,
            secret_key: lt_profile.secret_key,
            region: cmd.config.sts_region@,
            serial_number: lt_profile.mfa_device,
            token_code: mfa_token,
            duration_seconds: match cmd.config.duration {
                Some(seconds) => seconds,
                None => 43200i32,
            },
            role: None,
        }),
{
}

impl ShortTermCredentials for SessionToken {
    const DEFAULT_DURATION: i32 = SESSION_TOKEN_DEFAULT_DURATION;

    open spec fn profile_name_text(&self) -> Seq<char> {
        session_token_profile_name(self.config.profile_name@, self.config.short_term_suffix@)
    }

    fn short_profile_name(&self) -> (name: String) {
        let mut name = self.config.profile_name.clone();
        name.append("-");
        name.append(self.config.short_term_suffix.as_str());
        proof {
            reveal_strlit("-");
            assert("-"@ =~= seq!['-']);
        }
        name
    }

    open spec fn settings(&self) -> CommonStsConfig {
        self.config
    }

    fn config(&self) -> (config: &CommonStsConfig) {
        &self.config
    }

    open spec fn request_for(
        &self,
        mfa_token: Seq<char>,
        lt_profile: LongTermProfileView,
    ) -> StsRequestView {
        plain_request(self.config, SESSION_TOKEN_DEFAULT_DURATION, mfa_token, lt_profile)
    }

    fn request(&self, mfa_token: String, lt_profile: &LongTermProfile) -> (request: StsRequest) {
        request_without_role(&self.config, SESSION_TOKEN_DEFAULT_DURATION, mfa_token, lt_profile)
    }

    open spec fn identity_from(&self, output: StsOutputView) -> Result<
        ShortTermProfileView,
        RunErrorView,
    > {
        identity_of(output.credentials)
    }

    fn receive(&self, output: StsOutput) -> (identity: Result<ShortTermProfile, RunError>) {
        ShortTermProfile::try_from(output.credentials)
    }
}

} // verus!
