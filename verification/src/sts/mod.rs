//! Issuing short-term credentials: what both ways of issuing have in common,
//! and the sequence of one rotation.

pub mod assume_role;
pub mod config;
pub mod session_token;

use crate::creds::{CredentialsHandler, merged, resolve, stored, validity_at};
use crate::error::{RunError, RunErrorView};
use crate::profile::{
    DateTime, LongTermProfile, LongTermProfileView, ShortTermProfile, ShortTermProfileView,
    StsCredentials, StsCredentialsView, identity_view, option_credentials, option_text,
};
use crate::store::Sections;
use crate::sts::config::CommonStsConfig;
use vstd::prelude::*;

verus! {

/// The role to assume, and the name of the session in which it is assumed.
#[derive(Debug, Default, Clone)]
pub struct Role {
    pub arn: String,
    pub session_name: String,
}

/// What is asked of the issuing service: as whom, guarded by which device
/// and code, for how long, and for which role if for any.
#[derive(Debug, Default, Clone)]
pub struct StsRequest {
    pub access_key: String,
    pub secret_key: String,
    pub region: String,
    pub serial_number: String,
    pub token_code: String,
    pub duration_seconds: i32,
    pub role: Option<Role>,
}

/// What an `StsRequest` holds, as plain text.
pub struct StsRequestView {
    pub access_key: Seq<char>,
    pub secret_key: Seq<char>,
    pub region: Seq<char>,
    pub serial_number: Seq<char>,
    pub token_code: Seq<char>,
    pub duration_seconds: i32,
    pub role: Option<(Seq<char>, Seq<char>)>,
}

impl View for StsRequest {
    type V = StsRequestView;

    open spec fn view(&self) -> StsRequestView {
        StsRequestView {
            access_key: self.access_key@,
            secret_key: self.secret_key@,
            region: self.region@,
            serial_number: self.serial_number@,
            token_code: self.token_code@,
            duration_seconds: self.duration_seconds,
            role: match self.role {
                Some(role) => Some((role.arn@, role.session_name@)),
                None => None,
            },
        }
    }
}

/// The answer of the issuing service.
#[derive(Debug, Default, Clone)]
pub struct StsOutput {
    pub credentials: Option<StsCredentials>,
    /// The identifier of the assumed role, where one was assumed.
    pub assumed_role_id: Option<String>,
}

/// What an `StsOutput` holds, as plain text.
pub struct StsOutputView {
    pub credentials: Option<StsCredentialsView>,
    pub assumed_role_id: Option<Seq<char>>,
}

impl View for StsOutput {
    type V = StsOutputView;

    open spec fn view(&self) -> StsOutputView {
        StsOutputView {
            credentials: option_credentials(self.credentials),
            assumed_role_id: option_text(self.assumed_role_id),
        }
    }
}

/// The duration to ask for: the configured one, else `default`.
pub open spec fn duration_or(configured: Option<i32>, default: i32) -> i32 {
    match configured {
        Some(seconds) => seconds,
        None => default,
    }
}

/// What every request takes from the settings, the long-term profile and
/// the MFA code; it names no role.
pub open spec fn plain_request(
    config: CommonStsConfig,
    default_duration: i32,
    mfa_token: Seq<char>,
    lt_profile: LongTermProfileView,
) -> StsRequestView {
    StsRequestView {
        access_key: lt_profile.access_key,
        secret_key: lt_profile.secret_key,
        region: config.sts_region@,
        serial_number: lt_profile.mfa_device,
        token_code: mfa_token,
        duration_seconds: duration_or(config.duration, default_duration),
        role: None,
    }
}

/// The request that names no role.
pub fn request_without_role(
    config: &CommonStsConfig,
    default_duration: i32,
    mfa_token: String,
    lt_profile: &LongTermProfile,
) -> (request: StsRequest)
    ensures
        request@ == plain_request(*config, default_duration, mfa_token@, lt_profile@),
{
    StsRequest {
        access_key: lt_profile.access_key.clone(),
        secret_key: lt_profile.secret_key.clone(),
        region: config.sts_region.clone(),
        serial_number: lt_profile.mfa_device.clone(),
        token_code: mfa_token,
        duration_seconds: match config.duration {
            Some(seconds) => seconds,
            None => default_duration,
        },
        role: None,
    }
}

/// A way of getting short-term credentials out of a long-term profile.
pub trait ShortTermCredentials {
    /// For how many seconds the credentials stay valid where the settings
    /// name no duration.
    const DEFAULT_DURATION: i32;

    /// The name of the profile under which the credentials are stored.
    spec fn profile_name_text(&self) -> Seq<char>;

    /// The name of the profile under which the credentials are stored.
    fn short_profile_name(&self) -> (name: String)
        ensures
            name@ == self.profile_name_text(),
    ;

    /// The settings of the request.
    spec fn settings(&self) -> CommonStsConfig;

    /// The settings of the request.
    fn config(&self) -> (config: &CommonStsConfig)
        ensures
            *config == self.settings(),
    ;

    /// What is asked of the issuing service for the MFA code `mfa_token`.
    spec fn request_for(
        &self,
        mfa_token: Seq<char>,
        lt_profile: LongTermProfileView,
    ) -> StsRequestView;

    /// What is asked of the issuing service for the MFA code `mfa_token`.
    fn request(&self, mfa_token: String, lt_profile: &LongTermProfile) -> (request: StsRequest)
        ensures
            request@ == self.request_for(mfa_token@, lt_profile@),
    ;

    /// The short-term identity that the answer `output` holds.
    spec fn identity_from(&self, output: StsOutputView) -> Result<
        ShortTermProfileView,
        RunErrorView,
    >;

    /// The short-term identity that the answer `output` holds.
    fn receive(&self, output: StsOutput) -> (identity: Result<ShortTermProfile, RunError>)
        ensures
            identity_view(identity) == self.identity_from(output@),
    ;
}

/// What introduces the raw error where the issuing service gave no message.
pub open spec fn fallback_prefix() -> Seq<char> {
    "failed to get credentials: "@
}

/// The message of a failed issuance: the one that the service sent, or else
/// the raw error behind a fixed prefix.
pub open spec fn issuance_message(message: Option<Seq<char>>, raw: Seq<char>) -> Seq<char> {
    match message {
        Some(message) => message,
        None => fallback_prefix() + raw,
    }
}

/// Turns whatever went wrong between here and the issuing service into the
/// one kind of failure that is reported for it. `message` is what the
/// service said, if it said anything; `raw` describes the error as a whole.
pub fn extract_sts_err(message: Option<String>, raw: &str) -> (error: RunError)
    ensures
        error@ == RunErrorView::IssuanceFailed(issuance_message(option_text(message), raw@)),
{
    match message {
        Some(message) => RunError::IssuanceFailed(message),
        None => {
            let mut text = String::from_str("failed to get credentials: ");
            text.append(raw);
            RunError::IssuanceFailed(text)
        },
    }
}

/// Where a rotation stands.
#[derive(Debug, Clone)]
pub enum State {
    /// Nothing has been done yet.
    Start,
    /// The long-term profile is resolved and no cached credentials are used;
    /// the MFA code is awaited.
    AwaitingMfaCode { lt_profile: LongTermProfile, st_profile_name: String },
    /// The request has been handed out; the service's answer is awaited.
    AwaitingCredentials { st_profile_name: String },
    /// The store holds the new credentials; its writing is awaited.
    AwaitingPersist { st_profile_name: String },
    /// The run has ended well, with or without new credentials.
    Done,
    /// The run has failed.
    Failed,
}

/// What a `State` holds, as plain text.
pub enum StateView {
    Start,
    AwaitingMfaCode { lt_profile: LongTermProfileView, st_profile_name: Seq<char> },
    AwaitingCredentials { st_profile_name: Seq<char> },
    AwaitingPersist { st_profile_name: Seq<char> },
    Done,
    Failed,
}

impl View for State {
    type V = StateView;

    open spec fn view(&self) -> StateView {
        match self {
            State::Start => StateView::Start,
            State::AwaitingMfaCode { lt_profile, st_profile_name } => StateView::AwaitingMfaCode {
                lt_profile: lt_profile@,
                st_profile_name: st_profile_name@,
            },
            State::AwaitingCredentials { st_profile_name } => StateView::AwaitingCredentials {
                st_profile_name: st_profile_name@,
            },
            State::AwaitingPersist { st_profile_name } => StateView::AwaitingPersist {
                st_profile_name: st_profile_name@,
            },
            State::Done => StateView::Done,
            State::Failed => StateView::Failed,
        }
    }
}

/// What has happened outside since the last step.
#[derive(Debug, Clone)]
pub enum Event {
    /// The run begins, at the instant `now`.
    Begin { now: DateTime },
    /// The MFA code was entered.
    MfaCode(String),
    /// The issuing service has answered.
    Issued(StsOutput),
    /// The issuing service, or the way to it, has failed: what the service
    /// said, if anything, and the error as a whole.
    IssuanceFailed { message: Option<String>, raw: String },
    /// The credentials file was written.
    Persisted,
    /// The credentials file could not be written.
    PersistFailed(String),
}

/// What an `Event` holds, as plain text.
pub enum EventView {
    Begin { now: DateTime },
    MfaCode(Seq<char>),
    Issued(StsOutputView),
    IssuanceFailed { message: Option<Seq<char>>, raw: Seq<char> },
    Persisted,
    PersistFailed(Seq<char>),
}

impl View for Event {
    type V = EventView;

    open spec fn view(&self) -> EventView {
        match self {
            Event::Begin { now } => EventView::Begin { now: *now },
            Event::MfaCode(code) => EventView::MfaCode(code@),
            Event::Issued(output) => EventView::Issued(output@),
            Event::IssuanceFailed { message, raw } => EventView::IssuanceFailed {
                message: option_text(*message),
                raw: raw@,
            },
            Event::Persisted => EventView::Persisted,
            Event::PersistFailed(message) => EventView::PersistFailed(message@),
        }
    }
}

/// How a run ended well.
#[derive(Debug, Clone, PartialEq)]
pub enum Outcome {
    /// The cached credentials of `profile` are valid for `remaining` more.
    StillValid { profile: String, remaining: String },
    /// New credentials were stored under `profile`.
    Added { profile: String },
}

/// What an `Outcome` holds, as plain text.
pub enum OutcomeView {
    StillValid { profile: Seq<char>, remaining: Seq<char> },
    Added { profile: Seq<char> },
}

impl View for Outcome {
    type V = OutcomeView;

    open spec fn view(&self) -> OutcomeView {
        match self {
            Outcome::StillValid { profile, remaining } => OutcomeView::StillValid {
                profile: profile@,
                remaining: remaining@,
            },
            Outcome::Added { profile } => OutcomeView::Added { profile: profile@ },
        }
    }
}

/// What is to be done outside before the next step.
#[derive(Debug, Clone)]
pub enum Action {
    /// Ask for the MFA code. `discards_cached` says that credentials which
    /// are still valid are about to be replaced.
    PromptMfa { discards_cached: bool },
    /// Send the request to the issuing service.
    Issue(StsRequest),
    /// Write these bytes to the credentials file, in one piece.
    Persist(Vec<u8>),
    /// Report the good end of the run.
    Finish(Outcome),
    /// Report the failure of the run.
    Fail(RunError),
}

/// What an `Action` holds, as plain text.
pub enum ActionView {
    PromptMfa { discards_cached: bool },
    Issue(StsRequestView),
    Persist(Seq<u8>),
    Finish(OutcomeView),
    Fail(RunErrorView),
}

impl View for Action {
    type V = ActionView;

    open spec fn view(&self) -> ActionView {
        match self {
            Action::PromptMfa { discards_cached } => ActionView::PromptMfa {
                discards_cached: *discards_cached,
            },
            Action::Issue(request) => ActionView::Issue(request@),
            Action::Persist(bytes) => ActionView::Persist(bytes@),
            Action::Finish(outcome) => ActionView::Finish(outcome@),
            Action::Fail(error) => ActionView::Fail(error@),
        }
    }
}

/// Whether `event` is one that a rotation in `state` waits for.
pub open spec fn awaited(state: StateView, event: EventView) -> bool {
    match state {
        StateView::Start => event is Begin,
        StateView::AwaitingMfaCode { .. } => event is MfaCode,
        StateView::AwaitingCredentials { .. } => event is Issued || event is IssuanceFailed,
        StateView::AwaitingPersist { .. } => event is Persisted || event is PersistFailed,
        StateView::Done => false,
        StateView::Failed => false,
    }
}

impl State {
    /// Whether `event` is one that a rotation in this state waits for.
    pub fn awaits(&self, event: &Event) -> (r: bool)
        ensures
            r == awaited(self@, event@),
    {
        match self {
            State::Start => matches!(event, Event::Begin { .. }),
            State::AwaitingMfaCode { .. } => matches!(event, Event::MfaCode(_)),
            State::AwaitingCredentials { .. } => matches!(
                event,
                Event::Issued(_) | Event::IssuanceFailed { .. }
            ),
            State::AwaitingPersist { .. } => matches!(
                event,
                Event::Persisted | Event::PersistFailed(_)
            ),
            State::Done => false,
            State::Failed => false,
        }
    }
}

/// The first step of a rotation at `now`: the long-term profile is resolved,
/// and credentials that are cached under the short-term name are used while
/// they are valid, unless the settings force new ones.
pub open spec fn begun<T: ShortTermCredentials>(
    cmd: &T,
    store: Sections,
    now: DateTime,
    next: StateView,
    action: ActionView,
) -> bool {
    let config = cmd.settings();
    let name = cmd.profile_name_text();
    let cached = validity_at(store, name, now);
    match resolve(store, config.profile_name@, option_text(config.mfa_device)) {
        Err(error) => next is Failed && action == ActionView::Fail(
            RunErrorView::Credentials(error),
        ),
        Ok(lt_profile) => if cached is Some && !config.force_new_credentials {
            next is Done && action == ActionView::Finish(
                OutcomeView::StillValid { profile: name, remaining: cached->0 },
            )
        } else {
            next == (StateView::AwaitingMfaCode { lt_profile, st_profile_name: name })
                && action == (ActionView::PromptMfa { discards_cached: cached is Some })
        },
    }
}

/// One step of a rotation for `cmd`: from `state` and the awaited `event` to
/// the state `next` and the `action` to take, with the store going from
/// `store` to `store_after`. Only the step that takes in issued credentials
/// changes the store, and the bytes that it hands out for writing read back
/// as the changed store.
pub open spec fn transition<T: ShortTermCredentials>(
    cmd: &T,
    store: Sections,
    state: StateView,
    event: EventView,
    next: StateView,
    action: ActionView,
    store_after: Sections,
) -> bool {
    match (state, event) {
        (StateView::Start, EventView::Begin { now }) => {
            &&& store_after == store
            &&& begun(cmd, store, now, next, action)
        },
        (StateView::AwaitingMfaCode { lt_profile, st_profile_name }, EventView::MfaCode(code)) => {
            &&& store_after == store
            &&& next == (StateView::AwaitingCredentials { st_profile_name })
            &&& action == ActionView::Issue(cmd.request_for(code, lt_profile))
        },
        (StateView::AwaitingCredentials { st_profile_name }, EventView::Issued(output)) => {
            match cmd.identity_from(output) {
                Ok(identity) => {
                    &&& store_after == merged(store, st_profile_name, identity)
                    &&& {
                        ||| {
                            &&& next == (StateView::AwaitingPersist { st_profile_name })
                            &&& action is Persist
                            &&& stored(action->Persist_0) == Some(store_after)
                        }
                        ||| next is Failed && action is Fail && action->Fail_0 is StoreIoError
                    }
                },
                Err(error) => {
                    &&& store_after == store
                    &&& next is Failed
                    &&& action == ActionView::Fail(error)
                },
            }
        },
        (
            StateView::AwaitingCredentials { st_profile_name },
            EventView::IssuanceFailed { message, raw },
        ) => {
            &&& store_after == store
            &&& next is Failed
            &&& action == ActionView::Fail(
                RunErrorView::IssuanceFailed(issuance_message(message, raw)),
            )
        },
        (StateView::AwaitingPersist { st_profile_name }, EventView::Persisted) => {
            &&& store_after == store
            &&& next is Done
            &&& action == ActionView::Finish(OutcomeView::Added { profile: st_profile_name })
        },
        (StateView::AwaitingPersist { st_profile_name }, EventView::PersistFailed(message)) => {
            &&& store_after == store
            &&& next is Failed
            &&& action == ActionView::Fail(RunErrorView::StoreIoError(message))
        },
        _ => false,
    }
}

/// Whether the credentials that `event` brings, if it brings any, expire at
/// an instant that can be written to the store.
pub open spec fn storable<T: ShortTermCredentials>(cmd: &T, event: EventView) -> bool {
    event matches EventView::Issued(output) ==> (cmd.identity_from(output) matches Ok(identity)
        ==> identity.expiration.in_rfc3339_range())
}

/// Takes one step of a rotation: given where the rotation stands and what
/// has happened outside, says where it stands now and what is to be done
/// outside next. A rotation starts in `State::Start` with `Event::Begin` and
/// has ended when it stands in `State::Done` or `State::Failed`.
pub fn get_st_profile<T: ShortTermCredentials>(
    cmd: &T,
    handler: &mut CredentialsHandler,
    state: State,
    event: Event,
) -> (step: (State, Action))
    requires
        awaited(state@, event@),
        event matches Event::Begin { now } ==> now.wf(),
        storable(cmd, event@),
    ensures
        transition(cmd, old(handler)@, state@, event@, step.0@, step.1@, final(handler)@),
{
    match (state, event) {
        (State::Start, Event::Begin { now }) => {
            let config = cmd.config();
            let lt_profile = match handler.get_long_term_profile(config) {
                Ok(lt_profile) => lt_profile,
                Err(error) => {
                    return (State::Failed, Action::Fail(RunError::Credentials(error)));
                },
            };
            let st_profile_name = cmd.short_profile_name();
            let cached = handler.is_profile_still_valid_at(st_profile_name.as_str(), now);
            match cached {
                Some(remaining) => {
                    if !config.force_new_credentials {
                        (
                            State::Done,
                            Action::Finish(
                                Outcome::StillValid { profile: st_profile_name, remaining },
                            ),
                        )
                    } else {
                        (
                            State::AwaitingMfaCode { lt_profile, st_profile_name },
                            Action::PromptMfa { discards_cached: true },
                        )
                    }
                },
                None => (
                    State::AwaitingMfaCode { lt_profile, st_profile_name },
                    Action::PromptMfa { discards_cached: false },
                ),
            }
        },
        (State::AwaitingMfaCode { lt_profile, st_profile_name }, Event::MfaCode(code)) => {
            let request = cmd.request(code, &lt_profile);
            (State::AwaitingCredentials { st_profile_name }, Action::Issue(request))
        },
        (State::AwaitingCredentials { st_profile_name }, Event::Issued(output)) => {
            let identity = match cmd.receive(output) {
                Ok(identity) => identity,
                Err(error) => {
                    return (State::Failed, Action::Fail(error));
                },
            };
            handler.set_short_term_profile(&identity, st_profile_name.as_str());
            match handler.serialize() {
                Ok(bytes) => (State::AwaitingPersist { st_profile_name }, Action::Persist(bytes)),
                Err(error) => (State::Failed, Action::Fail(error)),
            }
        },
        (
            State::AwaitingCredentials { st_profile_name },
            Event::IssuanceFailed { message, raw },
        ) => {
            (State::Failed, Action::Fail(extract_sts_err(message, raw.as_str())))
        },
        (State::AwaitingPersist { st_profile_name }, Event::Persisted) => {
            (State::Done, Action::Finish(Outcome::Added { profile: st_profile_name }))
        },
        (State::AwaitingPersist { st_profile_name }, Event::PersistFailed(message)) => {
            (State::Failed, Action::Fail(RunError::StoreIoError(message)))
        },
        _ => vstd::pervasive::unreached(),
    }
}

/// While the credentials cached under the short-term name are valid and the
/// settings do not force new ones, the first step ends the run: the store
/// stays as it is and nothing is asked of the issuing service. Where the
/// long-term profile resolves, the run ends well and reports what is left.
pub proof fn lemma_valid_cache_ends_run<T: ShortTermCredentials>(
    cmd: &T,
    store: Sections,
    now: DateTime,
    next: StateView,
    action: ActionView,
    store_after: Sections,
)
    requires
        transition(
            cmd,
            store,
            StateView::Start,
            EventView::Begin { now },
            next,
            action,
            store_after,
        ),
        validity_at(store, cmd.profile_name_text(), now) is Some,
        !cmd.settings().force_new_credentials,
    ensures
        store_after == store,
        next is Done || next is Failed,
        action is Finish || action is Fail,
        resolve(store, cmd.settings().profile_name@, option_text(cmd.settings().mfa_device))
            is Ok ==> next is Done && action == ActionView::Finish(
            OutcomeView::StillValid {
                profile: cmd.profile_name_text(),
                remaining: validity_at(store, cmd.profile_name_text(), now)->0,
            },
        ),
{
}

/// No step but the one that takes in issued credentials changes the store,
/// and a step that fails leaves it as it was unless the failure lies in
/// writing the store out.
pub proof fn lemma_store_changes_on_issue_only<T: ShortTermCredentials>(
    cmd: &T,
    store: Sections,
    state: StateView,
    event: EventView,
    next: StateView,
    action: ActionView,
    store_after: Sections,
)
    requires
        transition(cmd, store, state, event, next, action, store_after),
    ensures
        !(event is Issued) ==> store_after == store,
        action matches ActionView::Fail(error) && !(error is StoreIoError) ==> store_after == store,
        action is Persist ==> event is Issued && stored(action->Persist_0) == Some(store_after),
        action is Issue ==> event is MfaCode,
{
}

} // verus!
