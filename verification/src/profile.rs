//! The long-term and the short-term identity, and the timestamp at which a
//! short-term identity expires.

use crate::error::{RunError, RunErrorView};
use crate::keys;
use aws_smithy_types::date_time::{DateTimeFormatError, DateTimeParseError, Format};
use vstd::prelude::*;

verus! {

/// The keys under which a profile's fields stand in the credentials store,
/// as constants of the profile types.
pub trait Profile {
    const ACCESS_KEY: &'static str = keys::ACCESS_KEY;
    const SECRET_KEY: &'static str = keys::SECRET_KEY;
    const MFA_DEVICE: &'static str = keys::MFA_DEVICE;
    const SESSION_TOKEN: &'static str = keys::SESSION_TOKEN;
    const ASSUMED_ROLE_ARN: &'static str = keys::ASSUMED_ROLE_ARN;
    const ASSUMED_ROLE_ID: &'static str = keys::ASSUMED_ROLE_ID;
    const EXPIRATION: &'static str = keys::EXPIRATION;
}

/// The text of an optional string.
pub open spec fn option_text(value: Option<String>) -> Option<Seq<char>> {
    match value {
        Some(text) => Some(text@),
        None => None,
    }
}

/// First second that an RFC 3339 timestamp can name: 0001-01-01T00:00:00Z.
pub const RFC3339_MIN_SECONDS: i64 = -62_135_596_800;

/// Last second that an RFC 3339 timestamp can name: 9999-12-31T23:59:59Z.
pub const RFC3339_MAX_SECONDS: i64 = 253_402_300_799;

/// Nanoseconds in one second.
pub const NANOS_PER_SECOND: u32 = 1_000_000_000;

/// An instant: whole seconds since the Unix epoch, and the nanoseconds that
/// have passed since that second began.
#[derive(Debug, Clone, Copy, PartialEq, Eq)]
pub struct DateTime {
    pub seconds: i64,
    pub subsecond_nanos: u32,
}

impl DateTime {
    /// The nanoseconds stay below one second.
    pub open spec fn wf(self) -> bool {
        self.subsecond_nanos < NANOS_PER_SECOND
    }

    /// Nanoseconds since the Unix epoch.
    pub open spec fn as_nanos(self) -> int {
        self.seconds * NANOS_PER_SECOND + self.subsecond_nanos
    }

    /// Whether the instant lies in the years 1 to 9999, which is what an
    /// RFC 3339 timestamp can name.
    pub open spec fn in_rfc3339_range(self) -> bool {
        self.wf() && RFC3339_MIN_SECONDS <= self.seconds <= RFC3339_MAX_SECONDS
    }

    /// The instant `seconds` after the Unix epoch.
    pub fn from_secs(seconds: i64) -> (time: DateTime)
        ensures
            time == (DateTime { seconds, subsecond_nanos: 0 }),
            time.wf(),
    {
        DateTime { seconds, subsecond_nanos: 0 }
    }

    /// The instant `seconds` and `subsecond_nanos` after the Unix epoch.
    pub fn from_secs_and_nanos(seconds: i64, subsecond_nanos: u32) -> (time: DateTime)
        requires
            subsecond_nanos < NANOS_PER_SECOND,
        ensures
            time == (DateTime { seconds, subsecond_nanos }),
            time.wf(),
    {
        DateTime { seconds, subsecond_nanos }
    }

    /// Whether `fmt` can write this instant.
    pub fn can_format(&self) -> (r: bool)
        ensures
            r == self.in_rfc3339_range(),
    {
        self.subsecond_nanos < NANOS_PER_SECOND && RFC3339_MIN_SECONDS <= self.seconds
            && self.seconds <= RFC3339_MAX_SECONDS
    }

    /// Reads a timestamp such as `2024-01-01T00:00:00Z`. Offsets other than
    /// `Z` are not accepted.
    pub fn from_str(text: &str) -> (parsed: Result<DateTime, InvalidTimestamp>)
        ensures
            match parsed {
                Ok(time) => time.wf() && parsed_timestamp(text@) == Some(
                    (time.seconds, time.subsecond_nanos),
                ),
                Err(_) => parsed_timestamp(text@) is None,
            },
    {
        match parse_rfc3339(text) {
            Ok(parts) => Ok(DateTime { seconds: parts.0, subsecond_nanos: parts.1 }),
            Err(_) => Err(InvalidTimestamp),
        }
    }

    /// Writes the instant as an RFC 3339 timestamp in UTC.
    pub fn fmt(&self) -> (text: String)
        requires
            self.in_rfc3339_range(),
        ensures
            text@ == formatted_timestamp(self.seconds, self.subsecond_nanos),
    {
        match format_rfc3339(self.seconds, self.subsecond_nanos) {
            Ok(text) => text,
            Err(_) => vstd::pervasive::unreached(),
        }
    }
}

impl Default for DateTime {
    /// The Unix epoch.
    fn default() -> (time: DateTime)
        ensures
            time == (DateTime { seconds: 0, subsecond_nanos: 0 }),
    {
        DateTime { seconds: 0, subsecond_nanos: 0 }
    }
}

/// A text that is no timestamp in the accepted format.
#[derive(Debug, Clone, Copy, PartialEq, Eq)]
pub struct InvalidTimestamp;

/// `aws_smithy_types`' description of a text that is no timestamp.
#[verifier::external_type_specification]
#[verifier::external_body]
pub struct ExDateTimeParseError(DateTimeParseError);

/// `aws_smithy_types`' description of an instant that cannot be written.
#[verifier::external_type_specification]
#[verifier::external_body]
pub struct ExDateTimeFormatError(DateTimeFormatError);

/// The seconds and nanoseconds that `aws_smithy_types::DateTime::from_str`
/// reads out of a text in the format `Format::DateTime`, or none where it
/// reports an error.
pub uninterp spec fn parsed_timestamp(text: Seq<char>) -> Option<(i64, u32)>;

/// The text that `aws_smithy_types::DateTime::fmt` writes in the format
/// `Format::DateTime` for an instant that it can write.
pub uninterp spec fn formatted_timestamp(seconds: i64, subsecond_nanos: u32) -> Seq<char>;

/// `aws_smithy_types::DateTime::from_str` with `Format::DateTime`: an
/// RFC 3339 parser that refuses offsets. The outcome is a function of the
/// text alone; of a parsed instant only the bound on its nanoseconds is
/// spelled out.
#[verifier::external_body]
fn parse_rfc3339(text: &str) -> (parsed: Result<(i64, u32), DateTimeParseError>)
    ensures
        match parsed {
            Ok(parts) => parsed_timestamp(text@) == Some(parts) && parts.1 < NANOS_PER_SECOND,
            Err(_) => parsed_timestamp(text@) is None,
        },
{
    match aws_smithy_types::DateTime::from_str(text, Format::DateTime) {
        Ok(time) => Ok((time.secs(), time.subsec_nanos())),
        Err(error) => Err(error),
    }
}

/// `aws_smithy_types::DateTime::fmt` with `Format::DateTime`, on the instant
/// that `DateTime::from_secs_and_nanos` makes of the arguments. It succeeds
/// exactly for the years 1 to 9999; the text is a function of the instant
/// and is not spelled out.
#[verifier::external_body]
fn format_rfc3339(seconds: i64, subsecond_nanos: u32) -> (text: Result<
    String,
    DateTimeFormatError,
>)
    requires
        subsecond_nanos < NANOS_PER_SECOND,
    ensures
        text is Ok <==> RFC3339_MIN_SECONDS <= seconds <= RFC3339_MAX_SECONDS,
        text matches Ok(written) ==> written@ == formatted_timestamp(seconds, subsecond_nanos),
{
    aws_smithy_types::DateTime::from_secs_and_nanos(seconds, subsecond_nanos).fmt(Format::DateTime)
}

/// The long-term identity: a named access key pair and the MFA device that
/// guards it.
#[derive(Debug, Default, Clone)]
pub struct LongTermProfile {
    pub name: String,
    pub access_key: String,
    pub secret_key: String,
    pub mfa_device: String,
}

/// What a `LongTermProfile` holds, as plain text.
pub struct LongTermProfileView {
    pub name: Seq<char>,
    pub access_key: Seq<char>,
    pub secret_key: Seq<char>,
    pub mfa_device: Seq<char>,
}

impl View for LongTermProfile {
    type V = LongTermProfileView;

    open spec fn view(&self) -> LongTermProfileView {
        LongTermProfileView {
            name: self.name@,
            access_key: self.access_key@,
            secret_key: self.secret_key@,
            mfa_device: self.mfa_device@,
        }
    }
}

impl LongTermProfileView {
    /// No field is empty.
    pub open spec fn wf(self) -> bool {
        self.name.len() > 0 && self.access_key.len() > 0 && self.secret_key.len() > 0
            && self.mfa_device.len() > 0
    }
}

impl Profile for LongTermProfile {}

/// A short-term identity as issued: the temporary key triple, when it
/// expires, and the assumed role where there is one.
#[derive(Debug, Default, Clone)]
pub struct ShortTermProfile {
    pub access_key: String,
    pub secret_key: String,
    pub session_token: String,
    pub expiration: DateTime,
    pub assumed_role_id: Option<String>,
    pub assumed_role_arn: Option<String>,
}

/// What a `ShortTermProfile` holds, as plain text.
pub struct ShortTermProfileView {
    pub access_key: Seq<char>,
    pub secret_key: Seq<char>,
    pub session_token: Seq<char>,
    pub expiration: DateTime,
    pub assumed_role_id: Option<Seq<char>>,
    pub assumed_role_arn: Option<Seq<char>>,
}

impl View for ShortTermProfile {
    type V = ShortTermProfileView;

    open spec fn view(&self) -> ShortTermProfileView {
        ShortTermProfileView {
            access_key: self.access_key@,
            secret_key: self.secret_key@,
            session_token: self.session_token@,
            expiration: self.expiration,
            assumed_role_id: option_text(self.assumed_role_id),
            assumed_role_arn: option_text(self.assumed_role_arn),
        }
    }
}

impl Profile for ShortTermProfile {}

/// The temporary credentials as the issuing service hands them out.
#[derive(Debug, Default, Clone)]
pub struct StsCredentials {
    pub access_key_id: String,
    pub secret_access_key: String,
    pub session_token: String,
    pub expiration: DateTime,
}

/// What an `StsCredentials` holds, as plain text.
pub struct StsCredentialsView {
    pub access_key_id: Seq<char>,
    pub secret_access_key: Seq<char>,
    pub session_token: Seq<char>,
    pub expiration: DateTime,
}

impl View for StsCredentials {
    type V = StsCredentialsView;

    open spec fn view(&self) -> StsCredentialsView {
        StsCredentialsView {
            access_key_id: self.access_key_id@,
            secret_access_key: self.secret_access_key@,
            session_token: self.session_token@,
            expiration: self.expiration,
        }
    }
}

/// The view of optional credentials.
pub open spec fn option_credentials(credentials: Option<StsCredentials>) -> Option<
    StsCredentialsView,
> {
    match credentials {
        Some(credentials) => Some(credentials@),
        None => None,
    }
}

/// The message of an answer that holds no credentials.
pub open spec fn missing_credentials_message() -> Seq<char> {
    "Failed to extract STS credentials"@
}

/// The short-term identity that issued credentials make: the key triple and
/// the expiration as issued, and no assumed role. An answer without
/// credentials is a failed issuance.
pub open spec fn identity_of(credentials: Option<StsCredentialsView>) -> Result<
    ShortTermProfileView,
    RunErrorView,
> {
    match credentials {
        Some(credentials) => Ok(
            ShortTermProfileView {
                access_key: credentials.access_key_id,
                secret_key: credentials.secret_access_key,
                session_token: credentials.session_token,
                expiration: credentials.expiration,
                assumed_role_id: None,
                assumed_role_arn: None,
            },
        ),
        None => Err(RunErrorView::IssuanceFailed(missing_credentials_message())),
    }
}

/// The view of a short-term identity or of the failure to get one.
pub open spec fn identity_view(identity: Result<ShortTermProfile, RunError>) -> Result<
    ShortTermProfileView,
    RunErrorView,
> {
    match identity {
        Ok(profile) => Ok(profile@),
        Err(error) => Err(error@),
    }
}

impl ShortTermProfile {
    /// The short-term identity that issued credentials make.
    pub fn try_from(credentials: Option<StsCredentials>) -> (identity: Result<
        ShortTermProfile,
        RunError,
    >)
        ensures
            identity_view(identity) == identity_of(option_credentials(credentials)),
    {
        match credentials {
            Some(credentials) => Ok(
                ShortTermProfile {
                    access_key: credentials.access_key_id,
                    secret_key: credentials.secret_access_key,
                    session_token: credentials.session_token,
                    expiration: credentials.expiration,
                    assumed_role_arn: None,
                    assumed_role_id: None,
                },
            ),
            None => Err(
                RunError::IssuanceFailed(String::from_str("Failed to extract STS credentials")),
            ),
        }
    }

    /// The expiration as it is written to the credentials store.
    pub fn format_expiration(&self) -> (text: String)
        requires
            self.expiration.in_rfc3339_range(),
        ensures
            text@ == formatted_timestamp(
                self.expiration.seconds,
                self.expiration.subsecond_nanos,
            ),
    {
        self.expiration.fmt()
    }
}

} // verus!
