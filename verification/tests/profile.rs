use aws_smithy_types::date_time::Format;
use mfaws::error::RunError;
use mfaws::keys;
use mfaws::profile::{
    DateTime, InvalidTimestamp, LongTermProfile, Profile, ShortTermProfile, StsCredentials,
    RFC3339_MAX_SECONDS, RFC3339_MIN_SECONDS,
};

#[test]
fn store_keys_are_those_of_a_credentials_file() {
    assert_eq!(LongTermProfile::ACCESS_KEY, "aws_access_key_id");
    assert_eq!(LongTermProfile::SECRET_KEY, "aws_secret_access_key");
    assert_eq!(LongTermProfile::MFA_DEVICE, "aws_mfa_device");
    assert_eq!(ShortTermProfile::SESSION_TOKEN, "aws_session_token");
    assert_eq!(ShortTermProfile::ASSUMED_ROLE_ARN, "assumed_role_arn");
    assert_eq!(ShortTermProfile::ASSUMED_ROLE_ID, "assumed_role_id");
    assert_eq!(ShortTermProfile::EXPIRATION, "expiration");
    assert_eq!(keys::EXPIRATION, ShortTermProfile::EXPIRATION);
    assert_eq!(keys::ACCESS_KEY, LongTermProfile::ACCESS_KEY);
}

#[test]
fn timestamp_is_read() {
    assert_eq!(
        DateTime::from_str("2024-01-01T00:00:00Z"),
        Ok(DateTime { seconds: 1_704_067_200, subsecond_nanos: 0 })
    );
    assert_eq!(
        DateTime::from_str("1970-01-01T00:00:01.5Z"),
        Ok(DateTime { seconds: 1, subsecond_nanos: 500_000_000 })
    );
    assert_eq!(
        DateTime::from_str("1969-12-31T23:59:59.25Z"),
        Ok(DateTime { seconds: -1, subsecond_nanos: 250_000_000 })
    );
}

#[test]
fn timestamp_with_offset_or_noise_is_refused() {
    assert_eq!(DateTime::from_str("2024-01-01T00:00:00+00:00"), Err(InvalidTimestamp));
    assert_eq!(DateTime::from_str("2024-01-01T00:00:00"), Err(InvalidTimestamp));
    assert_eq!(DateTime::from_str("2024-13-01T00:00:00Z"), Err(InvalidTimestamp));
    assert_eq!(DateTime::from_str(""), Err(InvalidTimestamp));
    assert_eq!(DateTime::from_str("Z"), Err(InvalidTimestamp));
}

#[test]
fn timestamp_is_written() {
    assert_eq!(DateTime::default().fmt(), "1970-01-01T00:00:00Z");
    assert_eq!(DateTime::from_secs(1_704_067_200).fmt(), "2024-01-01T00:00:00Z");
    assert_eq!(
        DateTime::from_secs_and_nanos(1_704_067_200, 120_000_000).fmt(),
        "2024-01-01T00:00:00.12Z"
    );
}

#[test]
fn written_timestamp_reads_back() {
    let time = DateTime::from_secs_and_nanos(1_893_456_000, 999_999_000);
    assert_eq!(DateTime::from_str(&time.fmt()), Ok(time));
}

#[test]
fn timestamps_can_be_written_for_the_years_1_to_9999() {
    assert_eq!(DateTime::from_secs(RFC3339_MIN_SECONDS).fmt(), "0001-01-01T00:00:00Z");
    assert_eq!(DateTime::from_secs(RFC3339_MAX_SECONDS).fmt(), "9999-12-31T23:59:59Z");
    assert!(DateTime::from_secs(RFC3339_MIN_SECONDS).can_format());
    assert!(DateTime::from_secs(RFC3339_MAX_SECONDS).can_format());
    assert!(!DateTime::from_secs(RFC3339_MIN_SECONDS - 1).can_format());
    assert!(!DateTime::from_secs(RFC3339_MAX_SECONDS + 1).can_format());
    assert!(!DateTime { seconds: 0, subsecond_nanos: 1_000_000_000 }.can_format());
}

#[test]
fn the_timestamp_crate_writes_exactly_the_years_1_to_9999() {
    let written = |seconds: i64, nanos: u32| {
        aws_smithy_types::DateTime::from_secs_and_nanos(seconds, nanos).fmt(Format::DateTime)
    };
    assert!(written(RFC3339_MIN_SECONDS, 0).is_ok());
    assert!(written(RFC3339_MIN_SECONDS - 1, 999_999_999).is_err());
    assert!(written(RFC3339_MAX_SECONDS, 999_999_999).is_ok());
    assert!(written(RFC3339_MAX_SECONDS + 1, 0).is_err());
    assert!(written(i64::MIN, 0).is_err());
    assert!(written(i64::MAX, 0).is_err());
}

#[test]
fn format_expiration_writes_the_expiration() {
    let profile = ShortTermProfile {
        expiration: DateTime::from_secs(86_400),
        ..Default::default()
    };
    assert_eq!(profile.format_expiration(), "1970-01-02T00:00:00Z");
}

#[test]
fn issued_credentials_make_an_identity_without_role() {
    let credentials = StsCredentials {
        access_key_id: "ASIA".to_owned(),
        secret_access_key: "secret".to_owned(),
        session_token: "token".to_owned(),
        expiration: DateTime::from_secs(42),
    };
    let identity = ShortTermProfile::try_from(Some(credentials)).unwrap();
    assert_eq!(identity.access_key, "ASIA");
    assert_eq!(identity.secret_key, "secret");
    assert_eq!(identity.session_token, "token");
    assert_eq!(identity.expiration, DateTime::from_secs(42));
    assert_eq!(identity.assumed_role_arn, None);
    assert_eq!(identity.assumed_role_id, None);
}

#[test]
fn answer_without_credentials_is_a_failed_issuance() {
    assert_eq!(
        ShortTermProfile::try_from(None).unwrap_err(),
        RunError::IssuanceFailed("Failed to extract STS credentials".to_owned())
    );
}
