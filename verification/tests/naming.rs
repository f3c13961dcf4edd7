use mfaws::sts::assume_role::{AssumeRole, ASSUME_ROLE_DEFAULT_DURATION};
use mfaws::sts::config::CommonStsConfig;
use mfaws::sts::session_token::{SessionToken, SESSION_TOKEN_DEFAULT_DURATION};
use mfaws::sts::ShortTermCredentials;

#[test]
fn session_token_session_token_st_profile_name() {
    let cmd = SessionToken {
        config: CommonStsConfig {
            profile_name: "test".to_string(),
            short_term_suffix: "short-term".to_string(),
            ..Default::default()
        },
    };

    assert_eq!(cmd.short_profile_name(), "test-short-term");
}

#[test]
fn sts_session_token_st_profile_name() {
    let cmd = SessionToken {
        config: CommonStsConfig {
            profile_name: "test".to_string(),
            short_term_suffix: "short-term".to_string(),
            ..Default::default()
        },
    };

    assert_eq!(cmd.short_profile_name(), "test-short-term");
}

#[test]
fn assume_role_st_profile_name() {
    let cmd = AssumeRole {
        role_arn: "arn:aws:sts::462440:assumed-role/test-role".to_string(),
        role_name: "mfa-user".to_string(),
        config: CommonStsConfig {
            profile_name: "test".to_string(),
            short_term_suffix: "short-term".to_string(),
            ..Default::default()
        },
    };
    assert_eq!(
        cmd.short_profile_name(),
        "test_462440-assumed-role-test-role-mfa-user_short-term"
    );
}

#[test]
fn short_profile_name() {
    let cmd = SessionToken {
        config: CommonStsConfig {
            profile_name: "test".to_string(),
            short_term_suffix: "short-term".to_string(),
            ..Default::default()
        },
    };

    assert_eq!(cmd.short_profile_name(), "test-short-term");
}

#[test]
fn validate_profile_name() {
    let mut config = CommonStsConfig {
        profile_name: "default".to_string(),
        short_term_suffix: "short-term".to_string(),
        ..Default::default()
    };

    assert!(config.validate_profile_name().is_ok());

    config.profile_name = "xshort-term".to_string();
    assert!(config.validate_profile_name().is_err());
}

fn assume_role(role_arn: &str) -> AssumeRole {
    AssumeRole {
        role_arn: role_arn.to_string(),
        role_name: "mfa-user".to_string(),
        config: CommonStsConfig {
            profile_name: "test".to_string(),
            short_term_suffix: "short-term".to_string(),
            ..Default::default()
        },
    }
}

#[test]
fn arn_with_four_separators_or_fewer_leaves_no_tail() {
    assert_eq!(assume_role("").short_profile_name(), "test_-mfa-user_short-term");
    assert_eq!(assume_role("role").short_profile_name(), "test_-mfa-user_short-term");
    assert_eq!(assume_role("a:b:c:d").short_profile_name(), "test_-mfa-user_short-term");
    assert_eq!(assume_role("a:b:c:d:").short_profile_name(), "test_-mfa-user_short-term");
}

#[test]
fn arn_tail_keeps_empty_segments() {
    assert_eq!(assume_role("a:b:c:d:e").short_profile_name(), "test_e-mfa-user_short-term");
    assert_eq!(assume_role("a:b:c:d::").short_profile_name(), "test_--mfa-user_short-term");
    assert_eq!(assume_role("a:b:c:d:e/").short_profile_name(), "test_e--mfa-user_short-term");
    assert_eq!(assume_role("a/b/c/d/e//f").short_profile_name(), "test_e--f-mfa-user_short-term");
}

#[test]
fn arn_is_split_at_colons_and_slashes_alike() {
    assert_eq!(
        assume_role("arn:aws:iam::123456789012:role/path/to/Admin").short_profile_name(),
        "test_123456789012-role-path-to-Admin-mfa-user_short-term"
    );
    assert_eq!(
        assume_role("arn/aws/iam//1:r\u{e9}le").short_profile_name(),
        "test_1-r\u{e9}le-mfa-user_short-term"
    );
}

#[test]
fn short_term_names_end_with_the_suffix() {
    let suffix = "short-term";
    assert!(assume_role("arn:aws:iam::1:role/x").short_profile_name().ends_with(suffix));
    let cmd = SessionToken {
        config: CommonStsConfig {
            profile_name: "p".to_string(),
            short_term_suffix: suffix.to_string(),
            ..Default::default()
        },
    };
    assert!(cmd.short_profile_name().ends_with(suffix));
}

#[test]
fn default_durations() {
    assert_eq!(AssumeRole::DEFAULT_DURATION, 3600);
    assert_eq!(SessionToken::DEFAULT_DURATION, 43200);
    assert_eq!(ASSUME_ROLE_DEFAULT_DURATION, 3600);
    assert_eq!(SESSION_TOKEN_DEFAULT_DURATION, 43200);
}

#[test]
fn profile_name_that_ends_with_the_suffix_is_refused() {
    let mut config = CommonStsConfig {
        profile_name: "default-short-term".to_string(),
        short_term_suffix: "short-term".to_string(),
        ..Default::default()
    };
    let before = config.clone();
    let error = config.init().unwrap_err();
    assert_eq!(error.message(), "Profile name cannot end with the short-term suffix");
    assert_eq!(config.profile_name, before.profile_name);

    config.profile_name = "short-term".to_string();
    assert!(config.init().is_err());
    config.profile_name = "hort-term".to_string();
    assert!(config.init().is_ok());
    config.profile_name = "short-term-x".to_string();
    assert!(config.init().is_ok());
}

#[test]
fn empty_suffix_ends_every_profile_name() {
    let mut config = CommonStsConfig {
        profile_name: "default".to_string(),
        ..Default::default()
    };
    assert!(config.init().is_err());
    config.profile_name = String::new();
    assert!(config.validate_profile_name().is_err());
}
