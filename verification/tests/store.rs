use mfaws::creds::{CredentialsError, CredentialsHandler};
use mfaws::error::RunError;
use mfaws::profile::{DateTime, ShortTermProfile};
use mfaws::sts::config::CommonStsConfig;

const LONG_TERM: &str = "[default]\naws_access_key_id = AKIA\naws_secret_access_key = s3cr3t\naws_mfa_device = arn:aws:iam::1:mfa/me\n";

fn config(profile: &str) -> CommonStsConfig {
    CommonStsConfig {
        profile_name: profile.to_owned(),
        short_term_suffix: "short-term".to_owned(),
        ..Default::default()
    }
}

fn pairs(handler: &CredentialsHandler) -> Vec<(Option<String>, Vec<(String, String)>)> {
    handler
        .ini
        .iter()
        .map(|(name, props)| {
            (
                name.map(|name| name.to_owned()),
                props
                    .iter()
                    .map(|(key, value)| (key.to_owned(), value.to_owned()))
                    .collect(),
            )
        })
        .collect()
}

#[test]
fn resolution_returns_stored_values_verbatim() {
    let handler = CredentialsHandler::_new(LONG_TERM).unwrap();
    let profile = handler.get_long_term_profile(&config("default")).unwrap();
    assert_eq!(profile.name, "default");
    assert_eq!(profile.access_key, "AKIA");
    assert_eq!(profile.secret_key, "s3cr3t");
    assert_eq!(profile.mfa_device, "arn:aws:iam::1:mfa/me");
}

#[test]
fn mfa_device_from_outside_takes_the_place_of_the_stored_one() {
    let handler = CredentialsHandler::_new(LONG_TERM).unwrap();
    let mut conf = config("default");
    conf.mfa_device = Some("other-device".to_owned());
    let profile = handler.get_long_term_profile(&conf).unwrap();
    assert_eq!(profile.mfa_device, "other-device");
    assert_eq!(profile.access_key, "AKIA");
}

#[test]
fn resolution_errors_carry_the_profile_name() {
    let handler = CredentialsHandler::_new("[a]\nx = 1\n[b]\naws_access_key_id = 1\n").unwrap();
    assert_eq!(
        handler.get_long_term_profile(&config("missing")).unwrap_err(),
        CredentialsError::ProfileNotFound("missing".to_owned())
    );
    assert_eq!(
        handler.get_long_term_profile(&config("a")).unwrap_err(),
        CredentialsError::NoAccessKey("a".to_owned())
    );
    assert_eq!(
        handler.get_long_term_profile(&config("b")).unwrap_err(),
        CredentialsError::NoSecretKey("b".to_owned())
    );
}

#[test]
fn missing_field_is_reported_whatever_else_the_section_holds() {
    let text = "[p]\nregion = eu\naws_secret_access_key = s\naws_mfa_device = d\nother = 1\n";
    let handler = CredentialsHandler::_new(text).unwrap();
    assert_eq!(
        handler.get_long_term_profile(&config("p")).unwrap_err(),
        CredentialsError::NoAccessKey("p".to_owned())
    );
    let text = "[p]\naws_access_key_id = a\naws_secret_access_key = s\nother = 1\n";
    let handler = CredentialsHandler::_new(text).unwrap();
    assert_eq!(
        handler.get_long_term_profile(&config("p")).unwrap_err(),
        CredentialsError::NoMfaDevice("p".to_owned())
    );
}

#[test]
fn access_key_is_missed_before_the_secret_key() {
    let handler = CredentialsHandler::_new("[p]\nother = 1\n").unwrap();
    assert_eq!(
        handler.get_long_term_profile(&config("p")).unwrap_err(),
        CredentialsError::NoAccessKey("p".to_owned())
    );
}

#[test]
fn identical_duplicate_sections_are_ambiguous() {
    let text = format!("{}{}", LONG_TERM, LONG_TERM);
    let handler = CredentialsHandler::_new(&text).unwrap();
    assert_eq!(
        handler.get_long_term_profile(&config("default")).unwrap_err(),
        CredentialsError::MultipleProfilesFound("default".to_owned())
    );
}

#[test]
fn three_sections_of_one_name_are_ambiguous() {
    let handler = CredentialsHandler::_new("[p]\na = 1\n[p]\na = 2\n[q]\n[p]\na = 3\n").unwrap();
    assert_eq!(
        handler.get_long_term_profile(&config("p")).unwrap_err(),
        CredentialsError::MultipleProfilesFound("p".to_owned())
    );
}

#[test]
fn first_of_repeated_keys_is_resolved() {
    let text = "[p]\naws_access_key_id = first\naws_access_key_id = second\naws_secret_access_key = s\naws_mfa_device = d\n";
    let handler = CredentialsHandler::_new(text).unwrap();
    let profile = handler.get_long_term_profile(&config("p")).unwrap();
    assert_eq!(profile.access_key, "first");
}

#[test]
fn malformed_text_is_a_parse_error() {
    let loaded = CredentialsHandler::_new("[unclosed\nkey = 1\n");
    assert!(matches!(loaded, Err(RunError::StoreParseError(_))));
}

#[test]
fn get_profile_hands_out_every_section_of_a_name() {
    let handler = CredentialsHandler::_new("[p]\na = 1\n[q]\na = 0\n[p]\na = 2\n[p]\n").unwrap();
    let found = handler.get_profile("p");
    let values: Vec<Option<&str>> = found.iter().map(|props| props.get("a")).collect();
    assert_eq!(values, vec![Some("1"), Some("2"), None]);
    assert_eq!(handler.get_profile("q").len(), 1);
    assert_eq!(handler.get_profile("q")[0].get("a"), Some("0"));
    assert!(handler.get_profile("r").is_empty());
}

#[test]
fn get_field_finds_the_value_of_the_only_section() {
    let handler = CredentialsHandler::_new("[p]\na = 1\na = 2\n[q]\nb = 3\n").unwrap();
    assert_eq!(handler.get_field("p", "a"), Some("1".to_owned()));
    assert_eq!(handler.get_field("q", "b"), Some("3".to_owned()));
    assert_eq!(handler.get_field("q", "a"), None);
    assert_eq!(handler.get_field("r", "a"), None);
}

#[test]
fn get_field_picks_none_of_several_sections() {
    let handler = CredentialsHandler::_new("[p]\na = 1\n[p]\na = 1\n").unwrap();
    assert_eq!(handler.get_field("p", "a"), None);
}

#[test]
fn writer_failure_is_passed_on() {
    let handler = CredentialsHandler::_new(LONG_TERM).unwrap();
    assert_eq!(
        handler.written_or_refused(Err("broken pipe".to_owned())).unwrap_err(),
        RunError::StoreIoError("broken pipe".to_owned())
    );
}

#[test]
fn bytes_that_read_back_are_handed_out_unchanged() {
    let handler = CredentialsHandler::_new(LONG_TERM).unwrap();
    let bytes = b"\n\n[default]\naws_access_key_id=AKIA\naws_secret_access_key=s3cr3t\naws_mfa_device=arn:aws:iam::1:mfa/me".to_vec();
    assert_eq!(handler.written_or_refused(Ok(bytes.clone())).unwrap(), bytes);
}

#[test]
fn bytes_that_read_back_otherwise_are_refused() {
    let handler = CredentialsHandler::_new(LONG_TERM).unwrap();
    let refused = RunError::StoreIoError("the credentials would not read back as they are".to_owned());
    for bytes in [
        b"[default]\naws_access_key_id = AKIA\n".to_vec(),
        b"".to_vec(),
        b"[unclosed".to_vec(),
        vec![0xFF],
        format!("{}[more]\n", LONG_TERM).into_bytes(),
    ] {
        assert_eq!(handler.written_or_refused(Ok(bytes)).unwrap_err(), refused);
    }
}

fn identity(arn: Option<&str>, id: Option<&str>) -> ShortTermProfile {
    ShortTermProfile {
        access_key: "ASIA".to_owned(),
        secret_key: "temp-secret".to_owned(),
        session_token: "token".to_owned(),
        expiration: DateTime::from_secs(1_704_067_200),
        assumed_role_id: id.map(|id| id.to_owned()),
        assumed_role_arn: arn.map(|arn| arn.to_owned()),
    }
}

#[test]
fn short_term_profile_is_written_field_by_field() {
    let mut handler = CredentialsHandler::_new(LONG_TERM).unwrap();
    handler.set_short_term_profile(&identity(Some("role-arn"), Some("role-id")), "default-short-term");
    let section = handler.ini.section(Some("default-short-term")).unwrap();
    assert_eq!(section.get("assumed_role_arn"), Some("role-arn"));
    assert_eq!(section.get("assumed_role_id"), Some("role-id"));
    assert_eq!(section.get("expiration"), Some("2024-01-01T00:00:00Z"));
    assert_eq!(section.get("aws_access_key_id"), Some("ASIA"));
    assert_eq!(section.get("aws_secret_access_key"), Some("temp-secret"));
    assert_eq!(section.get("aws_session_token"), Some("token"));
    assert_eq!(section.len(), 6);
}

#[test]
fn writing_a_short_term_profile_leaves_other_sections_alone() {
    let mut handler = CredentialsHandler::_new(LONG_TERM).unwrap();
    let before = pairs(&handler);
    handler.set_short_term_profile(&identity(None, None), "default-short-term");
    let after = pairs(&handler);
    assert_eq!(after.len(), before.len() + 1);
    assert_eq!(&after[..before.len()], &before[..]);
    assert_eq!(after[before.len()].0.as_deref(), Some("default-short-term"));
}

#[test]
fn session_token_keeps_assumed_role_of_earlier_write() {
    let mut handler = CredentialsHandler::_new("").unwrap();
    handler.set_short_term_profile(&identity(Some("role-arn"), Some("role-id")), "slot");
    let mut later = identity(None, None);
    later.access_key = "ASIA2".to_owned();
    handler.set_short_term_profile(&later, "slot");
    let section = handler.ini.section(Some("slot")).unwrap();
    assert_eq!(section.get("assumed_role_arn"), Some("role-arn"));
    assert_eq!(section.get("assumed_role_id"), Some("role-id"));
    assert_eq!(section.get("aws_access_key_id"), Some("ASIA2"));
    assert_eq!(section.get_all("aws_access_key_id").count(), 1);
}

#[test]
fn rewritten_field_replaces_every_earlier_value() {
    let text = "[slot]\naws_access_key_id = old1\nkeep = me\naws_access_key_id = old2\n";
    let mut handler = CredentialsHandler::_new(text).unwrap();
    handler.set_short_term_profile(&identity(None, None), "slot");
    let section = handler.ini.section(Some("slot")).unwrap();
    let written: Vec<(&str, &str)> = section.iter().collect();
    assert_eq!(
        written,
        vec![
            ("keep", "me"),
            ("expiration", "2024-01-01T00:00:00Z"),
            ("aws_access_key_id", "ASIA"),
            ("aws_secret_access_key", "temp-secret"),
            ("aws_session_token", "token"),
        ]
    );
}

#[test]
fn write_goes_to_the_first_of_repeated_sections() {
    let mut handler = CredentialsHandler::_new("[slot]\na = 1\n[other]\n[slot]\na = 2\n").unwrap();
    handler.set_short_term_profile(&identity(None, None), "slot");
    let sections = pairs(&handler);
    let slots: Vec<&Vec<(String, String)>> = sections
        .iter()
        .filter(|(name, _)| name.as_deref() == Some("slot"))
        .map(|(_, props)| props)
        .collect();
    assert_eq!(slots.len(), 2);
    assert_eq!(slots[0].len(), 5);
    assert_eq!(slots[1], &vec![("a".to_owned(), "2".to_owned())]);
}

#[test]
fn round_trip_keeps_sections_field_for_field() {
    let text = "top = 1\n[default]\naws_access_key_id = AKIA\naws_secret_access_key = s3cr3t\n\n[default-short-term]\nexpiration = 2024-01-01T00:00:00Z\naws_session_token = a/b+c=\n[default]\nagain = 2\n";
    let loaded = CredentialsHandler::_new(text).unwrap();
    let written = String::from_utf8(loaded.serialize().unwrap()).unwrap();
    let reloaded = CredentialsHandler::_new(&written).unwrap();
    assert_eq!(pairs(&loaded), pairs(&reloaded));
    assert_eq!(pairs(&loaded).len(), 4);
}

#[test]
fn serialize_writes_sections_in_order() {
    let handler = CredentialsHandler::_new("[b]\nx=1\n[a]\ny=2\n").unwrap();
    let written = String::from_utf8(handler.serialize().unwrap()).unwrap();
    let lines: Vec<&str> = written.lines().filter(|line| !line.is_empty()).collect();
    assert_eq!(lines, vec!["[b]", "x=1", "[a]", "y=2"]);
}

#[test]
fn profiles_are_listed_once_each() {
    let handler = CredentialsHandler::_new("g = 1\n[b]\n[a]\n[b]\n").unwrap();
    let mut names = handler.profiles();
    names.sort();
    assert_eq!(names, vec!["a".to_owned(), "b".to_owned()]);
}

#[test]
fn delete_profiles_removes_every_section_of_a_name() {
    let mut handler = CredentialsHandler::_new("[a]\nx = 1\n[b]\n[a]\nx = 2\n[c]\n").unwrap();
    handler.delete_profiles(&vec!["a".to_owned(), "missing".to_owned()]);
    let left: Vec<Option<String>> = pairs(&handler).into_iter().map(|(name, _)| name).collect();
    assert_eq!(left, vec![None, Some("b".to_owned()), Some("c".to_owned())]);
}

#[test]
fn validity_is_none_without_expiration() {
    let handler = CredentialsHandler::_new("[slot]\naws_access_key_id = 1\n").unwrap();
    let now = DateTime::from_secs(1_700_000_000);
    assert_eq!(handler.is_profile_still_valid_at("slot", now), None);
    assert_eq!(handler.is_profile_still_valid_at("absent", now), None);
    assert_eq!(handler.is_profile_still_valid("slot"), None);
}

#[test]
fn validity_is_none_for_unreadable_expiration() {
    let now = DateTime::from_secs(1_700_000_000);
    for text in [
        "[slot]\nexpiration = tomorrow\n",
        "[slot]\nexpiration = 2024-01-01T00:00:00+01:00\n",
        "[slot]\nexpiration = 2024-01-01 00:00:00Z\n",
        "[slot]\nexpiration =\n",
    ] {
        let handler = CredentialsHandler::_new(text).unwrap();
        assert_eq!(handler.is_profile_still_valid_at("slot", now), None);
    }
}

#[test]
fn validity_is_none_for_past_expiration() {
    let handler = CredentialsHandler::_new("[slot]\nexpiration = 2024-01-01T00:00:00Z\n").unwrap();
    let now = DateTime::from_secs_and_nanos(1_704_067_200, 1);
    assert_eq!(handler.is_profile_still_valid_at("slot", now), None);
    assert_eq!(handler.is_profile_still_valid("slot"), None);
}

#[test]
fn validity_is_the_time_left_for_future_expiration() {
    let handler = CredentialsHandler::_new("[slot]\nexpiration = 2024-01-01T00:00:00Z\n").unwrap();
    let now = DateTime::from_secs(1_704_067_200 - 3_661);
    assert_eq!(
        handler.is_profile_still_valid_at("slot", now),
        Some("1h 1m 1s".to_owned())
    );
    let now = DateTime::from_secs_and_nanos(1_704_067_200 - 60, 500_000_000);
    assert_eq!(handler.is_profile_still_valid_at("slot", now), Some("59s".to_owned()));
}

#[test]
fn validity_is_empty_text_under_one_second() {
    let handler = CredentialsHandler::_new("[slot]\nexpiration = 2024-01-01T00:00:00Z\n").unwrap();
    let now = DateTime::from_secs_and_nanos(1_704_067_199, 1);
    assert_eq!(handler.is_profile_still_valid_at("slot", now), Some(String::new()));
    let now = DateTime::from_secs(1_704_067_200);
    assert_eq!(handler.is_profile_still_valid_at("slot", now), Some(String::new()));
}

#[test]
fn validity_by_the_clock_for_far_future_expiration() {
    let handler = CredentialsHandler::_new("[slot]\nexpiration = 9999-12-31T23:59:59Z\n").unwrap();
    let left = handler.is_profile_still_valid("slot").unwrap();
    assert!(left.ends_with('s') || left.ends_with('m') || left.ends_with('h'));
    assert!(left.contains('h'));
}

#[test]
fn validity_is_none_for_a_profile_held_more_than_once() {
    let text = "[slot]\nexpiration = 2034-01-01T00:00:00Z\n[slot]\nexpiration = 2034-01-01T00:00:00Z\n";
    let handler = CredentialsHandler::_new(text).unwrap();
    let now = DateTime::from_secs(1_704_067_200);
    assert_eq!(handler.is_profile_still_valid_at("slot", now), None);
    assert_eq!(handler.is_profile_still_valid("slot"), None);
    let text = "[slot]\nexpiration = 2034-01-01T00:00:00Z\n[slot]\n";
    let handler = CredentialsHandler::_new(text).unwrap();
    assert_eq!(handler.is_profile_still_valid_at("slot", now), None);
    let text = "[slot]\nexpiration = 2034-01-01T00:00:00Z\n";
    let handler = CredentialsHandler::_new(text).unwrap();
    assert!(handler.is_profile_still_valid_at("slot", now).is_some());
}

#[test]
fn store_is_read_from_bytes() {
    let handler = CredentialsHandler::from_bytes(LONG_TERM.as_bytes()).unwrap();
    assert!(handler.same_as(&CredentialsHandler::_new(LONG_TERM).unwrap()));
    assert_eq!(pairs(&handler).len(), 2);
}

#[test]
fn byte_order_mark_is_passed_over() {
    let mut bytes = vec![0xEF, 0xBB, 0xBF];
    bytes.extend_from_slice(b"[a]\nx = 1\n");
    let handler = CredentialsHandler::from_bytes(&bytes).unwrap();
    assert_eq!(
        pairs(&handler),
        vec![
            (None, vec![]),
            (Some("a".to_owned()), vec![("x".to_owned(), "1".to_owned())])
        ]
    );
    let short = CredentialsHandler::from_bytes(&[0xEF, 0xBB]);
    assert!(matches!(short, Err(RunError::StoreIoError(_))));
}

#[test]
fn bytes_that_are_no_text_fail_as_a_read() {
    let loaded = CredentialsHandler::from_bytes(&[b'[', b'a', b']', 0xFF, 0xFE]);
    match loaded {
        Err(error) => assert_eq!(
            error,
            RunError::StoreIoError("stream did not contain valid UTF-8".to_owned())
        ),
        Ok(_) => panic!("invalid bytes were read"),
    }
}

#[test]
fn malformed_bytes_are_a_parse_error() {
    let loaded = CredentialsHandler::from_bytes(b"[unclosed\n");
    assert!(matches!(loaded, Err(RunError::StoreParseError(_))));
}

#[test]
fn same_as_compares_sections_pair_by_pair() {
    let one = CredentialsHandler::_new("[a]\nx = 1\ny = 2\n[b]\n").unwrap();
    assert!(one.same_as(&CredentialsHandler::_new("[a]\nx=1\ny=2\n\n[b]\n").unwrap()));
    assert!(!one.same_as(&CredentialsHandler::_new("[a]\ny = 2\nx = 1\n[b]\n").unwrap()));
    assert!(!one.same_as(&CredentialsHandler::_new("[a]\nx = 1\ny = 3\n[b]\n").unwrap()));
    assert!(!one.same_as(&CredentialsHandler::_new("[a]\nx = 1\ny = 2\n").unwrap()));
    assert!(!one.same_as(&CredentialsHandler::_new("[b]\n[a]\nx = 1\ny = 2\n").unwrap()));
    assert!(!one.same_as(&CredentialsHandler::_new("[a]\nx = 1\n[b]\ny = 2\n").unwrap()));
    assert!(!one.same_as(&CredentialsHandler::_new("[a]\nx = 1\ny = 2\n[c]\n").unwrap()));
}

#[test]
fn serialized_store_reads_back_as_itself() {
    let mut handler = CredentialsHandler::_new(LONG_TERM).unwrap();
    handler.set_short_term_profile(&identity(Some("arn:aws:iam::1:role/x"), None), "default-short-term");
    let bytes = handler.serialize().unwrap();
    let read = CredentialsHandler::from_bytes(&bytes).unwrap();
    assert!(read.same_as(&handler));
    assert_eq!(pairs(&read), pairs(&handler));
}

#[test]
fn store_that_would_not_read_back_is_not_written() {
    let mut handler = CredentialsHandler::_new(LONG_TERM).unwrap();
    handler.set_field("default", "padded", "  value  ");
    assert_eq!(
        handler.serialize().unwrap_err(),
        RunError::StoreIoError("the credentials would not read back as they are".to_owned())
    );
}

#[test]
fn set_field_makes_the_section_or_replaces_the_value() {
    let mut handler = CredentialsHandler::_new("[a]\nx = 1\n").unwrap();
    handler.set_field("a", "x", "2");
    handler.set_field("a", "y", "3");
    handler.set_field("b", "z", "4");
    assert_eq!(
        pairs(&handler),
        vec![
            (None, vec![]),
            (
                Some("a".to_owned()),
                vec![("x".to_owned(), "2".to_owned()), ("y".to_owned(), "3".to_owned())]
            ),
            (Some("b".to_owned()), vec![("z".to_owned(), "4".to_owned())]),
        ]
    );
}

#[test]
fn sections_hands_out_every_match_up_to_the_limit() {
    let handler = CredentialsHandler::_new("[p]\na = 1\n[q]\n[p]\na = 2\n[p]\na = 3\n").unwrap();
    let all = handler.sections("p", usize::MAX);
    let values: Vec<Option<&str>> = all.iter().map(|props| props.get("a")).collect();
    assert_eq!(values, vec![Some("1"), Some("2"), Some("3")]);
    assert_eq!(handler.sections("p", 2).len(), 2);
    assert_eq!(handler.sections("p", 0).len(), 0);
    assert_eq!(handler.sections("q", 2).len(), 1);
    assert_eq!(handler.sections("r", 2).len(), 0);
}
