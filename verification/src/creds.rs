//! The credentials store and the resolution of the long-term profile.

use crate::error::{RunError, RunErrorView};
use crate::keys;
use crate::keys::lemma_keys_differ;
use crate::profile::{
    DateTime, LongTermProfile, LongTermProfileView, ShortTermProfile, ShortTermProfileView,
    formatted_timestamp, option_text, parsed_timestamp,
};
use crate::store::{
    Sections, contents, delete, field, first_value, has_name, ini_sections,
    lemma_lookup_after_set, lemma_named_elsewhere_after_set, lemma_without_names_twice,
    lemma_without_nothing, lemma_without_section, load_from_str, lookup, name_texts, named,
    pair_texts, parse_error_text, parsed_sections, properties_pairs, property, section_names,
    section_texts, sections_named, set_to, with_property, without_names, write_to_buffer,
};
use crate::text::{
    from_utf8, lemma_not_seen_before, lemma_push_contains, lemma_push_no_duplicates, texts,
};
use vstd::slice::slice_subrange;
use vstd::utf8::{decode_utf8, valid_utf8};
use crate::sts::config::CommonStsConfig;
use crate::utils::{lemma_remaining_text, remaining_at, remaining_text};
use ini::{Ini, Properties};
use vstd::prelude::*;

verus! {

/// Why a long-term profile could not be resolved. Each kind names the
/// profile that was asked for.
#[derive(Debug, Clone, PartialEq)]
pub enum CredentialsError {
    NoAccessKey(String),
    NoSecretKey(String),
    NoMfaDevice(String),
    ProfileNotFound(String),
    MultipleProfilesFound(String),
}

/// What a `CredentialsError` holds, as plain text.
pub enum CredentialsErrorView {
    NoAccessKey(Seq<char>),
    NoSecretKey(Seq<char>),
    NoMfaDevice(Seq<char>),
    ProfileNotFound(Seq<char>),
    MultipleProfilesFound(Seq<char>),
}

impl View for CredentialsError {
    type V = CredentialsErrorView;

    open spec fn view(&self) -> CredentialsErrorView {
        match self {
            CredentialsError::NoAccessKey(name) => CredentialsErrorView::NoAccessKey(name@),
            CredentialsError::NoSecretKey(name) => CredentialsErrorView::NoSecretKey(name@),
            CredentialsError::NoMfaDevice(name) => CredentialsErrorView::NoMfaDevice(name@),
            CredentialsError::ProfileNotFound(name) => CredentialsErrorView::ProfileNotFound(name@),
            CredentialsError::MultipleProfilesFound(name) => {
                CredentialsErrorView::MultipleProfilesFound(name@)
            },
        }
    }
}

impl CredentialsErrorView {
    /// The message under which the failure is reported.
    pub open spec fn message(self) -> Seq<char> {
        match self {
            CredentialsErrorView::NoAccessKey(name) => "No access key found for \""@ + name + "\""@,
            CredentialsErrorView::NoSecretKey(name) => "No secret key found for \""@ + name + "\""@,
            CredentialsErrorView::NoMfaDevice(name) => "No MFA device found for \""@ + name + "\""@,
            CredentialsErrorView::ProfileNotFound(name) => "Profile \""@ + name + "\" not found"@,
            CredentialsErrorView::MultipleProfilesFound(name) => "Multiple profiles found for \""@
                + name + "\""@,
        }
    }
}

/// `before`, then `name`, then `after`.
fn around(before: &str, name: &String, after: &str) -> (text: String)
    ensures
        text@ == before@ + name@ + after@,
{
    let mut text = String::from_str(before);
    text.append(name.as_str());
    text.append(after);
    text
}

impl CredentialsError {
    /// The message under which the failure is reported.
    pub fn message(&self) -> (text: String)
        ensures
            text@ == self@.message(),
    {
        match self {
            CredentialsError::NoAccessKey(name) => around("No access key found for \"", name, "\""),
            CredentialsError::NoSecretKey(name) => around("No secret key found for \"", name, "\""),
            CredentialsError::NoMfaDevice(name) => around("No MFA device found for \"", name, "\""),
            CredentialsError::ProfileNotFound(name) => around("Profile \"", name, "\" not found"),
            CredentialsError::MultipleProfilesFound(name) => around(
                "Multiple profiles found for \"",
                name,
                "\"",
            ),
        }
    }
}

/// What resolving the long-term profile `profile` gives on `sections`, with
/// `mfa_override` taking the place of a stored MFA device where it is given.
pub open spec fn resolve(
    sections: Sections,
    profile: Seq<char>,
    mfa_override: Option<Seq<char>>,
) -> Result<LongTermProfileView, CredentialsErrorView> {
    let found = named(sections, profile);
    if found.len() == 0 {
        Err(CredentialsErrorView::ProfileNotFound(profile))
    } else if found.len() > 1 {
        Err(CredentialsErrorView::MultipleProfilesFound(profile))
    } else if first_value(found[0], keys::ACCESS_KEY@) is None {
        Err(CredentialsErrorView::NoAccessKey(profile))
    } else if first_value(found[0], keys::SECRET_KEY@) is None {
        Err(CredentialsErrorView::NoSecretKey(profile))
    } else if mfa_override is None && first_value(found[0], keys::MFA_DEVICE@) is None {
        Err(CredentialsErrorView::NoMfaDevice(profile))
    } else {
        Ok(
            LongTermProfileView {
                name: profile,
                access_key: first_value(found[0], keys::ACCESS_KEY@)->0,
                secret_key: first_value(found[0], keys::SECRET_KEY@)->0,
                mfa_device: if mfa_override is Some {
                    mfa_override->0
                } else {
                    first_value(found[0], keys::MFA_DEVICE@)->0
                },
            },
        )
    }
}

/// The expiration that the store holds for the profile `name`: what its
/// section has under the expiration key, where that reads as a timestamp.
/// A profile that stands in the store more than once has none: of several
/// sections none is picked.
pub open spec fn cached_expiration(sections: Sections, name: Seq<char>) -> Option<DateTime> {
    match field(sections, name, keys::EXPIRATION@) {
        Some(text) => match parsed_timestamp(text) {
            Some(parts) => Some(DateTime { seconds: parts.0, subsecond_nanos: parts.1 }),
            None => None,
        },
        None => None,
    }
}

/// For how long the profile `name` of the store is still valid at `now`, as a
/// compact text; none where it has no expiration that can be read, where
/// that has passed, or where the store holds the profile more than once.
pub open spec fn validity_at(sections: Sections, name: Seq<char>, now: DateTime) -> Option<
    Seq<char>,
> {
    match cached_expiration(sections, name) {
        Some(expiration) => remaining_text(expiration, now),
        None => None,
    }
}

/// `sections` after `value` was set under `key` in section `name`, if there
/// is a value; `sections` otherwise.
pub open spec fn with_optional_property(
    sections: Sections,
    name: Seq<char>,
    key: Seq<char>,
    value: Option<Seq<char>>,
) -> Sections {
    match value {
        Some(value) => with_property(sections, name, key, value),
        None => sections,
    }
}

/// The store after the short-term identity `profile` was written to the
/// section `name`. The assumed role's fields are set only where the identity
/// has them; the expiration and the key triple are always set. Everything
/// else in the store stays.
pub open spec fn merged(
    sections: Sections,
    name: Seq<char>,
    profile: ShortTermProfileView,
) -> Sections {
    let with_arn = with_optional_property(
        sections,
        name,
        keys::ASSUMED_ROLE_ARN@,
        profile.assumed_role_arn,
    );
    let with_id = with_optional_property(
        with_arn,
        name,
        keys::ASSUMED_ROLE_ID@,
        profile.assumed_role_id,
    );
    let with_expiration = with_property(
        with_id,
        name,
        keys::EXPIRATION@,
        formatted_timestamp(profile.expiration.seconds, profile.expiration.subsecond_nanos),
    );
    let with_access_key = with_property(
        with_expiration,
        name,
        keys::ACCESS_KEY@,
        profile.access_key,
    );
    let with_secret_key = with_property(
        with_access_key,
        name,
        keys::SECRET_KEY@,
        profile.secret_key,
    );
    with_property(with_secret_key, name, keys::SESSION_TOKEN@, profile.session_token)
}

/// Whether `bytes` begin with the UTF-8 byte order mark.
pub open spec fn has_byte_order_mark(bytes: Seq<u8>) -> bool {
    bytes.len() >= 3 && bytes[0] == 0xEF && bytes[1] == 0xBB && bytes[2] == 0xBF
}

/// What of a file's bytes is its text: everything behind a byte order mark,
/// or everything where there is none.
pub open spec fn without_byte_order_mark(bytes: Seq<u8>) -> Seq<u8> {
    if has_byte_order_mark(bytes) {
        bytes.subrange(3, bytes.len() as int)
    } else {
        bytes
    }
}

/// The message of a credentials file that is no text.
pub open spec fn not_text_message() -> Seq<char> {
    "stream did not contain valid UTF-8"@
}

/// The text that the bytes of a file hold, or none where they are no UTF-8
/// text. A byte order mark at the start is no part of the text.
pub open spec fn file_text(bytes: Seq<u8>) -> Option<Seq<char>> {
    if valid_utf8(without_byte_order_mark(bytes)) {
        Some(decode_utf8(without_byte_order_mark(bytes)))
    } else {
        None
    }
}

/// The sections that the bytes of a credentials file hold, or none where
/// the bytes are no text or the text is no well-formed document.
pub open spec fn stored(bytes: Seq<u8>) -> Option<Sections> {
    match file_text(bytes) {
        Some(text) => parsed_sections(text),
        None => None,
    }
}

/// The message of a store whose text would not read back as the store.
pub open spec fn not_kept_message() -> Seq<char> {
    "the credentials would not read back as they are"@
}

/// What reading the bytes of a credentials file gives: the sections that
/// the bytes hold; or, where they hold none, a read failure for bytes that
/// are no text and a parse failure for a text that is no document.
pub open spec fn read_from(bytes: Seq<u8>, read: Result<Sections, RunErrorView>) -> bool {
    match read {
        Ok(sections) => stored(bytes) == Some(sections),
        Err(error) => stored(bytes) is None && match file_text(bytes) {
            Some(text) => error is StoreParseError,
            None => error == RunErrorView::StoreIoError(not_text_message()),
        },
    }
}

/// What becomes of the writer's result `written` for the store `sections`:
/// a failure of the writer is passed on; bytes are handed out as they are
/// if they read back as the store, and are refused if they do not.
pub open spec fn kept_or_refused(
    sections: Sections,
    written: Result<Seq<u8>, Seq<char>>,
) -> Result<Seq<u8>, RunErrorView> {
    match written {
        Err(message) => Err(RunErrorView::StoreIoError(message)),
        Ok(bytes) => if stored(bytes) == Some(sections) {
            Ok(bytes)
        } else {
            Err(RunErrorView::StoreIoError(not_kept_message()))
        },
    }
}

/// The view of a store that was read, or of the failure to read it.
pub open spec fn read_view(read: Result<CredentialsHandler, RunError>) -> Result<
    Sections,
    RunErrorView,
> {
    match read {
        Ok(handler) => Ok(handler@),
        Err(error) => Err(error@),
    }
}

/// The view of written bytes, or of the writer's failure.
pub open spec fn written_view(written: Result<Vec<u8>, String>) -> Result<Seq<u8>, Seq<char>> {
    match written {
        Ok(bytes) => Ok(bytes@),
        Err(message) => Err(message@),
    }
}

/// The view of bytes that are handed out, or of the failure to do so.
pub open spec fn bytes_view(out: Result<Vec<u8>, RunError>) -> Result<Seq<u8>, RunErrorView> {
    match out {
        Ok(bytes) => Ok(bytes@),
        Err(error) => Err(error@),
    }
}

/// Whether two lists of pairs hold the same text.
fn same_pairs(left: &Vec<(String, String)>, right: &Vec<(String, String)>) -> (same: bool)
    ensures
        same == (pair_texts(left@) == pair_texts(right@)),
{
    if left.len() != right.len() {
        return false;
    }
    let mut i: usize = 0;
    while i < left.len()
        invariant
            i <= left.len(),
            left.len() == right.len(),
            forall|j: int| 0 <= j < i ==> pair_texts(left@)[j] == pair_texts(right@)[j],
        decreases left.len() - i,
    {
        if !(left[i].0 == right[i].0 && left[i].1 == right[i].1) {
            assert(pair_texts(left@)[i as int] != pair_texts(right@)[i as int]);
            return false;
        }
        i += 1;
    }
    assert(pair_texts(left@) =~= pair_texts(right@));
    true
}

/// Whether two names are the same text, or both none.
fn same_name(left: &Option<String>, right: &Option<String>) -> (same: bool)
    ensures
        same == (option_text(*left) == option_text(*right)),
{
    match (left, right) {
        (Some(left), Some(right)) => *left == *right,
        (None, None) => true,
        _ => false,
    }
}

/// Whether two lists of sections hold the same text.
fn same_sections(
    left: &Vec<(Option<String>, Vec<(String, String)>)>,
    right: &Vec<(Option<String>, Vec<(String, String)>)>,
) -> (same: bool)
    ensures
        same == (section_texts(left@) == section_texts(right@)),
{
    if left.len() != right.len() {
        return false;
    }
    let mut i: usize = 0;
    while i < left.len()
        invariant
            i <= left.len(),
            left.len() == right.len(),
            forall|j: int| 0 <= j < i ==> section_texts(left@)[j] == section_texts(right@)[j],
        decreases left.len() - i,
    {
        if !(same_name(&left[i].0, &right[i].0) && same_pairs(&left[i].1, &right[i].1)) {
            assert(section_texts(left@)[i as int] != section_texts(right@)[i as int]);
            return false;
        }
        i += 1;
    }
    assert(section_texts(left@) =~= section_texts(right@));
    true
}

/// The credentials store: the sections of one credentials file, held in
/// memory for the length of a run.
pub struct CredentialsHandler {
    /// The document that holds the sections.
    pub ini: Ini,
}

impl View for CredentialsHandler {
    type V = Sections;

    open spec fn view(&self) -> Sections {
        ini_sections(self.ini)
    }
}

impl CredentialsHandler {
    /// Reads a store out of the text of a credentials file.
    pub fn _new(buf: &str) -> (loaded: Result<CredentialsHandler, RunError>)
        ensures
            match loaded {
                Ok(handler) => parsed_sections(buf@) == Some(handler@),
                Err(error) => parsed_sections(buf@) is None && error@ is StoreParseError,
            },
    {
        match load_from_str(buf) {
            Ok(ini) => Ok(CredentialsHandler { ini }),
            Err(error) => Err(RunError::StoreParseError(parse_error_text(&error))),
        }
    }

    /// Reads a store out of the bytes of a credentials file. A byte order
    /// mark at the start is passed over. Bytes that are no text fail as a
    /// read does; a text that is no well-formed document fails as a parse
    /// error, with the parser's description.
    pub fn from_bytes(bytes: &[u8]) -> (read: Result<CredentialsHandler, RunError>)
        ensures
            read_from(bytes@, read_view(read)),
    {
        let with_mark = bytes.len() >= 3 && bytes[0] == 0xEF && bytes[1] == 0xBB && bytes[2]
            == 0xBF;
        let content = if with_mark {
            slice_subrange(bytes, 3, bytes.len())
        } else {
            bytes
        };
        match from_utf8(content) {
            Some(text) => CredentialsHandler::_new(text),
            None => Err(
                RunError::StoreIoError(String::from_str("stream did not contain valid UTF-8")),
            ),
        }
    }

    /// Whether `other` holds the same sections with the same pairs, in the
    /// same order.
    pub fn same_as(&self, other: &CredentialsHandler) -> (same: bool)
        ensures
            same == (self@ == other@),
    {
        same_sections(&contents(&self.ini), &contents(&other.ini))
    }

    /// Decides what becomes of the bytes that the writer made of this
    /// store: they are handed out, unchanged, exactly if they read back as
    /// this very store, so that writing them loses and changes nothing;
    /// else they are refused. A failure of the writer is passed on with its
    /// own message.
    pub fn written_or_refused(&self, written: Result<Vec<u8>, String>) -> (out: Result<
        Vec<u8>,
        RunError,
    >)
        ensures
            bytes_view(out) == kept_or_refused(self@, written_view(written)),
    {
        let bytes = match written {
            Ok(bytes) => bytes,
            Err(message) => {
                return Err(RunError::StoreIoError(message));
            },
        };
        let kept = match CredentialsHandler::from_bytes(bytes.as_slice()) {
            Ok(read) => self.same_as(&read),
            Err(_) => false,
        };
        if kept {
            Ok(bytes)
        } else {
            Err(
                RunError::StoreIoError(
                    String::from_str("the credentials would not read back as they are"),
                ),
            )
        }
    }

    /// The store as the bytes of a credentials file, ready to be written in
    /// one piece. The bytes are those that the writer of the `ini` crate
    /// makes of the store, and they are handed out only if they read back
    /// as this very store; what becomes of the writer's result is
    /// `written_or_refused`'s to say. The store itself stays as it is.
    pub fn serialize(&self) -> (written: Result<Vec<u8>, RunError>)
        ensures
            exists|made: Result<Seq<u8>, Seq<char>>|
                bytes_view(written) == #[trigger] kept_or_refused(self@, made),
            match written {
                Ok(bytes) => stored(bytes@) == Some(self@),
                Err(error) => error@ is StoreIoError,
            },
    {
        let made = write_to_buffer(&self.ini);
        let ghost made_view = written_view(made);
        let written = self.written_or_refused(made);
        assert(bytes_view(written) == kept_or_refused(self@, made_view));
        written
    }

    /// Resolves the long-term profile that `conf` names. The profile must
    /// stand in the store exactly once and hold an access key, a secret key
    /// and, unless `conf` brings one, an MFA device.
    pub fn get_long_term_profile(&self, conf: &CommonStsConfig) -> (resolved: Result<
        LongTermProfile,
        CredentialsError,
    >)
        ensures
            match resolved {
                Ok(profile) => resolve(self@, conf.profile_name@, option_text(conf.mfa_device))
                    == Ok::<LongTermProfileView, CredentialsErrorView>(profile@),
                Err(error) => resolve(self@, conf.profile_name@, option_text(conf.mfa_device))
                    == Err::<LongTermProfileView, CredentialsErrorView>(error@),
            },
    {
        let profile = conf.profile_name.as_str();
        let sections = self.sections(profile, 2);
        if sections.len() == 0 {
            Err(CredentialsError::ProfileNotFound(profile.to_owned()))
        } else if sections.len() == 1 {
            let section = sections[0];
            let access_key = match property(section, keys::ACCESS_KEY) {
                Some(access_key) => access_key.to_owned(),
                None => {
                    return Err(CredentialsError::NoAccessKey(profile.to_owned()));
                },
            };
            let secret_key = match property(section, keys::SECRET_KEY) {
                Some(secret_key) => secret_key.to_owned(),
                None => {
                    return Err(CredentialsError::NoSecretKey(profile.to_owned()));
                },
            };
            let mfa_device = match &conf.mfa_device {
                Some(mfa_device) => mfa_device.clone(),
                None => match property(section, keys::MFA_DEVICE) {
                    Some(mfa_device) => mfa_device.to_owned(),
                    None => {
                        return Err(CredentialsError::NoMfaDevice(profile.to_owned()));
                    },
                },
            };
            Ok(LongTermProfile { name: profile.to_owned(), access_key, secret_key, mfa_device })
        } else {
            Err(CredentialsError::MultipleProfilesFound(profile.to_owned()))
        }
    }

    /// The names of the profiles in the store, each once. The general
    /// section bears no name and is no profile.
    pub fn profiles(&self) -> (names: Vec<String>)
        ensures
            texts(names@).no_duplicates(),
            forall|name: Seq<char>| texts(names@).contains(name) <==> has_name(self@, Some(name)),
    {
        let all = section_names(&self.ini);
        let mut names: Vec<String> = Vec::new();
        let mut i: usize = 0;
        while i < all.len()
            invariant
                i <= all.len(),
                name_texts(all@).no_duplicates(),
                forall|name: Option<Seq<char>>|
                    name_texts(all@).contains(name) <==> has_name(self@, name),
                texts(names@).no_duplicates(),
                forall|name: Seq<char>|
                    texts(names@).contains(name) <==> name_texts(all@).take(i as int).contains(
                        Some(name),
                    ),
            decreases all.len() - i,
        {
            let ghost before = texts(names@);
            let ghost seen = name_texts(all@).take(i as int);
            let ghost next = name_texts(all@)[i as int];
            proof {
                lemma_not_seen_before(name_texts(all@), i as int);
                assert forall|name: Seq<char>|
                    seen.push(next).contains(Some(name)) <==> seen.contains(Some(name)) || next
                        == Some(name) by {
                    lemma_push_contains(seen, next, Some(name));
                }
            }
            if let Some(name) = &all[i] {
                names.push(name.clone());
                proof {
                    assert(next == Some(name@));
                    assert(texts(names@) =~= before.push(name@));
                    lemma_push_no_duplicates(before, name@);
                    assert forall|other: Seq<char>|
                        texts(names@).contains(other) <==> before.contains(other) || other
                            == name@ by {
                        lemma_push_contains(before, name@, other);
                    }
                }
            }
            proof {
                assert forall|name: Seq<char>|
                    texts(names@).contains(name) <==> name_texts(all@).take(i + 1).contains(
                        Some(name),
                    ) by {
                    lemma_push_contains(seen, next, Some(name));
                    if all@[i as int] is Some {
                        lemma_push_contains(before, all@[i as int]->0@, name);
                    }
                }
            }
            i += 1;
        }
        proof {
            assert(name_texts(all@).take(i as int) =~= name_texts(all@));
        }
        names
    }

    /// Removes every section that bears one of `names`.
    pub fn delete_profiles(&mut self, names: &Vec<String>)
        ensures
            final(self)@ == without_names(old(self)@, texts(names@).to_set()),
    {
        let mut i: usize = 0;
        proof {
            assert(texts(names@).take(0).to_set() =~= Set::empty());
            lemma_without_nothing(self@);
        }
        while i < names.len()
            invariant
                i <= names.len(),
                self@ == without_names(old(self)@, texts(names@).take(i as int).to_set()),
            decreases names.len() - i,
        {
            let ghost done = texts(names@).take(i as int).to_set();
            delete(&mut self.ini, names[i].as_str());
            proof {
                let name = names@[i as int]@;
                lemma_without_section(without_names(old(self)@, done), name);
                lemma_without_names_twice(old(self)@, done, set![name]);
                assert(texts(names@).take(i + 1) =~= texts(names@).take(i as int).push(name));
                assert(texts(names@).take(i + 1).to_set() =~= done.union(set![name])) by {
                    let more = texts(names@).take(i + 1);
                    let fewer = texts(names@).take(i as int);
                    assert forall|other: Seq<char>|
                        more.to_set().contains(other) <==> done.union(set![name]).contains(
                            other,
                        ) by {
                        if more.contains(other) {
                            let j = choose|j: int| 0 <= j < more.len() && more[j] == other;
                            if j < i {
                                assert(fewer[j] == other);
                            }
                        }
                        if fewer.contains(other) {
                            let j = choose|j: int| 0 <= j < fewer.len() && fewer[j] == other;
                            assert(more[j] == other);
                        }
                        if other == name {
                            assert(more[i as int] == other);
                        }
                    }
                }
            }
            i += 1;
        }
        proof {
            assert(texts(names@).take(i as int) =~= texts(names@));
        }
    }

    /// The sections called `name`, in the order of the file, up to `limit`
    /// of them. A name may stand in the file more than once; no section is
    /// passed over, so that a caller can tell one match from several.
    pub fn sections(&self, name: &str, limit: usize) -> (found: Vec<&Properties>)
        ensures
            found@.len() == if named(self@, name@).len() < limit {
                named(self@, name@).len()
            } else {
                limit as nat
            },
            forall|i: int|
                0 <= i < found@.len() ==> properties_pairs(*#[trigger] found@[i]) == named(
                    self@,
                    name@,
                )[i],
    {
        sections_named(&self.ini, name, limit)
    }

    /// Sets `key` to `value` in the section `section`, which is made if the
    /// store has none of that name. A value that the key had is replaced.
    pub fn set_field(&mut self, section: &str, key: &str, value: &str)
        ensures
            final(self)@ == with_property(old(self)@, section@, key@, value@),
    {
        set_to(&mut self.ini, section, key, value);
    }

    /// The value under `key` in the section called `section`, if the store
    /// has exactly one section of that name and the section has the key.
    /// Where the store has several sections of the name, none of them is
    /// picked and no value is found.
    pub fn get_field(&self, section: &str, key: &str) -> (value: Option<String>)
        ensures
            option_text(value) == field(self@, section@, key@),
    {
        let found = self.get_profile(section);
        if found.len() != 1 {
            return None;
        }
        match property(found[0], key) {
            Some(value) => Some(value.to_owned()),
            None => None,
        }
    }

    /// Every section called `profile_name`, in the order of the file: none,
    /// one or several. No section of the name is left out and none is
    /// picked among several, so that a caller sees when the name is
    /// ambiguous.
    pub fn get_profile(&self, profile_name: &str) -> (found: Vec<&Properties>)
        ensures
            found@.len() == named(self@, profile_name@).len(),
            forall|i: int|
                0 <= i < found@.len() ==> properties_pairs(*#[trigger] found@[i]) == named(
                    self@,
                    profile_name@,
                )[i],
    {
        sections_named(&self.ini, profile_name, usize::MAX)
    }

    /// For how long the profile `profile_name` is still valid at `now`. A
    /// profile that stands in the store more than once counts as not valid:
    /// none of its sections is picked.
    pub fn is_profile_still_valid_at(&self, profile_name: &str, now: DateTime) -> (left: Option<
        String,
    >)
        requires
            now.wf(),
        ensures
            option_text(left) == validity_at(self@, profile_name@, now),
    {
        let found = self.get_profile(profile_name);
        if found.len() != 1 {
            return None;
        }
        let text = match property(found[0], keys::EXPIRATION) {
            Some(text) => text,
            None => {
                return None;
            },
        };
        match DateTime::from_str(text) {
            Ok(expiration) => remaining_at(expiration, now),
            Err(_) => None,
        }
    }

    /// For how long the profile `profile_name` is still valid by this
    /// machine's clock.
    pub fn is_profile_still_valid(&self, profile_name: &str) -> (left: Option<String>)
        ensures
            exists|now: DateTime|
                now.wf() && option_text(left) == validity_at(self@, profile_name@, now),
    {
        let now = crate::utils::now();
        self.is_profile_still_valid_at(profile_name, now)
    }

    /// Writes the short-term identity `profile` to the section
    /// `profile_name`, which is made if the store has none of that name.
    pub fn set_short_term_profile(&mut self, profile: &ShortTermProfile, profile_name: &str)
        requires
            profile.expiration.in_rfc3339_range(),
        ensures
            final(self)@ == merged(old(self)@, profile_name@, profile@),
    {
        if let Some(arn) = &profile.assumed_role_arn {
            self.set_field(profile_name, keys::ASSUMED_ROLE_ARN, arn.as_str());
        }
        if let Some(id) = &profile.assumed_role_id {
            self.set_field(profile_name, keys::ASSUMED_ROLE_ID, id.as_str());
        }
        let expiration = profile.format_expiration();
        self.set_field(profile_name, keys::EXPIRATION, expiration.as_str());
        self.set_field(profile_name, keys::ACCESS_KEY, profile.access_key.as_str());
        self.set_field(profile_name, keys::SECRET_KEY, profile.secret_key.as_str());
        self.set_field(profile_name, keys::SESSION_TOKEN, profile.session_token.as_str());
    }
}

/// A store that is written out unchanged and read again comes back with
/// the same sections, pair for pair: whatever the writer made of the store,
/// if `serialize` hands bytes out, then `from_bytes` does not fail on them
/// and reads the very store that was written.
pub proof fn lemma_round_trip(
    sections: Sections,
    made: Result<Seq<u8>, Seq<char>>,
    bytes: Seq<u8>,
    read: Result<Sections, RunErrorView>,
)
    requires
        kept_or_refused(sections, made) == Ok::<Seq<u8>, RunErrorView>(bytes),
        read_from(bytes, read),
    ensures
        made == Ok::<Seq<u8>, Seq<char>>(bytes),
        read == Ok::<Sections, RunErrorView>(sections),
{
}

/// A profile that stands in the store exactly once, with an access key, a
/// secret key and an MFA device, is resolved, and the identity holds the
/// stored values as they are. An MFA device given from outside takes the
/// place of the stored one. Where none of the values is empty, no field of
/// the identity is.
pub proof fn lemma_resolution_succeeds(
    sections: Sections,
    profile: Seq<char>,
    mfa_override: Option<Seq<char>>,
    access_key: Seq<char>,
    secret_key: Seq<char>,
    mfa_device: Seq<char>,
)
    requires
        named(sections, profile).len() == 1,
        first_value(named(sections, profile)[0], keys::ACCESS_KEY@) == Some(access_key),
        first_value(named(sections, profile)[0], keys::SECRET_KEY@) == Some(secret_key),
        first_value(named(sections, profile)[0], keys::MFA_DEVICE@) == Some(mfa_device),
    ensures
        resolve(sections, profile, mfa_override) == Ok::<
            LongTermProfileView,
            CredentialsErrorView,
        >(
            LongTermProfileView {
                name: profile,
                access_key,
                secret_key,
                mfa_device: match mfa_override {
                    Some(device) => device,
                    None => mfa_device,
                },
            },
        ),
        profile.len() > 0 && access_key.len() > 0 && secret_key.len() > 0 && mfa_device.len() > 0
            && mfa_override is None ==> resolve(sections, profile, mfa_override)->Ok_0.wf(),
{
}

/// Of a profile that stands in the store exactly once, a missing field is
/// reported by its own kind of error, whatever else the section holds: the
/// access key first, then the secret key, then the MFA device, which is
/// missing only where none is given from outside either.
pub proof fn lemma_missing_field(
    sections: Sections,
    profile: Seq<char>,
    mfa_override: Option<Seq<char>>,
)
    requires
        named(sections, profile).len() == 1,
    ensures
        ({
            let pairs = named(sections, profile)[0];
            let access_key = first_value(pairs, keys::ACCESS_KEY@);
            let secret_key = first_value(pairs, keys::SECRET_KEY@);
            let mfa_device = first_value(pairs, keys::MFA_DEVICE@);
            let resolved = resolve(sections, profile, mfa_override);
            &&& access_key is None ==> resolved == Err::<LongTermProfileView, CredentialsErrorView>(
                CredentialsErrorView::NoAccessKey(profile),
            )
            &&& access_key is Some && secret_key is None ==> resolved == Err::<
                LongTermProfileView,
                CredentialsErrorView,
            >(CredentialsErrorView::NoSecretKey(profile))
            &&& access_key is Some && secret_key is Some && mfa_device is None && mfa_override
                is None ==> resolved == Err::<LongTermProfileView, CredentialsErrorView>(
                CredentialsErrorView::NoMfaDevice(profile),
            )
            &&& resolved is Ok <==> access_key is Some && secret_key is Some && (mfa_device is Some
                || mfa_override is Some)
        }),
{
}

/// A profile that the store does not hold is not found; one that it holds
/// twice or more is refused as ambiguous, whatever the sections hold, alike
/// or not.
pub proof fn lemma_profile_count(
    sections: Sections,
    profile: Seq<char>,
    mfa_override: Option<Seq<char>>,
)
    ensures
        named(sections, profile).len() == 0 ==> resolve(sections, profile, mfa_override) == Err::<
            LongTermProfileView,
            CredentialsErrorView,
        >(CredentialsErrorView::ProfileNotFound(profile)),
        named(sections, profile).len() >= 2 ==> resolve(sections, profile, mfa_override) == Err::<
            LongTermProfileView,
            CredentialsErrorView,
        >(CredentialsErrorView::MultipleProfilesFound(profile)),
{
}

/// A profile is not valid any more where the store has no expiration for
/// it, where the expiration cannot be read, and where it has passed; nor is
/// it where the store holds it more than once. Where the expiration lies a
/// second or more ahead, what is left is a text that is not empty.
pub proof fn lemma_validity(sections: Sections, name: Seq<char>, now: DateTime)
    ensures
        field(sections, name, keys::EXPIRATION@) is None ==> validity_at(
            sections,
            name,
            now,
        ) is None,
        field(sections, name, keys::EXPIRATION@) matches Some(text)
            && parsed_timestamp(text) is None ==> validity_at(sections, name, now) is None,
        named(sections, name).len() > 1 ==> validity_at(sections, name, now) is None,
        cached_expiration(sections, name) matches Some(expiration) && expiration.as_nanos()
            < now.as_nanos() ==> validity_at(sections, name, now) is None,
        cached_expiration(sections, name) matches Some(expiration) && expiration.as_nanos()
            >= now.as_nanos() + crate::profile::NANOS_PER_SECOND ==> validity_at(
            sections,
            name,
            now,
        ) is Some && validity_at(sections, name, now)->0.len() > 0,
{
    if cached_expiration(sections, name) is Some {
        lemma_remaining_text(cached_expiration(sections, name)->0, now);
    }
}

/// The value that writing the identity `profile` puts under `key`, or none
/// where the writing leaves the key alone.
pub open spec fn written_value(profile: ShortTermProfileView, key: Seq<char>) -> Option<Seq<char>> {
    if key == keys::ASSUMED_ROLE_ARN@ {
        profile.assumed_role_arn
    } else if key == keys::ASSUMED_ROLE_ID@ {
        profile.assumed_role_id
    } else if key == keys::EXPIRATION@ {
        Some(formatted_timestamp(profile.expiration.seconds, profile.expiration.subsecond_nanos))
    } else if key == keys::ACCESS_KEY@ {
        Some(profile.access_key)
    } else if key == keys::SECRET_KEY@ {
        Some(profile.secret_key)
    } else if key == keys::SESSION_TOKEN@ {
        Some(profile.session_token)
    } else {
        None
    }
}

/// What the store holds after a short-term identity was written to the
/// section `name`: under each key of that section that the identity has a
/// value for, this value; everywhere else, in that section and in every
/// other, what it held before. So an identity without an assumed role
/// leaves the role fields of an earlier one in place.
pub proof fn lemma_merge(
    sections: Sections,
    name: Seq<char>,
    profile: ShortTermProfileView,
    other_name: Seq<char>,
    other_key: Seq<char>,
)
    ensures
        lookup(merged(sections, name, profile), other_name, other_key) == if other_name == name
            && written_value(profile, other_key) is Some {
            written_value(profile, other_key)
        } else {
            lookup(sections, other_name, other_key)
        },
        other_name != name ==> named(merged(sections, name, profile), other_name) == named(
            sections,
            other_name,
        ),
{
    lemma_keys_differ();
    let arn = keys::ASSUMED_ROLE_ARN@;
    let id = keys::ASSUMED_ROLE_ID@;
    let written = formatted_timestamp(
        profile.expiration.seconds,
        profile.expiration.subsecond_nanos,
    );
    let with_arn = with_optional_property(sections, name, arn, profile.assumed_role_arn);
    let with_id = with_optional_property(with_arn, name, id, profile.assumed_role_id);
    let with_expiration = with_property(with_id, name, keys::EXPIRATION@, written);
    let with_access = with_property(with_expiration, name, keys::ACCESS_KEY@, profile.access_key);
    let with_secret = with_property(with_access, name, keys::SECRET_KEY@, profile.secret_key);
    let token = profile.session_token;
    if let Some(value) = profile.assumed_role_arn {
        lemma_lookup_after_set(sections, name, arn, value, other_name, other_key);
    }
    if let Some(value) = profile.assumed_role_id {
        lemma_lookup_after_set(with_arn, name, id, value, other_name, other_key);
    }
    lemma_lookup_after_set(with_id, name, keys::EXPIRATION@, written, other_name, other_key);
    lemma_lookup_after_set(
        with_expiration,
        name,
        keys::ACCESS_KEY@,
        profile.access_key,
        other_name,
        other_key,
    );
    lemma_lookup_after_set(
        with_access,
        name,
        keys::SECRET_KEY@,
        profile.secret_key,
        other_name,
        other_key,
    );
    lemma_lookup_after_set(with_secret, name, keys::SESSION_TOKEN@, token, other_name, other_key);
    if other_name != name {
        if let Some(value) = profile.assumed_role_arn {
            lemma_named_elsewhere_after_set(sections, name, arn, value, other_name);
        }
        if let Some(value) = profile.assumed_role_id {
            lemma_named_elsewhere_after_set(with_arn, name, id, value, other_name);
        }
        lemma_named_elsewhere_after_set(with_id, name, keys::EXPIRATION@, written, other_name);
        lemma_named_elsewhere_after_set(
            with_expiration,
            name,
            keys::ACCESS_KEY@,
            profile.access_key,
            other_name,
        );
        lemma_named_elsewhere_after_set(
            with_access,
            name,
            keys::SECRET_KEY@,
            profile.secret_key,
            other_name,
        );
        lemma_named_elsewhere_after_set(with_secret, name, keys::SESSION_TOKEN@, token, other_name);
    }
}

} // verus!
