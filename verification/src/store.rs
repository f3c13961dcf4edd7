//! The sectioned key/value document behind the credentials store: its
//! mathematical model, and what this library relies on of the `ini` crate
//! that holds it.

use ini::{Ini, ParseError, Properties};
use vstd::prelude::*;

verus! {

/// Key/value pairs in the order in which they are walked and written.
pub type Pairs = Seq<(Seq<char>, Seq<char>)>;

/// Sections in the order in which they are walked and written: the name
/// (none for the general section) and the pairs of each.
pub type Sections = Seq<(Option<Seq<char>>, Seq<(Seq<char>, Seq<char>)>)>;

/// The value of the first pair of `pairs` whose key is `key`.
pub open spec fn first_value(pairs: Pairs, key: Seq<char>) -> Option<Seq<char>>
    decreases pairs.len(),
{
    if pairs.len() == 0 {
        None
    } else if pairs[0].0 == key {
        Some(pairs[0].1)
    } else {
        first_value(pairs.drop_first(), key)
    }
}

/// `pairs` without the pairs whose key is `key`.
pub open spec fn without_key(pairs: Pairs, key: Seq<char>) -> Pairs
    decreases pairs.len(),
{
    if pairs.len() == 0 {
        Seq::empty()
    } else if pairs[0].0 == key {
        without_key(pairs.drop_first(), key)
    } else {
        seq![pairs[0]] + without_key(pairs.drop_first(), key)
    }
}

/// `pairs` after `key` was set to `value`: every earlier pair of that key is
/// gone and the new pair stands last.
pub open spec fn with_pair(pairs: Pairs, key: Seq<char>, value: Seq<char>) -> Pairs {
    without_key(pairs, key).push((key, value))
}

/// The pairs of every section of `sections` that is called `name`, in order.
pub open spec fn named(sections: Sections, name: Seq<char>) -> Seq<Pairs>
    decreases sections.len(),
{
    if sections.len() == 0 {
        Seq::empty()
    } else if sections[0].0 == Some(name) {
        seq![sections[0].1] + named(sections.drop_first(), name)
    } else {
        named(sections.drop_first(), name)
    }
}

/// The position of the first section called `name`, or the length of
/// `sections` where there is none.
pub open spec fn position(sections: Sections, name: Seq<char>) -> int
    decreases sections.len(),
{
    if sections.len() == 0 {
        0
    } else if sections[0].0 == Some(name) {
        0
    } else {
        1 + position(sections.drop_first(), name)
    }
}

/// The pairs of the first section called `name`.
pub open spec fn section(sections: Sections, name: Seq<char>) -> Option<Pairs> {
    if named(sections, name).len() > 0 {
        Some(named(sections, name)[0])
    } else {
        None
    }
}

/// The pairs of the section called `name`, where exactly one section bears
/// the name; none where no section does or several do.
pub open spec fn only_section(sections: Sections, name: Seq<char>) -> Option<Pairs> {
    if named(sections, name).len() == 1 {
        Some(named(sections, name)[0])
    } else {
        None
    }
}

/// The value found under `key` in the section called `name`, where exactly
/// one section bears the name. Of several sections of one name none is
/// picked: nothing is found then.
pub open spec fn field(sections: Sections, name: Seq<char>, key: Seq<char>) -> Option<Seq<char>> {
    match only_section(sections, name) {
        Some(pairs) => first_value(pairs, key),
        None => None,
    }
}

/// The value found under `key` in the first section called `name`. This is
/// where a write to the section `name` goes.
pub open spec fn lookup(sections: Sections, name: Seq<char>, key: Seq<char>) -> Option<Seq<char>> {
    match section(sections, name) {
        Some(pairs) => first_value(pairs, key),
        None => None,
    }
}

/// `sections` after `key` was set to `value` in section `name`: in the first
/// section of that name where there is one, else in a new last section.
pub open spec fn with_property(
    sections: Sections,
    name: Seq<char>,
    key: Seq<char>,
    value: Seq<char>,
) -> Sections {
    let at = position(sections, name);
    if at < sections.len() {
        sections.update(at, (Some(name), with_pair(sections[at].1, key, value)))
    } else {
        sections.push((Some(name), seq![(key, value)]))
    }
}

/// `sections` without the sections called `name`.
pub open spec fn without_section(sections: Sections, name: Seq<char>) -> Sections
    decreases sections.len(),
{
    if sections.len() == 0 {
        Seq::empty()
    } else if sections[0].0 == Some(name) {
        without_section(sections.drop_first(), name)
    } else {
        seq![sections[0]] + without_section(sections.drop_first(), name)
    }
}

/// Whether `sections` holds a section of the name `name`.
pub open spec fn has_name(sections: Sections, name: Option<Seq<char>>) -> bool {
    exists|i: int| 0 <= i < sections.len() && (#[trigger] sections[i]).0 == name
}

/// `sections` without the sections whose name is in `names`.
pub open spec fn without_names(sections: Sections, names: Set<Seq<char>>) -> Sections
    decreases sections.len(),
{
    if sections.len() == 0 {
        Seq::empty()
    } else if sections[0].0 is Some && names.contains(sections[0].0->0) {
        without_names(sections.drop_first(), names)
    } else {
        seq![sections[0]] + without_names(sections.drop_first(), names)
    }
}

/// The text of each of `names`.
pub open spec fn name_texts(names: Seq<Option<String>>) -> Seq<Option<Seq<char>>> {
    names.map_values(
        |name: Option<String>|
            match name {
                Some(name) => Some(name@),
                None => None,
            },
    )
}

/// The text of each of `pairs`.
pub open spec fn pair_texts(pairs: Seq<(String, String)>) -> Pairs {
    pairs.map_values(|pair: (String, String)| (pair.0@, pair.1@))
}

/// The text of each of `sections`.
pub open spec fn section_texts(sections: Seq<(Option<String>, Vec<(String, String)>)>) -> Sections {
    sections.map_values(
        |section: (Option<String>, Vec<(String, String)>)|
            (
                match section.0 {
                    Some(name) => Some(name@),
                    None => None,
                },
                pair_texts(section.1@),
            ),
    )
}

/// The `ini` crate's document: sections of key/value pairs. Nothing of its
/// inside is seen here but through the functions below.
#[verifier::external_type_specification]
#[verifier::external_body]
pub struct ExIni(Ini);

/// The `ini` crate's section: key/value pairs.
#[verifier::external_type_specification]
#[verifier::external_body]
pub struct ExProperties(Properties);

/// The `ini` crate's description of a text that is no document.
#[verifier::external_type_specification]
#[verifier::external_body]
pub struct ExParseError(ParseError);

/// The key/value pairs that a `Properties` holds, in the order in which it
/// walks them.
pub uninterp spec fn properties_pairs(props: Properties) -> Seq<(Seq<char>, Seq<char>)>;

/// The sections that an `Ini` holds, in the order in which it walks and
/// writes them.
pub uninterp spec fn ini_sections(ini: Ini) -> Seq<(Option<Seq<char>>, Seq<(Seq<char>, Seq<char>)>)>;

/// The sections that `Ini::load_from_str` reads out of a text, or none where
/// it reports a parse error.
pub uninterp spec fn parsed_sections(text: Seq<char>) -> Option<
    Seq<(Option<Seq<char>>, Seq<(Seq<char>, Seq<char>)>)>,
>;

/// `Ini::load_from_str`: parses `text` with the crate's default options. The
/// outcome is a function of the text alone; it is not spelled out here.
#[verifier::external_body]
pub(crate) fn load_from_str(text: &str) -> (loaded: Result<Ini, ParseError>)
    ensures
        match loaded {
            Ok(ini) => parsed_sections(text@) == Some(ini_sections(ini)),
            Err(_) => parsed_sections(text@) is None,
        },
{
    Ini::load_from_str(text)
}

/// `ParseError`'s `Display`: line, column and message of a parse error as one
/// text. Nothing is claimed of it.
#[verifier::external_body]
pub(crate) fn parse_error_text(error: &ParseError) -> String {
    error.to_string()
}

/// `Ini::section_all`: the sections called `name` in document order, of which
/// at most the first `limit` are walked and handed out. The map below the
/// document counts the sections of a name in a `usize`, so the largest limit
/// cuts nothing off.
#[verifier::external_body]
pub(crate) fn sections_named<'a>(ini: &'a Ini, name: &str, limit: usize) -> (found: Vec<
    &'a Properties,
>)
    ensures
        found@.len() == if named(ini_sections(*ini), name@).len() < limit {
            named(ini_sections(*ini), name@).len()
        } else {
            limit as nat
        },
        limit == usize::MAX ==> found@.len() == named(ini_sections(*ini), name@).len(),
        forall|i: int|
            0 <= i < found@.len() ==> properties_pairs(*#[trigger] found@[i]) == named(
                ini_sections(*ini),
                name@,
            )[i],
{
    ini.section_all(Some(name)).take(limit).collect()
}

/// `Properties::get`: the first value stored under `key`, if there is one.
#[verifier::external_body]
pub(crate) fn property<'a>(props: &'a Properties, key: &str) -> (value: Option<&'a str>)
    ensures
        match value {
            Some(text) => first_value(properties_pairs(*props), key@) == Some(text@),
            None => first_value(properties_pairs(*props), key@) is None,
        },
{
    props.get(key)
}

/// `Ini::set_to`: sets `key` to `value` in the first section called `name`,
/// dropping every pair which that section had for the key and adding the new
/// one last; where no section has the name, a new last section gets the
/// pair. Other sections stay as they are.
#[verifier::external_body]
pub(crate) fn set_to(ini: &mut Ini, name: &str, key: &str, value: &str)
    ensures
        ini_sections(*final(ini)) == with_property(ini_sections(*old(ini)), name@, key@, value@),
{
    ini.set_to(Some(name), key.to_owned(), value.to_owned());
}

/// `Ini::sections`: the names of the sections, none for the general
/// section, each name once however many sections bear it.
#[verifier::external_body]
pub(crate) fn section_names(ini: &Ini) -> (names: Vec<Option<String>>)
    ensures
        name_texts(names@).no_duplicates(),
        forall|name: Option<Seq<char>>|
            name_texts(names@).contains(name) <==> has_name(ini_sections(*ini), name),
{
    ini.sections().map(|name| name.map(|name| name.to_owned())).collect()
}

/// `Ini::iter` with `Properties::iter` on each section: every section with
/// its name and pairs as owned text, in the order in which the document
/// walks and writes them.
#[verifier::external_body]
pub(crate) fn contents(ini: &Ini) -> (all: Vec<(Option<String>, Vec<(String, String)>)>)
    ensures
        section_texts(all@) == ini_sections(*ini),
{
    ini.iter().map(
        |(name, props)|
            (
                name.map(|name| name.to_owned()),
                props.iter().map(|(key, value)| (key.to_owned(), value.to_owned())).collect(),
            ),
    ).collect()
}

/// `Ini::delete`: removes every section called `name`, not only the first
/// one, since the map below it drops all values of a key at once.
#[verifier::external_body]
pub(crate) fn delete(ini: &mut Ini, name: &str)
    ensures
        ini_sections(*final(ini)) == without_section(ini_sections(*old(ini)), name@),
{
    ini.delete(Some(name));
}

/// `Ini::write_to` into a buffer: the document as text, under the crate's
/// default options. The line ends follow the platform, so nothing is claimed
/// of the bytes; a failure comes back as its own description.
#[verifier::external_body]
pub(crate) fn write_to_buffer(ini: &Ini) -> (written: Result<Vec<u8>, String>) {
    let mut buffer = Vec::new();
    match ini.write_to(&mut buffer) {
        Ok(()) => Ok(buffer),
        Err(error) => Err(error.to_string()),
    }
}

/// Setting a key makes it the key's only pair and leaves every other key's
/// first value as it was.
pub proof fn lemma_first_value_with_pair(
    pairs: Pairs,
    key: Seq<char>,
    value: Seq<char>,
    other: Seq<char>,
)
    ensures
        first_value(with_pair(pairs, key, value), other) == if other == key {
            Some(value)
        } else {
            first_value(pairs, other)
        },
    decreases pairs.len(),
{
    let set = with_pair(pairs, key, value);
    if pairs.len() == 0 {
        assert(set =~= seq![(key, value)]);
        assert(first_value(set.drop_first(), other) is None);
    } else {
        let rest = pairs.drop_first();
        lemma_first_value_with_pair(rest, key, value, other);
        if pairs[0].0 == key {
            assert(with_pair(pairs, key, value) =~= with_pair(rest, key, value));
        } else {
            assert(with_pair(pairs, key, value).drop_first() =~= with_pair(rest, key, value));
            assert(with_pair(pairs, key, value)[0] == pairs[0]);
        }
    }
}

/// The first section of a name stands where `position` says, and there is
/// one exactly if `named` finds any.
pub proof fn lemma_position(sections: Sections, name: Seq<char>)
    ensures
        0 <= position(sections, name) <= sections.len(),
        position(sections, name) < sections.len() <==> named(sections, name).len() > 0,
        position(sections, name) < sections.len() ==> {
            &&& sections[position(sections, name)].0 == Some(name)
            &&& sections[position(sections, name)].1 == named(sections, name)[0]
        },
    decreases sections.len(),
{
    if sections.len() > 0 {
        lemma_position(sections.drop_first(), name);
    }
}

/// How `with_property` walks past a first section of another name.
proof fn lemma_with_property_step(
    sections: Sections,
    name: Seq<char>,
    key: Seq<char>,
    value: Seq<char>,
)
    requires
        sections.len() > 0,
        sections[0].0 != Some(name),
    ensures
        with_property(sections, name, key, value) == seq![sections[0]] + with_property(
            sections.drop_first(),
            name,
            key,
            value,
        ),
{
    let rest = sections.drop_first();
    lemma_position(rest, name);
    assert(with_property(sections, name, key, value) =~= seq![sections[0]] + with_property(
        rest,
        name,
        key,
        value,
    ));
}

/// Setting a key in section `name` changes the first section of that name,
/// or makes the only one; the later sections of that name stay.
pub proof fn lemma_named_after_set(
    sections: Sections,
    name: Seq<char>,
    key: Seq<char>,
    value: Seq<char>,
)
    ensures
        named(with_property(sections, name, key, value), name) == if named(sections, name).len()
            > 0 {
            named(sections, name).update(0, with_pair(named(sections, name)[0], key, value))
        } else {
            seq![seq![(key, value)]]
        },
    decreases sections.len(),
{
    let after = with_property(sections, name, key, value);
    if sections.len() == 0 {
        assert(after =~= seq![(Some(name), seq![(key, value)])]);
        assert(named(after.drop_first(), name) =~= Seq::empty());
        assert(named(after, name) =~= seq![seq![(key, value)]]);
    } else if sections[0].0 == Some(name) {
        assert(after.drop_first() =~= sections.drop_first());
        assert(named(after, name) =~= named(sections, name).update(
            0,
            with_pair(named(sections, name)[0], key, value),
        ));
    } else {
        let rest = sections.drop_first();
        lemma_with_property_step(sections, name, key, value);
        lemma_named_after_set(rest, name, key, value);
        assert(after.drop_first() =~= with_property(rest, name, key, value));
    }
}

/// Setting a key in section `name` leaves the sections of every other name
/// as they were.
pub proof fn lemma_named_elsewhere_after_set(
    sections: Sections,
    name: Seq<char>,
    key: Seq<char>,
    value: Seq<char>,
    other: Seq<char>,
)
    requires
        other != name,
    ensures
        named(with_property(sections, name, key, value), other) == named(sections, other),
    decreases sections.len(),
{
    let after = with_property(sections, name, key, value);
    if sections.len() == 0 {
        assert(after =~= seq![(Some(name), seq![(key, value)])]);
        assert(named(after.drop_first(), other) =~= Seq::empty());
    } else if sections[0].0 == Some(name) {
        assert(after.drop_first() =~= sections.drop_first());
    } else {
        let rest = sections.drop_first();
        lemma_with_property_step(sections, name, key, value);
        lemma_named_elsewhere_after_set(rest, name, key, value, other);
        assert(after.drop_first() =~= with_property(rest, name, key, value));
    }
}

/// What is found in the store after a key was set: the new value under that
/// key of that section, and what was found before everywhere else.
pub proof fn lemma_lookup_after_set(
    sections: Sections,
    name: Seq<char>,
    key: Seq<char>,
    value: Seq<char>,
    other_name: Seq<char>,
    other_key: Seq<char>,
)
    ensures
        lookup(with_property(sections, name, key, value), other_name, other_key) == if other_name
            == name && other_key == key {
            Some(value)
        } else {
            lookup(sections, other_name, other_key)
        },
{
    if other_name == name {
        lemma_named_after_set(sections, name, key, value);
        if named(sections, name).len() > 0 {
            lemma_first_value_with_pair(named(sections, name)[0], key, value, other_key);
        } else {
            lemma_first_value_with_pair(Seq::empty(), key, value, other_key);
            assert(with_pair(Seq::empty(), key, value) =~= seq![(key, value)]);
        }
    } else {
        lemma_named_elsewhere_after_set(sections, name, key, value, other_name);
    }
}

/// Removing the sections of no name removes nothing.
pub proof fn lemma_without_nothing(sections: Sections)
    ensures
        without_names(sections, Set::empty()) == sections,
    decreases sections.len(),
{
    if sections.len() > 0 {
        lemma_without_nothing(sections.drop_first());
        assert(seq![sections[0]] + sections.drop_first() =~= sections);
    }
}

/// Removing the sections of one name is removing those of a set of one name.
pub proof fn lemma_without_section(sections: Sections, name: Seq<char>)
    ensures
        without_section(sections, name) == without_names(sections, set![name]),
    decreases sections.len(),
{
    if sections.len() > 0 {
        lemma_without_section(sections.drop_first(), name);
    }
}

/// Removing the sections of some names and then those of others is removing
/// those of all these names at once.
pub proof fn lemma_without_names_twice(
    sections: Sections,
    first: Set<Seq<char>>,
    second: Set<Seq<char>>,
)
    ensures
        without_names(without_names(sections, first), second) == without_names(
            sections,
            first.union(second),
        ),
    decreases sections.len(),
{
    if sections.len() > 0 {
        let rest = sections.drop_first();
        lemma_without_names_twice(rest, first, second);
        if sections[0].0 is Some && first.contains(sections[0].0->0) {
        } else {
            let kept = seq![sections[0]] + without_names(rest, first);
            assert(kept.drop_first() =~= without_names(rest, first));
        }
    } else {
        assert(without_names(sections, first) =~= Seq::empty());
    }
}

/// Two sets of names that agree on the names of the sections at hand remove
/// the same sections.
pub proof fn lemma_without_names_agree(
    sections: Sections,
    first: Set<Seq<char>>,
    second: Set<Seq<char>>,
)
    requires
        forall|name: Seq<char>|
            has_name(sections, Some(name)) ==> (first.contains(name) <==> second.contains(name)),
    ensures
        without_names(sections, first) == without_names(sections, second),
    decreases sections.len(),
{
    if sections.len() > 0 {
        let rest = sections.drop_first();
        assert forall|name: Seq<char>| has_name(rest, Some(name)) implies (first.contains(name)
            <==> second.contains(name)) by {
            let i = choose|i: int| 0 <= i < rest.len() && (#[trigger] rest[i]).0 == Some(name);
            assert(sections[i + 1].0 == Some(name));
        }
        lemma_without_names_agree(rest, first, second);
        if sections[0].0 is Some {
            assert(has_name(sections, sections[0].0));
        }
    }
}

/// What stays after sections were removed by name: the sections of every
/// other name, as they were and in their order.
pub proof fn lemma_named_without_names(sections: Sections, names: Set<Seq<char>>, name: Seq<char>)
    ensures
        named(without_names(sections, names), name) == if names.contains(name) {
            Seq::empty()
        } else {
            named(sections, name)
        },
    decreases sections.len(),
{
    if sections.len() > 0 {
        let rest = sections.drop_first();
        lemma_named_without_names(rest, names, name);
        if sections[0].0 is Some && names.contains(sections[0].0->0) {
        } else {
            let kept = seq![sections[0]] + without_names(rest, names);
            assert(kept.drop_first() =~= without_names(rest, names));
        }
    }
}

} // verus!
