//! Building blocks for working with text: character access, suffix tests,
//! decimal rendering and joining, and what is relied on of the standard
//! library's `trim`, `to_lowercase` and `from_utf8`.

use vstd::prelude::*;

verus! {

/// The characters of `s`, in order.
pub fn chars_of(s: &str) -> (chars: Vec<char>)
    ensures
        chars@ == s@,
{
    let mut chars: Vec<char> = Vec::new();
    for c in it: s.chars()
        invariant
            it.seq() == s@,
            chars@ == it.seq().take(it.index() as int),
    {
        chars.push(c);
    }
    chars
}

/// What `str::trim` leaves of a text: the text without the white space at
/// its two ends.
pub uninterp spec fn trimmed(text: Seq<char>) -> Seq<char>;

/// `part` is one unbroken stretch of `text`.
pub open spec fn is_part(part: Seq<char>, text: Seq<char>) -> bool {
    exists|from: int, to: int|
        0 <= from <= to <= text.len() && part == #[trigger] text.subrange(from, to)
}

/// What `str::to_lowercase` makes of a text.
pub uninterp spec fn lowercased(text: Seq<char>) -> Seq<char>;

/// `str::trim`: the part of `text` between its leading and trailing white
/// space. The part is a function of the text and one unbroken stretch of
/// it; which characters count as white space is not spelled out.
#[verifier::external_body]
pub(crate) fn trim(text: &str) -> (inner: &str)
    ensures
        inner@ == trimmed(text@),
        is_part(inner@, text@),
{
    text.trim()
}

/// `str::to_lowercase`: `text` in lower case. The result is a function of
/// the text; it is not spelled out.
#[verifier::external_body]
pub(crate) fn to_lowercase(text: &str) -> (lower: String)
    ensures
        lower@ == lowercased(text@),
{
    text.to_lowercase()
}

/// `std::str::from_utf8`: the text that `bytes` encode in UTF-8, or nothing
/// where they encode none.
#[verifier::external_body]
pub(crate) fn from_utf8(bytes: &[u8]) -> (text: Option<&str>)
    ensures
        text is Some <==> vstd::utf8::valid_utf8(bytes@),
        text matches Some(text) ==> text@ == vstd::utf8::decode_utf8(bytes@),
{
    match std::str::from_utf8(bytes) {
        Ok(text) => Some(text),
        Err(_) => None,
    }
}

/// The text of each of `items`.
pub open spec fn texts(items: Seq<String>) -> Seq<Seq<char>> {
    items.map_values(|item: String| item@)
}

/// `suffix` is the tail end of `s`.
pub open spec fn is_suffix(suffix: Seq<char>, s: Seq<char>) -> bool {
    suffix.len() <= s.len() && s.subrange(s.len() - suffix.len(), s.len() as int) == suffix
}

/// Whether `s` ends with `suffix`. Every string ends with the empty suffix.
pub fn ends_with(s: &str, suffix: &str) -> (r: bool)
    ensures
        r == is_suffix(suffix@, s@),
{
    let text = chars_of(s);
    let tail = chars_of(suffix);
    if tail.len() > text.len() {
        return false;
    }
    let offset: usize = text.len() - tail.len();
    let mut i: usize = 0;
    while i < tail.len()
        invariant
            text@ == s@,
            tail@ == suffix@,
            tail.len() <= text.len(),
            offset == text.len() - tail.len(),
            i <= tail.len(),
            forall|j: int| 0 <= j < i ==> text@[offset + j] == tail@[j],
        decreases tail.len() - i,
    {
        if text[offset + i] != tail[i] {
            proof {
                let found = s@.subrange(s@.len() - suffix@.len(), s@.len() as int);
                assert(found[i as int] == text@[offset + i]);
            }
            return false;
        }
        i += 1;
    }
    proof {
        let found = s@.subrange(s@.len() - suffix@.len(), s@.len() as int);
        assert(found =~= suffix@);
    }
    true
}

/// The character that writes the decimal digit `d`.
pub open spec fn digit_char(d: nat) -> char {
    if d == 0 {
        '0'
    } else if d == 1 {
        '1'
    } else if d == 2 {
        '2'
    } else if d == 3 {
        '3'
    } else if d == 4 {
        '4'
    } else if d == 5 {
        '5'
    } else if d == 6 {
        '6'
    } else if d == 7 {
        '7'
    } else if d == 8 {
        '8'
    } else {
        '9'
    }
}

/// The decimal numeral of `n`, without sign or leading zeros.
pub open spec fn decimal(n: nat) -> Seq<char>
    decreases n,
{
    if n < 10 {
        seq![digit_char(n)]
    } else {
        decimal(n / 10).push(digit_char(n % 10))
    }
}

fn digit_str(d: u64) -> (r: &'static str)
    requires
        d < 10,
    ensures
        r@ == seq![digit_char(d as nat)],
{
    proof {
        reveal_strlit("0");
        reveal_strlit("1");
        reveal_strlit("2");
        reveal_strlit("3");
        reveal_strlit("4");
        reveal_strlit("5");
        reveal_strlit("6");
        reveal_strlit("7");
        reveal_strlit("8");
        reveal_strlit("9");
    }
    let r = if d == 0 {
        "0"
    } else if d == 1 {
        "1"
    } else if d == 2 {
        "2"
    } else if d == 3 {
        "3"
    } else if d == 4 {
        "4"
    } else if d == 5 {
        "5"
    } else if d == 6 {
        "6"
    } else if d == 7 {
        "7"
    } else if d == 8 {
        "8"
    } else {
        "9"
    };
    assert(r@ =~= seq![digit_char(d as nat)]);
    r
}

/// Writes `n` in decimal.
pub fn decimal_string(n: u64) -> (s: String)
    ensures
        s@ == decimal(n as nat),
    decreases n,
{
    if n < 10 {
        String::from_str(digit_str(n))
    } else {
        let mut s = decimal_string(n / 10);
        s.append(digit_str(n % 10));
        assert(s@ =~= decimal(n as nat));
        s
    }
}

/// The items of `parts` written one after another with `sep` between
/// neighbours; nothing before the first or after the last.
pub open spec fn join(parts: Seq<Seq<char>>, sep: Seq<char>) -> Seq<char>
    decreases parts.len(),
{
    if parts.len() == 0 {
        Seq::empty()
    } else if parts.len() == 1 {
        parts[0]
    } else {
        join(parts.drop_last(), sep) + sep + parts.last()
    }
}

/// What a sequence holds after one more item: what it held, and the item.
pub proof fn lemma_push_contains<A>(items: Seq<A>, added: A, item: A)
    ensures
        items.push(added).contains(item) <==> items.contains(item) || item == added,
{
    if items.contains(item) {
        let j = choose|j: int| 0 <= j < items.len() && items[j] == item;
        assert(items.push(added)[j] == item);
    }
    if item == added {
        assert(items.push(added)[items.len() as int] == item);
    }
}

/// A sequence without repetitions stays so when an item is added that it
/// did not hold.
pub proof fn lemma_push_no_duplicates<A>(items: Seq<A>, added: A)
    requires
        items.no_duplicates(),
        !items.contains(added),
    ensures
        items.push(added).no_duplicates(),
{
}

/// In a sequence without repetitions, no item stands among those before it.
pub proof fn lemma_not_seen_before<A>(items: Seq<A>, at: int)
    requires
        items.no_duplicates(),
        0 <= at < items.len(),
    ensures
        !items.take(at).contains(items[at]),
        items.take(at + 1) == items.take(at).push(items[at]),
{
    if items.take(at).contains(items[at]) {
        let j = choose|j: int| 0 <= j < at && items.take(at)[j] == items[at];
        assert(items[j] == items[at]);
    }
    assert(items.take(at + 1) =~= items.take(at).push(items[at]));
}

/// A joined text is at least as long as its last part.
pub proof fn lemma_join_holds_last(parts: Seq<Seq<char>>, sep: Seq<char>)
    requires
        parts.len() > 0,
    ensures
        join(parts, sep).len() >= parts.last().len(),
{
}

} // verus!
