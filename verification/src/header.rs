//! Header and form lines as the user writes them: `Name: value` and
//! `name=value`, and the headers of a request. Headers are kept in a
//! `HeaderMap` of the `http` crate, which also checks their names and values.

use crate::fields::{
    distinct_names, lemma_upsert, lookup, names, octets, octets_of, pairs, position_of, upsert,
    Pair,
};
use crate::text::{
    all_whitespace, is_trimmed, is_whitespace_char, lemma_split_at_first, lemma_trimmed_padding,
    split_at_first, split_once, trim, trimmed,
};
use http::header::{HeaderMap, HeaderName, HeaderValue};
use vstd::prelude::*;
use vstd::utf8::encode_utf8;

verus! {

/// The greatest number of octets of a header name.
pub const MAX_HEADER_NAME_LEN: usize = 65535;

/// Whether `c` may stand in a header name: a letter, a digit or one of
/// `` !#$%&'*+-.^_`|~ ``.
pub open spec fn is_token_char(c: char) -> bool {
    let n = c as u32;
    ||| n == 0x21
    ||| 0x23 <= n <= 0x27
    ||| n == 0x2A
    ||| n == 0x2B
    ||| n == 0x2D
    ||| n == 0x2E
    ||| 0x30 <= n <= 0x39
    ||| 0x41 <= n <= 0x5A
    ||| 0x5E <= n <= 0x7A
    ||| n == 0x7C
    ||| n == 0x7E
}

/// `c` in lower case, where it is a capital letter of ASCII.
pub open spec fn lower_case(c: char) -> char {
    if 0x41 <= c as u32 <= 0x5A {
        (((c as u8) + 32) as u8) as char
    } else {
        c
    }
}

/// The header name that a text stands for: the text in lower case, where it
/// is not empty, not longer than a header name may be and made of the
/// characters of header names alone. Names that differ in case alone stand
/// for the same header.
pub open spec fn canonical_header_name(name: Seq<char>) -> Option<Seq<char>> {
    if 1 <= name.len() <= MAX_HEADER_NAME_LEN && forall|i: int|
        0 <= i < name.len() ==> is_token_char(#[trigger] name[i]) {
        Some(Seq::new(name.len(), |i: int| lower_case(name[i])))
    } else {
        None
    }
}

#[verifier::external_type_specification]
#[verifier::external_body]
pub struct ExHeaderName(HeaderName);

#[verifier::external_type_specification]
#[verifier::external_body]
pub struct ExHeaderValue(HeaderValue);

#[verifier::external_type_specification]
#[verifier::external_body]
#[verifier::reject_recursive_types(T)]
pub struct ExHeaderMap<T>(HeaderMap<T>);

/// The text of a header name.
pub uninterp spec fn header_name_text(name: HeaderName) -> Seq<char>;

/// The text of a header value: its octets read as UTF-8.
pub uninterp spec fn header_value_text(value: HeaderValue) -> Seq<char>;

/// The headers that a map holds, each a name and a value, in the order in
/// which the map hands them out.
pub uninterp spec fn header_entries(map: HeaderMap<HeaderValue>) -> Seq<Pair>;

/// `HeaderName::from_bytes`, on the octets of `name`: it refuses an empty
/// name, one of more than 65535 octets and one with an octet that is no
/// character of header names, and gives every other name in lower case.
#[verifier::external_body]
fn header_name_from_bytes(name: &str) -> (r: Option<HeaderName>)
    ensures
        match r {
            Some(n) => canonical_header_name(name@) == Some(header_name_text(n)),
            None => canonical_header_name(name@) is None,
        },
{
    HeaderName::from_bytes(name.as_bytes()).ok()
}

/// `HeaderName::as_str`: the text of the name.
#[verifier::external_body]
fn header_name_as_str(name: &HeaderName) -> (s: &str)
    ensures
        s@ == header_name_text(*name),
{
    name.as_str()
}

/// An octet that may stand in a header value: a tab, or anything from the
/// space on but the delete character.
pub open spec fn is_value_octet(b: u8) -> bool {
    b >= 32 && b != 127 || b == 9
}

/// Whether a text can be a header value: all its octets may stand in one.
pub open spec fn is_header_value(value: Seq<char>) -> bool {
    forall|i: int|
        0 <= i < encode_utf8(value).len() ==> is_value_octet(#[trigger] encode_utf8(value)[i])
}

/// `HeaderValue::from_str`: it accepts a text exactly when each of its octets
/// is a tab or at least 32 and not 127, and keeps the octets as they are.
#[verifier::external_body]
fn header_value_from_str(value: &str) -> (r: Option<HeaderValue>)
    ensures
        match r {
            Some(v) => is_header_value(value@) && header_value_text(v) == value@,
            None => !is_header_value(value@),
        },
{
    HeaderValue::from_str(value).ok()
}

/// The number of headers that a map is sure to take. A map refuses a header
/// only where it would grow beyond 32768 slots, and it grows only when at
/// least a fifth of its slots are taken.
pub const SURE_HEADERS: usize = 4096;

/// `HeaderMap::new`: a map without headers.
#[verifier::external_body]
fn header_map_new() -> (map: HeaderMap<HeaderValue>)
    ensures
        header_entries(map) == Seq::<Pair>::empty(),
{
    HeaderMap::new()
}

/// `HeaderMap::try_insert`: where the map takes the header, the name is
/// bound to the value, in place of an earlier value of that name where it
/// stands, else at the end; where the map refuses it, nothing changes. A
/// map that holds fewer than 4096 headers takes it.
#[verifier::external_body]
fn header_map_try_insert(map: &mut HeaderMap<HeaderValue>, name: HeaderName, value: HeaderValue) -> (ok:
    bool)
    requires
        distinct_names(header_entries(*old(map))),
    ensures
        ok ==> header_entries(*final(map)) == upsert(
            header_entries(*old(map)),
            header_name_text(name),
            header_value_text(value),
        ),
        !ok ==> header_entries(*final(map)) == header_entries(*old(map)),
        header_entries(*old(map)).len() < SURE_HEADERS ==> ok,
    no_unwind
{
    map.try_insert(name, value).is_ok()
}

/// `HeaderMap::len`: the number of headers.
#[verifier::external_body]
fn header_map_len(map: &HeaderMap<HeaderValue>) -> (n: usize)
    ensures
        n == header_entries(*map).len(),
{
    map.len()
}

/// `HeaderMap::iter`, with `as_str` of each name and the octets of each
/// value as text: the headers in the map's order.
#[verifier::external_body]
fn header_map_entries(map: &HeaderMap<HeaderValue>) -> (entries: Vec<(String, String)>)
    ensures
        pairs(entries@) == header_entries(*map),
{
    map.iter().map(
        |(name, value)| (
            name.as_str().to_owned(),
            String::from_utf8_lossy(value.as_bytes()).into_owned(),
        ),
    ).collect()
}

/// `HeaderMap::clone`: a map with the same headers.
#[verifier::external_body]
fn header_map_clone(map: &HeaderMap<HeaderValue>) -> (copy: HeaderMap<HeaderValue>)
    ensures
        header_entries(copy) == header_entries(*map),
{
    map.clone()
}

/// The header that a line stands for: the text before the first colon is the
/// name, the rest the value, both without surrounding white space. A line
/// without a colon, with a text that is no header name or with a value that
/// cannot be sent stands for none.
pub open spec fn header_of_line(line: Seq<char>) -> Option<Pair> {
    match split_at_first(line, ':') {
        Some((name, value)) => match canonical_header_name(trimmed(name)) {
            Some(n) => if is_header_value(trimmed(value)) {
                Some((n, trimmed(value)))
            } else {
                None
            },
            None => None,
        },
        None => None,
    }
}

/// The form field that a line stands for: the text before the first `=` is
/// the name, the rest the value, both without surrounding white space.
pub open spec fn form_field_of_line(line: Seq<char>) -> Option<Pair> {
    match split_at_first(line, '=') {
        Some((name, value)) => Some((trimmed(name), trimmed(value))),
        None => None,
    }
}

/// Reads a header line.
pub fn parse_header(line: &str) -> (r: Option<(String, String)>)
    ensures
        match r {
            Some((name, value)) => header_of_line(line@) == Some((name@, value@)),
            None => header_of_line(line@) is None,
        },
{
    match split_once(line, ':') {
        Some((name, value)) => {
            let name = trim(name.as_str());
            let value = trim(value.as_str());
            match header_name_from_bytes(name.as_str()) {
                Some(n) => {
                    if header_value_from_str(value.as_str()).is_some() {
                        Some((header_name_as_str(&n).to_owned(), value))
                    } else {
                        None
                    }
                },
                None => None,
            }
        },
        None => None,
    }
}

/// Reads a form line.
pub fn parse_form_field(line: &str) -> (r: Option<(String, String)>)
    ensures
        match r {
            Some((name, value)) => form_field_of_line(line@) == Some((name@, value@)),
            None => form_field_of_line(line@) is None,
        },
{
    match split_once(line, '=') {
        Some((name, value)) => Some((trim(name.as_str()), trim(value.as_str()))),
        None => None,
    }
}

/// White space around the name and the value of a header line changes
/// nothing: the line stands for the header of the bare name and value.
pub proof fn lemma_header_line_padding(
    a: Seq<char>,
    name: Seq<char>,
    b: Seq<char>,
    c: Seq<char>,
    value: Seq<char>,
    d: Seq<char>,
)
    requires
        all_whitespace(a),
        all_whitespace(b),
        all_whitespace(c),
        all_whitespace(d),
        is_trimmed(name),
        is_trimmed(value),
        !name.contains(':'),
    ensures
        header_of_line(a + name + b + seq![':'] + c + value + d) == header_of_line(
            name + seq![':'] + value,
        ),
        header_of_line(name + seq![':'] + value) == match canonical_header_name(name) {
            Some(n) => if is_header_value(value) {
                Some((n, value))
            } else {
                None
            },
            None => None,
        },
{
    assert(!is_whitespace_char(':'));
    lemma_padded_split(a, name, b, ':', c, value, d);
    lemma_split_at_first(name, ':', value);
    lemma_trimmed_padding(Seq::empty(), name, Seq::empty());
    lemma_trimmed_padding(Seq::empty(), value, Seq::empty());
    assert(Seq::<char>::empty() + name + Seq::<char>::empty() =~= name);
    assert(Seq::<char>::empty() + value + Seq::<char>::empty() =~= value);
}

/// White space around the name and the value of a form line changes
/// nothing: the line stands for the bare name and value.
pub proof fn lemma_form_line_padding(
    a: Seq<char>,
    name: Seq<char>,
    b: Seq<char>,
    c: Seq<char>,
    value: Seq<char>,
    d: Seq<char>,
)
    requires
        all_whitespace(a),
        all_whitespace(b),
        all_whitespace(c),
        all_whitespace(d),
        is_trimmed(name),
        is_trimmed(value),
        !name.contains('='),
    ensures
        form_field_of_line(a + name + b + seq!['='] + c + value + d) == Some((name, value)),
{
    assert(!is_whitespace_char('='));
    lemma_padded_split(a, name, b, '=', c, value, d);
}

/// A header name holds no colon and no white space.
pub proof fn lemma_header_name_is_bare(name: Seq<char>)
    requires
        canonical_header_name(name) is Some,
    ensures
        !name.contains(':'),
        is_trimmed(name),
        forall|i: int| 0 <= i < name.len() ==> !is_whitespace_char(#[trigger] name[i]),
{
    assert forall|i: int| 0 <= i < name.len() implies !is_whitespace_char(#[trigger] name[i])
        && name[i] != ':' by {
        assert(is_token_char(name[i]));
    }
    assert(name.last() == name[name.len() - 1]);
}

/// A line of a header name, a colon and a value that can be sent stands for
/// that header, with the name in lower case, however much white space
/// stands around the name and the value.
pub proof fn lemma_padded_header_line(
    a: Seq<char>,
    name: Seq<char>,
    b: Seq<char>,
    c: Seq<char>,
    value: Seq<char>,
    d: Seq<char>,
)
    requires
        all_whitespace(a),
        all_whitespace(b),
        all_whitespace(c),
        all_whitespace(d),
        canonical_header_name(name) is Some,
        is_header_value(value),
        is_trimmed(value),
    ensures
        header_of_line(a + name + b + seq![':'] + c + value + d) == Some(
            (canonical_header_name(name).unwrap(), value),
        ),
        header_of_line(name + seq![':'] + value) == Some(
            (canonical_header_name(name).unwrap(), value),
        ),
{
    lemma_header_name_is_bare(name);
    lemma_header_line_padding(a, name, b, c, value, d);
}

/// A header name in lower case stands for itself.
pub proof fn lemma_canonical_name_is_canonical(name: Seq<char>)
    requires
        canonical_header_name(name) is Some,
    ensures
        canonical_header_name(canonical_header_name(name).unwrap()) == canonical_header_name(name),
{
    let lower = canonical_header_name(name).unwrap();
    assert forall|i: int| 0 <= i < lower.len() implies is_token_char(#[trigger] lower[i])
        && lower_case(lower[i]) == lower[i] by {
        assert(is_token_char(name[i]));
        lemma_lower_case(name[i]);
        lemma_lower_case(lower[i]);
    }
    assert(canonical_header_name(lower).unwrap() =~= lower);
}

/// The value of the header `name` in a list of headers, whatever the case
/// `name` is written in.
pub open spec fn header_lookup(headers: Seq<Pair>, name: Seq<char>) -> Option<Seq<char>> {
    match canonical_header_name(name) {
        Some(n) => lookup(headers, n),
        None => None,
    }
}

/// The headers of a request: names in lower case with their values, in the
/// order in which they were first bound. No name occurs twice.
#[derive(Debug)]
pub struct Headers {
    map: HeaderMap<HeaderValue>,
}

impl View for Headers {
    type V = Seq<Pair>;

    closed spec fn view(&self) -> Seq<Pair> {
        header_entries(self.map)
    }
}

/// What binding `name` to `value` makes of a list of headers: where the name
/// is a header name and the value can be sent, the name in lower case is
/// bound to the value; else nothing changes.
pub open spec fn with_header(headers: Seq<Pair>, name: Seq<char>, value: Seq<char>) -> Seq<Pair> {
    match canonical_header_name(name) {
        Some(n) => if is_header_value(value) {
            upsert(headers, n, value)
        } else {
            headers
        },
        None => headers,
    }
}

impl Headers {
    /// No name occurs twice.
    #[verifier::type_invariant]
    spec fn names_are_distinct(&self) -> bool {
        distinct_names(header_entries(self.map))
    }

    /// No headers.
    pub fn new() -> (h: Self)
        ensures
            h@ == Seq::<Pair>::empty(),
    {
        Headers { map: header_map_new() }
    }

    /// The number of headers. No two of them have the same name.
    pub fn len(&self) -> (n: usize)
        ensures
            n == self@.len(),
            distinct_names(self@),
    {
        proof {
            use_type_invariant(self);
        }
        header_map_len(&self.map)
    }

    /// Binds `name` to `value`, in place of an earlier value of that name,
    /// and says whether it did. Nothing is bound where the name is no header
    /// name or the value cannot be sent, nor where the map refuses the
    /// header, which it does not while it holds fewer than `SURE_HEADERS`.
    pub fn insert(&mut self, name: &str, value: &str) -> (bound: bool)
        ensures
            final(self)@ == if bound {
                with_header(old(self)@, name@, value@)
            } else {
                old(self)@
            },
            bound ==> canonical_header_name(name@) is Some && is_header_value(value@),
            canonical_header_name(name@) is Some && is_header_value(value@) && old(self)@.len()
                < SURE_HEADERS ==> bound,
            distinct_names(final(self)@),
    {
        proof {
            use_type_invariant(&*self);
        }
        let n = match header_name_from_bytes(name) {
            Some(n) => n,
            None => {
                return false;
            },
        };
        let v = match header_value_from_str(value) {
            Some(v) => v,
            None => {
                return false;
            },
        };
        proof {
            lemma_upsert(header_entries(self.map), header_name_text(n), header_value_text(v));
        }
        header_map_try_insert(&mut self.map, n, v)
    }

    /// The headers, each a name and its value, in order.
    pub fn entries(&self) -> (entries: Vec<(String, String)>)
        ensures
            pairs(entries@) == self@,
    {
        header_map_entries(&self.map)
    }

    /// The value of the header `name`, in whatever case the name is written.
    pub fn get(&self, name: &str) -> (r: Option<String>)
        ensures
            match r {
                Some(v) => header_lookup(self@, name@) == Some(v@),
                None => header_lookup(self@, name@) is None,
            },
    {
        let n = match header_name_from_bytes(name) {
            Some(n) => n,
            None => {
                return None;
            },
        };
        let entries = header_map_entries(&self.map);
        match position_of(&entries, header_name_as_str(&n)) {
            Some(i) => {
                proof {
                    names(pairs(entries@)).index_of_first_ensures(header_name_text(n));
                    assert(pairs(entries@)[i as int].1 == entries@[i as int].1@);
                }
                Some(entries[i].1.clone())
            },
            None => None,
        }
    }

    /// The octets of all names and values together, if they fit in a `u64`.
    pub fn octets(&self) -> (r: Option<u64>)
        ensures
            match r {
                Some(n) => n == octets(self@),
                None => octets(self@) > u64::MAX,
            },
    {
        let entries = header_map_entries(&self.map);
        octets_of(&entries)
    }

    /// A copy of the headers.
    pub fn clone(&self) -> (c: Self)
        ensures
            c@ == self@,
    {
        proof {
            use_type_invariant(self);
        }
        Headers { map: header_map_clone(&self.map) }
    }

    /// The map that holds the headers.
    pub fn as_map(&self) -> (map: &HeaderMap<HeaderValue>)
        ensures
            header_entries(*map) == self@,
    {
        &self.map
    }
}

/// Whether two texts are equal but for the case of their letters.
pub open spec fn same_ignoring_case(a: Seq<char>, b: Seq<char>) -> bool {
    a.len() == b.len() && forall|i: int|
        0 <= i < a.len() ==> lower_case(#[trigger] a[i]) == lower_case(#[trigger] b[i])
}

/// Header names are case-insensitive: names that differ in case alone
/// stand for the same header and find the same value.
pub proof fn lemma_header_names_ignore_case(headers: Seq<Pair>, a: Seq<char>, b: Seq<char>)
    requires
        same_ignoring_case(a, b),
    ensures
        canonical_header_name(a) == canonical_header_name(b),
        header_lookup(headers, a) == header_lookup(headers, b),
{
    assert forall|i: int| 0 <= i < a.len() implies is_token_char(#[trigger] a[i])
        == is_token_char(#[trigger] b[i]) by {
        lemma_lower_case(a[i]);
        lemma_lower_case(b[i]);
        assert(lower_case(a[i]) == lower_case(b[i]));
    }
    if canonical_header_name(a) is Some {
        assert forall|i: int| 0 <= i < b.len() implies is_token_char(#[trigger] b[i]) by {
            assert(is_token_char(a[i]));
        }
        assert(canonical_header_name(a).unwrap() =~= canonical_header_name(b).unwrap());
    } else {
        if canonical_header_name(b) is Some {
            assert forall|i: int| 0 <= i < a.len() implies is_token_char(#[trigger] a[i]) by {
                assert(is_token_char(b[i]));
            }
        }
    }
}

/// Lower case leaves a character a character of header names or none, and
/// moves capital letters only.
proof fn lemma_lower_case(c: char)
    ensures
        is_token_char(lower_case(c)) == is_token_char(c),
        lower_case(c) as u32 == if 0x41 <= c as u32 <= 0x5A {
            c as u32 + 32
        } else {
            c as u32 as int
        },
{
}

/// A padded line splits at the separator into the padded name and the
/// padded value, which trim to the name and the value.
proof fn lemma_padded_split(
    a: Seq<char>,
    name: Seq<char>,
    b: Seq<char>,
    sep: char,
    c: Seq<char>,
    value: Seq<char>,
    d: Seq<char>,
)
    requires
        !is_whitespace_char(sep),
        all_whitespace(a),
        all_whitespace(b),
        all_whitespace(c),
        all_whitespace(d),
        is_trimmed(name),
        is_trimmed(value),
        !name.contains(sep),
    ensures
        split_at_first(a + name + b + seq![sep] + c + value + d, sep) == Some(
            (a + name + b, c + value + d),
        ),
        trimmed(a + name + b) == name,
        trimmed(c + value + d) == value,
{
    let left = a + name + b;
    let right = c + value + d;
    assert(!left.contains(sep)) by {
        if left.contains(sep) {
            let i = choose|i: int| 0 <= i < left.len() && left[i] == sep;
            if i < a.len() {
                assert(left[i] == a[i]);
            } else if i < a.len() + name.len() {
                assert(left[i] == name[i - a.len()]);
                assert(name.contains(sep));
            } else {
                assert(left[i] == b[i - a.len() - name.len()]);
            }
        }
    }
    lemma_split_at_first(left, sep, right);
    assert(a + name + b + seq![sep] + c + value + d =~= left + seq![sep] + right);
    lemma_trimmed_padding(a, name, b);
    lemma_trimmed_padding(c, value, d);
}

} // verus!
