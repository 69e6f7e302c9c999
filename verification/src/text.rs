//! Small text utilities over character sequences: whitespace trimming,
//! splitting at a separator and decimal formatting.

use vstd::prelude::*;
use vstd::string::*;

verus! {

/// Whether `c` is white space: whether it has the property White_Space of
/// Unicode. These are the tab, the line feed, the vertical tab, the form
/// feed and the carriage return, the space, the next line and the no-break
/// space, and the spaces and separators above them.
pub open spec fn is_whitespace_char(c: char) -> bool {
    let n = c as u32;
    ||| 0x09 <= n <= 0x0D
    ||| n == 0x20
    ||| n == 0x85
    ||| n == 0xA0
    ||| n == 0x1680
    ||| 0x2000 <= n <= 0x200A
    ||| n == 0x2028
    ||| n == 0x2029
    ||| n == 0x202F
    ||| n == 0x205F
    ||| n == 0x3000
}

/// `char::is_whitespace`: whether the character has the property
/// White_Space of Unicode.
#[verifier::external_body]
fn char_is_whitespace(c: char) -> (b: bool)
    ensures
        b == is_whitespace_char(c),
{
    c.is_whitespace()
}

/// The number of white space characters `s` begins with.
pub open spec fn leading_whitespace(s: Seq<char>) -> nat
    decreases s.len(),
{
    if s.len() > 0 && is_whitespace_char(s[0]) {
        1 + leading_whitespace(s.drop_first())
    } else {
        0
    }
}

/// The number of white space characters `s` ends with.
pub open spec fn trailing_whitespace(s: Seq<char>) -> nat
    decreases s.len(),
{
    if s.len() > 0 && is_whitespace_char(s.last()) {
        1 + trailing_whitespace(s.drop_last())
    } else {
        0
    }
}

/// `s` without its leading and trailing white space.
pub open spec fn trimmed(s: Seq<char>) -> Seq<char> {
    let a = leading_whitespace(s);
    if a == s.len() {
        Seq::empty()
    } else {
        s.subrange(a as int, s.len() - trailing_whitespace(s))
    }
}

/// Whether every character of `s` is white space.
pub open spec fn all_whitespace(s: Seq<char>) -> bool {
    forall|i: int| 0 <= i < s.len() ==> is_whitespace_char(#[trigger] s[i])
}

/// Whether `s` neither begins nor ends with white space.
pub open spec fn is_trimmed(s: Seq<char>) -> bool {
    s.len() > 0 ==> !is_whitespace_char(s[0]) && !is_whitespace_char(s.last())
}

/// `a` is the length of the white space prefix of `s` when the first `a`
/// characters are white space and the next one, if any, is not.
pub proof fn lemma_leading_whitespace(s: Seq<char>, a: int)
    requires
        0 <= a <= s.len(),
        forall|i: int| 0 <= i < a ==> is_whitespace_char(#[trigger] s[i]),
        a < s.len() ==> !is_whitespace_char(s[a]),
    ensures
        leading_whitespace(s) == a,
    decreases a,
{
    if a > 0 {
        let t = s.drop_first();
        assert(is_whitespace_char(s[0]));
        assert forall|i: int| 0 <= i < a - 1 implies is_whitespace_char(#[trigger] t[i]) by {
            assert(t[i] == s[i + 1]);
        }
        if a - 1 < t.len() {
            assert(t[a - 1] == s[a]);
        }
        lemma_leading_whitespace(t, a - 1);
    }
}

/// `n` is the length of the white space suffix of `s` when the last `n`
/// characters are white space and the one before them, if any, is not.
pub proof fn lemma_trailing_whitespace(s: Seq<char>, n: int)
    requires
        0 <= n <= s.len(),
        forall|i: int| s.len() - n <= i < s.len() ==> is_whitespace_char(#[trigger] s[i]),
        n < s.len() ==> !is_whitespace_char(s[s.len() - n - 1]),
    ensures
        trailing_whitespace(s) == n,
    decreases n,
{
    if n > 0 {
        let t = s.drop_last();
        assert(is_whitespace_char(s[s.len() - 1]));
        assert forall|i: int| t.len() - (n - 1) <= i < t.len() implies is_whitespace_char(
            #[trigger] t[i],
        ) by {
            assert(t[i] == s[i]);
        }
        if n - 1 < t.len() {
            assert(t[t.len() - (n - 1) - 1] == s[s.len() - n - 1]);
        }
        lemma_trailing_whitespace(t, n - 1);
    }
}

/// Trimming removes white space padding: whatever white space stands
/// before and after a trimmed text, `trimmed` gives the text back.
pub proof fn lemma_trimmed_padding(before: Seq<char>, core: Seq<char>, after: Seq<char>)
    requires
        all_whitespace(before),
        all_whitespace(after),
        is_trimmed(core),
    ensures
        trimmed(before + core + after) == core,
{
    let s = before + core + after;
    if core.len() == 0 {
        assert forall|i: int| 0 <= i < s.len() implies is_whitespace_char(#[trigger] s[i]) by {
            if i < before.len() {
                assert(s[i] == before[i]);
            } else {
                assert(s[i] == after[i - before.len()]);
            }
        }
        lemma_leading_whitespace(s, s.len() as int);
        assert(trimmed(s) =~= core);
    } else {
        let a = before.len() as int;
        let n = after.len() as int;
        assert forall|i: int| 0 <= i < a implies is_whitespace_char(#[trigger] s[i]) by {
            assert(s[i] == before[i]);
        }
        assert(s[a] == core[0]);
        lemma_leading_whitespace(s, a);
        assert forall|i: int| s.len() - n <= i < s.len() implies is_whitespace_char(
            #[trigger] s[i],
        ) by {
            assert(s[i] == after[i - a - core.len()]);
        }
        assert(s[s.len() - n - 1] == core.last());
        lemma_trailing_whitespace(s, n);
        assert(trimmed(s) =~= core);
    }
}

/// Trimming twice is trimming once.
pub proof fn lemma_trimmed_idempotent(s: Seq<char>)
    ensures
        is_trimmed(trimmed(s)),
        trimmed(trimmed(s)) == trimmed(s),
{
    lemma_trimmed_is_trimmed(s);
    lemma_trimmed_padding(Seq::empty(), trimmed(s), Seq::empty());
    assert(Seq::<char>::empty() + trimmed(s) + Seq::<char>::empty() =~= trimmed(s));
}

proof fn lemma_leading_whitespace_bounds(s: Seq<char>)
    ensures
        leading_whitespace(s) <= s.len(),
        forall|i: int| 0 <= i < leading_whitespace(s) ==> is_whitespace_char(#[trigger] s[i]),
        leading_whitespace(s) < s.len() ==> !is_whitespace_char(s[leading_whitespace(s) as int]),
    decreases s.len(),
{
    if s.len() > 0 && is_whitespace_char(s[0]) {
        let t = s.drop_first();
        lemma_leading_whitespace_bounds(t);
        assert forall|i: int| 0 <= i < leading_whitespace(s) implies is_whitespace_char(
            #[trigger] s[i],
        ) by {
            if i > 0 {
                assert(s[i] == t[i - 1]);
            }
        }
        if leading_whitespace(s) < s.len() {
            assert(s[leading_whitespace(s) as int] == t[leading_whitespace(t) as int]);
        }
    }
}

proof fn lemma_trailing_whitespace_bounds(s: Seq<char>)
    ensures
        trailing_whitespace(s) <= s.len(),
        forall|i: int|
            s.len() - trailing_whitespace(s) <= i < s.len() ==> is_whitespace_char(
                #[trigger] s[i],
            ),
        trailing_whitespace(s) < s.len() ==> !is_whitespace_char(
            s[s.len() - trailing_whitespace(s) - 1],
        ),
    decreases s.len(),
{
    if s.len() > 0 && is_whitespace_char(s.last()) {
        let t = s.drop_last();
        lemma_trailing_whitespace_bounds(t);
        assert forall|i: int|
            s.len() - trailing_whitespace(s) <= i < s.len() implies is_whitespace_char(
            #[trigger] s[i],
        ) by {
            if i < s.len() - 1 {
                assert(s[i] == t[i]);
            }
        }
        if trailing_whitespace(s) < s.len() {
            assert(s[s.len() - trailing_whitespace(s) - 1] == t[t.len() - trailing_whitespace(t)
                - 1]);
        }
    }
}

proof fn lemma_trimmed_is_trimmed(s: Seq<char>)
    ensures
        is_trimmed(trimmed(s)),
{
    lemma_leading_whitespace_bounds(s);
    lemma_trailing_whitespace_bounds(s);
    let a = leading_whitespace(s) as int;
    let n = trailing_whitespace(s) as int;
    if a < s.len() {
        // s[a] is no white space, so the white space suffix ends after it.
        assert(a < s.len() - n) by {
            if a >= s.len() - n {
                assert(is_whitespace_char(s[a]));
            }
        }
        let t = trimmed(s);
        assert(t[0] == s[a]);
        assert(t.last() == s[s.len() - n - 1]);
    }
}

/// Removes leading and trailing white space.
pub fn trim(s: &str) -> (t: String)
    ensures
        t@ == trimmed(s@),
{
    let n = s.unicode_len();
    let mut a: usize = 0;
    while a < n && char_is_whitespace(s.get_char(a))
        invariant
            a <= n,
            n == s@.len(),
            forall|i: int| 0 <= i < a ==> is_whitespace_char(#[trigger] s@[i]),
        decreases n - a,
    {
        a += 1;
    }
    proof {
        lemma_leading_whitespace(s@, a as int);
    }
    if a == n {
        return String::new();
    }
    let mut b: usize = n;
    while b > a && char_is_whitespace(s.get_char(b - 1))
        invariant
            a <= b <= n,
            a < n,
            n == s@.len(),
            !is_whitespace_char(s@[a as int]),
            forall|i: int| b <= i < n ==> is_whitespace_char(#[trigger] s@[i]),
        decreases b,
    {
        b -= 1;
    }
    proof {
        lemma_trailing_whitespace(s@, n - b);
    }
    s.substring_char(a, b).to_owned()
}

/// The two parts of `s` around the first occurrence of `sep`, if there is one.
pub open spec fn split_at_first(s: Seq<char>, sep: char) -> Option<(Seq<char>, Seq<char>)> {
    match s.index_of_first(sep) {
        Some(i) => Some((s.subrange(0, i), s.subrange(i + 1, s.len() as int))),
        None => None,
    }
}

/// The two parts of `s` around the last occurrence of `sep`, if there is one.
pub open spec fn split_at_last(s: Seq<char>, sep: char) -> Option<(Seq<char>, Seq<char>)> {
    match s.index_of_last(sep) {
        Some(i) => Some((s.subrange(0, i), s.subrange(i + 1, s.len() as int))),
        None => None,
    }
}

/// A text without `sep`, then `sep`, then anything, splits at that `sep`.
pub proof fn lemma_split_at_first(left: Seq<char>, sep: char, right: Seq<char>)
    requires
        !left.contains(sep),
    ensures
        split_at_first(left + seq![sep] + right, sep) == Some((left, right)),
{
    let s = left + seq![sep] + right;
    s.index_of_first_ensures(sep);
    let k = left.len() as int;
    assert(s[k] == sep);
    assert(s.contains(sep));
    let i = s.index_of_first(sep).unwrap();
    if i < k {
        assert(s[i] == left[i]);
        assert(left.contains(sep));
    }
    assert(i == k);
    assert(s.subrange(0, i) =~= left);
    assert(s.subrange(i + 1, s.len() as int) =~= right);
}

/// Anything, then `sep`, then a text without `sep`, splits at that `sep`.
pub proof fn lemma_split_at_last(left: Seq<char>, sep: char, right: Seq<char>)
    requires
        !right.contains(sep),
    ensures
        split_at_last(left + seq![sep] + right, sep) == Some((left, right)),
{
    let s = left + seq![sep] + right;
    s.index_of_last_ensures(sep);
    let k = left.len() as int;
    assert(s[k] == sep);
    assert(s.contains(sep));
    let i = s.index_of_last(sep).unwrap();
    if i > k {
        assert(s[i] == right[i - k - 1]);
        assert(right.contains(sep));
    }
    assert(i == k);
    assert(s.subrange(0, i) =~= left);
    assert(s.subrange(i + 1, s.len() as int) =~= right);
}

/// Splits `s` at the first occurrence of `sep`.
pub fn split_once(s: &str, sep: char) -> (r: Option<(String, String)>)
    ensures
        match r {
            Some((left, right)) => split_at_first(s@, sep) == Some((left@, right@)),
            None => split_at_first(s@, sep) is None,
        },
{
    let n = s.unicode_len();
    let mut i: usize = 0;
    while i < n && s.get_char(i) != sep
        invariant
            i <= n,
            n == s@.len(),
            forall|j: int| 0 <= j < i ==> #[trigger] s@[j] != sep,
        decreases n - i,
    {
        i += 1;
    }
    proof {
        s@.index_of_first_ensures(sep);
        if i < n {
            assert(s@[i as int] == sep);
            assert(s@.contains(sep));
        }
    }
    if i == n {
        None
    } else {
        let left = s.substring_char(0, i).to_owned();
        let right = s.substring_char(i + 1, n).to_owned();
        Some((left, right))
    }
}

/// Splits `s` at the last occurrence of `sep`.
pub fn rsplit_once(s: &str, sep: char) -> (r: Option<(String, String)>)
    ensures
        match r {
            Some((left, right)) => split_at_last(s@, sep) == Some((left@, right@)),
            None => split_at_last(s@, sep) is None,
        },
{
    let n = s.unicode_len();
    let mut i: usize = n;
    while i > 0 && s.get_char(i - 1) != sep
        invariant
            i <= n,
            n == s@.len(),
            forall|j: int| i <= j < n ==> #[trigger] s@[j] != sep,
        decreases i,
    {
        i -= 1;
    }
    proof {
        s@.index_of_last_ensures(sep);
        if i > 0 {
            assert(s@[i - 1] == sep);
            assert(s@.contains(sep));
        }
    }
    if i == 0 {
        None
    } else {
        let left = s.substring_char(0, i - 1).to_owned();
        let right = s.substring_char(i, n).to_owned();
        Some((left, right))
    }
}

/// Whether `s` ends with `suffix`.
pub open spec fn has_suffix(s: Seq<char>, suffix: Seq<char>) -> bool {
    suffix.len() <= s.len() && s.subrange(s.len() - suffix.len(), s.len() as int) == suffix
}

/// Whether `s` ends with `suffix`.
pub fn ends_with(s: &str, suffix: &str) -> (b: bool)
    ensures
        b == has_suffix(s@, suffix@),
{
    let n = s.unicode_len();
    let m = suffix.unicode_len();
    if m > n {
        return false;
    }
    let start = n - m;
    let mut i: usize = 0;
    while i < m
        invariant
            i <= m <= n,
            start == n - m,
            n == s@.len(),
            m == suffix@.len(),
            forall|j: int| 0 <= j < i ==> s@[start + j] == #[trigger] suffix@[j],
        decreases m - i,
    {
        if s.get_char(start + i) != suffix.get_char(i) {
            proof {
                let t = s@.subrange(s@.len() - suffix@.len(), s@.len() as int);
                assert(t[i as int] == s@[start + i]);
            }
            return false;
        }
        i += 1;
    }
    proof {
        assert(s@.subrange(s@.len() - suffix@.len(), s@.len() as int) =~= suffix@);
    }
    true
}

/// The texts of a list of strings.
pub open spec fn texts(v: Seq<String>) -> Seq<Seq<char>> {
    Seq::new(v.len(), |i: int| v[i]@)
}

/// `a` followed by `b`.
pub fn join(a: &str, b: &str) -> (s: String)
    ensures
        s@ == a@ + b@,
{
    let mut s = String::from_str(a);
    s.append(b);
    s
}

/// The number of octets of `s` in UTF-8.
pub open spec fn octet_len(s: Seq<char>) -> nat {
    vstd::utf8::encode_utf8(s).len()
}

/// The number of octets of `s`.
pub fn octet_count(s: &str) -> (n: usize)
    ensures
        n == octet_len(s@),
{
    s.as_bytes().len()
}

/// The character of the decimal digit `d`.
pub open spec fn digit_char(d: nat) -> char {
    if d == 0 {
        '0'
    } else if d == 1 {
        '1'
    } else if d == 2 {
        '2'
    } else if d == 3 {
        '3'
    } else if d == 4 {
        '4'
    } else if d == 5 {
        '5'
    } else if d == 6 {
        '6'
    } else if d == 7 {
        '7'
    } else if d == 8 {
        '8'
    } else {
        '9'
    }
}

/// The decimal digits of `n`, most significant first, without leading zeros.
pub open spec fn decimal(n: nat) -> Seq<char>
    decreases n,
{
    if n < 10 {
        seq![digit_char(n)]
    } else {
        decimal(n / 10).push(digit_char(n % 10))
    }
}

fn digit_str(d: u64) -> (s: &'static str)
    requires
        d < 10,
    ensures
        s@ == seq![digit_char(d as nat)],
{
    proof {
        reveal_strlit("0");
        reveal_strlit("1");
        reveal_strlit("2");
        reveal_strlit("3");
        reveal_strlit("4");
        reveal_strlit("5");
        reveal_strlit("6");
        reveal_strlit("7");
        reveal_strlit("8");
        reveal_strlit("9");
    }
    let s = if d == 0 {
        "0"
    } else if d == 1 {
        "1"
    } else if d == 2 {
        "2"
    } else if d == 3 {
        "3"
    } else if d == 4 {
        "4"
    } else if d == 5 {
        "5"
    } else if d == 6 {
        "6"
    } else if d == 7 {
        "7"
    } else if d == 8 {
        "8"
    } else {
        "9"
    };
    assert(s@ =~= seq![digit_char(d as nat)]);
    s
}

/// Writes `n` in decimal.
pub fn decimal_string(n: u64) -> (s: String)
    ensures
        s@ == decimal(n as nat),
    decreases n,
{
    if n < 10 {
        digit_str(n).to_owned()
    } else {
        let mut s = decimal_string(n / 10);
        s.append(digit_str(n % 10));
        assert(s@ =~= decimal((n / 10) as nat).push(digit_char((n % 10) as nat)));
        s
    }
}

} // verus!
