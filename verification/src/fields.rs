//! Ordered lists of name and value pairs in which no name occurs twice.
//! Form fields are kept in such a list, and the headers of a request are
//! seen as one.

use crate::text::{octet_count, octet_len};
use vstd::prelude::*;
use vstd::string::*;

verus! {

/// A pair of a name and its value, as character sequences.
pub type Pair = (Seq<char>, Seq<char>);

/// The names of `s`, in order.
pub open spec fn names(s: Seq<Pair>) -> Seq<Seq<char>> {
    Seq::new(s.len(), |i: int| s[i].0)
}

/// Whether no name occurs twice in `s`.
pub open spec fn distinct_names(s: Seq<Pair>) -> bool {
    forall|i: int, j: int| 0 <= i < j < s.len() ==> (#[trigger] s[i]).0 != (#[trigger] s[j]).0
}

/// `s` with `name` bound to `value`: the pair with that name is replaced
/// where it stands, or the new pair is added at the end.
pub open spec fn upsert(s: Seq<Pair>, name: Seq<char>, value: Seq<char>) -> Seq<Pair> {
    match names(s).index_of_first(name) {
        Some(i) => s.update(i, (name, value)),
        None => s.push((name, value)),
    }
}

/// The value bound to `name` in `s`, if any.
pub open spec fn lookup(s: Seq<Pair>, name: Seq<char>) -> Option<Seq<char>> {
    match names(s).index_of_first(name) {
        Some(i) => Some(s[i].1),
        None => None,
    }
}

/// The octets of all names and values of `s` together.
pub open spec fn octets(s: Seq<Pair>) -> nat
    decreases s.len(),
{
    if s.len() == 0 {
        0
    } else {
        octets(s.drop_last()) + octet_len(s.last().0) + octet_len(s.last().1)
    }
}

/// After `upsert` the name is bound to the value, no other binding has
/// changed, and names stay distinct.
pub proof fn lemma_upsert(s: Seq<Pair>, name: Seq<char>, value: Seq<char>)
    requires
        distinct_names(s),
    ensures
        distinct_names(upsert(s, name, value)),
        lookup(upsert(s, name, value), name) == Some(value),
        forall|other: Seq<char>|
            other != name ==> lookup(upsert(s, name, value), other) == lookup(s, other),
        upsert(s, name, value).len() == if lookup(s, name) is Some {
            s.len()
        } else {
            s.len() + 1
        },
{
    let t = upsert(s, name, value);
    names(s).index_of_first_ensures(name);
    names(t).index_of_first_ensures(name);
    match names(s).index_of_first(name) {
        Some(i) => {
            assert(names(s)[i] == name);
            assert forall|a: int, b: int| 0 <= a < b < t.len() implies (#[trigger] t[a]).0 != (
            #[trigger] t[b]).0 by {
                assert(t[a].0 == s[a].0);
                assert(t[b].0 == s[b].0);
            }
            assert(names(t)[i] == name);
            let k = names(t).index_of_first(name).unwrap();
            if k != i {
                assert(names(t)[k] == name);
                assert(t[k].0 == t[i].0);
            }
        },
        None => {
            assert forall|a: int, b: int| 0 <= a < b < t.len() implies (#[trigger] t[a]).0 != (
            #[trigger] t[b]).0 by {
                if b == s.len() {
                    assert(names(s)[a] == s[a].0);
                    assert(names(s).contains(s[a].0));
                }
            }
            assert(names(t)[s.len() as int] == name);
            let k = names(t).index_of_first(name).unwrap();
            if k != s.len() {
                assert(names(t)[k] == name);
                assert(names(s)[k] == name);
                assert(names(s).contains(name));
            }
        },
    }
    assert forall|other: Seq<char>| other != name implies lookup(t, other) == lookup(
        s,
        other,
    ) by {
        lemma_upsert_other(s, name, value, other);
    }
}

proof fn lemma_upsert_other(s: Seq<Pair>, name: Seq<char>, value: Seq<char>, other: Seq<char>)
    requires
        other != name,
    ensures
        lookup(upsert(s, name, value), other) == lookup(s, other),
{
    let t = upsert(s, name, value);
    names(s).index_of_first_ensures(name);
    names(s).index_of_first_ensures(other);
    names(t).index_of_first_ensures(other);
    // The names of `t` other than `name` stand where they stood in `s`.
    assert forall|i: int| 0 <= i < s.len() && names(s)[i] == other implies names(t)[i] == other
        && t[i] == s[i] by {
        assert(s[i].0 == other);
    }
    assert forall|i: int| 0 <= i < t.len() && names(t)[i] == other implies i < s.len() && names(
        s,
    )[i] == other && t[i] == s[i] by {
        assert(t[i].0 == other);
    }
    match names(s).index_of_first(other) {
        Some(i) => {
            assert(names(s)[i] == other);
            assert(names(t)[i] == other);
            assert(names(t).contains(other));
            let k = names(t).index_of_first(other).unwrap();
            assert(names(t)[k] == other);
            assert(names(s)[k] == other);
            assert(k == i);
        },
        None => {
            if names(t).contains(other) {
                let k = names(t).index_of_first(other).unwrap();
                assert(names(t)[k] == other);
                assert(names(s)[k] == other);
                assert(names(s).contains(other));
            }
        },
    }
}

/// The pairs of a list of strings, as character sequences.
pub open spec fn pairs(v: Seq<(String, String)>) -> Seq<Pair> {
    Seq::new(v.len(), |i: int| (v[i].0@, v[i].1@))
}

/// Where `name` stands in a list of pairs, if it does.
pub fn position_of(entries: &Vec<(String, String)>, name: &str) -> (r: Option<usize>)
    ensures
        match r {
            Some(i) => names(pairs(entries@)).index_of_first(name@) == Some(i as int),
            None => names(pairs(entries@)).index_of_first(name@) is None,
        },
{
    let n = entries.len();
    let mut i: usize = 0;
    while i < n
        invariant
            i <= n,
            n == entries@.len(),
            n == pairs(entries@).len(),
            forall|j: int| 0 <= j < i ==> #[trigger] names(pairs(entries@))[j] != name@,
        decreases n - i,
    {
        if str_eq(entries[i].0.as_str(), name) {
            proof {
                names(pairs(entries@)).index_of_first_ensures(name@);
                assert(names(pairs(entries@))[i as int] == name@);
                assert(names(pairs(entries@)).contains(name@));
            }
            return Some(i);
        }
        i += 1;
    }
    proof {
        names(pairs(entries@)).index_of_first_ensures(name@);
    }
    None
}

/// The octets of all names and values of a list of pairs together, if they
/// fit in a `u64`.
pub fn octets_of(entries: &Vec<(String, String)>) -> (r: Option<u64>)
    ensures
        match r {
            Some(n) => n == octets(pairs(entries@)),
            None => octets(pairs(entries@)) > u64::MAX,
        },
{
    let n = entries.len();
    let mut sum: u64 = 0;
    let mut i: usize = 0;
    while i < n
        invariant
            i <= n,
            n == entries@.len(),
            n == pairs(entries@).len(),
            sum == octets(pairs(entries@).take(i as int)),
        decreases n - i,
    {
        proof {
            lemma_octets_monotonic(pairs(entries@), i as int + 1);
            assert(pairs(entries@).take(i as int + 1).drop_last() =~= pairs(entries@).take(i as int));
        }
        let a = octet_count(entries[i].0.as_str());
        let b = octet_count(entries[i].1.as_str());
        proof {
            let t = pairs(entries@).take(i as int + 1);
            assert(t.last() == pairs(entries@)[i as int]);
            assert(a == octet_len(pairs(entries@)[i as int].0));
            assert(b == octet_len(pairs(entries@)[i as int].1));
            assert(octets(t) == sum + a + b);
        }
        let step = match (a as u64).checked_add(b as u64) {
            Some(step) => step,
            None => {
                return None;
            },
        };
        sum = match sum.checked_add(step) {
            Some(next) => next,
            None => {
                return None;
            },
        };
        i += 1;
    }
    proof {
        assert(pairs(entries@).take(n as int) =~= pairs(entries@));
    }
    Some(sum)
}

/// An ordered list of names with their values. No name occurs twice.
#[derive(Debug)]
pub struct Fields {
    entries: Vec<(String, String)>,
}

impl View for Fields {
    type V = Seq<Pair>;

    closed spec fn view(&self) -> Seq<Pair> {
        pairs(self.entries@)
    }
}

impl Fields {
    #[verifier::type_invariant]
    spec fn names_are_distinct(&self) -> bool {
        forall|i: int, j: int|
            0 <= i < j < self.entries@.len() ==> (#[trigger] self.entries@[i]).0@ != (
            #[trigger] self.entries@[j]).0@
    }

    /// Whether the list is as it should be: no name occurs twice. Every
    /// list is.
    pub open spec fn wf(&self) -> bool {
        distinct_names(self@)
    }

    /// The empty list.
    pub fn new() -> (f: Self)
        ensures
            f@ == Seq::<Pair>::empty(),
            f.wf(),
    {
        let f = Fields { entries: Vec::new() };
        assert(f@ =~= Seq::<Pair>::empty());
        f
    }

    /// The number of pairs. No two of them have the same name.
    pub fn len(&self) -> (n: usize)
        ensures
            n == self@.len(),
            self.wf(),
    {
        proof {
            use_type_invariant(self);
            assert forall|i: int, j: int| 0 <= i < j < self@.len() implies (#[trigger] self@[i]).0
                != (#[trigger] self@[j]).0 by {
                assert(self.entries@[i].0@ != self.entries@[j].0@);
            }
        }
        self.entries.len()
    }

    pub fn is_empty(&self) -> (b: bool)
        ensures
            b == (self@.len() == 0),
    {
        self.entries.len() == 0
    }

    /// The name at position `i`.
    pub fn name_at(&self, i: usize) -> (name: &str)
        requires
            i < self@.len(),
        ensures
            name@ == self@[i as int].0,
    {
        self.entries[i].0.as_str()
    }

    /// The value at position `i`.
    pub fn value_at(&self, i: usize) -> (value: &str)
        requires
            i < self@.len(),
        ensures
            value@ == self@[i as int].1,
    {
        self.entries[i].1.as_str()
    }

    /// Where `name` stands in the list, if it does.
    pub fn position(&self, name: &str) -> (r: Option<usize>)
        ensures
            match r {
                Some(i) => names(self@).index_of_first(name@) == Some(i as int),
                None => names(self@).index_of_first(name@) is None,
            },
    {
        position_of(&self.entries, name)
    }

    /// The value bound to `name`, if any.
    pub fn get(&self, name: &str) -> (r: Option<&str>)
        ensures
            match r {
                Some(v) => lookup(self@, name@) == Some(v@),
                None => lookup(self@, name@) is None,
            },
    {
        match self.position(name) {
            Some(i) => {
                proof {
                    names(self@).index_of_first_ensures(name@);
                }
                Some(self.entries[i].1.as_str())
            },
            None => None,
        }
    }

    /// Binds `name` to `value`, in place of an earlier value of that name.
    pub fn insert(&mut self, name: String, value: String)
        ensures
            final(self)@ == upsert(old(self)@, name@, value@),
            final(self).wf(),
    {
        let found = self.position(name.as_str());
        proof {
            use_type_invariant(&*self);
            names(self@).index_of_first_ensures(name@);
            lemma_upsert(self@, name@, value@);
        }
        let ghost target = upsert(self@, name@, value@);
        let mut entries: Vec<(String, String)> = Vec::new();
        core::mem::swap(&mut entries, &mut self.entries);
        match found {
            Some(i) => {
                entries.set(i, (name, value));
            },
            None => {
                entries.push((name, value));
            },
        }
        proof {
            let after = Seq::new(entries@.len(), |k: int| (entries@[k].0@, entries@[k].1@));
            assert(after =~= target);
            assert forall|i: int, j: int| 0 <= i < j < entries@.len() implies (
            #[trigger] entries@[i]).0@ != (#[trigger] entries@[j]).0@ by {
                assert(target[i].0 != target[j].0);
                assert(after[i].0 == entries@[i].0@);
                assert(after[j].0 == entries@[j].0@);
            }
        }
        self.entries = entries;
    }

    /// The octets of all names and values together, if they fit in a `u64`.
    pub fn octets(&self) -> (r: Option<u64>)
        ensures
            match r {
                Some(n) => n == octets(self@),
                None => octets(self@) > u64::MAX,
            },
    {
        octets_of(&self.entries)
    }

    /// A copy of the list.
    pub fn clone(&self) -> (c: Self)
        ensures
            c@ == self@,
    {
        let n = self.entries.len();
        let mut entries: Vec<(String, String)> = Vec::new();
        let mut i: usize = 0;
        while i < n
            invariant
                i <= n,
                n == self.entries@.len(),
                entries@.len() == i,
                forall|j: int|
                    0 <= j < i ==> (#[trigger] entries@[j]).0@ == self.entries@[j].0@
                        && entries@[j].1@ == self.entries@[j].1@,
            decreases n - i,
        {
            entries.push((self.entries[i].0.clone(), self.entries[i].1.clone()));
            i += 1;
        }
        proof {
            use_type_invariant(self);
        }
        let c = Fields { entries };
        assert(c@ =~= self@);
        c
    }
}

/// The octets of a prefix are at most those of the whole list.
pub proof fn lemma_octets_monotonic(s: Seq<Pair>, k: int)
    requires
        0 <= k <= s.len(),
    ensures
        octets(s.take(k)) <= octets(s),
    decreases s.len() - k,
{
    if k < s.len() {
        lemma_octets_monotonic(s, k + 1);
        assert(s.take(k + 1).drop_last() =~= s.take(k));
    } else {
        assert(s.take(k) =~= s);
    }
}

/// Whether two texts are equal.
pub fn str_eq(a: &str, b: &str) -> (eq: bool)
    ensures
        eq == (a@ == b@),
{
    let n = a.unicode_len();
    if b.unicode_len() != n {
        return false;
    }
    let mut i: usize = 0;
    while i < n
        invariant
            i <= n,
            n == a@.len(),
            n == b@.len(),
            forall|j: int| 0 <= j < i ==> a@[j] == b@[j],
        decreases n - i,
    {
        if a.get_char(i) != b.get_char(i) {
            return false;
        }
        i += 1;
    }
    assert(a@ =~= b@);
    true
}

} // verus!
