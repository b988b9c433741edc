//! Indexes from a lowercased key to the distinct sources recorded under
//! it, in order of first recording: which monsters drop a card or gem, and
//! where a monster lives.
use vstd::prelude::*;
use crate::chars::{chars_of, same_chars};
use crate::fields::push_new;

verus! {

/// The character sequences of a list of strings.
pub open spec fn string_views(v: Seq<String>) -> Seq<Seq<char>> {
    v.map_values(|s: String| s@)
}

/// The sources recorded under `key`: the list of the first entry with that
/// key.
pub open spec fn lookup(entries: Seq<(Vec<char>, Vec<String>)>, key: Seq<char>) -> Option<
    Seq<Seq<char>>,
>
    decreases entries.len(),
{
    if entries.len() == 0 {
        None
    } else if entries[0].0@ == key {
        Some(string_views(entries[0].1@))
    } else {
        lookup(entries.skip(1), key)
    }
}

/// A map from keys to the list of distinct sources recorded under each.
pub struct SourceIndex {
    entries: Vec<(Vec<char>, Vec<String>)>,
}

impl View for SourceIndex {
    type V = Map<Seq<char>, Seq<Seq<char>>>;

    closed spec fn view(&self) -> Map<Seq<char>, Seq<Seq<char>>> {
        Map::new(
            |k: Seq<char>| lookup(self.entries@, k) is Some,
            |k: Seq<char>| lookup(self.entries@, k).unwrap(),
        )
    }
}

/// The sources recorded under `key`, none when there are none.
pub open spec fn sources_of(m: Map<Seq<char>, Seq<Seq<char>>>, key: Seq<char>) -> Seq<Seq<char>> {
    if m.contains_key(key) {
        m[key]
    } else {
        seq![]
    }
}

/// `m` with `source` recorded under `key`, unless it is already there.
pub open spec fn with_source(m: Map<Seq<char>, Seq<Seq<char>>>, key: Seq<char>, source: Seq<char>) -> Map<
    Seq<char>,
    Seq<Seq<char>>,
> {
    m.insert(key, push_new(sources_of(m, key), source))
}

/// Whether no sequence occurs twice in `s`.
pub open spec fn no_repeats(s: Seq<Seq<char>>) -> bool {
    forall|i: int, j: int| 0 <= i < j < s.len() ==> s[i] != s[j]
}

/// Whether every list of the map is free of repeats.
pub open spec fn lists_distinct(m: Map<Seq<char>, Seq<Seq<char>>>) -> bool {
    forall|k: Seq<char>| m.contains_key(k) ==> no_repeats(#[trigger] m[k])
}

/// After an entry at the first position with `key` is replaced, only the
/// list under `key` changes.
proof fn lemma_lookup_update(
    e: Seq<(Vec<char>, Vec<String>)>,
    i: int,
    x: (Vec<char>, Vec<String>),
    key: Seq<char>,
    k: Seq<char>,
)
    requires
        0 <= i < e.len(),
        e[i].0@ == key,
        x.0@ == key,
        forall|j: int| 0 <= j < i ==> e[j].0@ != key,
    ensures
        lookup(e.update(i, x), k) == if k == key {
            Some(string_views(x.1@))
        } else {
            lookup(e, k)
        },
    decreases i,
{
    let u = e.update(i, x);
    if i == 0 {
        assert(u.skip(1) =~= e.skip(1));
    } else {
        assert(u.skip(1) =~= e.skip(1).update(i - 1, x));
        lemma_lookup_update(e.skip(1), i - 1, x, key, k);
    }
}

/// After an entry with a new key is appended, only the list under that key
/// appears.
proof fn lemma_lookup_push(e: Seq<(Vec<char>, Vec<String>)>, x: (Vec<char>, Vec<String>), k: Seq<char>)
    requires
        lookup(e, x.0@) is None,
    ensures
        lookup(e.push(x), k) == if k == x.0@ {
            Some(string_views(x.1@))
        } else {
            lookup(e, k)
        },
    decreases e.len(),
{
    let p = e.push(x);
    if e.len() > 0 {
        assert(p[0] == e[0]);
        assert(p.skip(1) =~= e.skip(1).push(x));
        assert(e[0].0@ != x.0@);
        lemma_lookup_push(e.skip(1), x, k);
        if e[0].0@ == k {
            assert(lookup(p, k) == Some(string_views(e[0].1@)));
        } else {
            assert(lookup(p, k) == lookup(p.skip(1), k));
        }
    } else {
        assert(p[0] == x);
        assert(p.skip(1) =~= Seq::<(Vec<char>, Vec<String>)>::empty());
        assert(lookup(p.skip(1), k) is None);
    }
}

/// The first position `j` of `e` with key `key` gives its lookup.
proof fn lemma_lookup_at(e: Seq<(Vec<char>, Vec<String>)>, i: int, key: Seq<char>)
    requires
        0 <= i < e.len(),
        e[i].0@ == key,
        forall|j: int| 0 <= j < i ==> e[j].0@ != key,
    ensures
        lookup(e, key) == Some(string_views(e[i].1@)),
    decreases i,
{
    if i > 0 {
        lemma_lookup_at(e.skip(1), i - 1, key);
    }
}

/// Whether `list` holds `x`.
fn holds_string(list: &Vec<String>, x: &String) -> (res: bool)
    ensures
        res == string_views(list@).contains(x@),
{
    let n = list.len();
    for i in 0..n
        invariant
            n == list@.len(),
            forall|k: int| 0 <= k < i ==> list@[k]@ != x@,
    {
        if list[i] == *x {
            assert(string_views(list@)[i as int] == x@);
            return true;
        }
    }
    assert forall|k: int| 0 <= k < string_views(list@).len() implies string_views(list@)[k]
        != x@ by {
        assert(string_views(list@)[k] == list@[k]@);
    }
    false
}

impl SourceIndex {
    /// An index with no keys.
    pub fn new() -> (res: SourceIndex)
        ensures
            res@ == Map::<Seq<char>, Seq<Seq<char>>>::empty(),
    {
        let res = SourceIndex { entries: Vec::new() };
        assert(res@ =~= Map::<Seq<char>, Seq<Seq<char>>>::empty());
        res
    }

    /// The position of the first entry with `key`.
    fn position(&self, key: &Vec<char>) -> (res: Option<usize>)
        ensures
            match res {
                Some(i) => i < self.entries@.len() && self.entries@[i as int].0@ == key@
                    && forall|j: int| 0 <= j < i ==> self.entries@[j].0@ != key@,
                None => lookup(self.entries@, key@) is None,
            },
    {
        let n = self.entries.len();
        assert(self.entries@.skip(0) == self.entries@);
        for i in 0..n
            invariant
                n == self.entries@.len(),
                forall|j: int| 0 <= j < i ==> self.entries@[j].0@ != key@,
                lookup(self.entries@, key@) == lookup(self.entries@.skip(i as int), key@),
        {
            if same_chars(&self.entries[i].0, key) {
                return Some(i);
            }
            assert(self.entries@.skip(i as int).skip(1) =~= self.entries@.skip(i + 1));
        }
        assert(self.entries@.skip(n as int) =~= Seq::<(Vec<char>, Vec<String>)>::empty());
        None
    }

    /// The sources recorded under `key`, if any (`HashMap::get`).
    pub fn get(&self, key: &str) -> (res: Option<&Vec<String>>)
        ensures
            match res {
                Some(v) => self@.contains_key(key@) && self@[key@] == string_views(v@),
                None => !self@.contains_key(key@),
            },
    {
        let k = chars_of(key);
        match self.position(&k) {
            Some(i) => {
                proof {
                    lemma_lookup_at(self.entries@, i as int, key@);
                }
                Some(&self.entries[i].1)
            },
            None => None,
        }
    }

    /// Records `source` under `key` unless it is already there.
    pub fn record(&mut self, key: &Vec<char>, source: &str)
        ensures
            final(self)@ == with_source(old(self)@, key@, source@),
    {
        let src = String::from_str(source);
        let ghost old_entries = self.entries@;
        match self.position(key) {
            Some(i) => {
                proof {
                    lemma_lookup_at(old_entries, i as int, key@);
                }
                let (name, mut list) = self.entries.remove(i);
                if !holds_string(&list, &src) {
                    let ghost before = list@;
                    list.push(src);
                    assert(string_views(list@) =~= string_views(before).push(source@));
                }
                self.entries.insert(i, (name, list));
                let ghost x = (name, list);
                assert(self.entries@ =~= old_entries.update(i as int, self.entries@[i as int]));
                assert forall|k: Seq<char>| true implies lookup(self.entries@, k) == if k == key@ {
                    Some(string_views(self.entries@[i as int].1@))
                } else {
                    lookup(old_entries, k)
                } by {
                    lemma_lookup_update(old_entries, i as int, self.entries@[i as int], key@, k);
                }
            },
            None => {
                let mut list: Vec<String> = Vec::new();
                list.push(src);
                let entry = (key.clone(), list);
                let ghost x = entry;
                assert(string_views(entry.1@) =~= seq![source@]);
                self.entries.push(entry);
                assert forall|k: Seq<char>| true implies lookup(self.entries@, k) == if k == key@ {
                    Some(seq![source@])
                } else {
                    lookup(old_entries, k)
                } by {
                    lemma_lookup_push(old_entries, x, k);
                }
            },
        }
        assert(self@ =~= with_source(old(self)@, key@, source@));
    }
}

} // verus!
