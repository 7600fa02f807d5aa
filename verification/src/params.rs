//! The named parameters of a startup message.
use vstd::prelude::*;

verus! {

/// Whether `pairs` give `key` a value.
pub open spec fn names(pairs: Seq<(Seq<char>, Seq<char>)>, key: Seq<char>) -> bool {
    exists|i: int| 0 <= i < pairs.len() && (#[trigger] pairs[i]).0 == key
}

/// The value that `pairs` give to `key`, if they name it.
pub open spec fn lookup(pairs: Seq<(Seq<char>, Seq<char>)>, key: Seq<char>) -> Option<Seq<char>> {
    if names(pairs, key) {
        let i = choose|i: int| 0 <= i < pairs.len() && (#[trigger] pairs[i]).0 == key;
        Some(pairs[i].1)
    } else {
        None
    }
}

/// No key is named twice.
pub open spec fn distinct_keys(pairs: Seq<(Seq<char>, Seq<char>)>) -> bool {
    forall|i: int, j: int|
        0 <= i < pairs.len() && 0 <= j < pairs.len() && (#[trigger] pairs[i]).0 == (
        #[trigger] pairs[j]).0 ==> i == j
}

/// `pairs` with `key` set to `value`: in its place where it is named already,
/// else behind the others.
pub open spec fn with_pair(
    pairs: Seq<(Seq<char>, Seq<char>)>,
    key: Seq<char>,
    value: Seq<char>,
) -> Seq<(Seq<char>, Seq<char>)> {
    if names(pairs, key) {
        pairs.map_values(
            |pair: (Seq<char>, Seq<char>)|
                if pair.0 == key {
                    (key, value)
                } else {
                    pair
                },
        )
    } else {
        pairs.push((key, value))
    }
}

/// Parameters in the order in which they were first set, each key once.
#[derive(Debug)]
pub struct Params {
    entries: Vec<(String, String)>,
}

/// The keys and values that `entries` hold.
pub open spec fn pair_views(entries: Seq<(String, String)>) -> Seq<(Seq<char>, Seq<char>)> {
    entries.map_values(|entry: (String, String)| (entry.0@, entry.1@))
}

impl View for Params {
    type V = Seq<(Seq<char>, Seq<char>)>;

    closed spec fn view(&self) -> Seq<(Seq<char>, Seq<char>)> {
        pair_views(self.entries@)
    }
}

impl Params {
    #[verifier::type_invariant]
    spec fn wf(self) -> bool {
        distinct_keys(pair_views(self.entries@))
    }

    /// No parameters.
    pub fn new() -> (params: Params)
        ensures
            params@ == Seq::<(Seq<char>, Seq<char>)>::empty(),
    {
        let params = Params { entries: Vec::new() };
        assert(params@ =~= Seq::<(Seq<char>, Seq<char>)>::empty());
        params
    }

    /// The number of parameters.
    pub fn len(&self) -> (count: usize)
        ensures
            count == self@.len(),
            distinct_keys(self@),
    {
        proof {
            use_type_invariant(self);
        }
        self.entries.len()
    }

    /// The key and the value at `index`.
    pub fn entry(&self, index: usize) -> (entry: (&String, &String))
        requires
            index < self@.len(),
        ensures
            (entry.0@, entry.1@) == self@[index as int],
    {
        (&self.entries[index].0, &self.entries[index].1)
    }

    /// The place of `key`, if it is set.
    fn position(&self, key: &String) -> (found: Option<usize>)
        ensures
            match found {
                Some(i) => i < self@.len() && self@[i as int].0 == key@,
                None => !names(self@, key@),
            },
    {
        for i in 0..self.entries.len()
            invariant
                forall|j: int| 0 <= j < i ==> (#[trigger] self@[j]).0 != key@,
        {
            assert(self@[i as int].0 == self.entries@[i as int].0@);
            if self.entries[i].0 == *key {
                return Some(i);
            }
        }
        None
    }

    /// The value of `key`, if it is set.
    pub fn get(&self, key: &String) -> (value: Option<&String>)
        ensures
            match value {
                Some(text) => lookup(self@, key@) == Some(text@),
                None => lookup(self@, key@) is None,
            },
    {
        proof {
            use_type_invariant(self);
        }
        match self.position(key) {
            Some(i) => {
                assert(self@[i as int].0 == key@);
                Some(&self.entries[i].1)
            },
            None => None,
        }
    }

    /// Sets `key` to `value`.
    pub fn insert(&mut self, key: String, value: String)
        ensures
            final(self)@ == with_pair(old(self)@, key@, value@),
            distinct_keys(final(self)@),
    {
        proof {
            use_type_invariant(&*self);
        }
        let ghost before = self@;
        let place = self.position(&key);
        let mut entries: Vec<(String, String)> = Vec::new();
        core::mem::swap(&mut entries, &mut self.entries);
        assert(pair_views(entries@) == before);
        match place {
            Some(i) => {
                assert(before[i as int].0 == key@);
                entries.set(i, (key, value));
            },
            None => {
                entries.push((key, value));
            },
        }
        assert(pair_views(entries@) =~= with_pair(before, key@, value@));
        self.entries = entries;
    }
}

/// A key that was set to a value has that value, and every other key keeps what
/// it had.
pub proof fn lemma_lookup_after_insert(
    pairs: Seq<(Seq<char>, Seq<char>)>,
    key: Seq<char>,
    value: Seq<char>,
    other: Seq<char>,
)
    requires
        distinct_keys(pairs),
    ensures
        lookup(with_pair(pairs, key, value), key) == Some(value),
        other != key ==> lookup(with_pair(pairs, key, value), other) == lookup(pairs, other),
{
    let after = with_pair(pairs, key, value);
    if names(pairs, key) {
        let i = choose|i: int| 0 <= i < pairs.len() && (#[trigger] pairs[i]).0 == key;
        assert(after[i].0 == key);
    } else {
        assert(after[pairs.len() as int].0 == key);
    }
    if other != key {
        if names(pairs, other) {
            let i = choose|i: int| 0 <= i < pairs.len() && (#[trigger] pairs[i]).0 == other;
            assert(after[i] == pairs[i]);
        }
        if names(after, other) {
            let j = choose|j: int| 0 <= j < after.len() && (#[trigger] after[j]).0 == other;
            assert(after[j] == pairs[j]);
        }
    }
}

/// Setting a key leaves every other pair in its place, adds at most one, and
/// that one behind the others.
pub proof fn lemma_pairs_after_insert(
    pairs: Seq<(Seq<char>, Seq<char>)>,
    key: Seq<char>,
    value: Seq<char>,
    i: int,
)
    requires
        0 <= i < pairs.len(),
    ensures
        with_pair(pairs, key, value).len() == if lookup(pairs, key) is Some {
            pairs.len()
        } else {
            pairs.len() + 1
        },
        pairs[i].0 != key ==> with_pair(pairs, key, value)[i] == pairs[i],
        pairs[i].0 == key ==> with_pair(pairs, key, value)[i] == (key, value),
{
    assert(pairs[i].0 == key ==> names(pairs, key));
}

/// A key has the value of the pair that names it, and none where no pair does.
pub proof fn lemma_lookup_finds_pair(
    pairs: Seq<(Seq<char>, Seq<char>)>,
    key: Seq<char>,
    value: Seq<char>,
)
    requires
        distinct_keys(pairs),
    ensures
        lookup(pairs, key) == Some(value) <==> pairs.contains((key, value)),
{
    if pairs.contains((key, value)) {
        let i = choose|i: int| 0 <= i < pairs.len() && pairs[i] == (key, value);
        assert(pairs[i].0 == key);
    }
    if lookup(pairs, key) == Some(value) {
        let i = choose|i: int| 0 <= i < pairs.len() && (#[trigger] pairs[i]).0 == key;
        assert(pairs[i] == (key, value));
    }
}

} // verus!
