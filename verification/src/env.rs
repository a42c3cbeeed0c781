use vstd::prelude::*;

use crate::text::same_text;

verus! {

/// The map that a list of assignments sets up: each pair sets its key,
/// later pairs over earlier ones.
pub open spec fn pairs_map(s: Seq<(String, String)>) -> Map<Seq<char>, Seq<char>>
    decreases s.len(),
{
    if s.len() == 0 {
        Map::empty()
    } else {
        pairs_map(s.drop_last()).insert(s.last().0@, s.last().1@)
    }
}

/// Whether no key occurs twice in the list.
pub open spec fn distinct_keys(s: Seq<(String, String)>) -> bool {
    forall|i: int, j: int| 0 <= i < j < s.len() ==> #[trigger] s[i].0@ != #[trigger] s[j].0@
}

/// The keys of `pairs_map(s)` are the keys that occur in `s`.
proof fn lemma_pairs_map_domain(s: Seq<(String, String)>, k: Seq<char>)
    ensures
        pairs_map(s).dom().contains(k) <==> exists|i: int| 0 <= i < s.len() && #[trigger] s[i].0@ == k,
    decreases s.len(),
{
    if s.len() > 0 {
        lemma_pairs_map_domain(s.drop_last(), k);
        if pairs_map(s).dom().contains(k) && k != s.last().0@ {
            let i = choose|i: int| 0 <= i < s.len() - 1 && #[trigger] s.drop_last()[i].0@ == k;
            assert(s[i].0@ == k);
        }
        if exists|i: int| 0 <= i < s.len() && #[trigger] s[i].0@ == k {
            let i = choose|i: int| 0 <= i < s.len() && #[trigger] s[i].0@ == k;
            if i < s.len() - 1 {
                assert(s.drop_last()[i].0@ == k);
            }
        }
    }
}

/// In a list without repeated keys, the pair at `i` gives the value of its key.
proof fn lemma_pairs_map_value(s: Seq<(String, String)>, i: int)
    requires
        distinct_keys(s),
        0 <= i < s.len(),
    ensures
        pairs_map(s).dom().contains(s[i].0@),
        pairs_map(s)[s[i].0@] == s[i].1@,
    decreases s.len(),
{
    if i < s.len() - 1 {
        assert(s.drop_last()[i] == s[i]);
        lemma_pairs_map_value(s.drop_last(), i);
        assert(s[i].0@ != s[s.len() - 1].0@);
    }
}

/// Overwriting the value of the pair at `i` sets that key to the new value.
proof fn lemma_pairs_map_update(s: Seq<(String, String)>, i: int, e: (String, String))
    requires
        distinct_keys(s),
        0 <= i < s.len(),
        e.0@ == s[i].0@,
    ensures
        pairs_map(s.update(i, e)) == pairs_map(s).insert(e.0@, e.1@),
    decreases s.len(),
{
    let t = s.update(i, e);
    if i == s.len() - 1 {
        assert(t.drop_last() =~= s.drop_last());
        assert(pairs_map(t) =~= pairs_map(s).insert(e.0@, e.1@));
    } else {
        assert(t.drop_last() =~= s.drop_last().update(i, e));
        lemma_pairs_map_update(s.drop_last(), i, e);
        assert(s[i].0@ != s.last().0@);
        assert(pairs_map(t) =~= pairs_map(s).insert(e.0@, e.1@));
    }
}

/// A set of environment variables: each name has one value.
#[derive(Debug)]
pub struct EnvVars {
    entries: Vec<(String, String)>,
}

impl View for EnvVars {
    type V = Map<Seq<char>, Seq<char>>;

    closed spec fn view(&self) -> Map<Seq<char>, Seq<char>> {
        pairs_map(self.entries@)
    }
}

impl EnvVars {
    #[verifier::type_invariant]
    spec fn names_distinct(self) -> bool {
        distinct_keys(self.entries@)
    }

    /// What `get` reads for `name`: its value when it is set.
    pub open spec fn value_of(self, name: Seq<char>) -> Option<Seq<char>> {
        if self@.dom().contains(name) {
            Some(self@[name])
        } else {
            None
        }
    }

    /// No variables.
    pub fn new() -> (env: EnvVars)
        ensures
            env@ == Map::<Seq<char>, Seq<char>>::empty(),
    {
        EnvVars { entries: Vec::new() }
    }

    /// The position of the variable named `name`.
    fn position(&self, name: &str) -> (found: Option<usize>)
        ensures
            found is None ==> forall|j: int|
                0 <= j < self.entries@.len() ==> #[trigger] self.entries@[j].0@ != name@,
            found matches Some(i) ==> i < self.entries@.len() && self.entries@[i as int].0@ == name@,
    {
        let mut i: usize = 0;
        while i < self.entries.len()
            invariant
                i <= self.entries@.len(),
                forall|j: int| 0 <= j < i ==> #[trigger] self.entries@[j].0@ != name@,
            decreases self.entries@.len() - i,
        {
            if same_text(self.entries[i].0.as_str(), name) {
                return Some(i);
            }
            i += 1;
        }
        None
    }

    /// The value of the variable `name`, if it is set.
    pub fn get(&self, name: &str) -> (value: Option<&String>)
        ensures
            value is Some <==> self@.dom().contains(name@),
            value matches Some(v) ==> v@ == self@[name@],
            self.value_of(name@) == match value {
                Some(v) => Some(v@),
                None => None::<Seq<char>>,
            },
    {
        proof {
            use_type_invariant(self);
            lemma_pairs_map_domain(self.entries@, name@);
        }
        match self.position(name) {
            Some(i) => {
                proof {
                    lemma_pairs_map_value(self.entries@, i as int);
                }
                Some(&self.entries[i].1)
            },
            None => None,
        }
    }

    /// Sets the variable `name` to `value`, in place of any value it had.
    pub fn insert(&mut self, name: String, value: String)
        ensures
            final(self)@ == old(self)@.insert(name@, value@),
    {
        proof {
            use_type_invariant(&*self);
        }
        let ghost before = self.entries@;
        let found = self.position(name.as_str());
        let mut entries: Vec<(String, String)> = Vec::new();
        std::mem::swap(&mut entries, &mut self.entries);
        assert(entries@ == before);
        match found {
            Some(i) => {
                proof {
                    lemma_pairs_map_update(before, i as int, (name, value));
                }
                entries.set(i, (name, value));
                assert(entries@ == before.update(i as int, (name, value)));
            },
            None => {
                entries.push((name, value));
                assert(entries@.drop_last() =~= before);
            },
        }
        self.entries = entries;
    }

    /// A copy of these variables.
    pub fn duplicate(&self) -> (copy: EnvVars)
        ensures
            copy@ == self@,
    {
        proof {
            use_type_invariant(self);
        }
        let mut entries: Vec<(String, String)> = Vec::new();
        let mut i: usize = 0;
        while i < self.entries.len()
            invariant
                i <= self.entries@.len(),
                entries@ == self.entries@.take(i as int),
            decreases self.entries@.len() - i,
        {
            let pair = (self.entries[i].0.clone(), self.entries[i].1.clone());
            entries.push(pair);
            i += 1;
            assert(entries@ =~= self.entries@.take(i as int));
        }
        assert(self.entries@.take(i as int) =~= self.entries@);
        EnvVars { entries }
    }
}

} // verus!
