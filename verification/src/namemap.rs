use vstd::prelude::*;

verus! {

/// A small map from names to values, kept as a list of entries in which
/// each name occurs at most once.
#[derive(Debug)]
pub struct NameMap<V> {
    entries: Vec<(String, V)>,
}

/// The first entry of `t` with the given name, if any.
pub open spec fn lookup<V>(t: Seq<(Seq<char>, V)>, name: Seq<char>) -> Option<V>
    decreases t.len(),
{
    if t.len() == 0 {
        None
    } else if t[0].0 == name {
        Some(t[0].1)
    } else {
        lookup(t.subrange(1, t.len() as int), name)
    }
}

/// Does the name occur in `t`?
pub open spec fn has_name<V>(t: Seq<(Seq<char>, V)>, name: Seq<char>) -> bool {
    exists|i: int| 0 <= i < t.len() && t[i].0 == name
}

/// `lookup` finds something exactly when the name occurs, and what it finds
/// is the value of the first entry with that name.
pub proof fn lemma_lookup<V>(t: Seq<(Seq<char>, V)>, name: Seq<char>)
    ensures
        lookup(t, name) is Some <==> has_name(t, name),
        lookup(t, name) is Some ==> exists|i: int|
            0 <= i < t.len() && t[i].0 == name && lookup(t, name) == Some(t[i].1)
                && forall|j: int| 0 <= j < i ==> t[j].0 != name,
    decreases t.len(),
{
    if t.len() > 0 {
        let rest = t.subrange(1, t.len() as int);
        lemma_lookup(rest, name);
        if t[0].0 != name {
            if has_name(t, name) {
                let i = choose|i: int| 0 <= i < t.len() && t[i].0 == name;
                assert(rest[i - 1].0 == name);
            }
            if has_name(rest, name) {
                let i = choose|i: int| 0 <= i < rest.len() && rest[i].0 == name;
                assert(t[i + 1].0 == name);
            }
            if lookup(t, name) is Some {
                let i = choose|i: int|
                    0 <= i < rest.len() && rest[i].0 == name && lookup(rest, name) == Some(rest[i].1)
                        && forall|j: int| 0 <= j < i ==> rest[j].0 != name;
                assert(t[i + 1].0 == name);
                assert forall|j: int| 0 <= j < i + 1 implies t[j].0 != name by {
                    if j > 0 {
                        assert(t[j] == rest[j - 1]);
                    }
                }
            }
        }
    }
}


/// `lookup` returns the value of the first entry carrying the name.
pub proof fn lemma_lookup_first<V>(t: Seq<(Seq<char>, V)>, name: Seq<char>, i: int)
    requires
        0 <= i < t.len(),
        t[i].0 == name,
        forall|j: int| 0 <= j < i ==> t[j].0 != name,
    ensures
        lookup(t, name) == Some(t[i].1),
{
    lemma_lookup(t, name);
    let k = choose|k: int|
        0 <= k < t.len() && t[k].0 == name && lookup(t, name) == Some(t[k].1)
            && forall|j: int| 0 <= j < k ==> t[j].0 != name;
    if k < i {
        assert(t[k].0 != name);
    }
    if i < k {
        assert(t[i].0 != name);
    }
}

/// `lookup` finds nothing when no entry carries the name.
pub proof fn lemma_lookup_none<V>(t: Seq<(Seq<char>, V)>, name: Seq<char>)
    requires
        forall|j: int| 0 <= j < t.len() ==> t[j].0 != name,
    ensures
        lookup(t, name) is None,
{
    lemma_lookup(t, name);
}

/// Two sequences that agree on every entry except at index `i`, where the
/// second one carries `name`, agree on every other name.
proof fn lemma_lookup_other_after_set<V>(t0: Seq<(Seq<char>, V)>, t1: Seq<(Seq<char>, V)>, i: int, name: Seq<char>, other: Seq<char>)
    requires
        t0.len() == t1.len(),
        0 <= i < t0.len(),
        t0[i].0 == name,
        t1[i].0 == name,
        forall|j: int| 0 <= j < t0.len() && j != i ==> t1[j] == t0[j],
        other != name,
    ensures
        lookup(t1, other) == lookup(t0, other),
{
    lemma_lookup(t0, other);
    if lookup(t0, other) is Some {
        let k = choose|k: int|
            0 <= k < t0.len() && t0[k].0 == other && lookup(t0, other) == Some(t0[k].1)
                && forall|j: int| 0 <= j < k ==> t0[j].0 != other;
        assert forall|j: int| 0 <= j < k implies t1[j].0 != other by {
            if j != i {
                assert(t1[j] == t0[j]);
            }
        }
        lemma_lookup_first(t1, other, k);
    } else {
        assert forall|j: int| 0 <= j < t1.len() implies t1[j].0 != other by {
            if j != i {
                assert(t1[j] == t0[j]);
            }
        }
        lemma_lookup_none(t1, other);
    }
}

/// Appending an entry for a name that occurs nowhere leaves every other
/// name's lookup unchanged.
proof fn lemma_lookup_other_after_push<V>(t0: Seq<(Seq<char>, V)>, t1: Seq<(Seq<char>, V)>, name: Seq<char>, other: Seq<char>)
    requires
        t1.len() == t0.len() + 1,
        t1[t0.len() as int].0 == name,
        forall|j: int| 0 <= j < t0.len() ==> t1[j] == t0[j],
        other != name,
    ensures
        lookup(t1, other) == lookup(t0, other),
{
    lemma_lookup(t0, other);
    if lookup(t0, other) is Some {
        let k = choose|k: int|
            0 <= k < t0.len() && t0[k].0 == other && lookup(t0, other) == Some(t0[k].1)
                && forall|j: int| 0 <= j < k ==> t0[j].0 != other;
        assert forall|j: int| 0 <= j < k implies t1[j].0 != other by {
            assert(t1[j] == t0[j]);
        }
        lemma_lookup_first(t1, other, k);
    } else {
        assert forall|j: int| 0 <= j < t1.len() implies t1[j].0 != other by {
            if j < t0.len() {
                assert(t1[j] == t0[j]);
            }
        }
        lemma_lookup_none(t1, other);
    }
}

/// The index of the first entry whose name is `name`.
fn find_first<V>(entries: &Vec<(String, V)>, name: &str) -> (r: Option<usize>)
    ensures
        r matches Some(i) ==> i < entries@.len() && entries@[i as int].0@ == name@ && forall|j: int|
            0 <= j < i ==> entries@[j].0@ != name@,
        r is None ==> forall|j: int| 0 <= j < entries@.len() ==> entries@[j].0@ != name@,
{
    let wanted = name.to_owned();
    let mut i: usize = 0;
    while i < entries.len()
        invariant
            i <= entries@.len(),
            wanted@ == name@,
            forall|j: int| 0 <= j < i ==> entries@[j].0@ != name@,
        decreases entries@.len() - i,
    {
        if entries[i].0 == wanted {
            return Some(i);
        }
        i = i + 1;
    }
    None
}

impl<V: View> NameMap<V> {
    /// The entries, each a name and the view of its value.
    pub closed spec fn spec_entries(&self) -> Seq<(Seq<char>, V::V)> {
        Seq::new(self.entries@.len(), |i: int| (self.entries@[i].0@, self.entries@[i].1@))
    }

    /// An empty map.
    pub fn new() -> (r: Self)
        ensures
            r@ == Seq::<(Seq<char>, V::V)>::empty(),
    {
        let r = NameMap { entries: Vec::new() };
        assert(r@ =~= Seq::<(Seq<char>, V::V)>::empty());
        r
    }

    /// Associate `value` with `name`, replacing any earlier value.
    pub fn insert(&mut self, name: &str, value: V)
        ensures
            lookup(final(self)@, name@) == Some(value@),
            forall|other: Seq<char>| other != name@ ==> lookup(final(self)@, other) == lookup(old(self)@, other),
            lookup(old(self)@, name@) is None ==> final(self)@ == old(self)@.push((name@, value@)),
    {
        let ghost t0 = self@;
        match find_first(&self.entries, name) {
            Some(i) => {
                proof {
                    assert forall|j: int| 0 <= j < i implies t0[j].0 != name@ by {}
                    lemma_lookup_first(t0, name@, i as int);
                }
                self.entries.set(i, (name.to_owned(), value));
                proof {
                    let t1 = self@;
                    assert forall|j: int| 0 <= j < i implies t1[j].0 != name@ by {
                        assert(t1[j] == t0[j]);
                    }
                    lemma_lookup_first(t1, name@, i as int);
                    assert forall|other: Seq<char>| other != name@ implies lookup(t1, other) == lookup(t0, other) by {
                        lemma_lookup_other_after_set(t0, t1, i as int, name@, other);
                    }
                }
            },
            None => {
                self.entries.push((name.to_owned(), value));
                proof {
                    let t1 = self@;
                    assert(t1 =~= t0.push((name@, value@)));
                    let n = t0.len() as int;
                    assert forall|j: int| 0 <= j < n implies t1[j].0 != name@ by {
                        assert(t1[j] == t0[j]);
                    }
                    lemma_lookup_first(t1, name@, n);
                    assert forall|other: Seq<char>| other != name@ implies lookup(t1, other) == lookup(t0, other) by {
                        lemma_lookup_other_after_push(t0, t1, name@, other);
                    }
                }
            },
        }
    }

    /// The names of the entries, in order.
    pub fn names(&self) -> (r: Vec<String>)
        ensures
            r@.len() == self@.len(),
            forall|i: int| 0 <= i < r@.len() ==> #[trigger] r@[i]@ == self@[i].0,
    {
        let mut r: Vec<String> = Vec::new();
        let mut i: usize = 0;
        while i < self.entries.len()
            invariant
                i <= self.entries@.len(),
                r@.len() == i,
                self@.len() == self.entries@.len(),
                forall|j: int| 0 <= j < i ==> #[trigger] r@[j]@ == self@[j].0,
            decreases self.entries.len() - i,
        {
            r.push(self.entries[i].0.clone());
            i = i + 1;
        }
        r
    }

    /// The number of entries.
    pub fn len(&self) -> (r: usize)
        ensures
            r == self@.len(),
    {
        self.entries.len()
    }

    /// The value of the entry at position `i`.
    pub fn value_at(&self, i: usize) -> (r: &V)
        requires
            i < self@.len(),
        ensures
            r@ == self@[i as int].1,
    {
        &self.entries[i].1
    }

    /// The value associated with `name`, if any.
    pub fn get(&self, name: &str) -> (r: Option<&V>)
        ensures
            match r {
                Some(v) => lookup(self@, name@) == Some(v@),
                None => lookup(self@, name@) is None,
            },
    {
        match find_first(&self.entries, name) {
            Some(i) => {
                proof {
                    let t = self@;
                    assert forall|j: int| 0 <= j < i implies t[j].0 != name@ by {}
                    lemma_lookup_first(t, name@, i as int);
                }
                Some(&self.entries[i].1)
            },
            None => {
                proof {
                    let t = self@;
                    assert forall|j: int| 0 <= j < t.len() implies t[j].0 != name@ by {}
                    lemma_lookup_none(t, name@);
                }
                None
            },
        }
    }
}

impl<V: View> View for NameMap<V> {
    type V = Seq<(Seq<char>, V::V)>;

    open spec fn view(&self) -> Self::V {
        self.spec_entries()
    }
}

} // verus!
