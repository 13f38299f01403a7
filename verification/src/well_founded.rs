//! Deciding whether a table of named struct types is well-founded: whether
//! no struct contains itself by value, directly or through other structs.
//!
//! Ranks are raised from 0 until every defined struct ranks above what it
//! contains by value. When the table is well-founded, the ranks stay at most
//! the number of entries, so the search ends; a rank above that shows that
//! the table is not well-founded.
use vstd::prelude::*;
use crate::llvmtype::{
    by_value_rank, by_value_rank_all, lemma_element_measures, lemma_tsz_positive, ranked, some_rank, tsz, well_founded,
    LlvmType, NamedStructDef, Rank, StructTable, TypeView,
};
use crate::namemap::{has_name, lookup, NameMap};

verus! {

/// The model of a table of named struct definitions (`None`: opaque).
pub type Table = Seq<(Seq<char>, Option<TypeView>)>;

/// The rank recorded for a name, 0 for a name not recorded.
pub open spec fn rank_of(ranks: Seq<(Seq<char>, u64)>, name: Seq<char>) -> nat {
    match lookup(ranks, name) {
        Some(r) => r as nat,
        None => 0nat,
    }
}

/// The rank function given by a table of ranks.
pub open spec fn rank_from(ranks: Seq<(Seq<char>, u64)>) -> Rank {
    |name: Seq<char>| rank_of(ranks, name)
}

/// Are all recorded ranks at most `bound`?
pub open spec fn ranks_at_most(ranks: Seq<(Seq<char>, u64)>, bound: nat) -> bool {
    forall|name: Seq<char>| #[trigger] rank_of(ranks, name) <= bound
}

/// The rank an entry asks for: just above its by-value contents; 0 when
/// it is opaque.
pub open spec fn entry_rank(e: (Seq<char>, Option<TypeView>), rank: Rank) -> nat {
    match e.1 {
        Some(d) => by_value_rank(d, rank),
        None => 0,
    }
}

/// The highest rank that the entries named `name` ask for; 0 when there is
/// none.
pub open spec fn asked_rank(t: Table, name: Seq<char>, rank: Rank) -> nat
    decreases t.len(),
{
    if t.len() == 0 {
        0
    } else {
        let a = asked_rank(t.drop_last(), name, rank);
        let b = if t.last().0 == name {
            entry_rank(t.last(), rank)
        } else {
            0
        };
        if a >= b {
            a
        } else {
            b
        }
    }
}

/// The sum of the ranks of the entries' names.
pub open spec fn rank_sum(t: Table, rank: Rank) -> nat
    decreases t.len(),
{
    if t.len() == 0 {
        0
    } else {
        rank_sum(t.drop_last(), rank) + rank(t.last().0)
    }
}

/// How many entries have names of rank below `x` under `rank0`.
pub open spec fn count_below(t: Table, rank0: Rank, x: nat) -> nat {
    t.filter(|e: (Seq<char>, Option<TypeView>)| rank0(e.0) < x).len()
}

/// `rank0` squeezed to the entries: a name of the table ranks one above the
/// number of entries whose names rank below it; any other name ranks 0.
pub open spec fn compressed(t: Table, rank0: Rank) -> Rank {
    |name: Seq<char>|
        if has_name(t, name) {
            count_below(t, rank0, rank0(name)) + 1
        } else {
            0
        }
}

proof fn lemma_by_value_rank_monotone(ty: TypeView, r1: Rank, r2: Rank)
    requires
        forall|x: Seq<char>| #[trigger] r1(x) <= r2(x),
    ensures
        by_value_rank(ty, r1) <= by_value_rank(ty, r2),
    decreases ty,
{
    match ty {
        TypeView::Array { element_type, .. } => lemma_by_value_rank_monotone(*element_type, r1, r2),
        TypeView::Vector { element_type, .. } => lemma_by_value_rank_monotone(*element_type, r1, r2),
        TypeView::Struct { element_types } => lemma_by_value_rank_all_monotone(element_types, r1, r2),
        TypeView::NamedStruct { name } => {
            assert(r1(name) <= r2(name));
        },
        _ => {},
    }
}

proof fn lemma_by_value_rank_all_monotone(s: Seq<TypeView>, r1: Rank, r2: Rank)
    requires
        forall|x: Seq<char>| #[trigger] r1(x) <= r2(x),
    ensures
        by_value_rank_all(s, r1) <= by_value_rank_all(s, r2),
    decreases s,
{
    if s.len() > 0 {
        lemma_by_value_rank_all_monotone(s.drop_last(), r1, r2);
        lemma_by_value_rank_monotone(s.last(), r1, r2);
        assert(s.subrange(0, s.len() - 1) == s.drop_last());
        assert(s[s.len() - 1] == s.last());
    }
}

proof fn lemma_asked_rank_monotone(t: Table, name: Seq<char>, r1: Rank, r2: Rank)
    requires
        forall|x: Seq<char>| #[trigger] r1(x) <= r2(x),
    ensures
        asked_rank(t, name, r1) <= asked_rank(t, name, r2),
    decreases t.len(),
{
    if t.len() > 0 {
        lemma_asked_rank_monotone(t.drop_last(), name, r1, r2);
        if let Some(d) = t.last().1 {
            lemma_by_value_rank_monotone(d, r1, r2);
        }
    }
}

/// Under a ranking, no entry asks for more than its name's rank.
proof fn lemma_asked_rank_of_ranked(t: Table, name: Seq<char>, rank: Rank)
    requires
        ranked(t, rank),
    ensures
        asked_rank(t, name, rank) <= rank(name),
    decreases t.len(),
{
    if t.len() > 0 {
        let u = t.drop_last();
        assert forall|i: int| 0 <= i < u.len() && (#[trigger] u[i]).1 is Some implies by_value_rank(
            u[i].1.unwrap(),
            rank,
        ) <= rank(u[i].0) by {
            assert(u[i] == t[i]);
        }
        lemma_asked_rank_of_ranked(u, name, rank);
        assert(t.last() == t[t.len() - 1]);
    }
}

/// An entry asks for at most what its name's asked rank is.
proof fn lemma_asked_rank_covers(t: Table, i: int, rank: Rank)
    requires
        0 <= i < t.len(),
    ensures
        entry_rank(t[i], rank) <= asked_rank(t, t[i].0, rank),
    decreases t.len(),
{
    if i < t.len() - 1 {
        lemma_asked_rank_covers(t.drop_last(), i, rank);
        assert(t.drop_last()[i] == t[i]);
    } else {
        assert(t.last() == t[i]);
    }
}

/// A name not in the table is asked for rank 0.
proof fn lemma_asked_rank_absent(t: Table, name: Seq<char>, rank: Rank)
    requires
        !has_name(t, name),
    ensures
        asked_rank(t, name, rank) == 0,
    decreases t.len(),
{
    if t.len() > 0 {
        let u = t.drop_last();
        assert(!has_name(u, name)) by {
            if has_name(u, name) {
                let i = choose|i: int| 0 <= i < u.len() && u[i].0 == name;
                assert(t[i] == u[i]);
            }
        }
        lemma_asked_rank_absent(u, name, rank);
        assert(t.last() == t[t.len() - 1]);
    }
}

/// The asked ranks are bounded by the ranks of the names asked for when
/// every rank recorded is.
proof fn lemma_asked_rank_bounded(t: Table, name: Seq<char>, rank: Rank, bound: nat)
    requires
        forall|x: Seq<char>| #[trigger] rank(x) <= bound,
    ensures
        asked_rank(t, name, rank) <= bound + 1,
    decreases t.len(),
{
    if t.len() > 0 {
        lemma_asked_rank_bounded(t.drop_last(), name, rank, bound);
        if let Some(d) = t.last().1 {
            lemma_by_value_rank_bounded(d, rank, bound);
        }
    }
}

proof fn lemma_by_value_rank_bounded(ty: TypeView, rank: Rank, bound: nat)
    requires
        forall|x: Seq<char>| #[trigger] rank(x) <= bound,
    ensures
        by_value_rank(ty, rank) <= bound + 1,
    decreases ty,
{
    match ty {
        TypeView::Array { element_type, .. } => lemma_by_value_rank_bounded(*element_type, rank, bound),
        TypeView::Vector { element_type, .. } => lemma_by_value_rank_bounded(*element_type, rank, bound),
        TypeView::Struct { element_types } => lemma_by_value_rank_all_bounded(element_types, rank, bound),
        TypeView::NamedStruct { name } => {
            assert(rank(name) <= bound);
        },
        _ => {},
    }
}

proof fn lemma_by_value_rank_all_bounded(s: Seq<TypeView>, rank: Rank, bound: nat)
    requires
        forall|x: Seq<char>| #[trigger] rank(x) <= bound,
    ensures
        by_value_rank_all(s, rank) <= bound + 1,
    decreases s,
{
    if s.len() > 0 {
        lemma_by_value_rank_all_bounded(s.drop_last(), rank, bound);
        lemma_by_value_rank_bounded(s.last(), rank, bound);
        assert(s.subrange(0, s.len() - 1) == s.drop_last());
        assert(s[s.len() - 1] == s.last());
    }
}

proof fn lemma_rank_sum_monotone(t: Table, r1: Rank, r2: Rank, i: int)
    requires
        forall|x: Seq<char>| #[trigger] r1(x) <= r2(x),
    ensures
        rank_sum(t, r1) <= rank_sum(t, r2),
        0 <= i < t.len() && r1(t[i].0) < r2(t[i].0) ==> rank_sum(t, r1) < rank_sum(t, r2),
    decreases t.len(),
{
    if t.len() > 0 {
        lemma_rank_sum_monotone(t.drop_last(), r1, r2, i);
        assert(r1(t.last().0) <= r2(t.last().0));
        if 0 <= i < t.len() - 1 {
            assert(t.drop_last()[i] == t[i]);
        } else if i == t.len() - 1 {
            assert(t.last() == t[i]);
        }
    }
}

proof fn lemma_rank_sum_bounded(t: Table, rank: Rank, bound: nat)
    requires
        forall|i: int| 0 <= i < t.len() ==> #[trigger] rank(t[i].0) <= bound,
    ensures
        rank_sum(t, rank) <= t.len() * bound,
    decreases t.len(),
{
    if t.len() > 0 {
        let u = t.drop_last();
        assert forall|i: int| 0 <= i < u.len() implies #[trigger] rank(u[i].0) <= bound by {
            assert(u[i] == t[i]);
        }
        lemma_rank_sum_bounded(u, rank, bound);
        assert(rank(t.last().0) <= bound) by {
            assert(t.last() == t[t.len() - 1]);
        }
        let n = u.len();
        assert(n * bound + bound == (n + 1) * bound) by (nonlinear_arith);
    }
}

proof fn lemma_filter_len_strict<A>(s: Seq<A>, p: spec_fn(A) -> bool, q: spec_fn(A) -> bool, j: int)
    requires
        forall|x: A| #[trigger] p(x) ==> q(x),
        0 <= j < s.len(),
        q(s[j]),
        !p(s[j]),
    ensures
        s.filter(p).len() < s.filter(q).len(),
    decreases s.len(),
{
    reveal(Seq::filter);
    let u = s.drop_last();
    if j < s.len() - 1 {
        assert(u[j] == s[j]);
        lemma_filter_len_strict(u, p, q, j);
    } else {
        lemma_filter_len_weaker(u, p, q);
        assert(s.last() == s[j]);
    }
}

proof fn lemma_filter_len_weaker<A>(s: Seq<A>, p: spec_fn(A) -> bool, q: spec_fn(A) -> bool)
    requires
        forall|x: A| #[trigger] p(x) ==> q(x),
    ensures
        s.filter(p).len() <= s.filter(q).len(),
    decreases s.len(),
{
    reveal(Seq::filter);
    if s.len() > 0 {
        lemma_filter_len_weaker(s.drop_last(), p, q);
    }
}

/// Fewer entries rank below a name of the table than below anything above it.
proof fn lemma_count_below_strict(t: Table, rank0: Rank, b: Seq<char>, x: nat)
    requires
        has_name(t, b),
        rank0(b) < x,
    ensures
        count_below(t, rank0, rank0(b)) < count_below(t, rank0, x),
{
    let j = choose|j: int| 0 <= j < t.len() && t[j].0 == b;
    let p = |e: (Seq<char>, Option<TypeView>)| rank0(e.0) < rank0(b);
    let q = |e: (Seq<char>, Option<TypeView>)| rank0(e.0) < x;
    lemma_filter_len_strict(t, p, q, j);
}

/// Below a ranking `rank0`, the squeezed ranks keep every by-value content
/// below the entry that contains it.
proof fn lemma_compressed_by_value(t: Table, rank0: Rank, ty: TypeView, x: nat)
    requires
        by_value_rank(ty, rank0) <= x,
    ensures
        by_value_rank(ty, compressed(t, rank0)) <= count_below(t, rank0, x) + 1,
    decreases ty,
{
    match ty {
        TypeView::Array { element_type, .. } => lemma_compressed_by_value(t, rank0, *element_type, x),
        TypeView::Vector { element_type, .. } => lemma_compressed_by_value(t, rank0, *element_type, x),
        TypeView::Struct { element_types } => lemma_compressed_by_value_all(t, rank0, element_types, x),
        TypeView::NamedStruct { name } => {
            if has_name(t, name) {
                lemma_count_below_strict(t, rank0, name, x);
            }
        },
        _ => {},
    }
}

proof fn lemma_compressed_by_value_all(t: Table, rank0: Rank, s: Seq<TypeView>, x: nat)
    requires
        by_value_rank_all(s, rank0) <= x,
    ensures
        by_value_rank_all(s, compressed(t, rank0)) <= count_below(t, rank0, x) + 1,
    decreases s,
{
    if s.len() > 0 {
        assert(s.subrange(0, s.len() - 1) == s.drop_last());
        assert(s[s.len() - 1] == s.last());
        lemma_compressed_by_value_all(t, rank0, s.drop_last(), x);
        lemma_compressed_by_value(t, rank0, s.last(), x);
    }
}

/// A well-founded table has a ranking with ranks at most the number of its
/// entries.
proof fn lemma_small_ranking(t: Table)
    requires
        well_founded(t),
    ensures
        ranked(t, compressed(t, some_rank(t))),
        forall|x: Seq<char>| #[trigger] compressed(t, some_rank(t))(x) <= t.len(),
{
    let rank0 = some_rank(t);
    let r1 = compressed(t, rank0);
    assert forall|i: int| 0 <= i < t.len() && (#[trigger] t[i]).1 is Some implies by_value_rank(t[i].1.unwrap(), r1)
        <= r1(t[i].0) by {
        assert(has_name(t, t[i].0));
        lemma_compressed_by_value(t, rank0, t[i].1.unwrap(), rank0(t[i].0));
    }
    assert forall|x: Seq<char>| #[trigger] r1(x) <= t.len() by {
        if has_name(t, x) {
            let j = choose|j: int| 0 <= j < t.len() && t[j].0 == x;
            let p = |e: (Seq<char>, Option<TypeView>)| rank0(e.0) < rank0(x);
            let q = |e: (Seq<char>, Option<TypeView>)| true;
            lemma_filter_len_strict(t, p, q, j);
            assert(t.filter(q) =~= t) by {
                reveal(Seq::filter);
                t.lemma_filter_len(q);
                assert(t.filter(q).len() <= t.len());
                lemma_filter_all(t, q);
            }
        }
    }
}

proof fn lemma_filter_all<A>(s: Seq<A>, q: spec_fn(A) -> bool)
    requires
        forall|x: A| #[trigger] q(x),
    ensures
        s.filter(q) == s,
    decreases s.len(),
{
    reveal(Seq::filter);
    if s.len() > 0 {
        lemma_filter_all(s.drop_last(), q);
        assert(s.drop_last().push(s.last()) =~= s);
    } else {
        assert(s.filter(q) =~= s);
    }
}

/// The rank of a type's by-value named struct with the highest rank (plus
/// one), under the ranks of `ranks`.
fn value_rank(ty: &LlvmType, ranks: &NameMap<u64>, bound: u64) -> (r: u64)
    requires
        bound < u64::MAX,
        ranks_at_most(ranks@, bound as nat),
    ensures
        r == by_value_rank(ty@, rank_from(ranks@)),
        r <= bound + 1,
    decreases tsz(ty@),
{
    match ty {
        LlvmType::Array { element_type, .. } | LlvmType::Vector { element_type, .. } => {
            value_rank(element_type, ranks, bound)
        },
        LlvmType::Struct { element_types } => {
            proof {
                LlvmType::lemma_models(element_types@);
            }
            let ghost ms = LlvmType::models(element_types@);
            let ghost rank = rank_from(ranks@);
            let mut m: u64 = 0;
            let mut i: usize = 0;
            while i < element_types.len()
                invariant
                    i <= element_types@.len(),
                    bound < u64::MAX,
                    ranks_at_most(ranks@, bound as nat),
                    ty@ == (TypeView::Struct { element_types: ms }),
                    rank == rank_from(ranks@),
                    ms == LlvmType::models(element_types@),
                    ms.len() == element_types@.len(),
                    forall|j: int| 0 <= j < element_types@.len() ==> #[trigger] ms[j] == element_types@[j].model(),
                    m == by_value_rank_all(ms.subrange(0, i as int), rank),
                    m <= bound + 1,
                decreases element_types@.len() - i,
            {
                proof {
                    lemma_element_measures(ms, rank, i as int);
                    lemma_tsz_positive(ms[i as int]);
                    assert(ms.subrange(0, i + 1).subrange(0, i as int) =~= ms.subrange(0, i as int));
                    assert(ms.subrange(0, i + 1)[i as int] == ms[i as int]);
                }
                let b = value_rank(&element_types[i], ranks, bound);
                if b > m {
                    m = b;
                }
                i = i + 1;
            }
            assert(ms.subrange(0, i as int) =~= ms);
            m
        },
        LlvmType::NamedStruct { name } => match ranks.get(name.as_str()) {
            Some(v) => {
                assert(rank_of(ranks@, name@) <= bound);
                *v + 1
            },
            None => 1,
        },
        _ => 0,
    }
}

/// The rank recorded in `ranks` for `name`, 0 when none is.
fn recorded_rank(ranks: &NameMap<u64>, name: &str) -> (r: u64)
    ensures
        r == rank_of(ranks@, name@),
{
    match ranks.get(name) {
        Some(v) => *v,
        None => 0,
    }
}

impl StructTable {
    /// Does every defined named struct rank above its by-value contents
    /// under the ranks of `ranks`?
    fn ranked_by(&self, names: &Vec<String>, ranks: &NameMap<u64>, bound: u64) -> (r: bool)
        requires
            bound < u64::MAX,
            ranks_at_most(ranks@, bound as nat),
            names@.len() == self@.len(),
            forall|i: int| 0 <= i < names@.len() ==> #[trigger] names@[i]@ == self@[i].0,
        ensures
            r == ranked(self@, rank_from(ranks@)),
    {
        let ghost rank = rank_from(ranks@);
        let mut i: usize = 0;
        while i < self.len()
            invariant
                i <= self@.len(),
                bound < u64::MAX,
                ranks_at_most(ranks@, bound as nat),
                rank == rank_from(ranks@),
                names@.len() == self@.len(),
                forall|j: int| 0 <= j < names@.len() ==> #[trigger] names@[j]@ == self@[j].0,
                forall|j: int|
                    0 <= j < i && (#[trigger] self@[j]).1 is Some ==> by_value_rank(self@[j].1.unwrap(), rank)
                        <= rank(self@[j].0),
            decreases self@.len() - i,
        {
            match self.value_at(i) {
                NamedStructDef::Defined(d) => {
                    let v = value_rank(d, ranks, bound);
                    let own = recorded_rank(ranks, names[i].as_str());
                    if v > own {
                        assert(self@[i as int].1 is Some && by_value_rank(self@[i as int].1.unwrap(), rank) > rank(
                            self@[i as int].0,
                        ));
                        return false;
                    }
                },
                NamedStructDef::Opaque => {},
            }
            i = i + 1;
        }
        true
    }

    /// The ranks one step on: each name ranked at the highest rank that its
    /// entries ask for under `ranks`.
    fn next_ranks(&self, names: &Vec<String>, ranks: &NameMap<u64>, bound: u64) -> (r: NameMap<u64>)
        requires
            bound < u64::MAX,
            ranks_at_most(ranks@, bound as nat),
            names@.len() == self@.len(),
            forall|i: int| 0 <= i < names@.len() ==> #[trigger] names@[i]@ == self@[i].0,
        ensures
            forall|x: Seq<char>| #[trigger] rank_of(r@, x) == asked_rank(self@, x, rank_from(ranks@)),
    {
        let ghost rank = rank_from(ranks@);
        let ghost t = self@;
        let mut next: NameMap<u64> = NameMap::new();
        let mut i: usize = 0;
        while i < self.len()
            invariant
                i <= t.len(),
                t == self@,
                bound < u64::MAX,
                ranks_at_most(ranks@, bound as nat),
                rank == rank_from(ranks@),
                names@.len() == t.len(),
                forall|j: int| 0 <= j < names@.len() ==> #[trigger] names@[j]@ == t[j].0,
                forall|x: Seq<char>| #[trigger] rank_of(next@, x) == asked_rank(t.take(i as int), x, rank),
                ranks_at_most(next@, bound as nat + 1),
            decreases t.len() - i,
        {
            let v: u64 = match self.value_at(i) {
                NamedStructDef::Defined(d) => value_rank(d, ranks, bound),
                NamedStructDef::Opaque => 0,
            };
            assert(v == entry_rank(t[i as int], rank));
            let ghost before = next@;
            let cur = recorded_rank(&next, names[i].as_str());
            let new_rank = if cur >= v { cur } else { v };
            next.insert(names[i].as_str(), new_rank);
            proof {
                let u = t.take(i + 1);
                assert(u.drop_last() =~= t.take(i as int));
                assert(u.last() == t[i as int]);
                assert forall|x: Seq<char>| #[trigger] rank_of(next@, x) == asked_rank(u, x, rank) by {
                    assert(rank_of(before, x) == asked_rank(t.take(i as int), x, rank));
                    if x != names@[i as int]@ {
                        assert(lookup(next@, x) == lookup(before, x));
                    } else {
                        assert(lookup(next@, x) == Some(new_rank));
                        assert(cur == rank_of(before, x));
                    }
                }
                assert forall|x: Seq<char>| #[trigger] rank_of(next@, x) <= bound as nat + 1 by {
                    assert(rank_of(before, x) <= bound as nat + 1);
                    if x != names@[i as int]@ {
                        assert(lookup(next@, x) == lookup(before, x));
                    } else {
                        assert(lookup(next@, x) == Some(new_rank));
                        assert(cur == rank_of(before, x));
                    }
                }
            }
            i = i + 1;
        }
        assert(t.take(i as int) =~= t);
        next
    }

    /// Are the ranks recorded for the table's names all at most `bound`?
    fn all_at_most(&self, names: &Vec<String>, ranks: &NameMap<u64>, bound: u64) -> (r: bool)
        requires
            names@.len() == self@.len(),
            forall|i: int| 0 <= i < names@.len() ==> #[trigger] names@[i]@ == self@[i].0,
        ensures
            r == forall|i: int| 0 <= i < self@.len() ==> #[trigger] rank_of(ranks@, self@[i].0) <= bound,
    {
        let mut i: usize = 0;
        while i < names.len()
            invariant
                i <= names@.len(),
                names@.len() == self@.len(),
                forall|j: int| 0 <= j < names@.len() ==> #[trigger] names@[j]@ == self@[j].0,
                forall|j: int| 0 <= j < i ==> #[trigger] rank_of(ranks@, self@[j].0) <= bound,
            decreases names@.len() - i,
        {
            if recorded_rank(ranks, names[i].as_str()) > bound {
                return false;
            }
            i = i + 1;
        }
        true
    }

    /// Does no named struct contain itself by value, directly or through
    /// other structs?
    pub fn is_well_founded(&self) -> (r: bool)
        requires
            self@.len() < usize::MAX,
        ensures
            r == well_founded(self@),
    {
        let names = self.names();
        let n = self.len();
        let bound = n as u64;
        let ghost t = self@;
        let ghost small = compressed(t, some_rank(t));
        proof {
            if well_founded(t) {
                lemma_small_ranking(t);
            }
        }
        let mut ranks: NameMap<u64> = NameMap::new();
        loop
            invariant
                t == self@,
                n == t.len(),
                bound == n,
                bound < u64::MAX,
                names@.len() == t.len(),
                forall|i: int| 0 <= i < names@.len() ==> #[trigger] names@[i]@ == t[i].0,
                small == compressed(t, some_rank(t)),
                well_founded(t) ==> ranked(t, small) && forall|x: Seq<char>| #[trigger] small(x) <= t.len(),
                ranks_at_most(ranks@, bound as nat),
                forall|x: Seq<char>| #[trigger] rank_of(ranks@, x) <= asked_rank(t, x, rank_from(ranks@)),
                well_founded(t) ==> forall|x: Seq<char>| #[trigger] rank_of(ranks@, x) <= small(x),
            decreases (n * n) as int - rank_sum(t, rank_from(ranks@)),
        {
            proof {
                let rank = rank_from(ranks@);
                assert forall|i: int| 0 <= i < t.len() implies #[trigger] rank(t[i].0) <= n by {
                    assert(rank_of(ranks@, t[i].0) <= bound);
                }
                lemma_rank_sum_bounded(t, rank, n as nat);
            }
            if self.ranked_by(&names, &ranks, bound) {
                return true;
            }
            let next = self.next_ranks(&names, &ranks, bound);
            let ghost rank = rank_from(ranks@);
            let ghost rank2 = rank_from(next@);
            if !self.all_at_most(&names, &next, bound) {
                proof {
                    if well_founded(t) {
                        let i = choose|i: int| 0 <= i < t.len() && !(#[trigger] rank_of(next@, t[i].0) <= bound);
                        let x = t[i].0;
                        assert forall|y: Seq<char>| #[trigger] rank(y) <= small(y) by {
                            assert(rank_of(ranks@, y) <= small(y));
                        }
                        lemma_asked_rank_monotone(t, x, rank, small);
                        lemma_asked_rank_of_ranked(t, x, small);
                        assert(small(x) <= t.len());
                        assert(false);
                    }
                }
                return false;
            }
            proof {
                // the ranks only go up
                assert forall|x: Seq<char>| #[trigger] rank(x) <= rank2(x) by {
                    assert(rank_of(ranks@, x) <= asked_rank(t, x, rank));
                    assert(rank_of(next@, x) == asked_rank(t, x, rank));
                }
                // and strictly so where the ranking fails
                let i = choose|i: int|
                    0 <= i < t.len() && (#[trigger] t[i]).1 is Some && !(by_value_rank(t[i].1.unwrap(), rank) <= rank(
                        t[i].0,
                    ));
                lemma_asked_rank_covers(t, i, rank);
                assert(rank_of(next@, t[i].0) == asked_rank(t, t[i].0, rank));
                lemma_rank_sum_monotone(t, rank, rank2, i);
                // the new ranks are again below what they ask for
                assert forall|x: Seq<char>| #[trigger] rank_of(next@, x) <= asked_rank(t, x, rank2) by {
                    lemma_asked_rank_monotone(t, x, rank, rank2);
                }
                assert forall|x: Seq<char>| #[trigger] rank_of(next@, x) <= bound by {
                    if has_name(t, x) {
                        let j = choose|j: int| 0 <= j < t.len() && t[j].0 == x;
                        assert(rank_of(next@, t[j].0) <= bound);
                    } else {
                        lemma_asked_rank_absent(t, x, rank);
                    }
                }
                if well_founded(t) {
                    assert forall|y: Seq<char>| #[trigger] rank(y) <= small(y) by {
                        assert(rank_of(ranks@, y) <= small(y));
                    }
                    assert forall|x: Seq<char>| #[trigger] rank_of(next@, x) <= small(x) by {
                        lemma_asked_rank_monotone(t, x, rank, small);
                        lemma_asked_rank_of_ranked(t, x, small);
                    }
                }
                assert forall|i: int| 0 <= i < t.len() implies #[trigger] rank2(t[i].0) <= n by {
                    assert(rank_of(next@, t[i].0) <= bound);
                }
                lemma_rank_sum_bounded(t, rank2, n as nat);
            }
            ranks = next;
        }
    }
}

} // verus!
