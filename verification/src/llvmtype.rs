use vstd::prelude::*;
use crate::namemap::{lookup, NameMap};

verus! {

/// The part of an LLVM type that the analysis reads: its shape, integer
/// widths, element counts, and the names of named struct types.
#[derive(PartialEq, Eq, Debug)]
pub enum LlvmType {
    Void,
    Integer { bits: u32 },
    Pointer { pointee_type: Box<LlvmType> },
    FloatingPoint { bits: u32 },
    Func,
    Array { element_type: Box<LlvmType>, num_elements: usize },
    Vector { element_type: Box<LlvmType>, num_elements: usize },
    Struct { element_types: Vec<LlvmType> },
    NamedStruct { name: String },
    /// Any other type (labels, metadata, tokens, ...)
    Other,
}

/// The model of an `LlvmType`.
pub enum TypeView {
    Void,
    Integer { bits: u32 },
    Pointer { pointee_type: Box<TypeView> },
    FloatingPoint { bits: u32 },
    Func,
    Array { element_type: Box<TypeView>, num_elements: usize },
    Vector { element_type: Box<TypeView>, num_elements: usize },
    Struct { element_types: Seq<TypeView> },
    NamedStruct { name: Seq<char> },
    Other,
}

impl LlvmType {
    /// The model of this type.
    pub open spec fn model(self) -> TypeView
        decreases self,
    {
        match self {
            LlvmType::Void => TypeView::Void,
            LlvmType::Integer { bits } => TypeView::Integer { bits },
            LlvmType::Pointer { pointee_type } => TypeView::Pointer { pointee_type: Box::new(pointee_type.model()) },
            LlvmType::FloatingPoint { bits } => TypeView::FloatingPoint { bits },
            LlvmType::Func => TypeView::Func,
            LlvmType::Array { element_type, num_elements } => TypeView::Array {
                element_type: Box::new(element_type.model()),
                num_elements,
            },
            LlvmType::Vector { element_type, num_elements } => TypeView::Vector {
                element_type: Box::new(element_type.model()),
                num_elements,
            },
            LlvmType::Struct { element_types } => TypeView::Struct { element_types: Self::models(element_types@) },
            LlvmType::NamedStruct { name } => TypeView::NamedStruct { name: name@ },
            LlvmType::Other => TypeView::Other,
        }
    }

    /// The models of a sequence of types, in order.
    pub open spec fn models(s: Seq<LlvmType>) -> Seq<TypeView>
        decreases s,
    {
        if s.len() == 0 {
            Seq::empty()
        } else {
            Self::models(s.subrange(0, s.len() - 1)).push(s[s.len() - 1].model())
        }
    }

    /// `models` keeps the length and maps each element to its model.
    pub proof fn lemma_models(s: Seq<LlvmType>)
        ensures
            Self::models(s).len() == s.len(),
            forall|i: int| 0 <= i < s.len() ==> #[trigger] Self::models(s)[i] == s[i].model(),
        decreases s.len(),
    {
        if s.len() > 0 {
            Self::lemma_models(s.subrange(0, s.len() - 1));
        }
    }

    /// An identical, separately owned type.
    pub fn duplicate(&self) -> (r: Self)
        ensures
            r@ == self@,
        decreases self,
    {
        match self {
            LlvmType::Void => LlvmType::Void,
            LlvmType::Integer { bits } => LlvmType::Integer { bits: *bits },
            LlvmType::Pointer { pointee_type } => LlvmType::Pointer { pointee_type: Box::new(pointee_type.duplicate()) },
            LlvmType::FloatingPoint { bits } => LlvmType::FloatingPoint { bits: *bits },
            LlvmType::Func => LlvmType::Func,
            LlvmType::Array { element_type, num_elements } => LlvmType::Array {
                element_type: Box::new(element_type.duplicate()),
                num_elements: *num_elements,
            },
            LlvmType::Vector { element_type, num_elements } => LlvmType::Vector {
                element_type: Box::new(element_type.duplicate()),
                num_elements: *num_elements,
            },
            LlvmType::Struct { element_types } => {
                let copies = Self::duplicate_all(element_types);
                proof {
                    Self::lemma_models(copies@);
                    Self::lemma_models(element_types@);
                    assert(Self::models(copies@) =~= Self::models(element_types@));
                }
                LlvmType::Struct { element_types: copies }
            },
            LlvmType::NamedStruct { name } => LlvmType::NamedStruct { name: name.clone() },
            LlvmType::Other => LlvmType::Other,
        }
    }

    /// Separately owned copies of each type, in order.
    fn duplicate_all(types: &Vec<LlvmType>) -> (r: Vec<LlvmType>)
        ensures
            r@.len() == types@.len(),
            forall|j: int| 0 <= j < types@.len() ==> #[trigger] r@[j].model() == types@[j].model(),
        decreases types@, 0nat,
    {
        let mut copies: Vec<LlvmType> = Vec::new();
        let mut i: usize = 0;
        while i < types.len()
            invariant
                i <= types@.len(),
                copies@.len() == i,
                forall|j: int| 0 <= j < i ==> #[trigger] copies@[j].model() == types@[j].model(),
            decreases types@.len() - i,
        {
            assert(decreases_to!(types@ => types@[i as int]));
            copies.push(types[i].duplicate());
            i = i + 1;
        }
        copies
    }
}

impl View for LlvmType {
    type V = TypeView;

    open spec fn view(&self) -> TypeView {
        self.model()
    }
}

impl Clone for LlvmType {
    fn clone(&self) -> (r: Self)
        ensures
            r@ == self@,
    {
        self.duplicate()
    }
}

/// The definition of a named struct type: either opaque, or a struct type.
#[derive(PartialEq, Eq, Debug)]
pub enum NamedStructDef {
    Opaque,
    Defined(LlvmType),
}

/// The named struct types of the code under analysis, by name.
pub type StructTable = NameMap<NamedStructDef>;

impl View for NamedStructDef {
    type V = Option<TypeView>;

    /// `None` for an opaque definition.
    open spec fn view(&self) -> Option<TypeView> {
        match self {
            NamedStructDef::Opaque => None,
            NamedStructDef::Defined(ty) => Some(ty@),
        }
    }
}

/// A rank for each struct name, as used to order named struct definitions.
pub type Rank = spec_fn(Seq<char>) -> nat;

/// Structural size of a type (named structs count as one node).
pub open spec fn tsz(ty: TypeView) -> nat
    decreases ty,
{
    match ty {
        TypeView::Pointer { pointee_type } => 1 + tsz(*pointee_type),
        TypeView::Array { element_type, .. } => 1 + tsz(*element_type),
        TypeView::Vector { element_type, .. } => 1 + tsz(*element_type),
        TypeView::Struct { element_types } => 2 + tsz_all(element_types),
        _ => 1,
    }
}

/// Every type has a positive structural size.
pub proof fn lemma_tsz_positive(ty: TypeView)
    ensures
        tsz(ty) >= 1,
{
}

/// Total structural size of a sequence of types.
pub open spec fn tsz_all(s: Seq<TypeView>) -> nat
    decreases s,
{
    if s.len() == 0 {
        0
    } else {
        tsz_all(s.subrange(0, s.len() - 1)) + tsz(s[s.len() - 1])
    }
}

/// The highest rank (plus one) of a named struct contained by value in the
/// type (not behind a pointer); 0 if there is none.
pub open spec fn by_value_rank(ty: TypeView, rank: Rank) -> nat
    decreases ty,
{
    match ty {
        TypeView::Array { element_type, .. } => by_value_rank(*element_type, rank),
        TypeView::Vector { element_type, .. } => by_value_rank(*element_type, rank),
        TypeView::Struct { element_types } => by_value_rank_all(element_types, rank),
        TypeView::NamedStruct { name } => rank(name) + 1,
        _ => 0,
    }
}

/// The largest `by_value_rank` in a sequence of types.
pub open spec fn by_value_rank_all(s: Seq<TypeView>, rank: Rank) -> nat
    decreases s,
{
    if s.len() == 0 {
        0
    } else {
        let a = by_value_rank_all(s.subrange(0, s.len() - 1), rank);
        let b = by_value_rank(s[s.len() - 1], rank);
        if a >= b { a } else { b }
    }
}

/// Every defined named struct contains by value only named structs of lower
/// rank. A rank exists exactly when no struct contains itself by value,
/// directly or indirectly (as LLVM requires).
pub open spec fn ranked(t: Seq<(Seq<char>, Option<TypeView>)>, rank: Rank) -> bool {
    forall|i: int|
        0 <= i < t.len() && (#[trigger] t[i]).1 is Some ==> by_value_rank(t[i].1.unwrap(), rank) <= rank(t[i].0)
}

/// Every element of a sequence is bounded by the sequence's measures.
pub proof fn lemma_element_measures(s: Seq<TypeView>, rank: Rank, i: int)
    requires
        0 <= i < s.len(),
    ensures
        by_value_rank(s[i], rank) <= by_value_rank_all(s, rank),
        tsz(s[i]) <= tsz_all(s),
    decreases s.len(),
{
    if i < s.len() - 1 {
        lemma_element_measures(s.subrange(0, s.len() - 1), rank, i);
    }
}

/// A definition found by name in a ranked table contains by value only lower
/// ranked named structs.
pub proof fn lemma_ranked_lookup(t: Seq<(Seq<char>, Option<TypeView>)>, rank: Rank, name: Seq<char>)
    requires
        ranked(t, rank),
        lookup(t, name) matches Some(Some(_)),
    ensures
        by_value_rank(lookup(t, name).unwrap().unwrap(), rank) <= rank(name),
{
    crate::namemap::lemma_lookup(t, name);
    let i = choose|i: int|
        0 <= i < t.len() && t[i].0 == name && lookup(t, name) == Some(t[i].1)
            && forall|j: int| 0 <= j < i ==> t[j].0 != name;
    assert(t[i].1 is Some);
}

/// The size in bits of a type, with named structs resolved through the
/// table: `None` when it is or contains an opaque or unknown struct, a
/// function or other unsized type, or when it does not fit in a `usize`.
pub open spec fn type_bits(t: Seq<(Seq<char>, Option<TypeView>)>, ty: TypeView, rank: Rank) -> Option<nat>
    decreases by_value_rank(ty, rank), tsz(ty),
{
    match ty {
        TypeView::Void => Some(0),
        TypeView::Integer { bits } => Some(bits as nat),
        TypeView::Pointer { .. } => Some(64),
        TypeView::FloatingPoint { bits } => Some(bits as nat),
        TypeView::Array { element_type, num_elements } => match type_bits(t, *element_type, rank) {
            Some(s) => if s * num_elements <= usize::MAX {
                Some(s * (num_elements as nat))
            } else {
                None
            },
            None => None,
        },
        TypeView::Vector { element_type, num_elements } => match type_bits(t, *element_type, rank) {
            Some(s) => if s * num_elements <= usize::MAX {
                Some(s * (num_elements as nat))
            } else {
                None
            },
            None => None,
        },
        TypeView::Struct { element_types } => type_bits_all(t, element_types, rank),
        TypeView::NamedStruct { name } => match lookup(t, name) {
            Some(Some(d)) => if by_value_rank(d, rank) <= rank(name) {
                type_bits(t, d, rank)
            } else {
                None
            },
            _ => None,
        },
        TypeView::Func => None,
        TypeView::Other => None,
    }
}

/// Total size of a sequence of types laid out one after another.
pub open spec fn type_bits_all(t: Seq<(Seq<char>, Option<TypeView>)>, s: Seq<TypeView>, rank: Rank) -> Option<nat>
    decreases by_value_rank_all(s, rank), tsz_all(s) + 1,
{
    if s.len() == 0 {
        Some(0)
    } else {
        proof {
            lemma_tsz_positive(s[s.len() - 1]);
        }
        match (type_bits_all(t, s.subrange(0, s.len() - 1), rank), type_bits(t, s[s.len() - 1], rank)) {
            (Some(a), Some(b)) => if a + b <= usize::MAX {
                Some(a + b)
            } else {
                None
            },
            _ => None,
        }
    }
}


/// A vector type is laid out like an array type of the same element type and
/// length: its size is the element size times the number of elements when
/// that fits in a `usize`, and unknown when the element size is unknown or
/// the product does not fit.
pub proof fn law_vector_sized_like_array(
    t: Seq<(Seq<char>, Option<TypeView>)>,
    element: TypeView,
    n: usize,
    rank: Rank,
)
    ensures
        type_bits(t, TypeView::Vector { element_type: Box::new(element), num_elements: n }, rank) == type_bits(
            t,
            TypeView::Array { element_type: Box::new(element), num_elements: n },
            rank,
        ),
        type_bits(t, TypeView::Array { element_type: Box::new(element), num_elements: n }, rank) matches Some(b)
            ==> type_bits(t, element, rank) matches Some(s) && b == s * n,
        type_bits(t, element, rank) matches Some(s) ==> (s * n <= usize::MAX ==> type_bits(
            t,
            TypeView::Array { element_type: Box::new(element), num_elements: n },
            rank,
        ) == Some(s * (n as nat))),
{
}

/// Does the table contain no struct that contains itself by value?
pub open spec fn well_founded(t: Seq<(Seq<char>, Option<TypeView>)>) -> bool {
    exists|rank: Rank| ranked(t, rank)
}

/// A rank witnessing that the table is well founded.
pub open spec fn some_rank(t: Seq<(Seq<char>, Option<TypeView>)>) -> Rank {
    choose|rank: Rank| ranked(t, rank)
}

/// The size in bits of a type in a well-founded table (see `type_bits`).
pub open spec fn size_of(t: Seq<(Seq<char>, Option<TypeView>)>, ty: TypeView) -> Option<nat> {
    type_bits(t, ty, some_rank(t))
}

/// Converts a spec size to the executable one.
pub open spec fn as_usize_opt(o: Option<nat>) -> Option<usize> {
    match o {
        Some(n) => Some(n as usize),
        None => None,
    }
}

impl StructTable {
    /// Get the size of the type, in bits, resolving named structs through
    /// the table. `None` for a type that is or contains an opaque or unknown
    /// struct, a function or other unsized type, or whose size does not fit
    /// in a `usize`.
    pub fn size_in_bits(&self, ty: &LlvmType) -> (r: Option<usize>)
        requires
            well_founded(self@),
        ensures
            r == as_usize_opt(size_of(self@, ty@)),
    {
        let ghost rank = some_rank(self@);
        self.bits_of(ty, Ghost(rank))
    }

    pub(crate) fn bits_of(&self, ty: &LlvmType, Ghost(rank): Ghost<Rank>) -> (r: Option<usize>)
        requires
            ranked(self@, rank),
        ensures
            r == as_usize_opt(type_bits(self@, ty@, rank)),
            r is Some ==> type_bits(self@, ty@, rank).unwrap() <= usize::MAX,
        decreases by_value_rank(ty@, rank), tsz(ty@), 0nat,
    {
        match ty {
            LlvmType::Void => Some(0),
            LlvmType::Integer { bits } => Some(*bits as usize),
            LlvmType::Pointer { .. } => Some(64),
            LlvmType::FloatingPoint { bits } => Some(*bits as usize),
            LlvmType::Array { element_type, num_elements } | LlvmType::Vector { element_type, num_elements } => {
                match self.bits_of(element_type, Ghost(rank)) {
                    Some(s) => s.checked_mul(*num_elements),
                    None => None,
                }
            },
            LlvmType::Struct { element_types } => {
                proof {
                    LlvmType::lemma_models(element_types@);
                }
                self.bits_of_all(element_types, Ghost(rank))
            },
            LlvmType::NamedStruct { name } => {
                match self.get(name.as_str()) {
                    Some(NamedStructDef::Defined(d)) => {
                        proof {
                            lemma_ranked_lookup(self@, rank, name@);
                        }
                        self.bits_of(d, Ghost(rank))
                    },
                    _ => None,
                }
            },
            LlvmType::Func => None,
            LlvmType::Other => None,
        }
    }

    fn bits_of_all(&self, types: &Vec<LlvmType>, Ghost(rank): Ghost<Rank>) -> (r: Option<usize>)
        requires
            ranked(self@, rank),
        ensures
            r == as_usize_opt(type_bits_all(self@, LlvmType::models(types@), rank)),
            r is Some ==> type_bits_all(self@, LlvmType::models(types@), rank).unwrap() <= usize::MAX,
        decreases by_value_rank_all(LlvmType::models(types@), rank), tsz_all(LlvmType::models(types@)) + 1, 0nat,
    {
        proof {
            LlvmType::lemma_models(types@);
        }
        let ghost ms = LlvmType::models(types@);
        let mut total: usize = 0;
        let mut i: usize = 0;
        while i < types.len()
            invariant
                i <= types@.len(),
                ranked(self@, rank),
                ms == LlvmType::models(types@),
                ms.len() == types@.len(),
                forall|j: int| 0 <= j < types@.len() ==> #[trigger] ms[j] == types@[j].model(),
                type_bits_all(self@, ms.subrange(0, i as int), rank) == Some(total as nat),
            decreases types@.len() - i,
        {
            proof {
                lemma_element_measures(ms, rank, i as int);
                lemma_tsz_positive(ms[i as int]);
                assert(ms.subrange(0, i + 1).subrange(0, i as int) =~= ms.subrange(0, i as int));
                assert(ms.subrange(0, i + 1)[i as int] == ms[i as int]);
            }
            match self.bits_of(&types[i], Ghost(rank)) {
                Some(b) => {
                    match total.checked_add(b) {
                        Some(sum) => {
                            total = sum;
                        },
                        None => {
                            proof {
                                lemma_prefix_none(self@, ms, rank, i as int + 1);
                            }
                            return None;
                        },
                    }
                },
                None => {
                    proof {
                        lemma_prefix_none(self@, ms, rank, i as int + 1);
                    }
                    return None;
                },
            }
            i = i + 1;
        }
        assert(ms.subrange(0, i as int) =~= ms);
        Some(total)
    }
}

/// Once a prefix of a sequence has no size, neither do its extensions.
pub proof fn lemma_prefix_none(t: Seq<(Seq<char>, Option<TypeView>)>, s: Seq<TypeView>, rank: Rank, n: int)
    requires
        0 <= n <= s.len(),
        type_bits_all(t, s.subrange(0, n), rank) is None,
    ensures
        type_bits_all(t, s, rank) is None,
    decreases s.len() - n,
{
    if n < s.len() {
        assert(s.subrange(0, n + 1).subrange(0, n) =~= s.subrange(0, n));
        lemma_prefix_none(t, s, rank, n + 1);
    } else {
        assert(s.subrange(0, n) =~= s);
    }
}

} // verus!
