use vstd::prelude::*;
use crate::completion::{
    lemma_found_name, lemma_pre_step_decreases, lemma_spec_size_element, lemma_unseen_insert, entry_names,
    complete, complete_all, complete_unspecified_all, could_describe_one_element_struct, opt_tsz, regime,
    spec_size, spec_size_all, unseen_total, DescsView, TableView, DEFAULT_ARRAY_LENGTH, OPAQUE_STRUCT_SIZE_BYTES,
};
use crate::llvmtype::{lemma_ranked_lookup, ranked, some_rank, well_founded, LlvmType, NamedStructDef, Rank, StructTable, TypeView};
use crate::namemap::{lookup, NameMap};
use crate::describe::{data_description, push_data_description, push_decimal, push_str, spec_description};

verus! {

/// The size of every pointer, in bits.
pub const POINTER_SIZE_BITS: usize = 64;

/// A description of what numerical value a public value may take.
#[derive(PartialEq, Eq, Debug)]
pub enum AbstractValue {
    /// This exact numerical value
    ExactValue(u64),
    /// Any numerical value in the range (inclusive)
    Range(u64, u64),
    /// Any value whatsoever
    Unconstrained,
    /// A value with a (unique) name, so that it can be referenced in an
    /// `EqualTo`, `SignedLessThan`, `SignedGreaterThan`, etc.
    ///
    /// If more than one `AbstractValue` is given the same name, they will
    /// implicitly be set equal to each other.
    Named { name: String, value: Box<AbstractValue> },
    /// A value equal to the value with the given name
    EqualTo(String),
    /// A value signed-less-than the value with the given name
    SignedLessThan(String),
    /// A value signed-greater-than the value with the given name
    SignedGreaterThan(String),
    /// A value unsigned-less-than the value with the given name
    UnsignedLessThan(String),
    /// A value unsigned-greater-than the value with the given name
    UnsignedGreaterThan(String),
}

impl AbstractValue {
    /// An identical, separately owned description.
    pub fn duplicate(&self) -> (r: Self)
        ensures
            r == *self,
        decreases self,
    {
        match self {
            AbstractValue::ExactValue(v) => AbstractValue::ExactValue(*v),
            AbstractValue::Range(lo, hi) => AbstractValue::Range(*lo, *hi),
            AbstractValue::Unconstrained => AbstractValue::Unconstrained,
            AbstractValue::Named { name, value } => AbstractValue::Named {
                name: name.clone(),
                value: Box::new(value.duplicate()),
            },
            AbstractValue::EqualTo(n) => AbstractValue::EqualTo(n.clone()),
            AbstractValue::SignedLessThan(n) => AbstractValue::SignedLessThan(n.clone()),
            AbstractValue::SignedGreaterThan(n) => AbstractValue::SignedGreaterThan(n.clone()),
            AbstractValue::UnsignedLessThan(n) => AbstractValue::UnsignedLessThan(n.clone()),
            AbstractValue::UnsignedGreaterThan(n) => AbstractValue::UnsignedGreaterThan(n.clone()),
        }
    }

    /// A value carrying the given name, constrained as `value` describes.
    pub fn named(name: &str, value: AbstractValue) -> (r: Self)
        ensures
            r matches AbstractValue::Named { name: n, value: v } && n@ == name@ && *v == value,
    {
        AbstractValue::Named { name: name.to_owned(), value: Box::new(value) }
    }
}

impl Clone for AbstractValue {
    fn clone(&self) -> (r: Self)
        ensures
            r == *self,
    {
        self.duplicate()
    }
}

/// An abstract description of a value: if it is public or not, if it is a
/// pointer or not, does it point to data that is public/secret, maybe it's a
/// struct with some public and some secret fields, etc.
///
/// Unlike `AbstractData`, these may never be "underspecified": they are a
/// complete description of the data structure.
#[derive(PartialEq, Eq, Debug)]
pub enum CompleteAbstractData {
    /// A public value of the given size in bits, whose value is described by
    /// the `AbstractValue`.
    PublicValue { bits: usize, value: AbstractValue },
    /// A secret value (pointer or non-pointer) of the given size in bits
    Secret { bits: usize },
    /// A (first-class) array of values
    Array { element_type: Box<CompleteAbstractData>, num_elements: usize },
    /// A (first-class) structure of values
    Struct { name: String, elements: Vec<CompleteAbstractData> },
    /// A (public) pointer to something; if `maybe_null`, it may also be `NULL`
    PublicPointerTo { pointee: Box<CompleteAbstractData>, maybe_null: bool },
    /// A (public) pointer to the LLVM function with the given name
    PublicPointerToFunction(String),
    /// A (public) pointer to the hook registered for the given name
    PublicPointerToHook(String),
    /// A (public) pointer to the struct containing this value
    PublicPointerToSelf,
    /// A (public) pointer to the parent of the struct containing this value;
    /// if the parent has the wrong type or there is no parent, a pointer to
    /// the given data instead (when present).
    PublicPointerToParentOr(Option<Box<CompleteAbstractData>>),
    /// Use `data` even though the LLVM type is `i8` (a `void*` pointee);
    /// typecheck against the named LLVM struct when one is given.
    VoidOverride { llvm_struct_name: Option<String>, data: Box<CompleteAbstractData> },
    /// Use `data` even though it may not match the LLVM type, which must
    /// nonetheless have the same size.
    SameSizeOverride { data: Box<CompleteAbstractData> },
    /// Use `data`, and also watch the memory region it occupies under `name`.
    WithWatchpoint { name: String, data: Box<CompleteAbstractData> },
}


/// The mathematical model of a `CompleteAbstractData`: the same tree, with
/// names as character sequences and struct elements as a sequence.
pub enum DataView {
    PublicValue { bits: usize, value: AbstractValue },
    Secret { bits: usize },
    Array { element_type: Box<DataView>, num_elements: usize },
    Struct { name: Seq<char>, elements: Seq<DataView> },
    PublicPointerTo { pointee: Box<DataView>, maybe_null: bool },
    PublicPointerToFunction(Seq<char>),
    PublicPointerToHook(Seq<char>),
    PublicPointerToSelf,
    PublicPointerToParentOr(Option<Box<DataView>>),
    VoidOverride { llvm_struct_name: Option<Seq<char>>, data: Box<DataView> },
    SameSizeOverride { data: Box<DataView> },
    WithWatchpoint { name: Seq<char>, data: Box<DataView> },
}

/// The view of an optional string.
pub open spec fn opt_str_view(o: Option<String>) -> Option<Seq<char>> {
    match o {
        Some(s) => Some(s@),
        None => None,
    }
}

impl CompleteAbstractData {
    /// The model of this description.
    pub open spec fn model(self) -> DataView
        decreases self,
    {
        match self {
            CompleteAbstractData::PublicValue { bits, value } => DataView::PublicValue { bits, value },
            CompleteAbstractData::Secret { bits } => DataView::Secret { bits },
            CompleteAbstractData::Array { element_type, num_elements } => DataView::Array {
                element_type: Box::new(element_type.model()),
                num_elements,
            },
            CompleteAbstractData::Struct { name, elements } => DataView::Struct {
                name: name@,
                elements: Self::models(elements@),
            },
            CompleteAbstractData::PublicPointerTo { pointee, maybe_null } => DataView::PublicPointerTo {
                pointee: Box::new(pointee.model()),
                maybe_null,
            },
            CompleteAbstractData::PublicPointerToFunction(f) => DataView::PublicPointerToFunction(f@),
            CompleteAbstractData::PublicPointerToHook(f) => DataView::PublicPointerToHook(f@),
            CompleteAbstractData::PublicPointerToSelf => DataView::PublicPointerToSelf,
            CompleteAbstractData::PublicPointerToParentOr(opt) => DataView::PublicPointerToParentOr(
                match opt {
                    Some(d) => Some(Box::new(d.model())),
                    None => None,
                },
            ),
            CompleteAbstractData::VoidOverride { llvm_struct_name, data } => DataView::VoidOverride {
                llvm_struct_name: opt_str_view(llvm_struct_name),
                data: Box::new(data.model()),
            },
            CompleteAbstractData::SameSizeOverride { data } => DataView::SameSizeOverride {
                data: Box::new(data.model()),
            },
            CompleteAbstractData::WithWatchpoint { name, data } => DataView::WithWatchpoint {
                name: name@,
                data: Box::new(data.model()),
            },
        }
    }

    /// The models of a sequence of descriptions, in order.
    pub open spec fn models(s: Seq<CompleteAbstractData>) -> Seq<DataView>
        decreases s,
    {
        if s.len() == 0 {
            Seq::empty()
        } else {
            Self::models(s.subrange(0, s.len() - 1)).push(s[s.len() - 1].model())
        }
    }

    /// `models` keeps the length and maps each element to its model.
    pub proof fn lemma_models(s: Seq<CompleteAbstractData>)
        ensures
            Self::models(s).len() == s.len(),
            forall|i: int| 0 <= i < s.len() ==> #[trigger] Self::models(s)[i] == s[i].model(),
        decreases s.len(),
    {
        if s.len() > 0 {
            Self::lemma_models(s.subrange(0, s.len() - 1));
        }
    }

    /// Two sequences whose elements have the same models have the same models.
    pub proof fn lemma_models_eq(s1: Seq<CompleteAbstractData>, s2: Seq<CompleteAbstractData>)
        requires
            s1.len() == s2.len(),
            forall|i: int| 0 <= i < s1.len() ==> #[trigger] s1[i].model() == s2[i].model(),
        ensures
            Self::models(s1) == Self::models(s2),
    {
        Self::lemma_models(s1);
        Self::lemma_models(s2);
        assert(Self::models(s1) =~= Self::models(s2));
    }
}

impl View for CompleteAbstractData {
    type V = DataView;

    open spec fn view(&self) -> DataView {
        self.model()
    }
}


impl DataView {
    /// Size in bits of the described data.
    pub open spec fn size(self) -> nat
        decreases self,
    {
        match self {
            DataView::PublicValue { bits, .. } => bits as nat,
            DataView::Secret { bits } => bits as nat,
            DataView::Array { element_type, num_elements } => element_type.size() * (num_elements as nat),
            DataView::Struct { elements, .. } => Self::sum_sizes(elements),
            DataView::PublicPointerTo { .. } => 64,
            DataView::PublicPointerToFunction(_) => 64,
            DataView::PublicPointerToHook(_) => 64,
            DataView::PublicPointerToSelf => 64,
            DataView::PublicPointerToParentOr(_) => 64,
            DataView::VoidOverride { data, .. } => data.size(),
            DataView::SameSizeOverride { data } => data.size(),
            DataView::WithWatchpoint { data, .. } => data.size(),
        }
    }

    /// Total size in bits of a sequence of descriptions laid out one after another.
    pub open spec fn sum_sizes(s: Seq<DataView>) -> nat
        decreases s,
    {
        if s.len() == 0 {
            0
        } else {
            Self::sum_sizes(s.subrange(0, s.len() - 1)) + s[s.len() - 1].size()
        }
    }

    /// Does every size computed while sizing this description fit in a `usize`?
    pub open spec fn fits(self) -> bool
        decreases self,
    {
        &&& self.size() <= usize::MAX
        &&& match self {
            DataView::Array { element_type, .. } => element_type.fits(),
            DataView::Struct { elements, .. } => forall|i: int|
                0 <= i < elements.len() ==> (#[trigger] elements[i]).fits(),
            DataView::VoidOverride { data, .. } => data.fits(),
            DataView::SameSizeOverride { data } => data.fits(),
            DataView::WithWatchpoint { data, .. } => data.fits(),
            _ => true,
        }
    }

    /// Does this description (possibly under overrides and watchpoints)
    /// describe a struct or an array?
    pub open spec fn has_fields(self) -> bool
        decreases self,
    {
        match self {
            DataView::Struct { .. } => true,
            DataView::Array { .. } => true,
            DataView::VoidOverride { data, .. } => data.has_fields(),
            DataView::SameSizeOverride { data } => data.has_fields(),
            DataView::WithWatchpoint { data, .. } => data.has_fields(),
            _ => false,
        }
    }

    /// Is `n` an index for which a field size is defined: any index of an
    /// array, or an index in range of a struct.
    pub open spec fn is_field_index(self, n: int) -> bool
        decreases self,
    {
        match self {
            DataView::Struct { elements, .. } => 0 <= n < elements.len(),
            DataView::Array { .. } => true,
            DataView::VoidOverride { data, .. } => data.is_field_index(n),
            DataView::SameSizeOverride { data } => data.is_field_index(n),
            DataView::WithWatchpoint { data, .. } => data.is_field_index(n),
            _ => false,
        }
    }

    /// Size in bits of the field at index `n` of a struct or array.
    pub open spec fn field_size(self, n: int) -> nat
        decreases self,
    {
        match self {
            DataView::Struct { elements, .. } => elements[n].size(),
            DataView::Array { element_type, .. } => element_type.size(),
            DataView::VoidOverride { data, .. } => data.field_size(n),
            DataView::SameSizeOverride { data } => data.field_size(n),
            DataView::WithWatchpoint { data, .. } => data.field_size(n),
            _ => 0,
        }
    }

    /// Offset in bits of the field at index `n` of a struct or array: the
    /// total size of the fields before it (all fields, if `n` is past the end
    /// of a struct).
    pub open spec fn offset(self, n: nat) -> nat
        decreases self,
    {
        match self {
            DataView::Struct { elements, .. } => if n <= elements.len() {
                Self::sum_sizes(elements.subrange(0, n as int))
            } else {
                Self::sum_sizes(elements)
            },
            DataView::Array { element_type, .. } => element_type.size() * n,
            DataView::VoidOverride { data, .. } => data.offset(n),
            DataView::SameSizeOverride { data } => data.offset(n),
            DataView::WithWatchpoint { data, .. } => data.offset(n),
            _ => 0,
        }
    }

    /// Is this (possibly under overrides and watchpoints) a secret value?
    /// Whether a secret value is a pointer is not decided.
    pub open spec fn is_secret_value(self) -> bool
        decreases self,
    {
        match self {
            DataView::Secret { .. } => true,
            DataView::VoidOverride { data, .. } => data.is_secret_value(),
            DataView::SameSizeOverride { data } => data.is_secret_value(),
            DataView::WithWatchpoint { data, .. } => data.is_secret_value(),
            _ => false,
        }
    }

    /// Does this describe a pointer of some kind?
    pub open spec fn is_pointer(self) -> bool
        decreases self,
    {
        match self {
            DataView::PublicPointerTo { .. } => true,
            DataView::PublicPointerToFunction(_) => true,
            DataView::PublicPointerToHook(_) => true,
            DataView::PublicPointerToSelf => true,
            DataView::PublicPointerToParentOr(_) => true,
            DataView::VoidOverride { data, .. } => data.is_pointer(),
            DataView::SameSizeOverride { data } => data.is_pointer(),
            DataView::WithWatchpoint { data, .. } => data.is_pointer(),
            _ => false,
        }
    }

    /// Is the size of the pointed-to data known: a pointer to described data
    /// (whose sizes fit), to a function or hook, or to a parent with a backup.
    pub open spec fn has_pointee_size(self) -> bool
        decreases self,
    {
        match self {
            DataView::PublicPointerTo { pointee, .. } => pointee.fits(),
            DataView::PublicPointerToFunction(_) => true,
            DataView::PublicPointerToHook(_) => true,
            DataView::PublicPointerToParentOr(Some(data)) => data.fits(),
            DataView::VoidOverride { data, .. } => data.has_pointee_size(),
            DataView::SameSizeOverride { data } => data.has_pointee_size(),
            DataView::WithWatchpoint { data, .. } => data.has_pointee_size(),
            _ => false,
        }
    }

    /// Size in bits of the pointed-to data.
    pub open spec fn pointee_size(self) -> nat
        decreases self,
    {
        match self {
            DataView::PublicPointerTo { pointee, .. } => pointee.size(),
            DataView::PublicPointerToFunction(_) => 64,
            DataView::PublicPointerToHook(_) => 64,
            DataView::PublicPointerToParentOr(Some(data)) => data.size(),
            DataView::VoidOverride { data, .. } => data.pointee_size(),
            DataView::SameSizeOverride { data } => data.pointee_size(),
            DataView::WithWatchpoint { data, .. } => data.pointee_size(),
            _ => 0,
        }
    }

    /// Could this description be valid for describing a struct of one element?
    pub open spec fn could_describe_one_element_struct(self) -> bool {
        match self {
            DataView::Struct { elements, .. } => elements.len() == 1,
            DataView::Secret { .. } => true,
            DataView::VoidOverride { .. } => true,
            DataView::SameSizeOverride { .. } => true,
            DataView::WithWatchpoint { .. } => true,
            _ => false,
        }
    }

    /// The size of a prefix is at most the size of the whole sequence.
    pub proof fn lemma_prefix_sum_le(s: Seq<DataView>, n: int)
        requires
            0 <= n <= s.len(),
        ensures
            Self::sum_sizes(s.subrange(0, n)) <= Self::sum_sizes(s),
        decreases s.len(),
    {
        if n < s.len() {
            Self::lemma_prefix_sum_le(s.subrange(0, s.len() - 1), n);
            assert(s.subrange(0, s.len() - 1).subrange(0, n) =~= s.subrange(0, n));
        } else {
            assert(s.subrange(0, n) =~= s);
        }
    }

    /// Extending a prefix by one element adds that element's size.
    pub proof fn lemma_prefix_step(s: Seq<DataView>, n: int)
        requires
            0 <= n < s.len(),
        ensures
            Self::sum_sizes(s.subrange(0, n + 1)) == Self::sum_sizes(s.subrange(0, n)) + s[n].size(),
    {
        assert(s.subrange(0, n + 1).subrange(0, n) =~= s.subrange(0, n));
    }
}


impl CompleteAbstractData {
    /// An identical, separately owned description.
    pub fn duplicate(&self) -> (r: Self)
        ensures
            r@ == self@,
        decreases self,
    {
        match self {
            CompleteAbstractData::PublicValue { bits, value } => CompleteAbstractData::PublicValue {
                bits: *bits,
                value: value.duplicate(),
            },
            CompleteAbstractData::Secret { bits } => CompleteAbstractData::Secret { bits: *bits },
            CompleteAbstractData::Array { element_type, num_elements } => CompleteAbstractData::Array {
                element_type: Box::new(element_type.duplicate()),
                num_elements: *num_elements,
            },
            CompleteAbstractData::Struct { name, elements } => {
                let copies = Self::duplicate_all(elements);
                proof {
                    Self::lemma_models_eq(copies@, elements@);
                }
                CompleteAbstractData::Struct { name: name.clone(), elements: copies }
            },
            CompleteAbstractData::PublicPointerTo { pointee, maybe_null } => CompleteAbstractData::PublicPointerTo {
                pointee: Box::new(pointee.duplicate()),
                maybe_null: *maybe_null,
            },
            CompleteAbstractData::PublicPointerToFunction(f) => CompleteAbstractData::PublicPointerToFunction(f.clone()),
            CompleteAbstractData::PublicPointerToHook(f) => CompleteAbstractData::PublicPointerToHook(f.clone()),
            CompleteAbstractData::PublicPointerToSelf => CompleteAbstractData::PublicPointerToSelf,
            CompleteAbstractData::PublicPointerToParentOr(opt) => match opt {
                None => CompleteAbstractData::PublicPointerToParentOr(None),
                Some(d) => CompleteAbstractData::PublicPointerToParentOr(Some(Box::new(d.duplicate()))),
            },
            CompleteAbstractData::VoidOverride { llvm_struct_name, data } => CompleteAbstractData::VoidOverride {
                llvm_struct_name: match llvm_struct_name {
                    None => None,
                    Some(n) => Some(n.clone()),
                },
                data: Box::new(data.duplicate()),
            },
            CompleteAbstractData::SameSizeOverride { data } => CompleteAbstractData::SameSizeOverride {
                data: Box::new(data.duplicate()),
            },
            CompleteAbstractData::WithWatchpoint { name, data } => CompleteAbstractData::WithWatchpoint {
                name: name.clone(),
                data: Box::new(data.duplicate()),
            },
        }
    }

    /// Separately owned copies of each description, in order.
    fn duplicate_all(elements: &Vec<CompleteAbstractData>) -> (r: Vec<CompleteAbstractData>)
        ensures
            r@.len() == elements@.len(),
            forall|j: int| 0 <= j < elements@.len() ==> #[trigger] r@[j].model() == elements@[j].model(),
        decreases elements@, 0nat,
    {
        let mut copies: Vec<CompleteAbstractData> = Vec::new();
        let mut i: usize = 0;
        while i < elements.len()
            invariant
                i <= elements@.len(),
                copies@.len() == i,
                forall|j: int| 0 <= j < i ==> #[trigger] copies@[j].model() == elements@[j].model(),
            decreases elements@.len() - i,
        {
            assert(decreases_to!(elements@ => elements@[i as int]));
            copies.push(elements[i].duplicate());
            i = i + 1;
        }
        copies
    }
}

impl Clone for CompleteAbstractData {
    fn clone(&self) -> (r: Self)
        ensures
            r@ == self@,
    {
        self.duplicate()
    }
}


impl CompleteAbstractData {
    /// Get the size of the `CompleteAbstractData`, in bits
    pub fn size_in_bits(&self) -> (r: usize)
        requires
            self@.fits(),
        ensures
            r == self@.size(),
        decreases self,
    {
        match self {
            CompleteAbstractData::PublicValue { bits, .. } => *bits,
            CompleteAbstractData::Array { element_type, num_elements } => element_type.size_in_bits() * *num_elements,
            CompleteAbstractData::Struct { elements, .. } => {
                proof {
                    Self::lemma_models(elements@);
                    assert forall|j: int| 0 <= j < elements@.len() implies (#[trigger] elements@[j]).model().fits() by {
                        assert(Self::models(elements@)[j] == elements@[j].model());
                    }
                }
                Self::sum_sizes_in_bits(elements)
            },
            CompleteAbstractData::PublicPointerTo { .. } => POINTER_SIZE_BITS,
            CompleteAbstractData::PublicPointerToFunction(_) => POINTER_SIZE_BITS,
            CompleteAbstractData::PublicPointerToHook(_) => POINTER_SIZE_BITS,
            CompleteAbstractData::PublicPointerToSelf => POINTER_SIZE_BITS,
            CompleteAbstractData::PublicPointerToParentOr(_) => POINTER_SIZE_BITS,
            CompleteAbstractData::Secret { bits } => *bits,
            CompleteAbstractData::VoidOverride { data, .. } => data.size_in_bits(),
            CompleteAbstractData::SameSizeOverride { data, .. } => data.size_in_bits(),
            CompleteAbstractData::WithWatchpoint { data, .. } => data.size_in_bits(),
        }
    }

    /// Total size in bits of the first `n` elements (all of them, if `n` is
    /// past the end).
    fn sum_sizes_in_bits_prefix(elements: &Vec<CompleteAbstractData>, n: usize) -> (r: usize)
        requires
            DataView::sum_sizes(Self::models(elements@)) <= usize::MAX,
            forall|j: int| 0 <= j < elements@.len() ==> (#[trigger] elements@[j]).model().fits(),
        ensures
            n <= elements@.len() ==> r == DataView::sum_sizes(Self::models(elements@).subrange(0, n as int)),
            n > elements@.len() ==> r == DataView::sum_sizes(Self::models(elements@)),
        decreases elements@, 0nat,
    {
        proof {
            Self::lemma_models(elements@);
        }
        let ghost ms = Self::models(elements@);
        let mut total: usize = 0;
        let mut i: usize = 0;
        while i < elements.len() && i < n
            invariant
                i <= elements@.len(),
                i <= n,
                ms == Self::models(elements@),
                ms.len() == elements@.len(),
                forall|j: int| 0 <= j < elements@.len() ==> #[trigger] ms[j] == elements@[j].model(),
                forall|j: int| 0 <= j < elements@.len() ==> (#[trigger] elements@[j]).model().fits(),
                DataView::sum_sizes(ms) <= usize::MAX,
                total == DataView::sum_sizes(ms.subrange(0, i as int)),
            decreases elements@.len() - i,
        {
            assert(decreases_to!(elements@ => elements@[i as int]));
            assert(ms[i as int] == elements@[i as int].model());
            proof {
                DataView::lemma_prefix_step(ms, i as int);
                DataView::lemma_prefix_sum_le(ms, i as int + 1);
            }
            let sz = elements[i].size_in_bits();
            total = total + sz;
            i = i + 1;
        }
        if n > elements.len() {
            assert(ms.subrange(0, i as int) =~= ms);
        }
        total
    }

    /// Total size in bits of all the elements.
    fn sum_sizes_in_bits(elements: &Vec<CompleteAbstractData>) -> (r: usize)
        requires
            DataView::sum_sizes(Self::models(elements@)) <= usize::MAX,
            forall|j: int| 0 <= j < elements@.len() ==> (#[trigger] elements@[j]).model().fits(),
        ensures
            r == DataView::sum_sizes(Self::models(elements@)),
        decreases elements@, 1nat,
    {
        proof {
            Self::lemma_models(elements@);
            assert(Self::models(elements@).subrange(0, elements@.len() as int) =~= Self::models(elements@));
        }
        Self::sum_sizes_in_bits_prefix(elements, elements.len())
    }
}


impl CompleteAbstractData {
    /// Get the size of the nth (0-indexed) field/element of the
    /// `CompleteAbstractData`, in bits. The `CompleteAbstractData` must be a
    /// `Struct` or `Array` (possibly under overrides and watchpoints).
    pub fn field_size_in_bits(&self, n: usize) -> (r: usize)
        requires
            self@.fits(),
            self@.is_field_index(n as int),
        ensures
            r == self@.field_size(n as int),
        decreases self,
    {
        match self {
            CompleteAbstractData::Struct { elements, .. } => {
                proof {
                    Self::lemma_models(elements@);
                    assert(Self::models(elements@)[n as int] == elements@[n as int].model());
                }
                elements[n].size_in_bits()
            },
            CompleteAbstractData::Array { element_type, .. } => element_type.size_in_bits(),
            CompleteAbstractData::VoidOverride { data, .. } => data.field_size_in_bits(n),
            CompleteAbstractData::SameSizeOverride { data, .. } => data.field_size_in_bits(n),
            CompleteAbstractData::WithWatchpoint { data, .. } => data.field_size_in_bits(n),
            _ => {
                proof {
                    assert(false);
                }
                0
            },
        }
    }

    /// Get the offset of the nth (0-indexed) field/element of the
    /// `CompleteAbstractData`, in bits. The `CompleteAbstractData` must be a
    /// `Struct` or `Array` (possibly under overrides and watchpoints).
    pub fn offset_in_bits(&self, n: usize) -> (r: usize)
        requires
            self@.fits(),
            self@.has_fields(),
            self@.offset(n as nat) <= usize::MAX,
        ensures
            r == self@.offset(n as nat),
        decreases self,
    {
        match self {
            CompleteAbstractData::Struct { elements, .. } => {
                proof {
                    Self::lemma_models(elements@);
                    assert forall|j: int| 0 <= j < elements@.len() implies (#[trigger] elements@[j]).model().fits() by {
                        assert(Self::models(elements@)[j] == elements@[j].model());
                    }
                }
                Self::sum_sizes_in_bits_prefix(elements, n)
            },
            CompleteAbstractData::Array { element_type, .. } => element_type.size_in_bits() * n,
            CompleteAbstractData::VoidOverride { data, .. } => data.offset_in_bits(n),
            CompleteAbstractData::SameSizeOverride { data, .. } => data.offset_in_bits(n),
            CompleteAbstractData::WithWatchpoint { data, .. } => data.offset_in_bits(n),
            _ => {
                proof {
                    assert(false);
                }
                0
            },
        }
    }

    /// Does the `CompleteAbstractData` represent a pointer of some kind?
    /// (Not decided for a secret value.)
    pub fn is_pointer(&self) -> (r: bool)
        requires
            !self@.is_secret_value(),
        ensures
            r == self@.is_pointer(),
        decreases self,
    {
        match self {
            CompleteAbstractData::PublicValue { .. } => false,
            CompleteAbstractData::Secret { .. } => {
                proof {
                    assert(false);
                }
                false
            },
            CompleteAbstractData::Array { .. } => false,
            CompleteAbstractData::Struct { .. } => false,
            CompleteAbstractData::PublicPointerTo { .. } => true,
            CompleteAbstractData::PublicPointerToFunction(_) => true,
            CompleteAbstractData::PublicPointerToHook(_) => true,
            CompleteAbstractData::PublicPointerToSelf => true,
            CompleteAbstractData::PublicPointerToParentOr(_) => true,
            CompleteAbstractData::VoidOverride { data, .. } => data.is_pointer(),
            CompleteAbstractData::SameSizeOverride { data, .. } => data.is_pointer(),
            CompleteAbstractData::WithWatchpoint { data, .. } => data.is_pointer(),
        }
    }

    /// Get the size of the data this `CompleteAbstractData` _points to_.
    /// It must be a pointer to described data, to a function, to a hook, or to
    /// a parent with a backup (possibly under overrides and watchpoints).
    pub fn pointee_size_in_bits(&self) -> (r: usize)
        requires
            self@.has_pointee_size(),
        ensures
            r == self@.pointee_size(),
        decreases self,
    {
        match self {
            CompleteAbstractData::PublicPointerTo { pointee, .. } => pointee.size_in_bits(),
            // functions and hooks are given 64 bits of memory each
            CompleteAbstractData::PublicPointerToFunction(_) => 64,
            CompleteAbstractData::PublicPointerToHook(_) => 64,
            // assume that if the parent typechecks, it's the same size
            CompleteAbstractData::PublicPointerToParentOr(Some(data)) => data.size_in_bits(),
            CompleteAbstractData::VoidOverride { data, .. } => data.pointee_size_in_bits(),
            CompleteAbstractData::SameSizeOverride { data, .. } => data.pointee_size_in_bits(),
            CompleteAbstractData::WithWatchpoint { data, .. } => data.pointee_size_in_bits(),
            _ => {
                proof {
                    assert(false);
                }
                0
            },
        }
    }

    /// Could this `CompleteAbstractData` be valid for describing a struct of
    /// one element?
    pub fn could_describe_a_struct_of_one_element(&self) -> (r: bool)
        ensures
            r == self@.could_describe_one_element_struct(),
    {
        match self {
            CompleteAbstractData::Struct { elements, .. } => {
                proof {
                    Self::lemma_models(elements@);
                }
                elements.len() == 1
            },
            CompleteAbstractData::Secret { .. } => true,
            CompleteAbstractData::VoidOverride { .. } => true,
            CompleteAbstractData::SameSizeOverride { .. } => true,
            CompleteAbstractData::WithWatchpoint { .. } => true,
            _ => false,
        }
    }
}


impl CompleteAbstractData {
    /// an 8-bit public value
    pub fn pub_i8(value: AbstractValue) -> (r: Self)
        ensures
            r@ == (DataView::PublicValue { bits: 8, value }),
    {
        CompleteAbstractData::PublicValue { bits: 8, value }
    }

    /// a 16-bit public value
    pub fn pub_i16(value: AbstractValue) -> (r: Self)
        ensures
            r@ == (DataView::PublicValue { bits: 16, value }),
    {
        CompleteAbstractData::PublicValue { bits: 16, value }
    }

    /// a 32-bit public value
    pub fn pub_i32(value: AbstractValue) -> (r: Self)
        ensures
            r@ == (DataView::PublicValue { bits: 32, value }),
    {
        CompleteAbstractData::PublicValue { bits: 32, value }
    }

    /// a 64-bit public value
    pub fn pub_i64(value: AbstractValue) -> (r: Self)
        ensures
            r@ == (DataView::PublicValue { bits: 64, value }),
    {
        CompleteAbstractData::PublicValue { bits: 64, value }
    }

    /// a public value with the given number of bits
    pub fn pub_integer(bits: usize, value: AbstractValue) -> (r: Self)
        ensures
            r@ == (DataView::PublicValue { bits, value }),
    {
        CompleteAbstractData::PublicValue { bits, value }
    }

    /// an 8-bit secret value
    pub fn sec_i8() -> (r: Self)
        ensures
            r@ == (DataView::Secret { bits: 8 }),
    {
        CompleteAbstractData::Secret { bits: 8 }
    }

    /// a 16-bit secret value
    pub fn sec_i16() -> (r: Self)
        ensures
            r@ == (DataView::Secret { bits: 16 }),
    {
        CompleteAbstractData::Secret { bits: 16 }
    }

    /// a 32-bit secret value
    pub fn sec_i32() -> (r: Self)
        ensures
            r@ == (DataView::Secret { bits: 32 }),
    {
        CompleteAbstractData::Secret { bits: 32 }
    }

    /// a 64-bit secret value
    pub fn sec_i64() -> (r: Self)
        ensures
            r@ == (DataView::Secret { bits: 64 }),
    {
        CompleteAbstractData::Secret { bits: 64 }
    }

    /// a secret value with the given number of bits
    pub fn sec_integer(bits: usize) -> (r: Self)
        ensures
            r@ == (DataView::Secret { bits }),
    {
        CompleteAbstractData::Secret { bits }
    }

    /// a (public) pointer to something - another value, an array, etc
    pub fn pub_pointer_to(data: Self) -> (r: Self)
        ensures
            r@ == (DataView::PublicPointerTo { pointee: Box::new(data@), maybe_null: false }),
    {
        CompleteAbstractData::PublicPointerTo { pointee: Box::new(data), maybe_null: false }
    }

    /// A (public) pointer which may either point to the given data or be `NULL`
    pub fn pub_maybe_null_pointer_to(data: Self) -> (r: Self)
        ensures
            r@ == (DataView::PublicPointerTo { pointee: Box::new(data@), maybe_null: true }),
    {
        CompleteAbstractData::PublicPointerTo { pointee: Box::new(data), maybe_null: true }
    }

    /// a (public) pointer to the LLVM `Function` with the given name
    pub fn pub_pointer_to_func(funcname: &str) -> (r: Self)
        ensures
            r@ == DataView::PublicPointerToFunction(funcname@),
    {
        CompleteAbstractData::PublicPointerToFunction(funcname.to_owned())
    }

    /// a (public) pointer to the _hook_ registered for the given name
    pub fn pub_pointer_to_hook(funcname: &str) -> (r: Self)
        ensures
            r@ == DataView::PublicPointerToHook(funcname@),
    {
        CompleteAbstractData::PublicPointerToHook(funcname.to_owned())
    }

    /// a (public) pointer to this struct itself
    pub fn pub_pointer_to_self() -> (r: Self)
        ensures
            r@ == DataView::PublicPointerToSelf,
    {
        CompleteAbstractData::PublicPointerToSelf
    }

    /// A (public) pointer to this struct's parent: the struct containing the
    /// struct that contains this pointer.
    pub fn pub_pointer_to_parent() -> (r: Self)
        ensures
            r@ == DataView::PublicPointerToParentOr(None),
    {
        CompleteAbstractData::PublicPointerToParentOr(None)
    }

    /// Like `pub_pointer_to_parent()`, but if the parent is not the correct
    /// type (or if there is no parent, i.e., we are directly initializing
    /// this) then pointer to the given `CompleteAbstractData` instead
    pub fn pub_pointer_to_parent_or(data: Self) -> (r: Self)
        ensures
            r@ == DataView::PublicPointerToParentOr(Some(Box::new(data@))),
    {
        CompleteAbstractData::PublicPointerToParentOr(Some(Box::new(data)))
    }

    /// A (first-class) array of values
    pub fn array_of(element_type: Self, num_elements: usize) -> (r: Self)
        ensures
            r@ == (DataView::Array { element_type: Box::new(element_type@), num_elements }),
    {
        CompleteAbstractData::Array { element_type: Box::new(element_type), num_elements }
    }

    /// A (first-class) structure of values. The name is used only for
    /// debugging purposes and need not match the LLVM struct name.
    pub fn _struct(name: &str, elements: Vec<Self>) -> (r: Self)
        ensures
            r@ == (DataView::Struct { name: name@, elements: Self::models(elements@) }),
    {
        CompleteAbstractData::Struct { name: name.to_owned(), elements }
    }

    /// A (public) pointer which may point anywhere, including being `NULL`
    pub fn unconstrained_pointer() -> (r: Self)
        ensures
            r@ == (DataView::PublicValue { bits: 64, value: AbstractValue::Unconstrained }),
    {
        CompleteAbstractData::PublicValue { bits: POINTER_SIZE_BITS, value: AbstractValue::Unconstrained }
    }

    /// Use the provided data even though the LLVM type is `i8` (as a `void*`
    /// pointee usually is). If `llvm_struct_name` is given, that struct's type
    /// is looked up and checked against; otherwise no typechecking is done.
    pub fn void_override(llvm_struct_name: Option<&str>, data: Self) -> (r: Self)
        ensures
            r@ == (DataView::VoidOverride {
                llvm_struct_name: match llvm_struct_name {
                    Some(n) => Some(n@),
                    None => None,
                },
                data: Box::new(data@),
            }),
    {
        let name = match llvm_struct_name {
            Some(n) => Some(n.to_owned()),
            None => None,
        };
        CompleteAbstractData::VoidOverride { llvm_struct_name: name, data: Box::new(data) }
    }

    /// Use the given `data`, even though it may not match the LLVM type. It
    /// still needs to be the same size (number of bits) as the LLVM type.
    pub fn same_size_override(data: Self) -> (r: Self)
        ensures
            r@ == (DataView::SameSizeOverride { data: Box::new(data@) }),
    {
        CompleteAbstractData::SameSizeOverride { data: Box::new(data) }
    }

    /// Use the given `data`, but also (during initialization) add a
    /// watchpoint with the given `name` covering the memory region it
    /// occupies.
    pub fn with_watchpoint(name: &str, data: Self) -> (r: Self)
        ensures
            r@ == (DataView::WithWatchpoint { name: name@, data: Box::new(data@) }),
    {
        CompleteAbstractData::WithWatchpoint { name: name.to_owned(), data: Box::new(data) }
    }
}


impl DataView {
    /// Number of fields of a struct or elements of an array (under overrides
    /// and watchpoints).
    pub open spec fn field_count(self) -> nat
        decreases self,
    {
        match self {
            DataView::Struct { elements, .. } => elements.len(),
            DataView::Array { num_elements, .. } => num_elements as nat,
            DataView::VoidOverride { data, .. } => data.field_count(),
            DataView::SameSizeOverride { data } => data.field_count(),
            DataView::WithWatchpoint { data, .. } => data.field_count(),
            _ => 0,
        }
    }
}

/// Every description of a pointer is exactly one pointer wide.
pub proof fn law_pointer_is_pointer_sized(d: DataView)
    requires
        d.is_pointer(),
    ensures
        d.size() == 64,
    decreases d,
{
    match d {
        DataView::VoidOverride { data, .. } => law_pointer_is_pointer_sized(*data),
        DataView::SameSizeOverride { data } => law_pointer_is_pointer_sized(*data),
        DataView::WithWatchpoint { data, .. } => law_pointer_is_pointer_sized(*data),
        _ => {},
    }
}

/// Fields are laid out back to back: the field at index `n` starts at
/// `offset(n)` and the next one starts right after it.
pub proof fn law_fields_are_contiguous(d: DataView, n: nat)
    requires
        d.is_field_index(n as int),
    ensures
        d.offset(n) + d.field_size(n as int) == d.offset(n + 1),
    decreases d,
{
    match d {
        DataView::Struct { elements, .. } => {
            DataView::lemma_prefix_step(elements, n as int);
        },
        DataView::Array { element_type, .. } => {
            assert(element_type.size() * n + element_type.size() == element_type.size() * (n + 1))
                by (nonlinear_arith);
        },
        DataView::VoidOverride { data, .. } => law_fields_are_contiguous(*data, n),
        DataView::SameSizeOverride { data } => law_fields_are_contiguous(*data, n),
        DataView::WithWatchpoint { data, .. } => law_fields_are_contiguous(*data, n),
        _ => {},
    }
}

/// The fields of a struct or array exactly fill it: the offset just past
/// the last field is the size of the whole, and the first field is at offset 0.
pub proof fn law_fields_fill_the_whole(d: DataView)
    requires
        d.has_fields(),
    ensures
        d.offset(d.field_count()) == d.size(),
        d.offset(0) == 0,
    decreases d,
{
    match d {
        DataView::Struct { elements, .. } => {
            assert(elements.subrange(0, elements.len() as int) =~= elements);
            assert(elements.subrange(0, 0) =~= Seq::<DataView>::empty());
        },
        DataView::Array { .. } => {},
        DataView::VoidOverride { data, .. } => law_fields_fill_the_whole(*data),
        DataView::SameSizeOverride { data } => law_fields_fill_the_whole(*data),
        DataView::WithWatchpoint { data, .. } => law_fields_fill_the_whole(*data),
        _ => {},
    }
}

/// Every field of a struct or array lies within it.
pub proof fn law_field_within_whole(d: DataView, n: nat)
    requires
        d.is_field_index(n as int),
        n < d.field_count(),
    ensures
        d.offset(n) + d.field_size(n as int) <= d.size(),
    decreases d,
{
    match d {
        DataView::Struct { elements, .. } => {
            DataView::lemma_prefix_step(elements, n as int);
            DataView::lemma_prefix_sum_le(elements, n as int + 1);
        },
        DataView::Array { element_type, num_elements } => {
            let e = element_type.size();
            let k = num_elements as nat;
            assert(e * n + e <= e * k) by (nonlinear_arith)
                requires
                    n < k,
            ;
        },
        DataView::VoidOverride { data, .. } => law_field_within_whole(*data, n),
        DataView::SameSizeOverride { data } => law_field_within_whole(*data, n),
        DataView::WithWatchpoint { data, .. } => law_field_within_whole(*data, n),
        _ => {},
    }
}


/// An abstract description of a value: if it is public or not, if it is a
/// pointer or not, does it point to data that is public/secret, maybe it's a
/// struct with some public and some secret fields, etc.
///
/// Unlike `CompleteAbstractData`, these may be "underspecified": parts of the
/// value (or the whole value) may be left to the default for the LLVM type.
#[derive(PartialEq, Eq, Debug)]
pub struct AbstractData(pub(crate) UnderspecifiedAbstractData);

/// Enum which backs `AbstractData`; see comments there
#[derive(PartialEq, Eq, Debug)]
pub(crate) enum UnderspecifiedAbstractData {
    /// Use the default structure based on the LLVM type, making all contents public.
    Unspecified,
    /// Fill with the appropriate number of unconstrained public bits for the LLVM type
    Unconstrained,
    /// Fill with the appropriate number of secret bits for the LLVM type
    Secret,
    /// Use the given complete description
    Complete(CompleteAbstractData),
    /// A (public) pointer to something underspecified
    PublicPointerTo { pointee: Box<AbstractData>, maybe_null: bool },
    /// A pointer to the parent struct, or else to the given (underspecified) data
    PublicPointerToParentOr(Box<AbstractData>),
    /// an array with underspecified elements
    Array { element_type: Box<AbstractData>, num_elements: usize },
    /// a struct with underspecified fields
    Struct { name: String, elements: Vec<AbstractData> },
    /// Use the default structure for the named LLVM struct.
    DefaultForLLVMStructName { llvm_struct_name: String },
    /// See `CompleteAbstractData::VoidOverride`.
    VoidOverride { llvm_struct_name: Option<String>, data: Box<AbstractData> },
    /// See `CompleteAbstractData::SameSizeOverride`.
    SameSizeOverride { data: Box<AbstractData> },
    /// Use the given data, and watch the memory region it occupies under `name`.
    WithWatchpoint { name: String, data: Box<AbstractData> },
}

/// The mathematical model of an `AbstractData`.
pub enum SpecView {
    Unspecified,
    Unconstrained,
    Secret,
    Complete(DataView),
    PublicPointerTo { pointee: Box<SpecView>, maybe_null: bool },
    PublicPointerToParentOr(Box<SpecView>),
    Array { element_type: Box<SpecView>, num_elements: usize },
    Struct { name: Seq<char>, elements: Seq<SpecView> },
    DefaultForLLVMStructName { llvm_struct_name: Seq<char> },
    VoidOverride { llvm_struct_name: Option<Seq<char>>, data: Box<SpecView> },
    SameSizeOverride { data: Box<SpecView> },
    WithWatchpoint { name: Seq<char>, data: Box<SpecView> },
}

impl AbstractData {
    /// The model of this description.
    pub closed spec fn model(self) -> SpecView
        decreases self,
    {
        match self.0 {
            UnderspecifiedAbstractData::Unspecified => SpecView::Unspecified,
            UnderspecifiedAbstractData::Unconstrained => SpecView::Unconstrained,
            UnderspecifiedAbstractData::Secret => SpecView::Secret,
            UnderspecifiedAbstractData::Complete(c) => SpecView::Complete(c@),
            UnderspecifiedAbstractData::PublicPointerTo { pointee, maybe_null } => SpecView::PublicPointerTo {
                pointee: Box::new(pointee.model()),
                maybe_null,
            },
            UnderspecifiedAbstractData::PublicPointerToParentOr(d) => SpecView::PublicPointerToParentOr(
                Box::new(d.model()),
            ),
            UnderspecifiedAbstractData::Array { element_type, num_elements } => SpecView::Array {
                element_type: Box::new(element_type.model()),
                num_elements,
            },
            UnderspecifiedAbstractData::Struct { name, elements } => SpecView::Struct {
                name: name@,
                elements: Self::models(elements@),
            },
            UnderspecifiedAbstractData::DefaultForLLVMStructName { llvm_struct_name } => SpecView::DefaultForLLVMStructName {
                llvm_struct_name: llvm_struct_name@,
            },
            UnderspecifiedAbstractData::VoidOverride { llvm_struct_name, data } => SpecView::VoidOverride {
                llvm_struct_name: opt_str_view(llvm_struct_name),
                data: Box::new(data.model()),
            },
            UnderspecifiedAbstractData::SameSizeOverride { data } => SpecView::SameSizeOverride {
                data: Box::new(data.model()),
            },
            UnderspecifiedAbstractData::WithWatchpoint { name, data } => SpecView::WithWatchpoint {
                name: name@,
                data: Box::new(data.model()),
            },
        }
    }

    /// The models of a sequence of descriptions, in order.
    pub closed spec fn models(s: Seq<AbstractData>) -> Seq<SpecView>
        decreases s,
    {
        if s.len() == 0 {
            Seq::empty()
        } else {
            Self::models(s.subrange(0, s.len() - 1)).push(s[s.len() - 1].model())
        }
    }

    /// `models` keeps the length and maps each element to its model.
    pub proof fn lemma_models(s: Seq<AbstractData>)
        ensures
            Self::models(s).len() == s.len(),
            forall|i: int| 0 <= i < s.len() ==> #[trigger] Self::models(s)[i] == s[i].model(),
        decreases s.len(),
    {
        if s.len() > 0 {
            Self::lemma_models(s.subrange(0, s.len() - 1));
        }
    }
}

impl CompleteAbstractData {
    /// A short description of the data, such as "a 32-bit secret value".
    pub fn description(&self) -> (r: String)
        ensures
            r@ == data_description(self@),
    {
        let mut s = String::new();
        push_data_description(&mut s, self);
        assert(s@ =~= data_description(self@));
        s
    }
}

impl AbstractData {
    /// Appends the description of this data to `s`.
    fn push_description(&self, s: &mut String)
        ensures
            final(s)@ == old(s)@ + spec_description(self@),
        decreases self,
    {
        match &self.0 {
            UnderspecifiedAbstractData::Unspecified => push_str(s, "an unspecified value"),
            UnderspecifiedAbstractData::Unconstrained => push_str(s, "an unconstrained value"),
            UnderspecifiedAbstractData::Secret => push_str(s, "a secret value"),
            UnderspecifiedAbstractData::Complete(c) => {
                push_str(s, "a complete value: ");
                push_data_description(s, c);
            },
            UnderspecifiedAbstractData::PublicPointerTo { pointee, .. } => {
                push_str(s, "a pointer to ");
                (&**pointee).push_description(s);
            },
            UnderspecifiedAbstractData::PublicPointerToParentOr(_) => {
                push_str(s, "a public pointer to parent, with a backup");
            },
            UnderspecifiedAbstractData::Array { num_elements, .. } => {
                push_str(s, "an array of ");
                push_decimal(s, *num_elements);
                push_str(s, " elements");
            },
            UnderspecifiedAbstractData::Struct { name, elements } => {
                proof {
                    Self::lemma_models(elements@);
                }
                push_str(s, "a struct named ");
                push_str(s, name.as_str());
                push_str(s, " with ");
                push_decimal(s, elements.len());
                push_str(s, " elements");
            },
            UnderspecifiedAbstractData::DefaultForLLVMStructName { llvm_struct_name } => {
                push_str(s, "the default for the LLVM struct ");
                push_str(s, llvm_struct_name.as_str());
            },
            UnderspecifiedAbstractData::VoidOverride { data, .. } => {
                push_str(s, "a void override with data ");
                (&**data).push_description(s);
            },
            UnderspecifiedAbstractData::SameSizeOverride { data } => {
                push_str(s, "a same-size override with data ");
                (&**data).push_description(s);
            },
            UnderspecifiedAbstractData::WithWatchpoint { name, data } => {
                (&**data).push_description(s);
                push_str(s, " with a watchpoint named ");
                push_str(s, name.as_str());
            },
        }
        assert(s@ =~= old(s)@ + spec_description(self@));
    }

    /// A short description of the data, such as "a pointer to a secret value".
    pub fn description(&self) -> (r: String)
        ensures
            r@ == spec_description(self@),
    {
        let mut s = String::new();
        self.push_description(&mut s);
        assert(s@ =~= spec_description(self@));
        s
    }
}

impl View for AbstractData {
    type V = SpecView;

    open spec fn view(&self) -> SpecView {
        self.model()
    }
}

impl AbstractData {
    /// an 8-bit public value
    pub fn pub_i8(value: AbstractValue) -> (r: Self)
        ensures
            r@ == SpecView::Complete(DataView::PublicValue { bits: 8, value }),
    {
        AbstractData(UnderspecifiedAbstractData::Complete(CompleteAbstractData::pub_i8(value)))
    }

    /// a 16-bit public value
    pub fn pub_i16(value: AbstractValue) -> (r: Self)
        ensures
            r@ == SpecView::Complete(DataView::PublicValue { bits: 16, value }),
    {
        AbstractData(UnderspecifiedAbstractData::Complete(CompleteAbstractData::pub_i16(value)))
    }

    /// a 32-bit public value
    pub fn pub_i32(value: AbstractValue) -> (r: Self)
        ensures
            r@ == SpecView::Complete(DataView::PublicValue { bits: 32, value }),
    {
        AbstractData(UnderspecifiedAbstractData::Complete(CompleteAbstractData::pub_i32(value)))
    }

    /// a 64-bit public value
    pub fn pub_i64(value: AbstractValue) -> (r: Self)
        ensures
            r@ == SpecView::Complete(DataView::PublicValue { bits: 64, value }),
    {
        AbstractData(UnderspecifiedAbstractData::Complete(CompleteAbstractData::pub_i64(value)))
    }

    /// a public value with the given number of bits
    pub fn pub_integer(bits: usize, value: AbstractValue) -> (r: Self)
        ensures
            r@ == SpecView::Complete(DataView::PublicValue { bits, value }),
    {
        AbstractData(UnderspecifiedAbstractData::Complete(CompleteAbstractData::pub_integer(bits, value)))
    }

    /// an 8-bit secret value
    pub fn sec_i8() -> (r: Self)
        ensures
            r@ == SpecView::Complete(DataView::Secret { bits: 8 }),
    {
        AbstractData(UnderspecifiedAbstractData::Complete(CompleteAbstractData::sec_i8()))
    }

    /// a 16-bit secret value
    pub fn sec_i16() -> (r: Self)
        ensures
            r@ == SpecView::Complete(DataView::Secret { bits: 16 }),
    {
        AbstractData(UnderspecifiedAbstractData::Complete(CompleteAbstractData::sec_i16()))
    }

    /// a 32-bit secret value
    pub fn sec_i32() -> (r: Self)
        ensures
            r@ == SpecView::Complete(DataView::Secret { bits: 32 }),
    {
        AbstractData(UnderspecifiedAbstractData::Complete(CompleteAbstractData::sec_i32()))
    }

    /// a 64-bit secret value
    pub fn sec_i64() -> (r: Self)
        ensures
            r@ == SpecView::Complete(DataView::Secret { bits: 64 }),
    {
        AbstractData(UnderspecifiedAbstractData::Complete(CompleteAbstractData::sec_i64()))
    }

    /// a secret value with the given number of bits
    pub fn sec_integer(bits: usize) -> (r: Self)
        ensures
            r@ == SpecView::Complete(DataView::Secret { bits }),
    {
        AbstractData(UnderspecifiedAbstractData::Complete(CompleteAbstractData::sec_integer(bits)))
    }

    /// a (public) pointer to the LLVM `Function` with the given name
    pub fn pub_pointer_to_func(funcname: &str) -> (r: Self)
        ensures
            r@ == SpecView::Complete(DataView::PublicPointerToFunction(funcname@)),
    {
        AbstractData(UnderspecifiedAbstractData::Complete(CompleteAbstractData::pub_pointer_to_func(funcname)))
    }

    /// a (public) pointer to the _hook_ registered for the given name
    pub fn pub_pointer_to_hook(funcname: &str) -> (r: Self)
        ensures
            r@ == SpecView::Complete(DataView::PublicPointerToHook(funcname@)),
    {
        AbstractData(UnderspecifiedAbstractData::Complete(CompleteAbstractData::pub_pointer_to_hook(funcname)))
    }

    /// A (public) pointer to this struct itself
    pub fn pub_pointer_to_self() -> (r: Self)
        ensures
            r@ == SpecView::Complete(DataView::PublicPointerToSelf),
    {
        AbstractData(UnderspecifiedAbstractData::Complete(CompleteAbstractData::pub_pointer_to_self()))
    }

    /// A (public) pointer to this struct's parent: the struct containing the struct that contains this pointer
    pub fn pub_pointer_to_parent() -> (r: Self)
        ensures
            r@ == SpecView::Complete(DataView::PublicPointerToParentOr(None)),
    {
        AbstractData(UnderspecifiedAbstractData::Complete(CompleteAbstractData::pub_pointer_to_parent()))
    }

    /// A (public) pointer which may point anywhere, including being `NULL`
    pub fn unconstrained_pointer() -> (r: Self)
        ensures
            r@ == SpecView::Complete(DataView::PublicValue { bits: 64, value: AbstractValue::Unconstrained }),
    {
        AbstractData(UnderspecifiedAbstractData::Complete(CompleteAbstractData::unconstrained_pointer()))
    }

    /// A (public) pointer to something - another value, an array, etc
    pub fn pub_pointer_to(data: Self) -> (r: Self)
        ensures
            r@ == (SpecView::PublicPointerTo { pointee: Box::new(data@), maybe_null: false }),
    {
        AbstractData(UnderspecifiedAbstractData::PublicPointerTo { pointee: Box::new(data), maybe_null: false })
    }

    /// A (public) pointer which may either point to the given data or be `NULL`
    pub fn pub_maybe_null_pointer_to(data: Self) -> (r: Self)
        ensures
            r@ == (SpecView::PublicPointerTo { pointee: Box::new(data@), maybe_null: true }),
    {
        AbstractData(UnderspecifiedAbstractData::PublicPointerTo { pointee: Box::new(data), maybe_null: true })
    }

    /// Like `pub_pointer_to_parent()`, but if the parent is not the correct
    /// type (or if there is no parent) then a pointer to the given data instead
    pub fn pub_pointer_to_parent_or(data: Self) -> (r: Self)
        ensures
            r@ == SpecView::PublicPointerToParentOr(Box::new(data@)),
    {
        AbstractData(UnderspecifiedAbstractData::PublicPointerToParentOr(Box::new(data)))
    }

    /// A (first-class) array of values
    pub fn array_of(element_type: Self, num_elements: usize) -> (r: Self)
        ensures
            r@ == (SpecView::Array { element_type: Box::new(element_type@), num_elements }),
    {
        AbstractData(UnderspecifiedAbstractData::Array { element_type: Box::new(element_type), num_elements })
    }

    /// A (first-class) structure of values
    pub fn _struct(name: &str, elements: Vec<Self>) -> (r: Self)
        ensures
            r@ == (SpecView::Struct { name: name@, elements: Self::models(elements@) }),
    {
        AbstractData(UnderspecifiedAbstractData::Struct { name: name.to_owned(), elements })
    }

    /// Just use the default structure based on the LLVM type and/or the
    /// struct descriptions.
    pub fn default() -> (r: Self)
        ensures
            r@ == SpecView::Unspecified,
    {
        AbstractData(UnderspecifiedAbstractData::Unspecified)
    }

    /// Use the default structure for the given LLVM struct name. Outside an
    /// override this must match the actual LLVM struct name; inside one, it
    /// supplies the LLVM type.
    pub fn default_for_llvm_struct_name(llvm_struct_name: &str) -> (r: Self)
        ensures
            r@ == (SpecView::DefaultForLLVMStructName { llvm_struct_name: llvm_struct_name@ }),
    {
        AbstractData(UnderspecifiedAbstractData::DefaultForLLVMStructName { llvm_struct_name: llvm_struct_name.to_owned() })
    }

    /// Just fill with the appropriate number of unconstrained bits based on the LLVM type
    pub fn unconstrained() -> (r: Self)
        ensures
            r@ == SpecView::Unconstrained,
    {
        AbstractData(UnderspecifiedAbstractData::Unconstrained)
    }

    /// Fill with the appropriate number of secret bits based on the LLVM type
    pub fn secret() -> (r: Self)
        ensures
            r@ == SpecView::Secret,
    {
        AbstractData(UnderspecifiedAbstractData::Secret)
    }

    /// See `CompleteAbstractData::void_override`. The data here must be fully
    /// specified unless an LLVM struct name is given to fill in the defaults.
    pub fn void_override(llvm_struct_name: Option<&str>, data: AbstractData) -> (r: Self)
        ensures
            r@ == (SpecView::VoidOverride {
                llvm_struct_name: match llvm_struct_name {
                    Some(n) => Some(n@),
                    None => None,
                },
                data: Box::new(data@),
            }),
    {
        let name = match llvm_struct_name {
            Some(n) => Some(n.to_owned()),
            None => None,
        };
        AbstractData(UnderspecifiedAbstractData::VoidOverride { llvm_struct_name: name, data: Box::new(data) })
    }

    /// See `CompleteAbstractData::same_size_override`. The data here must be
    /// fully specified.
    pub fn same_size_override(data: AbstractData) -> (r: Self)
        ensures
            r@ == (SpecView::SameSizeOverride { data: Box::new(data@) }),
    {
        AbstractData(UnderspecifiedAbstractData::SameSizeOverride { data: Box::new(data) })
    }

    /// Use the given `data`, but also (during initialization) add a
    /// watchpoint with the given `name` covering the memory region it occupies.
    pub fn with_watchpoint(name: &str, data: Self) -> (r: Self)
        ensures
            r@ == (SpecView::WithWatchpoint { name: name@, data: Box::new(data@) }),
    {
        AbstractData(UnderspecifiedAbstractData::WithWatchpoint { name: name.to_owned(), data: Box::new(data) })
    }
}


/// A map from LLVM struct name to a description of the struct.
pub type StructDescriptions = NameMap<AbstractData>;

/// The model of an optional type reference.
pub open spec fn opt_ty_view(ty: Option<&LlvmType>) -> Option<TypeView> {
    match ty {
        Some(t) => Some(t@),
        None => None,
    }
}

/// The set of names held by a list.
pub open spec fn name_set(v: Seq<String>) -> Set<Seq<char>> {
    Set::new(|s: Seq<char>| exists|i: int| 0 <= i < v.len() && v[i]@ == s)
}

/// Is `name` among the names?
fn contains_name(names: &Vec<String>, name: &String) -> (r: bool)
    ensures
        r == name_set(names@).contains(name@),
{
    let mut i: usize = 0;
    while i < names.len()
        invariant
            i <= names@.len(),
            forall|j: int| 0 <= j < i ==> names@[j]@ != name@,
        decreases names@.len() - i,
    {
        if names[i] == *name {
            return true;
        }
        i = i + 1;
    }
    false
}

/// The names with one more added.
fn with_name(names: &Vec<String>, name: &String) -> (r: Vec<String>)
    ensures
        name_set(r@) == name_set(names@).insert(name@),
{
    let mut r: Vec<String> = Vec::new();
    let mut i: usize = 0;
    while i < names.len()
        invariant
            i <= names@.len(),
            r@.len() == i,
            forall|j: int| 0 <= j < i ==> #[trigger] r@[j]@ == names@[j]@,
        decreases names@.len() - i,
    {
        r.push(names[i].clone());
        i = i + 1;
    }
    r.push(name.clone());
    proof {
        assert forall|x: Seq<char>| name_set(r@).contains(x) <==> name_set(names@).insert(name@).contains(x) by {
            if name_set(r@).contains(x) {
                let j = choose|j: int| 0 <= j < r@.len() && r@[j]@ == x;
                if j < names@.len() {
                    assert(names@[j]@ == x);
                }
            }
            if name_set(names@).contains(x) {
                let j = choose|j: int| 0 <= j < names@.len() && names@[j]@ == x;
                assert(r@[j]@ == x);
            }
            if x == name@ {
                assert(r@[names@.len() as int]@ == x);
            }
        }
        assert(name_set(r@) =~= name_set(names@).insert(name@));
    }
    r
}

/// The models of a list with one more element appended.
proof fn lemma_models_push(s: Seq<CompleteAbstractData>, c: CompleteAbstractData)
    ensures
        CompleteAbstractData::models(s.push(c)) == CompleteAbstractData::models(s).push(c@),
{
    assert(s.push(c).subrange(0, s.len() as int) =~= s);
}

/// Extending both sequences by one element extends their completions by the
/// completion of that element.
proof fn lemma_complete_all_step(
    t: TableView,
    sd: DescsView,
    rank: Rank,
    uads: Seq<SpecView>,
    tys: Seq<Option<TypeView>>,
    seen: Set<Seq<char>>,
    i: int,
)
    requires
        0 <= i < uads.len(),
        uads.len() == tys.len(),
    ensures
        complete_all(t, sd, rank, uads.subrange(0, i + 1), tys.subrange(0, i + 1), seen) == match (
            complete_all(t, sd, rank, uads.subrange(0, i), tys.subrange(0, i), seen),
            complete(t, sd, rank, uads[i], tys[i], seen),
        ) {
            (Some(cs), Some(c)) => Some(cs.push(c)),
            _ => None,
        },
{
    assert(uads.subrange(0, i + 1).subrange(0, i) =~= uads.subrange(0, i));
    assert(tys.subrange(0, i + 1).subrange(0, i) =~= tys.subrange(0, i));
}

/// Once a prefix has no completion, neither does the whole.
proof fn lemma_complete_all_none(
    t: TableView,
    sd: DescsView,
    rank: Rank,
    uads: Seq<SpecView>,
    tys: Seq<Option<TypeView>>,
    seen: Set<Seq<char>>,
    n: int,
)
    requires
        0 <= n <= uads.len(),
        uads.len() == tys.len(),
        complete_all(t, sd, rank, uads.subrange(0, n), tys.subrange(0, n), seen) is None,
    ensures
        complete_all(t, sd, rank, uads, tys, seen) is None,
    decreases uads.len() - n,
{
    if n < uads.len() {
        lemma_complete_all_step(t, sd, rank, uads, tys, seen, n);
        lemma_complete_all_none(t, sd, rank, uads, tys, seen, n + 1);
    } else {
        assert(uads.subrange(0, n) =~= uads);
        assert(tys.subrange(0, n) =~= tys);
    }
}

/// Extending the types by one extends the default completions by one.
proof fn lemma_complete_unspecified_all_step(
    t: TableView,
    sd: DescsView,
    rank: Rank,
    tys: Seq<TypeView>,
    seen: Set<Seq<char>>,
    i: int,
)
    requires
        0 <= i < tys.len(),
    ensures
        complete_unspecified_all(t, sd, rank, tys.subrange(0, i + 1), seen) == match (
            complete_unspecified_all(t, sd, rank, tys.subrange(0, i), seen),
            complete(t, sd, rank, SpecView::Unspecified, Some(tys[i]), seen),
        ) {
            (Some(cs), Some(c)) => Some(cs.push(c)),
            _ => None,
        },
{
    assert(tys.subrange(0, i + 1).subrange(0, i) =~= tys.subrange(0, i));
}

/// Once a prefix has no default completion, neither does the whole.
proof fn lemma_complete_unspecified_all_none(
    t: TableView,
    sd: DescsView,
    rank: Rank,
    tys: Seq<TypeView>,
    seen: Set<Seq<char>>,
    n: int,
)
    requires
        0 <= n <= tys.len(),
        complete_unspecified_all(t, sd, rank, tys.subrange(0, n), seen) is None,
    ensures
        complete_unspecified_all(t, sd, rank, tys, seen) is None,
    decreases tys.len() - n,
{
    if n < tys.len() {
        lemma_complete_unspecified_all_step(t, sd, rank, tys, seen, n);
        lemma_complete_unspecified_all_none(t, sd, rank, tys, seen, n + 1);
    } else {
        assert(tys.subrange(0, n) =~= tys);
    }
}


impl AbstractData {
    /// Could this `AbstractData` be valid for describing a struct of one element?
    pub fn could_describe_a_struct_of_one_element(&self) -> (r: bool)
        ensures
            r == could_describe_one_element_struct(self@),
    {
        match &self.0 {
            UnderspecifiedAbstractData::Unspecified => true,
            UnderspecifiedAbstractData::Unconstrained => true,
            UnderspecifiedAbstractData::Secret => true,
            UnderspecifiedAbstractData::Struct { elements, .. } => {
                proof {
                    Self::lemma_models(elements@);
                }
                elements.len() == 1
            },
            UnderspecifiedAbstractData::Complete(CompleteAbstractData::Struct { elements, .. }) => {
                proof {
                    CompleteAbstractData::lemma_models(elements@);
                }
                elements.len() == 1
            },
            UnderspecifiedAbstractData::VoidOverride { .. } => true,
            UnderspecifiedAbstractData::SameSizeOverride { .. } => true,
            UnderspecifiedAbstractData::WithWatchpoint { .. } => true,
            _ => false,
        }
    }

    /// Fill in the default `CompleteAbstractData` for any parts of the
    /// `AbstractData` left to the default, using the struct descriptions `sd`
    /// and the LLVM type `ty` (whose named structs are resolved through
    /// `proj`).
    ///
    /// The default based on the LLVM type is:
    ///
    /// - for an integer type: a public unconstrained value of its size
    /// - for a pointer type (except function pointer): a public pointer to
    ///   allocated memory, depending on the pointee type:
    ///   - integer: an array of `DEFAULT_ARRAY_LENGTH` pointees
    ///   - array with 0 elements: an array of `DEFAULT_ARRAY_LENGTH` elements
    ///   - anything else: one pointee
    ///   - (then the same rules apply to the pointee)
    /// - for a function pointer type: a pointer to the hook for
    ///   uninitialized function pointers
    /// - for a vector or array type: an array of the same length, with the
    ///   same rules applied to the element type
    /// - for a struct type:
    ///   - a named struct with a description in `sd` uses that description
    ///   - a named struct that is opaque everywhere gets
    ///     `OPAQUE_STRUCT_SIZE_BYTES` unconstrained bytes
    ///   - otherwise the same rules apply to each field
    ///
    /// A named struct met again while it is already being filled in by
    /// default is given unconstrained contents of its size.
    pub fn to_complete(self, ty: &LlvmType, proj: &StructTable, sd: &StructDescriptions) -> (r: CompleteAbstractData)
        requires
            well_founded(proj@),
            complete(proj@, sd@, some_rank(proj@), self@, Some(ty@), Set::empty()) is Some,
        ensures
            r@ == complete(proj@, sd@, some_rank(proj@), self@, Some(ty@), Set::empty()).unwrap(),
    {
        let ghost rank = some_rank(proj@);
        let seen: Vec<String> = Vec::new();
        assert(name_set(seen@) =~= Set::<Seq<char>>::empty());
        match self.complete_rec(Some(ty), proj, sd, &seen, Ghost(rank)) {
            Some(c) => c,
            None => {
                proof {
                    assert(false);
                }
                CompleteAbstractData::PublicPointerToSelf
            },
        }
    }

    /// Like `to_complete`, but instead of requiring that the description fits
    /// the type, returns `None` when it does not (or when a needed size or
    /// struct definition is missing).
    pub fn try_to_complete(&self, ty: &LlvmType, proj: &StructTable, sd: &StructDescriptions) -> (r: Option<
        CompleteAbstractData,
    >)
        requires
            well_founded(proj@),
        ensures
            match r {
                Some(c) => complete(proj@, sd@, some_rank(proj@), self@, Some(ty@), Set::empty()) == Some(c@),
                None => complete(proj@, sd@, some_rank(proj@), self@, Some(ty@), Set::empty()) is None,
            },
    {
        let ghost rank = some_rank(proj@);
        let seen: Vec<String> = Vec::new();
        assert(name_set(seen@) =~= Set::<Seq<char>>::empty());
        self.complete_rec(Some(ty), proj, sd, &seen, Ghost(rank))
    }

    /// See `complete`.
    fn complete_rec(
        &self,
        ty: Option<&LlvmType>,
        t: &StructTable,
        sd: &StructDescriptions,
        seen: &Vec<String>,
        Ghost(rank): Ghost<Rank>,
    ) -> (r: Option<CompleteAbstractData>)
        requires
            ranked(t@, rank),
        ensures
            match r {
                Some(c) => complete(t@, sd@, rank, self@, opt_ty_view(ty), name_set(seen@)) == Some(c@),
                None => complete(t@, sd@, rank, self@, opt_ty_view(ty), name_set(seen@)) is None,
            },
        decreases
            unseen_total(t@, sd@, name_set(seen@)),
            spec_size(self@),
            regime(self@, opt_ty_view(ty), rank),
            opt_tsz(opt_ty_view(ty)),
    {
        proof {
            lemma_pre_step_decreases(t@, rank, self@, opt_ty_view(ty));
        }
        // An LLVM struct of one element that the description cannot
        // describe: retry with the element type.
        match ty {
            Some(LlvmType::Struct { element_types }) => {
                proof {
                    LlvmType::lemma_models(element_types@);
                }
                if element_types.len() == 1 && !self.could_describe_a_struct_of_one_element() {
                    return self.complete_rec(Some(&element_types[0]), t, sd, seen, Ghost(rank));
                }
            },
            Some(LlvmType::NamedStruct { name }) => {
                match t.get(name.as_str()) {
                    Some(NamedStructDef::Defined(LlvmType::Struct { element_types })) => {
                        proof {
                            LlvmType::lemma_models(element_types@);
                        }
                        if element_types.len() == 1 && !self.could_describe_a_struct_of_one_element() {
                            proof {
                                lemma_ranked_lookup(t@, rank, name@);
                            }
                            return self.complete_rec(Some(&element_types[0]), t, sd, seen, Ghost(rank));
                        }
                    },
                    _ => {},
                }
            },
            _ => {},
        }
        proof {
            assert(crate::completion::pre_step(t@, rank, self@, opt_ty_view(ty)) is Continue);
        }
        match &self.0 {
            UnderspecifiedAbstractData::Complete(c) => Some(c.duplicate()),
            UnderspecifiedAbstractData::Unconstrained => match ty {
                Some(ty) => match t.bits_of(ty, Ghost(rank)) {
                    Some(b) => Some(CompleteAbstractData::PublicValue { bits: b, value: AbstractValue::Unconstrained }),
                    None => None,
                },
                None => None,
            },
            UnderspecifiedAbstractData::Secret => match ty {
                Some(ty) => match t.bits_of(ty, Ghost(rank)) {
                    Some(b) => Some(CompleteAbstractData::Secret { bits: b }),
                    None => None,
                },
                None => None,
            },
            UnderspecifiedAbstractData::WithWatchpoint { name, data } => {
                match data.complete_rec(ty, t, sd, seen, Ghost(rank)) {
                    Some(c) => Some(CompleteAbstractData::WithWatchpoint { name: name.clone(), data: Box::new(c) }),
                    None => None,
                }
            },
            UnderspecifiedAbstractData::VoidOverride { llvm_struct_name, data } => match llvm_struct_name {
                None => match data.complete_rec(None, t, sd, seen, Ghost(rank)) {
                    Some(c) => Some(CompleteAbstractData::VoidOverride { llvm_struct_name: None, data: Box::new(c) }),
                    None => None,
                },
                Some(n) => match t.get(n.as_str()) {
                    Some(NamedStructDef::Defined(d)) => match data.complete_rec(Some(d), t, sd, seen, Ghost(rank)) {
                        Some(c) => Some(
                            CompleteAbstractData::VoidOverride { llvm_struct_name: Some(n.clone()), data: Box::new(c) },
                        ),
                        None => None,
                    },
                    _ => None,
                },
            },
            UnderspecifiedAbstractData::SameSizeOverride { data } => match data.complete_rec(None, t, sd, seen, Ghost(rank)) {
                Some(c) => Some(CompleteAbstractData::SameSizeOverride { data: Box::new(c) }),
                None => None,
            },
            UnderspecifiedAbstractData::PublicPointerTo { pointee, maybe_null } => {
                let inner = match ty {
                    Some(LlvmType::Pointer { pointee_type }) => match &pointee.0 {
                        UnderspecifiedAbstractData::Array { num_elements, .. } => match &**pointee_type {
                            LlvmType::Array { .. } | LlvmType::Vector { .. } => pointee.complete_rec(
                                Some(&**pointee_type),
                                t,
                                sd,
                                seen,
                                Ghost(rank),
                            ),
                            other => {
                                // the LLVM type is pointer-to-scalar but the
                                // description is pointer-to-array
                                let arr = LlvmType::Array { element_type: Box::new(other.duplicate()), num_elements: *num_elements };
                                pointee.complete_rec(Some(&arr), t, sd, seen, Ghost(rank))
                            },
                        },
                        _ => pointee.complete_rec(Some(&**pointee_type), t, sd, seen, Ghost(rank)),
                    },
                    Some(LlvmType::Array { element_type, num_elements }) | Some(LlvmType::Vector { element_type, num_elements }) => {
                        if *num_elements == 1 {
                            // an array or vector of one element: unwrap it
                            return self.complete_rec(Some(&**element_type), t, sd, seen, Ghost(rank));
                        } else {
                            return None;
                        }
                    },
                    None => pointee.complete_rec(None, t, sd, seen, Ghost(rank)),
                    _ => {
                        return None;
                    },
                };
                match inner {
                    Some(c) => Some(CompleteAbstractData::PublicPointerTo { pointee: Box::new(c), maybe_null: *maybe_null }),
                    None => None,
                }
            },
            UnderspecifiedAbstractData::PublicPointerToParentOr(ad) => {
                let inner = match ty {
                    Some(LlvmType::Pointer { pointee_type }) => ad.complete_rec(Some(&**pointee_type), t, sd, seen, Ghost(rank)),
                    Some(_) => {
                        return None;
                    },
                    None => ad.complete_rec(None, t, sd, seen, Ghost(rank)),
                };
                match inner {
                    Some(c) => Some(CompleteAbstractData::PublicPointerToParentOr(Some(Box::new(c)))),
                    None => None,
                }
            },
            UnderspecifiedAbstractData::Array { element_type, num_elements } => {
                let inner = match ty {
                    Some(LlvmType::Array { element_type: llvm_element_type, num_elements: llvm_num_elements })
                    | Some(LlvmType::Vector { element_type: llvm_element_type, num_elements: llvm_num_elements }) => {
                        if *llvm_num_elements != 0 && *llvm_num_elements != *num_elements {
                            return None;
                        }
                        element_type.complete_rec(Some(&**llvm_element_type), t, sd, seen, Ghost(rank))
                    },
                    None => element_type.complete_rec(None, t, sd, seen, Ghost(rank)),
                    _ => {
                        return None;
                    },
                };
                match inner {
                    Some(c) => Some(CompleteAbstractData::Array { element_type: Box::new(c), num_elements: *num_elements }),
                    None => None,
                }
            },
            UnderspecifiedAbstractData::Struct { name, elements } => match ty {
                Some(LlvmType::NamedStruct { name: struct_name }) => match t.get(struct_name.as_str()) {
                    Some(NamedStructDef::Defined(d)) => {
                        proof {
                            lemma_ranked_lookup(t@, rank, struct_name@);
                        }
                        self.complete_rec(Some(d), t, sd, seen, Ghost(rank))
                    },
                    _ => self.complete_rec(None, t, sd, seen, Ghost(rank)),
                },
                Some(LlvmType::Struct { element_types }) => {
                    proof {
                        LlvmType::lemma_models(element_types@);
                        Self::lemma_models(elements@);
                    }
                    if elements.len() != element_types.len() {
                        return None;
                    }
                    match Self::complete_elements(elements, Some(element_types), t, sd, seen, Ghost(rank)) {
                        Some(cs) => Some(CompleteAbstractData::Struct { name: name.clone(), elements: cs }),
                        None => None,
                    }
                },
                Some(LlvmType::Array { element_type, num_elements }) | Some(LlvmType::Vector { element_type, num_elements }) => {
                    if *num_elements == 1 {
                        self.complete_rec(Some(&**element_type), t, sd, seen, Ghost(rank))
                    } else {
                        None
                    }
                },
                None => {
                    proof {
                        Self::lemma_models(elements@);
                    }
                    match Self::complete_elements(elements, None, t, sd, seen, Ghost(rank)) {
                        Some(cs) => Some(CompleteAbstractData::Struct { name: name.clone(), elements: cs }),
                        None => None,
                    }
                },
                _ => None,
            },
            UnderspecifiedAbstractData::DefaultForLLVMStructName { llvm_struct_name } => {
                let unspecified = AbstractData(UnderspecifiedAbstractData::Unspecified);
                match ty {
                    Some(LlvmType::NamedStruct { name }) => {
                        if *name == *llvm_struct_name {
                            unspecified.complete_rec(ty, t, sd, seen, Ghost(rank))
                        } else {
                            None
                        }
                    },
                    Some(LlvmType::Struct { .. }) => unspecified.complete_rec(ty, t, sd, seen, Ghost(rank)),
                    Some(_) => None,
                    None => match t.get(llvm_struct_name.as_str()) {
                        Some(NamedStructDef::Defined(d)) => unspecified.complete_rec(Some(d), t, sd, seen, Ghost(rank)),
                        _ => None,
                    },
                }
            },
            UnderspecifiedAbstractData::Unspecified => match ty {
                None => None,
                Some(LlvmType::Integer { bits }) => Some(
                    CompleteAbstractData::PublicValue { bits: *bits as usize, value: AbstractValue::Unconstrained },
                ),
                Some(LlvmType::Pointer { pointee_type }) => match &**pointee_type {
                    LlvmType::Func => Some(
                        CompleteAbstractData::PublicPointerToHook("hook_uninitialized_function_pointer".to_owned()),
                    ),
                    LlvmType::Integer { bits } => Some(
                        CompleteAbstractData::pub_pointer_to(
                            CompleteAbstractData::array_of(
                                CompleteAbstractData::PublicValue { bits: *bits as usize, value: AbstractValue::Unconstrained },
                                DEFAULT_ARRAY_LENGTH,
                            ),
                        ),
                    ),
                    LlvmType::Array { element_type, num_elements } => {
                        if *num_elements == 0 {
                            assert(crate::llvmtype::tsz(pointee_type@) == 1 + crate::llvmtype::tsz(element_type@));
                            match self.complete_rec(Some(&**element_type), t, sd, seen, Ghost(rank)) {
                                Some(c) => Some(
                                    CompleteAbstractData::pub_pointer_to(CompleteAbstractData::array_of(c, DEFAULT_ARRAY_LENGTH)),
                                ),
                                None => None,
                            }
                        } else {
                            match self.complete_rec(Some(&**pointee_type), t, sd, seen, Ghost(rank)) {
                                Some(c) => Some(CompleteAbstractData::pub_pointer_to(c)),
                                None => None,
                            }
                        }
                    },
                    _ => match self.complete_rec(Some(&**pointee_type), t, sd, seen, Ghost(rank)) {
                        Some(c) => Some(CompleteAbstractData::pub_pointer_to(c)),
                        None => None,
                    },
                },
                Some(LlvmType::Vector { element_type, num_elements }) | Some(LlvmType::Array { element_type, num_elements }) => {
                    match self.complete_rec(Some(&**element_type), t, sd, seen, Ghost(rank)) {
                        Some(c) => Some(CompleteAbstractData::array_of(c, *num_elements)),
                        None => None,
                    }
                },
                Some(LlvmType::NamedStruct { name }) => {
                    let def: Option<&LlvmType> = match t.get(name.as_str()) {
                        Some(NamedStructDef::Defined(d)) => Some(d),
                        _ => None,
                    };
                    if contains_name(seen, name) {
                        // already filling this struct in: stop the recursion
                        // with unconstrained contents of the right size
                        match def {
                            Some(d) => match t.bits_of(d, Ghost(rank)) {
                                Some(b) => Some(CompleteAbstractData::PublicValue { bits: b, value: AbstractValue::Unconstrained }),
                                None => None,
                            },
                            None => None,
                        }
                    } else {
                        let seen2 = with_name(seen, name);
                        proof {
                            lemma_unseen_insert(entry_names(t@), name_set(seen@), name@);
                            lemma_unseen_insert(entry_names(sd@), name_set(seen@), name@);
                            if lookup(sd@, name@) is Some {
                                lemma_found_name(sd@, name@);
                            }
                            if def is Some {
                                lemma_found_name(t@, name@);
                            }
                        }
                        match sd.get(name.as_str()) {
                            Some(ad) => ad.complete_rec(def, t, sd, &seen2, Ghost(rank)),
                            None => match def {
                                Some(d) => match self.complete_rec(Some(d), t, sd, &seen2, Ghost(rank)) {
                                    Some(CompleteAbstractData::Struct { elements, .. }) => Some(
                                        CompleteAbstractData::Struct { name: name.clone(), elements },
                                    ),
                                    _ => None,
                                },
                                None => Some(
                                    CompleteAbstractData::array_of(
                                        CompleteAbstractData::pub_i8(AbstractValue::Unconstrained),
                                        OPAQUE_STRUCT_SIZE_BYTES,
                                    ),
                                ),
                            },
                        }
                    }
                },
                Some(LlvmType::Struct { element_types }) => {
                    proof {
                        LlvmType::lemma_models(element_types@);
                    }
                    match Self::complete_defaults(element_types, t, sd, seen, Ghost(rank)) {
                        Some(cs) => Some(CompleteAbstractData::Struct { name: "unspecified_struct".to_owned(), elements: cs }),
                        None => None,
                    }
                },
                _ => None,
            },
        }
    }
}


/// The types to complete struct elements against: each given type, or no
/// type for any element.
pub open spec fn element_tys(n: nat, tys: Option<Seq<TypeView>>) -> Seq<Option<TypeView>> {
    match tys {
        Some(ts) => Seq::new(n, |i: int| Some(ts[i])),
        None => Seq::new(n, |i: int| None::<TypeView>),
    }
}

/// The models of an optional list of types.
pub open spec fn opt_tys_view(tys: Option<&Vec<LlvmType>>) -> Option<Seq<TypeView>> {
    match tys {
        Some(v) => Some(LlvmType::models(v@)),
        None => None,
    }
}

impl AbstractData {
    /// Complete each element against its type (or against no type).
    fn complete_elements(
        elements: &Vec<AbstractData>,
        tys: Option<&Vec<LlvmType>>,
        t: &StructTable,
        sd: &StructDescriptions,
        seen: &Vec<String>,
        Ghost(rank): Ghost<Rank>,
    ) -> (r: Option<Vec<CompleteAbstractData>>)
        requires
            ranked(t@, rank),
            tys matches Some(v) ==> v@.len() == elements@.len(),
        ensures
            match r {
                Some(cs) => complete_all(
                    t@,
                    sd@,
                    rank,
                    Self::models(elements@),
                    element_tys(elements@.len() as nat, opt_tys_view(tys)),
                    name_set(seen@),
                ) == Some(CompleteAbstractData::models(cs@)),
                None => complete_all(
                    t@,
                    sd@,
                    rank,
                    Self::models(elements@),
                    element_tys(elements@.len() as nat, opt_tys_view(tys)),
                    name_set(seen@),
                ) is None,
            },
        decreases unseen_total(t@, sd@, name_set(seen@)), spec_size_all(Self::models(elements@)) + 1, 0nat, 0nat,
    {
        proof {
            Self::lemma_models(elements@);
            if let Some(v) = tys {
                LlvmType::lemma_models(v@);
            }
        }
        let ghost uads = Self::models(elements@);
        let ghost etys = element_tys(elements@.len() as nat, opt_tys_view(tys));
        let ghost sset = name_set(seen@);
        let mut acc: Vec<CompleteAbstractData> = Vec::new();
        let mut i: usize = 0;
        assert(uads.subrange(0, 0) =~= Seq::<SpecView>::empty());
        assert(etys.subrange(0, 0) =~= Seq::<Option<TypeView>>::empty());
        assert(CompleteAbstractData::models(acc@) =~= Seq::<DataView>::empty());
        while i < elements.len()
            invariant
                i <= elements@.len(),
                ranked(t@, rank),
                uads == Self::models(elements@),
                uads.len() == elements@.len(),
                forall|j: int| 0 <= j < elements@.len() ==> #[trigger] uads[j] == elements@[j]@,
                etys == element_tys(elements@.len() as nat, opt_tys_view(tys)),
                etys.len() == elements@.len(),
                tys matches Some(v) ==> v@.len() == elements@.len() && LlvmType::models(v@).len() == v@.len()
                    && forall|j: int| 0 <= j < v@.len() ==> #[trigger] LlvmType::models(v@)[j] == v@[j]@,
                sset == name_set(seen@),
                complete_all(t@, sd@, rank, uads.subrange(0, i as int), etys.subrange(0, i as int), sset)
                    == Some(CompleteAbstractData::models(acc@)),
            decreases elements@.len() - i,
        {
            proof {
                lemma_spec_size_element(uads, i as int);
                lemma_complete_all_step(t@, sd@, rank, uads, etys, sset, i as int);
            }
            let ty_i: Option<&LlvmType> = match tys {
                Some(v) => Some(&v[i]),
                None => None,
            };
            assert(opt_ty_view(ty_i) == etys[i as int]);
            match elements[i].complete_rec(ty_i, t, sd, seen, Ghost(rank)) {
                Some(c) => {
                    proof {
                        lemma_models_push(acc@, c);
                    }
                    acc.push(c);
                },
                None => {
                    proof {
                        lemma_complete_all_none(t@, sd@, rank, uads, etys, sset, i as int + 1);
                    }
                    return None;
                },
            }
            i = i + 1;
        }
        assert(uads.subrange(0, i as int) =~= uads);
        assert(etys.subrange(0, i as int) =~= etys);
        Some(acc)
    }

    /// The default completion of each type.
    fn complete_defaults(
        tys: &Vec<LlvmType>,
        t: &StructTable,
        sd: &StructDescriptions,
        seen: &Vec<String>,
        Ghost(rank): Ghost<Rank>,
    ) -> (r: Option<Vec<CompleteAbstractData>>)
        requires
            ranked(t@, rank),
        ensures
            match r {
                Some(cs) => complete_unspecified_all(t@, sd@, rank, LlvmType::models(tys@), name_set(seen@))
                    == Some(CompleteAbstractData::models(cs@)),
                None => complete_unspecified_all(t@, sd@, rank, LlvmType::models(tys@), name_set(seen@)) is None,
            },
        decreases unseen_total(t@, sd@, name_set(seen@)), 1nat, 0nat, crate::llvmtype::tsz_all(LlvmType::models(tys@)) + 1,
    {
        proof {
            LlvmType::lemma_models(tys@);
        }
        let ghost ms = LlvmType::models(tys@);
        let ghost sset = name_set(seen@);
        let unspecified = AbstractData(UnderspecifiedAbstractData::Unspecified);
        let mut acc: Vec<CompleteAbstractData> = Vec::new();
        let mut i: usize = 0;
        assert(ms.subrange(0, 0) =~= Seq::<TypeView>::empty());
        assert(CompleteAbstractData::models(acc@) =~= Seq::<DataView>::empty());
        while i < tys.len()
            invariant
                i <= tys@.len(),
                ranked(t@, rank),
                ms == LlvmType::models(tys@),
                ms.len() == tys@.len(),
                forall|j: int| 0 <= j < tys@.len() ==> #[trigger] ms[j] == tys@[j]@,
                sset == name_set(seen@),
                unspecified@ == SpecView::Unspecified,
                complete_unspecified_all(t@, sd@, rank, ms.subrange(0, i as int), sset) == Some(CompleteAbstractData::models(acc@)),
            decreases tys@.len() - i,
        {
            proof {
                crate::llvmtype::lemma_element_measures(ms, rank, i as int);
                lemma_complete_unspecified_all_step(t@, sd@, rank, ms, sset, i as int);
            }
            match unspecified.complete_rec(Some(&tys[i]), t, sd, seen, Ghost(rank)) {
                Some(c) => {
                    proof {
                        lemma_models_push(acc@, c);
                    }
                    acc.push(c);
                },
                None => {
                    proof {
                        lemma_complete_unspecified_all_none(t@, sd@, rank, ms, sset, i as int + 1);
                    }
                    return None;
                },
            }
            i = i + 1;
        }
        assert(ms.subrange(0, i as int) =~= ms);
        Some(acc)
    }
}

} // verus!
