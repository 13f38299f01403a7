//! What filling in an `AbstractData` against an LLVM type yields.
use vstd::prelude::*;
use crate::abstractdata::{AbstractValue, DataView, SpecView};
use crate::llvmtype::{
    by_value_rank, by_value_rank_all, lemma_element_measures, lemma_ranked_lookup, lemma_tsz_positive, ranked, size_of,
    some_rank, tsz, tsz_all, type_bits, well_founded, Rank, TypeView,
};
use crate::namemap::lookup;
use crate::allocation::has_secret;

verus! {

/// The model of a table of named struct definitions (`None`: opaque).
pub type TableView = Seq<(Seq<char>, Option<TypeView>)>;

/// The model of a set of struct descriptions.
pub type DescsView = Seq<(Seq<char>, SpecView)>;

/// Number of elements in an array allocated behind a pointer to an
/// integer, or to an array of unknown length, when nothing else is said.
pub const DEFAULT_ARRAY_LENGTH: usize = 1024;

/// Number of bytes allocated for a struct that is opaque everywhere.
pub const OPAQUE_STRUCT_SIZE_BYTES: usize = 65536;

/// Size of a description, counting one for each node (two for a struct or a
/// request for a named struct's default).
pub open spec fn spec_size(v: SpecView) -> nat
    decreases v,
{
    match v {
        SpecView::PublicPointerTo { pointee, .. } => 1 + spec_size(*pointee),
        SpecView::PublicPointerToParentOr(d) => 1 + spec_size(*d),
        SpecView::Array { element_type, .. } => 1 + spec_size(*element_type),
        SpecView::Struct { elements, .. } => 2 + spec_size_all(elements),
        SpecView::DefaultForLLVMStructName { .. } => 2,
        SpecView::VoidOverride { data, .. } => 1 + spec_size(*data),
        SpecView::SameSizeOverride { data } => 1 + spec_size(*data),
        SpecView::WithWatchpoint { data, .. } => 1 + spec_size(*data),
        _ => 1,
    }
}

/// Total size of a sequence of descriptions.
pub open spec fn spec_size_all(s: Seq<SpecView>) -> nat
    decreases s,
{
    if s.len() == 0 {
        0
    } else {
        spec_size_all(s.subrange(0, s.len() - 1)) + spec_size(s[s.len() - 1])
    }
}

/// Every description has a positive size.
pub proof fn lemma_spec_size_positive(v: SpecView)
    ensures
        spec_size(v) >= 1,
{
}

/// Every element is at most as large as its sequence.
pub proof fn lemma_spec_size_element(s: Seq<SpecView>, i: int)
    requires
        0 <= i < s.len(),
    ensures
        spec_size(s[i]) <= spec_size_all(s),
    decreases s.len(),
{
    if i < s.len() - 1 {
        lemma_spec_size_element(s.subrange(0, s.len() - 1), i);
    }
}

/// The names carried by the entries of a table.
pub open spec fn entry_names<V>(t: Seq<(Seq<char>, V)>) -> Seq<Seq<char>> {
    Seq::new(t.len(), |i: int| t[i].0)
}

/// How many of `names` are not in `seen`.
pub open spec fn unseen(names: Seq<Seq<char>>, seen: Set<Seq<char>>) -> nat
    decreases names.len(),
{
    if names.len() == 0 {
        0
    } else {
        unseen(names.subrange(0, names.len() - 1), seen) + if seen.contains(names[names.len() - 1]) {
            0nat
        } else {
            1nat
        }
    }
}

/// Marking a name as seen never increases the count of unseen names, and
/// decreases it when the name occurs and was not yet seen.
pub proof fn lemma_unseen_insert(names: Seq<Seq<char>>, seen: Set<Seq<char>>, n: Seq<char>)
    ensures
        unseen(names, seen.insert(n)) <= unseen(names, seen),
        !seen.contains(n) && names.contains(n) ==> unseen(names, seen.insert(n)) < unseen(names, seen),
    decreases names.len(),
{
    if names.len() > 0 {
        let prefix = names.subrange(0, names.len() - 1);
        lemma_unseen_insert(prefix, seen, n);
        if !seen.contains(n) && names.contains(n) && names[names.len() - 1] != n {
            let i = choose|i: int| 0 <= i < names.len() && names[i] == n;
            assert(prefix[i] == n);
        }
    }
}

/// The names of all struct definitions and descriptions not yet entered.
pub open spec fn unseen_total(t: TableView, sd: DescsView, seen: Set<Seq<char>>) -> nat {
    unseen(entry_names(t), seen) + unseen(entry_names(sd), seen)
}

/// A name found in a table occurs among its entry names.
pub proof fn lemma_found_name<V>(t: Seq<(Seq<char>, V)>, name: Seq<char>)
    requires
        lookup(t, name) is Some,
    ensures
        entry_names(t).contains(name),
{
    crate::namemap::lemma_lookup(t, name);
    let i = choose|i: int| 0 <= i < t.len() && t[i].0 == name;
    assert(entry_names(t)[i] == name);
}

/// The measure that decreases when a description keeps going down into the
/// type: a named struct's rank when the description may look inside named
/// structs (anything but a plain default), else nothing.
pub open spec fn regime(uad: SpecView, ty: Option<TypeView>, rank: Rank) -> nat {
    if uad is Unspecified {
        0
    } else {
        match ty {
            Some(ty) => by_value_rank(ty, rank),
            None => 0,
        }
    }
}

/// Structural size of an optional type.
pub open spec fn opt_tsz(ty: Option<TypeView>) -> nat {
    match ty {
        Some(ty) => tsz(ty),
        None => 0,
    }
}

/// Could this description be valid for describing a struct of one element?
pub open spec fn could_describe_one_element_struct(v: SpecView) -> bool {
    match v {
        SpecView::Unspecified => true,
        SpecView::Unconstrained => true,
        SpecView::Secret => true,
        SpecView::Struct { elements, .. } => elements.len() == 1,
        SpecView::Complete(DataView::Struct { elements, .. }) => elements.len() == 1,
        SpecView::VoidOverride { .. } => true,
        SpecView::SameSizeOverride { .. } => true,
        SpecView::WithWatchpoint { .. } => true,
        _ => false,
    }
}

/// What happens before the description is looked at: when the LLVM type is
/// a struct of one element and the description cannot describe such a
/// struct, retry with the element type.
pub enum PreStep {
    Retry(TypeView),
    Fail,
    Continue,
}

/// See `PreStep`.
pub open spec fn pre_step(t: TableView, rank: Rank, uad: SpecView, ty: Option<TypeView>) -> PreStep {
    match ty {
        Some(TypeView::Struct { element_types }) => if element_types.len() == 1
            && !could_describe_one_element_struct(uad) {
            PreStep::Retry(element_types[0])
        } else {
            PreStep::Continue
        },
        Some(TypeView::NamedStruct { name }) => match lookup(t, name) {
            Some(Some(d)) => match d {
                TypeView::Struct { element_types } => if element_types.len() == 1
                    && !could_describe_one_element_struct(uad) {
                    if by_value_rank(d, rank) <= rank(name) {
                        PreStep::Retry(element_types[0])
                    } else {
                        PreStep::Fail
                    }
                } else {
                    PreStep::Continue
                },
                _ => PreStep::Continue,
            },
            _ => PreStep::Continue,
        },
        _ => PreStep::Continue,
    }
}

/// Retrying with the element type makes progress.
pub proof fn lemma_pre_step_decreases(t: TableView, rank: Rank, uad: SpecView, ty: Option<TypeView>)
    ensures
        pre_step(t, rank, uad, ty) matches PreStep::Retry(e) ==> {
            ||| regime(uad, Some(e), rank) < regime(uad, ty, rank)
            ||| regime(uad, Some(e), rank) == regime(uad, ty, rank) && tsz(e) < opt_tsz(ty)
        },
{
    match ty {
        Some(TypeView::Struct { element_types }) => {
            if element_types.len() == 1 {
                lemma_element_measures(element_types, rank, 0);
            }
        },
        Some(TypeView::NamedStruct { name }) => {
            if let Some(Some(d)) = lookup(t, name) {
                if let TypeView::Struct { element_types } = d {
                    if element_types.len() == 1 {
                        lemma_element_measures(element_types, rank, 0);
                    }
                }
            }
        },
        _ => {},
    }
}

/// A public value of the given size with any value.
pub open spec fn unconstrained_bits(bits: nat) -> DataView {
    DataView::PublicValue { bits: bits as usize, value: AbstractValue::Unconstrained }
}

/// A pointer (which may not be null) to the given data.
pub open spec fn pointer_to(d: DataView) -> DataView {
    DataView::PublicPointerTo { pointee: Box::new(d), maybe_null: false }
}

/// An array of `n` copies of the given data.
pub open spec fn array_of(d: DataView, n: usize) -> DataView {
    DataView::Array { element_type: Box::new(d), num_elements: n }
}

/// The completion, if there is one, passed through `f`.
pub open spec fn then(o: Option<DataView>, f: spec_fn(DataView) -> DataView) -> Option<DataView> {
    match o {
        Some(d) => Some(f(d)),
        None => None,
    }
}

/// A struct with the given name and completed elements, if they completed.
pub open spec fn struct_of(name: Seq<char>, o: Option<Seq<DataView>>) -> Option<DataView> {
    match o {
        Some(es) => Some(DataView::Struct { name, elements: es }),
        None => None,
    }
}

/// The complete description that `uad` yields for the LLVM type `ty`
/// (`None`: there is no LLVM type to go by), given the struct definitions
/// `t`, the struct descriptions `sd`, and the named structs already being
/// filled in by default on the way here (`seen`). `None` when there is no
/// such description: the description does not fit the type, a needed LLVM
/// type or struct definition is missing, or a needed size is unknown.
pub open spec fn complete(
    t: TableView,
    sd: DescsView,
    rank: Rank,
    uad: SpecView,
    ty: Option<TypeView>,
    seen: Set<Seq<char>>,
) -> Option<DataView>
    decreases unseen_total(t, sd, seen), spec_size(uad), regime(uad, ty, rank), opt_tsz(ty),
{
    proof {
        lemma_pre_step_decreases(t, rank, uad, ty);
    }
    match pre_step(t, rank, uad, ty) {
        PreStep::Retry(e) => complete(t, sd, rank, uad, Some(e), seen),
        PreStep::Fail => None,
        PreStep::Continue => match uad {
            SpecView::Complete(c) => Some(c),
            SpecView::Unconstrained => match ty {
                Some(ty) => match type_bits(t, ty, rank) {
                    Some(b) => Some(unconstrained_bits(b)),
                    None => None,
                },
                None => None,
            },
            SpecView::Secret => match ty {
                Some(ty) => match type_bits(t, ty, rank) {
                    Some(b) => Some(DataView::Secret { bits: b as usize }),
                    None => None,
                },
                None => None,
            },
            SpecView::WithWatchpoint { name, data } => then(
                complete(t, sd, rank, *data, ty, seen),
                |c: DataView| DataView::WithWatchpoint { name, data: Box::new(c) },
            ),
            SpecView::VoidOverride { llvm_struct_name, data } => match llvm_struct_name {
                None => then(
                    complete(t, sd, rank, *data, None, seen),
                    |c: DataView| DataView::VoidOverride { llvm_struct_name: None, data: Box::new(c) },
                ),
                Some(n) => match lookup(t, n) {
                    Some(Some(d)) => then(
                        complete(t, sd, rank, *data, Some(d), seen),
                        |c: DataView| DataView::VoidOverride { llvm_struct_name: Some(n), data: Box::new(c) },
                    ),
                    _ => None,
                },
            },
            SpecView::SameSizeOverride { data } => then(
                complete(t, sd, rank, *data, None, seen),
                |c: DataView| DataView::SameSizeOverride { data: Box::new(c) },
            ),
            SpecView::PublicPointerTo { pointee, maybe_null } => {
                let wrap = |c: DataView| DataView::PublicPointerTo { pointee: Box::new(c), maybe_null };
                match ty {
                    Some(TypeView::Pointer { pointee_type }) => match *pointee {
                        SpecView::Array { num_elements, .. } => match *pointee_type {
                            TypeView::Array { .. } => then(complete(t, sd, rank, *pointee, Some(*pointee_type), seen), wrap),
                            TypeView::Vector { .. } => then(complete(t, sd, rank, *pointee, Some(*pointee_type), seen), wrap),
                            // pointer to a scalar, described as pointer to an array
                            _ => then(
                                complete(
                                    t,
                                    sd,
                                    rank,
                                    *pointee,
                                    Some(TypeView::Array { element_type: pointee_type, num_elements }),
                                    seen,
                                ),
                                wrap,
                            ),
                        },
                        _ => then(complete(t, sd, rank, *pointee, Some(*pointee_type), seen), wrap),
                    },
                    Some(TypeView::Array { element_type, num_elements }) => if num_elements == 1 {
                        complete(t, sd, rank, uad, Some(*element_type), seen)
                    } else {
                        None
                    },
                    Some(TypeView::Vector { element_type, num_elements }) => if num_elements == 1 {
                        complete(t, sd, rank, uad, Some(*element_type), seen)
                    } else {
                        None
                    },
                    None => then(complete(t, sd, rank, *pointee, None, seen), wrap),
                    _ => None,
                }
            },
            SpecView::PublicPointerToParentOr(ad) => {
                let wrap = |c: DataView| DataView::PublicPointerToParentOr(Some(Box::new(c)));
                match ty {
                    Some(TypeView::Pointer { pointee_type }) => then(complete(t, sd, rank, *ad, Some(*pointee_type), seen), wrap),
                    Some(_) => None,
                    None => then(complete(t, sd, rank, *ad, None, seen), wrap),
                }
            },
            SpecView::Array { element_type, num_elements } => {
                let wrap = |c: DataView| array_of(c, num_elements);
                match ty {
                    Some(TypeView::Array { element_type: llvm_element_type, num_elements: llvm_num_elements }) =>
                        if llvm_num_elements != 0 && llvm_num_elements != num_elements {
                        None
                    } else {
                        then(complete(t, sd, rank, *element_type, Some(*llvm_element_type), seen), wrap)
                    },
                    Some(TypeView::Vector { element_type: llvm_element_type, num_elements: llvm_num_elements }) =>
                        if llvm_num_elements != 0 && llvm_num_elements != num_elements {
                        None
                    } else {
                        then(complete(t, sd, rank, *element_type, Some(*llvm_element_type), seen), wrap)
                    },
                    None => then(complete(t, sd, rank, *element_type, None, seen), wrap),
                    _ => None,
                }
            },
            SpecView::Struct { name, elements } => match ty {
                Some(TypeView::NamedStruct { name: struct_name }) => match lookup(t, struct_name) {
                    Some(Some(d)) => if by_value_rank(d, rank) <= rank(struct_name) {
                        complete(t, sd, rank, uad, Some(d), seen)
                    } else {
                        None
                    },
                    _ => complete(t, sd, rank, uad, None, seen),
                },
                Some(TypeView::Struct { element_types }) => if elements.len() != element_types.len() {
                    None
                } else {
                    struct_of(
                        name,
                        complete_all(t, sd, rank, elements, Seq::new(elements.len(), |i: int| Some(element_types[i])), seen),
                    )
                },
                Some(TypeView::Array { element_type, num_elements }) => if num_elements == 1 {
                    complete(t, sd, rank, uad, Some(*element_type), seen)
                } else {
                    None
                },
                Some(TypeView::Vector { element_type, num_elements }) => if num_elements == 1 {
                    complete(t, sd, rank, uad, Some(*element_type), seen)
                } else {
                    None
                },
                None => struct_of(
                    name,
                    complete_all(t, sd, rank, elements, Seq::new(elements.len(), |i: int| None::<TypeView>), seen),
                ),
                _ => None,
            },
            SpecView::DefaultForLLVMStructName { llvm_struct_name } => match ty {
                Some(TypeView::NamedStruct { name }) => if name == llvm_struct_name {
                    complete(t, sd, rank, SpecView::Unspecified, ty, seen)
                } else {
                    None
                },
                Some(TypeView::Struct { .. }) => complete(t, sd, rank, SpecView::Unspecified, ty, seen),
                Some(_) => None,
                None => match lookup(t, llvm_struct_name) {
                    Some(Some(d)) => complete(t, sd, rank, SpecView::Unspecified, Some(d), seen),
                    _ => None,
                },
            },
            SpecView::Unspecified => match ty {
                None => None,
                Some(TypeView::Integer { bits }) => Some(unconstrained_bits(bits as nat)),
                Some(TypeView::Pointer { pointee_type }) => match *pointee_type {
                    TypeView::Func => Some(DataView::PublicPointerToHook("hook_uninitialized_function_pointer"@)),
                    TypeView::Integer { bits } => Some(
                        pointer_to(array_of(unconstrained_bits(bits as nat), DEFAULT_ARRAY_LENGTH)),
                    ),
                    TypeView::Array { element_type, num_elements } => if num_elements == 0 {
                        proof {
                            assert(tsz(*pointee_type) == 1 + tsz(*element_type));
                        }
                        then(
                            complete(t, sd, rank, SpecView::Unspecified, Some(*element_type), seen),
                            |c: DataView| pointer_to(array_of(c, DEFAULT_ARRAY_LENGTH)),
                        )
                    } else {
                        then(complete(t, sd, rank, SpecView::Unspecified, Some(*pointee_type), seen), |c: DataView| pointer_to(c))
                    },
                    _ => then(complete(t, sd, rank, SpecView::Unspecified, Some(*pointee_type), seen), |c: DataView| pointer_to(c)),
                },
                Some(TypeView::Vector { element_type, num_elements }) => then(
                    complete(t, sd, rank, SpecView::Unspecified, Some(*element_type), seen),
                    |c: DataView| array_of(c, num_elements),
                ),
                Some(TypeView::Array { element_type, num_elements }) => then(
                    complete(t, sd, rank, SpecView::Unspecified, Some(*element_type), seen),
                    |c: DataView| array_of(c, num_elements),
                ),
                Some(TypeView::NamedStruct { name }) => {
                    let def = match lookup(t, name) {
                        Some(Some(d)) => Some(d),
                        _ => None,
                    };
                    if seen.contains(name) {
                        // already filling this struct in: stop the recursion with
                        // unconstrained contents of the right size
                        match def {
                            Some(d) => match type_bits(t, d, rank) {
                                Some(b) => Some(unconstrained_bits(b)),
                                None => None,
                            },
                            None => None,
                        }
                    } else {
                        let seen2 = seen.insert(name);
                        proof {
                            lemma_unseen_insert(entry_names(t), seen, name);
                            lemma_unseen_insert(entry_names(sd), seen, name);
                            if lookup(sd, name) is Some {
                                lemma_found_name(sd, name);
                            }
                            if def is Some {
                                lemma_found_name(t, name);
                            }
                        }
                        match lookup(sd, name) {
                            Some(ad) => complete(t, sd, rank, ad, def, seen2),
                            None => match def {
                                Some(d) => match complete(t, sd, rank, SpecView::Unspecified, Some(d), seen2) {
                                    Some(DataView::Struct { elements, .. }) => Some(DataView::Struct { name, elements }),
                                    _ => None,
                                },
                                None => Some(
                                    array_of(unconstrained_bits(8), OPAQUE_STRUCT_SIZE_BYTES),
                                ),
                            },
                        }
                    }
                },
                Some(TypeView::Struct { element_types }) => struct_of(
                    "unspecified_struct"@,
                    complete_unspecified_all(t, sd, rank, element_types, seen),
                ),
                _ => None,
            },
        },
    }
}

/// The completions of each description against its type, in order; `None`
/// if any of them has none.
pub open spec fn complete_all(
    t: TableView,
    sd: DescsView,
    rank: Rank,
    uads: Seq<SpecView>,
    tys: Seq<Option<TypeView>>,
    seen: Set<Seq<char>>,
) -> Option<Seq<DataView>>
    decreases unseen_total(t, sd, seen), spec_size_all(uads) + 1, 0nat, 0nat,
{
    if uads.len() == 0 {
        Some(Seq::empty())
    } else {
        proof {
            lemma_spec_size_positive(uads[uads.len() - 1]);
        }
        match (
            complete_all(t, sd, rank, uads.subrange(0, uads.len() - 1), tys.subrange(0, uads.len() - 1), seen),
            complete(t, sd, rank, uads[uads.len() - 1], tys[uads.len() - 1], seen),
        ) {
            (Some(cs), Some(c)) => Some(cs.push(c)),
            _ => None,
        }
    }
}

/// The default completions of each type, in order; `None` if any of them
/// has none.
pub open spec fn complete_unspecified_all(
    t: TableView,
    sd: DescsView,
    rank: Rank,
    tys: Seq<TypeView>,
    seen: Set<Seq<char>>,
) -> Option<Seq<DataView>>
    decreases unseen_total(t, sd, seen), 1nat, 0nat, tsz_all(tys) + 1,
{
    if tys.len() == 0 {
        Some(Seq::empty())
    } else {
        proof {
            lemma_tsz_positive(tys[tys.len() - 1]);
        }
        match (
            complete_unspecified_all(t, sd, rank, tys.subrange(0, tys.len() - 1), seen),
            complete(t, sd, rank, SpecView::Unspecified, Some(tys[tys.len() - 1]), seen),
        ) {
            (Some(cs), Some(c)) => Some(cs.push(c)),
            _ => None,
        }
    }
}

/// An already complete description is kept as it is, whatever the LLVM type
/// (in a table where no struct contains itself by value).
pub proof fn law_complete_is_kept(
    t: TableView,
    sd: DescsView,
    c: DataView,
    ty: Option<TypeView>,
    seen: Set<Seq<char>>,
)
    requires
        well_founded(t),
    ensures
        complete(t, sd, some_rank(t), SpecView::Complete(c), ty, seen) == Some(c),
{
    let rank = some_rank(t);
    lemma_complete_kept(t, sd, rank, c, ty, seen);
}

/// An array description completes, against an LLVM array or vector type, to
/// the array of its completed element exactly when the LLVM length is 0 (a
/// length left open) or equals the described length, and to nothing
/// otherwise; with no LLVM type to go by, its element is completed with none.
pub proof fn law_array_completes_elementwise(
    t: TableView,
    sd: DescsView,
    element: SpecView,
    n: usize,
    ty: Option<TypeView>,
    seen: Set<Seq<char>>,
)
    requires
        well_founded(t),
    ensures
        ({
            let rank = some_rank(t);
            let uad = SpecView::Array { element_type: Box::new(element), num_elements: n };
            let elementwise = |ety: Option<TypeView>| match complete(t, sd, rank, element, ety, seen) {
                Some(c) => Some(array_of(c, n)),
                None => None::<DataView>,
            };
            &&& ty matches Some(TypeView::Array { element_type, num_elements }) ==> complete(
                t,
                sd,
                rank,
                uad,
                ty,
                seen,
            ) == if num_elements != 0 && num_elements != n {
                None
            } else {
                elementwise(Some(*element_type))
            }
            &&& ty matches Some(TypeView::Vector { element_type, num_elements }) ==> complete(
                t,
                sd,
                rank,
                uad,
                ty,
                seen,
            ) == if num_elements != 0 && num_elements != n {
                None
            } else {
                elementwise(Some(*element_type))
            }
            &&& ty is None ==> complete(t, sd, rank, uad, ty, seen) == elementwise(None)
        }),
{
}

/// Completing a pointer description keeps whether the pointer may be null:
/// whatever the LLVM type, the completion, if there is one, is a pointer with
/// the same `maybe_null` flag. Against a pointer type, and for a pointee
/// other than an array, its pointee is the completion of the described
/// pointee against the pointee type.
pub proof fn law_pointer_keeps_maybe_null(
    t: TableView,
    sd: DescsView,
    pointee: SpecView,
    maybe_null: bool,
    ty: Option<TypeView>,
    seen: Set<Seq<char>>,
)
    requires
        well_founded(t),
    ensures
        complete(
            t,
            sd,
            some_rank(t),
            SpecView::PublicPointerTo { pointee: Box::new(pointee), maybe_null },
            ty,
            seen,
        ) matches Some(c) ==> c matches DataView::PublicPointerTo { maybe_null: m, .. } && m == maybe_null,
        ty matches Some(TypeView::Pointer { pointee_type }) ==> (!(pointee is Array) ==> complete(
            t,
            sd,
            some_rank(t),
            SpecView::PublicPointerTo { pointee: Box::new(pointee), maybe_null },
            ty,
            seen,
        ) == match complete(t, sd, some_rank(t), pointee, Some(*pointee_type), seen) {
            Some(c) => Some(DataView::PublicPointerTo { pointee: Box::new(c), maybe_null }),
            None => None::<DataView>,
        }),
{
    lemma_pointer_flag(t, sd, some_rank(t), pointee, maybe_null, ty, seen);
}

proof fn lemma_pointer_flag(
    t: TableView,
    sd: DescsView,
    rank: Rank,
    pointee: SpecView,
    maybe_null: bool,
    ty: Option<TypeView>,
    seen: Set<Seq<char>>,
)
    requires
        ranked(t, rank),
    ensures
        complete(t, sd, rank, SpecView::PublicPointerTo { pointee: Box::new(pointee), maybe_null }, ty, seen) matches Some(
            c,
        ) ==> c matches DataView::PublicPointerTo { maybe_null: m, .. } && m == maybe_null,
    decreases regime(SpecView::PublicPointerTo { pointee: Box::new(pointee), maybe_null }, ty, rank), opt_tsz(ty),
{
    let uad = SpecView::PublicPointerTo { pointee: Box::new(pointee), maybe_null };
    lemma_pre_step_decreases(t, rank, uad, ty);
    match pre_step(t, rank, uad, ty) {
        PreStep::Retry(e) => {
            lemma_pointer_flag(t, sd, rank, pointee, maybe_null, Some(e), seen);
        },
        PreStep::Fail => {},
        PreStep::Continue => {
            match ty {
                Some(TypeView::Array { element_type, num_elements }) => {
                    if num_elements == 1 {
                        lemma_tsz_positive(*element_type);
                        lemma_pointer_flag(t, sd, rank, pointee, maybe_null, Some(*element_type), seen);
                    }
                },
                Some(TypeView::Vector { element_type, num_elements }) => {
                    if num_elements == 1 {
                        lemma_tsz_positive(*element_type);
                        lemma_pointer_flag(t, sd, rank, pointee, maybe_null, Some(*element_type), seen);
                    }
                },
                _ => {},
            }
        },
    }
}

proof fn lemma_complete_kept(
    t: TableView,
    sd: DescsView,
    rank: Rank,
    c: DataView,
    ty: Option<TypeView>,
    seen: Set<Seq<char>>,
)
    requires
        ranked(t, rank),
    ensures
        complete(t, sd, rank, SpecView::Complete(c), ty, seen) == Some(c),
    decreases regime(SpecView::Complete(c), ty, rank), opt_tsz(ty),
{
    let uad = SpecView::Complete(c);
    lemma_pre_step_decreases(t, rank, uad, ty);
    match pre_step(t, rank, uad, ty) {
        PreStep::Retry(e) => {
            lemma_complete_kept(t, sd, rank, c, Some(e), seen);
        },
        PreStep::Fail => {
            if let Some(TypeView::NamedStruct { name }) = ty {
                lemma_ranked_lookup(t, rank, name);
            }
        },
        PreStep::Continue => {},
    }
}

/// A secret description fills the LLVM type with secret data of the type's
/// size; there is none when the type has no known size.
pub proof fn law_secret_fills_the_type(
    t: TableView,
    sd: DescsView,
    ty: TypeView,
    seen: Set<Seq<char>>,
)
    requires
        well_founded(t),
    ensures
        complete(t, sd, some_rank(t), SpecView::Secret, Some(ty), seen) == match size_of(t, ty) {
            Some(b) => Some(DataView::Secret { bits: b as usize }),
            None => None::<DataView>,
        },
{
}

/// Does the description ask for secret data anywhere, pointees included?
pub open spec fn spec_has_secret(v: SpecView) -> bool
    decreases v,
{
    match v {
        SpecView::Secret => true,
        SpecView::Complete(c) => has_secret(c),
        SpecView::PublicPointerTo { pointee, .. } => spec_has_secret(*pointee),
        SpecView::PublicPointerToParentOr(d) => spec_has_secret(*d),
        SpecView::Array { element_type, .. } => spec_has_secret(*element_type),
        SpecView::Struct { elements, .. } => exists|i: int|
            0 <= i < elements.len() && spec_has_secret(#[trigger] elements[i]),
        SpecView::VoidOverride { data, .. } => spec_has_secret(*data),
        SpecView::SameSizeOverride { data } => spec_has_secret(*data),
        SpecView::WithWatchpoint { data, .. } => spec_has_secret(*data),
        _ => false,
    }
}

/// Do none of the struct descriptions ask for secret data?
pub open spec fn descs_public(sd: DescsView) -> bool {
    forall|i: int| 0 <= i < sd.len() ==> !spec_has_secret(#[trigger] sd[i].1)
}

/// A description that asks for no secret data, filled in with struct
/// descriptions that ask for none either, yields data without secrets: in
/// particular the default (`AbstractData::default()`) makes all contents
/// public when the struct descriptions do.
pub proof fn law_public_description_completes_public(
    t: TableView,
    sd: DescsView,
    uad: SpecView,
    ty: Option<TypeView>,
    seen: Set<Seq<char>>,
)
    requires
        !spec_has_secret(uad),
        descs_public(sd),
    ensures
        complete(t, sd, some_rank(t), uad, ty, seen) matches Some(c) ==> !has_secret(c),
{
    lemma_public_completion(t, sd, some_rank(t), uad, ty, seen);
}

proof fn lemma_public_completion(
    t: TableView,
    sd: DescsView,
    rank: Rank,
    uad: SpecView,
    ty: Option<TypeView>,
    seen: Set<Seq<char>>,
)
    requires
        !spec_has_secret(uad),
        descs_public(sd),
    ensures
        complete(t, sd, rank, uad, ty, seen) matches Some(c) ==> !has_secret(c),
    decreases unseen_total(t, sd, seen), spec_size(uad), regime(uad, ty, rank), opt_tsz(ty),
{
    reveal_with_fuel(has_secret, 3);
    lemma_pre_step_decreases(t, rank, uad, ty);
    match pre_step(t, rank, uad, ty) {
        PreStep::Retry(e) => lemma_public_completion(t, sd, rank, uad, Some(e), seen),
        PreStep::Fail => {},
        PreStep::Continue => match uad {
            SpecView::WithWatchpoint { name, data } => lemma_public_completion(t, sd, rank, *data, ty, seen),
            SpecView::VoidOverride { llvm_struct_name, data } => match llvm_struct_name {
                None => lemma_public_completion(t, sd, rank, *data, None, seen),
                Some(n) => match lookup(t, n) {
                    Some(Some(d)) => lemma_public_completion(t, sd, rank, *data, Some(d), seen),
                    _ => {},
                },
            },
            SpecView::SameSizeOverride { data } => lemma_public_completion(t, sd, rank, *data, None, seen),
            SpecView::PublicPointerTo { pointee, maybe_null } => match ty {
                Some(TypeView::Pointer { pointee_type }) => match *pointee {
                    SpecView::Array { num_elements, .. } => match *pointee_type {
                        TypeView::Array { .. } => lemma_public_completion(t, sd, rank, *pointee, Some(*pointee_type), seen),
                        TypeView::Vector { .. } => lemma_public_completion(t, sd, rank, *pointee, Some(*pointee_type), seen),
                        _ => lemma_public_completion(
                            t,
                            sd,
                            rank,
                            *pointee,
                            Some(TypeView::Array { element_type: pointee_type, num_elements }),
                            seen,
                        ),
                    },
                    _ => lemma_public_completion(t, sd, rank, *pointee, Some(*pointee_type), seen),
                },
                Some(TypeView::Array { element_type, num_elements }) => if num_elements == 1 {
                    lemma_public_completion(t, sd, rank, uad, Some(*element_type), seen);
                },
                Some(TypeView::Vector { element_type, num_elements }) => if num_elements == 1 {
                    lemma_public_completion(t, sd, rank, uad, Some(*element_type), seen);
                },
                None => lemma_public_completion(t, sd, rank, *pointee, None, seen),
                _ => {},
            },
            SpecView::PublicPointerToParentOr(ad) => match ty {
                Some(TypeView::Pointer { pointee_type }) => lemma_public_completion(t, sd, rank, *ad, Some(*pointee_type), seen),
                Some(_) => {},
                None => lemma_public_completion(t, sd, rank, *ad, None, seen),
            },
            SpecView::Array { element_type, num_elements } => match ty {
                Some(TypeView::Array { element_type: e, .. }) => lemma_public_completion(t, sd, rank, *element_type, Some(*e), seen),
                Some(TypeView::Vector { element_type: e, .. }) => lemma_public_completion(t, sd, rank, *element_type, Some(*e), seen),
                None => lemma_public_completion(t, sd, rank, *element_type, None, seen),
                _ => {},
            },
            SpecView::Struct { name, elements } => match ty {
                Some(TypeView::NamedStruct { name: struct_name }) => match lookup(t, struct_name) {
                    Some(Some(d)) => if by_value_rank(d, rank) <= rank(struct_name) {
                        lemma_public_completion(t, sd, rank, uad, Some(d), seen);
                    },
                    _ => lemma_public_completion(t, sd, rank, uad, None, seen),
                },
                Some(TypeView::Struct { element_types }) => if elements.len() == element_types.len() {
                    lemma_public_completion_all(
                        t,
                        sd,
                        rank,
                        elements,
                        Seq::new(elements.len(), |i: int| Some(element_types[i])),
                        seen,
                    );
                },
                Some(TypeView::Array { element_type, num_elements }) => if num_elements == 1 {
                    lemma_public_completion(t, sd, rank, uad, Some(*element_type), seen);
                },
                Some(TypeView::Vector { element_type, num_elements }) => if num_elements == 1 {
                    lemma_public_completion(t, sd, rank, uad, Some(*element_type), seen);
                },
                None => lemma_public_completion_all(
                    t,
                    sd,
                    rank,
                    elements,
                    Seq::new(elements.len(), |i: int| None::<TypeView>),
                    seen,
                ),
                _ => {},
            },
            SpecView::DefaultForLLVMStructName { llvm_struct_name } => match ty {
                Some(TypeView::NamedStruct { name }) => if name == llvm_struct_name {
                    lemma_public_completion(t, sd, rank, SpecView::Unspecified, ty, seen);
                },
                Some(TypeView::Struct { .. }) => lemma_public_completion(t, sd, rank, SpecView::Unspecified, ty, seen),
                Some(_) => {},
                None => match lookup(t, llvm_struct_name) {
                    Some(Some(d)) => lemma_public_completion(t, sd, rank, SpecView::Unspecified, Some(d), seen),
                    _ => {},
                },
            },
            SpecView::Unspecified => match ty {
                Some(TypeView::Pointer { pointee_type }) => match *pointee_type {
                    TypeView::Array { element_type, num_elements } => if num_elements == 0 {
                        assert(tsz(*pointee_type) == 1 + tsz(*element_type));
                        lemma_public_completion(t, sd, rank, SpecView::Unspecified, Some(*element_type), seen);
                    } else {
                        lemma_public_completion(t, sd, rank, SpecView::Unspecified, Some(*pointee_type), seen);
                    },
                    TypeView::Func => {},
                    TypeView::Integer { .. } => {},
                    _ => lemma_public_completion(t, sd, rank, SpecView::Unspecified, Some(*pointee_type), seen),
                },
                Some(TypeView::Vector { element_type, .. }) => lemma_public_completion(
                    t,
                    sd,
                    rank,
                    SpecView::Unspecified,
                    Some(*element_type),
                    seen,
                ),
                Some(TypeView::Array { element_type, .. }) => lemma_public_completion(
                    t,
                    sd,
                    rank,
                    SpecView::Unspecified,
                    Some(*element_type),
                    seen,
                ),
                Some(TypeView::NamedStruct { name }) => {
                    let def = match lookup(t, name) {
                        Some(Some(d)) => Some(d),
                        _ => None,
                    };
                    if !seen.contains(name) {
                        let seen2 = seen.insert(name);
                        lemma_unseen_insert(entry_names(t), seen, name);
                        lemma_unseen_insert(entry_names(sd), seen, name);
                        if lookup(sd, name) is Some {
                            lemma_found_name(sd, name);
                        }
                        if def is Some {
                            lemma_found_name(t, name);
                        }
                        match lookup(sd, name) {
                            Some(ad) => {
                                crate::namemap::lemma_lookup(sd, name);
                                let i = choose|i: int|
                                    0 <= i < sd.len() && sd[i].0 == name && lookup(sd, name) == Some(sd[i].1)
                                        && forall|j: int| 0 <= j < i ==> sd[j].0 != name;
                                assert(!spec_has_secret(sd[i].1));
                                lemma_public_completion(t, sd, rank, ad, def, seen2);
                            },
                            None => match def {
                                Some(d) => lemma_public_completion(t, sd, rank, SpecView::Unspecified, Some(d), seen2),
                                None => {},
                            },
                        }
                    }
                },
                Some(TypeView::Struct { element_types }) => lemma_public_completion_unspecified_all(
                    t,
                    sd,
                    rank,
                    element_types,
                    seen,
                ),
                _ => {},
            },
            _ => {},
        },
    }
}

proof fn lemma_public_completion_all(
    t: TableView,
    sd: DescsView,
    rank: Rank,
    uads: Seq<SpecView>,
    tys: Seq<Option<TypeView>>,
    seen: Set<Seq<char>>,
)
    requires
        forall|i: int| 0 <= i < uads.len() ==> !spec_has_secret(#[trigger] uads[i]),
        descs_public(sd),
    ensures
        complete_all(t, sd, rank, uads, tys, seen) matches Some(cs) ==> forall|i: int|
            0 <= i < cs.len() ==> !has_secret(#[trigger] cs[i]),
    decreases unseen_total(t, sd, seen), spec_size_all(uads) + 1, 0nat, 0nat,
{
    if uads.len() > 0 {
        let n = uads.len() - 1;
        lemma_spec_size_positive(uads[n]);
        lemma_public_completion_all(t, sd, rank, uads.subrange(0, n), tys.subrange(0, n), seen);
        lemma_public_completion(t, sd, rank, uads[n], tys[n], seen);
    }
}

proof fn lemma_public_completion_unspecified_all(
    t: TableView,
    sd: DescsView,
    rank: Rank,
    tys: Seq<TypeView>,
    seen: Set<Seq<char>>,
)
    requires
        descs_public(sd),
    ensures
        complete_unspecified_all(t, sd, rank, tys, seen) matches Some(cs) ==> forall|i: int|
            0 <= i < cs.len() ==> !has_secret(#[trigger] cs[i]),
    decreases unseen_total(t, sd, seen), 1nat, 0nat, tsz_all(tys) + 1,
{
    if tys.len() > 0 {
        let n = tys.len() - 1;
        lemma_tsz_positive(tys[n]);
        lemma_public_completion_unspecified_all(t, sd, rank, tys.subrange(0, n), seen);
        lemma_public_completion(t, sd, rank, SpecView::Unspecified, Some(tys[n]), seen);
    }
}

} // verus!
