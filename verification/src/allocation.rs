//! How the memory behind a function's arguments is laid out and initialized
//! according to their `CompleteAbstractData` descriptions.
//!
//! Initialization is planned here as a sequence of steps (write these secret
//! bits there, allocate a region for a pointee, constrain a value, ...); the
//! symbolic execution engine carries the steps out in order.
use vstd::prelude::*;
use crate::abstractdata::{AbstractData, AbstractValue, CompleteAbstractData, DataView, SpecView, StructDescriptions, POINTER_SIZE_BITS};
use crate::completion::{complete, DescsView, TableView};
use crate::llvmtype::{
    by_value_rank, lemma_element_measures, lemma_ranked_lookup, ranked, some_rank, tsz, type_bits, well_founded, LlvmType,
    NamedStructDef, Rank, StructTable, TypeView,
};
use crate::namemap::{lookup, NameMap};

verus! {

/// A place in memory: a bit offset into one of the memory regions of an
/// initialization. Region 0 is the memory being initialized; each pointee
/// allocated on the way gets the next region number.
#[derive(PartialEq, Eq, Structural, Clone, Copy, Debug)]
pub struct Location {
    pub region: usize,
    pub offset_bits: usize,
}

/// What a step acts on: a function parameter itself (by its position), or a
/// place in memory.
#[derive(PartialEq, Eq, Structural, Clone, Copy, Debug)]
pub enum Target {
    Param(usize),
    Memory(Location),
}

/// How a value relates to a named value.
#[derive(PartialEq, Eq, Structural, Clone, Copy, Debug)]
pub enum Relation {
    EqualTo,
    SignedLessThan,
    SignedGreaterThan,
    UnsignedLessThan,
    UnsignedGreaterThan,
}

/// One step of an initialization.
#[derive(PartialEq, Eq, Debug)]
pub enum InitStep {
    /// Make `bits` bits at the target secret.
    WriteSecret { at: Target, bits: usize },
    /// Give the `bits` bits at the target this exact public value.
    WriteValue { at: Target, bits: usize, value: u64 },
    /// Constrain the `bits` bits at the target to lie in `min..=max`
    /// (unsigned).
    ConstrainRange { at: Target, bits: usize, min: u64, max: u64 },
    /// Give the value of the `bits` bits at the target the name `name` when
    /// `first`; otherwise constrain it to equal the value with that name.
    NameValue { at: Target, bits: usize, name: String, first: bool },
    /// Give the target the value named `name` (`EqualTo`), or a fresh value in
    /// the given relation to it.
    WriteRelated { at: Target, bits: usize, name: String, relation: Relation },
    /// Allocate region `region` of `bits` bits and make the target a pointer
    /// to it; when `maybe_null`, the pointer may also be null.
    Allocate { at: Target, region: usize, bits: usize, maybe_null: bool },
    /// Make the target a pointer to the named function.
    PointToFunction { at: Target, name: String },
    /// Make the target a pointer to the hook active for the named function.
    PointToHook { at: Target, name: String },
    /// Make the target a pointer to the given place (a containing struct).
    PointTo { at: Target, target: Location },
    /// Watch `bytes` bytes at the target under the name `name`.
    Watch { at: Target, bytes: usize, name: String },
}

/// The model of an `InitStep`: names as character sequences.
pub enum StepView {
    WriteSecret { at: Target, bits: usize },
    WriteValue { at: Target, bits: usize, value: u64 },
    ConstrainRange { at: Target, bits: usize, min: u64, max: u64 },
    NameValue { at: Target, bits: usize, name: Seq<char>, first: bool },
    WriteRelated { at: Target, bits: usize, name: Seq<char>, relation: Relation },
    Allocate { at: Target, region: usize, bits: usize, maybe_null: bool },
    PointToFunction { at: Target, name: Seq<char> },
    PointToHook { at: Target, name: Seq<char> },
    PointTo { at: Target, target: Location },
    Watch { at: Target, bytes: usize, name: Seq<char> },
}

impl View for InitStep {
    type V = StepView;

    open spec fn view(&self) -> StepView {
        match *self {
            InitStep::WriteSecret { at, bits } => StepView::WriteSecret { at, bits },
            InitStep::WriteValue { at, bits, value } => StepView::WriteValue { at, bits, value },
            InitStep::ConstrainRange { at, bits, min, max } => StepView::ConstrainRange { at, bits, min, max },
            InitStep::NameValue { at, bits, name, first } => StepView::NameValue { at, bits, name: name@, first },
            InitStep::WriteRelated { at, bits, name, relation } => StepView::WriteRelated {
                at,
                bits,
                name: name@,
                relation,
            },
            InitStep::Allocate { at, region, bits, maybe_null } => StepView::Allocate { at, region, bits, maybe_null },
            InitStep::PointToFunction { at, name } => StepView::PointToFunction { at, name: name@ },
            InitStep::PointToHook { at, name } => StepView::PointToHook { at, name: name@ },
            InitStep::PointTo { at, target } => StepView::PointTo { at, target },
            InitStep::Watch { at, bytes, name } => StepView::Watch { at, bytes, name: name@ },
        }
    }
}

/// Why a description cannot be used to initialize memory of a type.
#[derive(PartialEq, Eq, Debug)]
pub enum InitError {
    /// The LLVM type has `expected` bits but the description `found` bits.
    SizeMismatch { expected: usize, found: usize },
    /// The description does not fit the kind of LLVM type (e.g. a pointer
    /// described where the type is not a pointer).
    TypeMismatch,
    /// The LLVM array has `expected` elements but the description `found`.
    ArrayLengthMismatch { expected: usize, found: usize },
    /// The description of a struct has `elements` elements, its LLVM type
    /// `types`.
    StructLengthMismatch { elements: usize, types: usize },
    /// No value with this name was given before it is referred to.
    NamedValueNotFound(String),
    /// Values of different widths are given or related to this name.
    NamedWidthMismatch(String),
    /// An array or struct element whose size (in bits) is not whole bytes.
    ElementNotWholeBytes(usize),
    /// An array with no elements (there is no such bitvector).
    EmptyArray,
    /// A pointer to the containing struct, outside any struct.
    NoCurrentStruct,
    /// A pointer to the parent struct without a backup, where there is no
    /// parent struct.
    NoParent,
    /// A pointer to the parent struct with a backup, where the LLVM type is not
    /// known, so whether the parent type matches cannot be decided.
    UnknownParentType,
    /// The named LLVM struct does not exist.
    StructNotFound(String),
    /// The named LLVM struct is opaque.
    OpaqueStruct(String),
    /// A description that cannot stand for a function parameter itself.
    UnsupportedParameter,
    /// More regions than can be numbered.
    TooManyRegions,
    /// The description of a parameter does not fit its LLVM type, so it
    /// cannot be filled in.
    DescriptionMismatch,
    /// The filled-in description of a parameter has sizes that do not fit in
    /// a `usize`.
    SizeOverflow,
}

/// The model of an `InitError`.
pub enum InitErrorView {
    SizeMismatch { expected: usize, found: usize },
    TypeMismatch,
    ArrayLengthMismatch { expected: usize, found: usize },
    StructLengthMismatch { elements: usize, types: usize },
    NamedValueNotFound(Seq<char>),
    NamedWidthMismatch(Seq<char>),
    ElementNotWholeBytes(usize),
    EmptyArray,
    NoCurrentStruct,
    NoParent,
    UnknownParentType,
    StructNotFound(Seq<char>),
    OpaqueStruct(Seq<char>),
    UnsupportedParameter,
    TooManyRegions,
    DescriptionMismatch,
    SizeOverflow,
}

impl View for InitError {
    type V = InitErrorView;

    open spec fn view(&self) -> InitErrorView {
        match *self {
            InitError::SizeMismatch { expected, found } => InitErrorView::SizeMismatch { expected, found },
            InitError::TypeMismatch => InitErrorView::TypeMismatch,
            InitError::ArrayLengthMismatch { expected, found } => InitErrorView::ArrayLengthMismatch { expected, found },
            InitError::StructLengthMismatch { elements, types } => InitErrorView::StructLengthMismatch { elements, types },
            InitError::NamedValueNotFound(n) => InitErrorView::NamedValueNotFound(n@),
            InitError::NamedWidthMismatch(n) => InitErrorView::NamedWidthMismatch(n@),
            InitError::ElementNotWholeBytes(b) => InitErrorView::ElementNotWholeBytes(b),
            InitError::EmptyArray => InitErrorView::EmptyArray,
            InitError::NoCurrentStruct => InitErrorView::NoCurrentStruct,
            InitError::NoParent => InitErrorView::NoParent,
            InitError::UnknownParentType => InitErrorView::UnknownParentType,
            InitError::StructNotFound(n) => InitErrorView::StructNotFound(n@),
            InitError::OpaqueStruct(n) => InitErrorView::OpaqueStruct(n@),
            InitError::UnsupportedParameter => InitErrorView::UnsupportedParameter,
            InitError::TooManyRegions => InitErrorView::TooManyRegions,
            InitError::DescriptionMismatch => InitErrorView::DescriptionMismatch,
            InitError::SizeOverflow => InitErrorView::SizeOverflow,
        }
    }
}

/// The plan so far: the steps, the widths of the named values, and the next
/// free region number.
pub struct PlanView {
    pub steps: Seq<StepView>,
    pub names: Seq<(Seq<char>, usize)>,
    pub next_region: nat,
}

/// The struct being initialized, and its parent: where each is and its LLVM
/// type.
pub struct StructContext {
    pub cur: Option<(Location, TypeView)>,
    pub parent: Option<(Location, TypeView)>,
}

/// Measure of a value description: one per node.
pub open spec fn vsize(v: AbstractValue) -> nat
    decreases v,
{
    match v {
        AbstractValue::Named { value, .. } => 1 + vsize(*value),
        _ => 1,
    }
}

/// Measure of a data description: one or two per node.
pub open spec fn dsize(d: DataView) -> nat
    decreases d,
{
    match d {
        DataView::PublicValue { value, .. } => 1 + vsize(value),
        DataView::Array { element_type, .. } => 2 + dsize(*element_type),
        DataView::Struct { elements, .. } => 2 + dsize_all(elements),
        DataView::PublicPointerTo { pointee, .. } => 1 + dsize(*pointee),
        DataView::PublicPointerToParentOr(Some(b)) => 2 + dsize(*b),
        DataView::VoidOverride { data, .. } => 1 + dsize(*data),
        DataView::SameSizeOverride { data } => 1 + dsize(*data),
        DataView::WithWatchpoint { data, .. } => 1 + dsize(*data),
        _ => 1,
    }
}

/// Total measure of a sequence of descriptions.
pub open spec fn dsize_all(s: Seq<DataView>) -> nat
    decreases s,
{
    if s.len() == 0 {
        0
    } else {
        dsize_all(s.subrange(0, s.len() - 1)) + dsize(s[s.len() - 1])
    }
}

/// Every element measures at most its sequence, and at least one.
pub proof fn lemma_dsize_element(s: Seq<DataView>, i: int)
    requires
        0 <= i < s.len(),
    ensures
        1 <= dsize(s[i]) <= dsize_all(s),
    decreases s.len(),
{
    if i < s.len() - 1 {
        lemma_dsize_element(s.subrange(0, s.len() - 1), i);
    }
}

/// `by_value_rank` of an optional type (0 when absent).
pub open spec fn opt_rank(ty: Option<TypeView>, rank: Rank) -> nat {
    match ty {
        Some(ty) => by_value_rank(ty, rank),
        None => 0,
    }
}

/// `tsz` of an optional type (0 when absent).
pub open spec fn opt_size(ty: Option<TypeView>) -> nat {
    match ty {
        Some(ty) => tsz(ty),
        None => 0,
    }
}

/// The plan with one more step.
pub open spec fn add_step(st: PlanView, s: StepView) -> PlanView {
    PlanView { steps: st.steps.push(s), ..st }
}

/// A size mismatch between the known size of the type (if any) and `bits`.
pub open spec fn size_check(t: TableView, rank: Rank, ty: Option<TypeView>, bits: nat) -> Option<InitErrorView> {
    match ty {
        Some(ty) => match type_bits(t, ty, rank) {
            Some(s) => if s != bits {
                Some(InitErrorView::SizeMismatch { expected: s as usize, found: bits as usize })
            } else {
                None
            },
            None => None,
        },
        None => None,
    }
}

/// A size mismatch of an element: as `size_check`, but a type of size 0 is
/// not checked either.
pub open spec fn element_size_check(t: TableView, rank: Rank, ty: Option<TypeView>, bits: nat) -> Option<InitErrorView> {
    match ty {
        Some(ty) => match type_bits(t, ty, rank) {
            Some(s) => if s != 0 && s != bits {
                Some(InitErrorView::SizeMismatch { expected: s as usize, found: bits as usize })
            } else {
                None
            },
            None => None,
        },
        None => None,
    }
}

/// The relation that a value description puts its value in, if it is one
/// of the relations to a named value.
pub open spec fn relation_of(v: AbstractValue) -> Option<(Seq<char>, Relation)> {
    match v {
        AbstractValue::EqualTo(n) => Some((n@, Relation::EqualTo)),
        AbstractValue::SignedLessThan(n) => Some((n@, Relation::SignedLessThan)),
        AbstractValue::SignedGreaterThan(n) => Some((n@, Relation::SignedGreaterThan)),
        AbstractValue::UnsignedLessThan(n) => Some((n@, Relation::UnsignedLessThan)),
        AbstractValue::UnsignedGreaterThan(n) => Some((n@, Relation::UnsignedGreaterThan)),
        _ => None,
    }
}

/// A location moved `n` bits further.
pub open spec fn shifted(at: Location, n: nat) -> Location {
    Location { region: at.region, offset_bits: (at.offset_bits + n) as usize }
}

/// Is `pt` the type `want`, directly or as the definition of the named struct
/// `pt`? `Err` when `pt` is a named struct without a definition.
pub open spec fn pointee_is(t: TableView, pt: TypeView, want: TypeView) -> Result<bool, InitErrorView> {
    if pt == want {
        Ok(true)
    } else {
        match pt {
            TypeView::NamedStruct { name } => match lookup(t, name) {
                Some(Some(def)) => Ok(def == want),
                _ => Err(InitErrorView::OpaqueStruct(name)),
            },
            _ => Ok(false),
        }
    }
}

/// The steps that initialize memory at `at` as the description `d` says,
/// typechecked against the LLVM type `ty` of the data (`None`: no type to
/// check against), inside the structs `ctx`, continuing the plan `st`. Gives
/// the plan after them and the number of bits initialized, or why `d` cannot
/// be used there.
pub open spec fn init(
    t: TableView,
    rank: Rank,
    d: DataView,
    ty: Option<TypeView>,
    at: Location,
    ctx: StructContext,
    st: PlanView,
) -> Result<(PlanView, nat), InitErrorView>
    decreases dsize(d), opt_rank(ty, rank), opt_size(ty) + 1,
{
    match ty {
        // an LLVM array of one element: look inside it
        Some(TypeView::Array { element_type, num_elements }) if num_elements == 1 => match d {
            DataView::Array { element_type: inner, num_elements: n } if n == 1 => init(
                t,
                rank,
                *inner,
                Some(*element_type),
                at,
                ctx,
                st,
            ),
            _ => init(t, rank, d, Some(*element_type), at, ctx, st),
        },
        Some(TypeView::Vector { element_type, num_elements }) if num_elements == 1 => match d {
            DataView::Array { element_type: inner, num_elements: n } if n == 1 => init(
                t,
                rank,
                *inner,
                Some(*element_type),
                at,
                ctx,
                st,
            ),
            _ => init(t, rank, d, Some(*element_type), at, ctx, st),
        },
        // an LLVM struct of one element that the description does not fit:
        // look inside it
        Some(TypeView::Struct { element_types }) if element_types.len() == 1
            && !d.could_describe_one_element_struct() => {
            proof {
                lemma_element_measures(element_types, rank, 0);
            }
            init(t, rank, d, Some(element_types[0]), at, ctx, st)
        },
        Some(TypeView::NamedStruct { name }) => match lookup(t, name) {
            Some(Some(TypeView::Struct { element_types })) if element_types.len() == 1
                && !d.could_describe_one_element_struct() => {
                let def = lookup(t, name).unwrap().unwrap();
                if by_value_rank(def, rank) <= rank(name) {
                    proof {
                        lemma_element_measures(element_types, rank, 0);
                    }
                    init(t, rank, d, Some(element_types[0]), at, ctx, st)
                } else {
                    Err(InitErrorView::TypeMismatch)
                }
            },
            _ => init_data(t, rank, d, ty, at, ctx, st),
        },
        _ => init_data(t, rank, d, ty, at, ctx, st),
    }
}

/// `init`, once the LLVM type is not one to look inside.
pub open spec fn init_data(
    t: TableView,
    rank: Rank,
    d: DataView,
    ty: Option<TypeView>,
    at: Location,
    ctx: StructContext,
    st: PlanView,
) -> Result<(PlanView, nat), InitErrorView>
    decreases dsize(d), 0nat, 0nat,
{
    let here = Target::Memory(at);
    match d {
        DataView::Secret { bits } => Ok((add_step(st, StepView::WriteSecret { at: here, bits }), bits as nat)),
        DataView::PublicValue { bits, value } => match value {
            AbstractValue::ExactValue(v) => match size_check(t, rank, ty, bits as nat) {
                Some(e) => Err(e),
                None => Ok((add_step(st, StepView::WriteValue { at: here, bits, value: v }), bits as nat)),
            },
            AbstractValue::Range(min, max) => match size_check(t, rank, ty, bits as nat) {
                Some(e) => Err(e),
                None => Ok((add_step(st, StepView::ConstrainRange { at: here, bits, min, max }), bits as nat)),
            },
            AbstractValue::Unconstrained => match size_check(t, rank, ty, bits as nat) {
                Some(e) => Err(e),
                None => Ok((st, bits as nat)),
            },
            AbstractValue::Named { name, value: inner } => match init(
                t,
                rank,
                DataView::PublicValue { bits, value: *inner },
                ty,
                at,
                ctx,
                st,
            ) {
                Err(e) => Err(e),
                Ok((st1, _)) => name_value(st1, here, bits, name@),
            },
            _ => {
                let (name, relation) = relation_of(value).unwrap();
                match lookup(st.names, name) {
                    None => Err(InitErrorView::NamedValueNotFound(name)),
                    Some(w) => if w != bits {
                        Err(InitErrorView::NamedWidthMismatch(name))
                    } else {
                        match size_check(t, rank, ty, bits as nat) {
                            Some(e) => Err(e),
                            None => Ok(
                                (add_step(st, StepView::WriteRelated { at: here, bits, name, relation }), bits as nat),
                            ),
                        }
                    },
                }
            },
        },
        DataView::PublicPointerTo { pointee, maybe_null } => {
            let pointee_ty = match ty {
                Some(TypeView::Pointer { pointee_type }) => Ok(Some(*pointee_type)),
                Some(_) => Err(InitErrorView::TypeMismatch),
                None => Ok(None),
            };
            match pointee_ty {
                Err(e) => Err(e),
                Ok(pt) => if st.next_region >= usize::MAX {
                    Err(InitErrorView::TooManyRegions)
                } else {
                    let region = st.next_region as usize;
                    let st1 = PlanView {
                        steps: st.steps.push(
                            StepView::Allocate { at: here, region, bits: pointee.size() as usize, maybe_null },
                        ),
                        next_region: st.next_region + 1,
                        ..st
                    };
                    match init(t, rank, *pointee, pt, Location { region, offset_bits: 0 }, ctx, st1) {
                        Err(e) => Err(e),
                        Ok((st2, _)) => Ok((st2, POINTER_SIZE_BITS as nat)),
                    }
                },
            }
        },
        DataView::PublicPointerToFunction(f) => match ty {
            Some(TypeView::Pointer { .. }) | None => Ok(
                (add_step(st, StepView::PointToFunction { at: here, name: f }), POINTER_SIZE_BITS as nat),
            ),
            _ => Err(InitErrorView::TypeMismatch),
        },
        DataView::PublicPointerToHook(f) => match ty {
            Some(TypeView::Pointer { .. }) | None => Ok(
                (add_step(st, StepView::PointToHook { at: here, name: f }), POINTER_SIZE_BITS as nat),
            ),
            _ => Err(InitErrorView::TypeMismatch),
        },
        DataView::PublicPointerToSelf => match ctx.cur {
            None => Err(InitErrorView::NoCurrentStruct),
            Some((loc, cur_ty)) => {
                let ok = match ty {
                    Some(TypeView::Pointer { pointee_type }) => match pointee_is(t, *pointee_type, cur_ty) {
                        Ok(true) => Ok(()),
                        Ok(false) => Err(InitErrorView::TypeMismatch),
                        Err(e) => Err(e),
                    },
                    Some(_) => Err(InitErrorView::TypeMismatch),
                    None => Ok(()),
                };
                match ok {
                    Err(e) => Err(e),
                    Ok(_) => Ok((add_step(st, StepView::PointTo { at: here, target: loc }), POINTER_SIZE_BITS as nat)),
                }
            },
        },
        DataView::PublicPointerToParentOr(backup) => {
            let parent_ptr: Result<Option<Location>, InitErrorView> = match ctx.parent {
                None => Ok(None),
                Some((ploc, pty)) => match ty {
                    Some(TypeView::Pointer { pointee_type }) => match pointee_is(t, *pointee_type, pty) {
                        Ok(true) => Ok(Some(ploc)),
                        Ok(false) => Ok(None),
                        Err(e) => Err(e),
                    },
                    Some(_) => Err(InitErrorView::TypeMismatch),
                    None => match backup {
                        None => Ok(Some(ploc)),
                        Some(_) => Err(InitErrorView::UnknownParentType),
                    },
                },
            };
            match parent_ptr {
                Err(e) => Err(e),
                Ok(Some(p)) => Ok((add_step(st, StepView::PointTo { at: here, target: p }), POINTER_SIZE_BITS as nat)),
                Ok(None) => match backup {
                    Some(b) => init(
                        t,
                        rank,
                        DataView::PublicPointerTo { pointee: b, maybe_null: false },
                        ty,
                        at,
                        ctx,
                        st,
                    ),
                    None => match ctx.parent {
                        None => Err(InitErrorView::NoParent),
                        Some(_) => Err(InitErrorView::TypeMismatch),
                    },
                },
            }
        },
        DataView::Array { element_type, num_elements } => {
            let elem_ty: Result<Option<TypeView>, InitErrorView> = match ty {
                Some(TypeView::Array { element_type: et, num_elements: found }) => if found != 0
                    && found != num_elements {
                    Err(InitErrorView::ArrayLengthMismatch { expected: num_elements, found })
                } else {
                    Ok(Some(*et))
                },
                _ => Ok(ty),
            };
            let es = element_type.size();
            match elem_ty {
                Err(e) => Err(e),
                Ok(ety) => match element_size_check(t, rank, ety, es) {
                    Some(e) => Err(e),
                    None => match *element_type {
                        DataView::Secret { .. } => init(
                            t,
                            rank,
                            DataView::Secret { bits: (es * num_elements) as usize },
                            ty,
                            at,
                            ctx,
                            st,
                        ),
                        DataView::PublicValue { bits, value: AbstractValue::Unconstrained } => Ok(
                            (st, (bits as nat) * (num_elements as nat)),
                        ),
                        _ => if es % 8 != 0 {
                            Err(InitErrorView::ElementNotWholeBytes(es as usize))
                        } else if num_elements == 0 {
                            Err(InitErrorView::EmptyArray)
                        } else {
                            match init_array(t, rank, *element_type, ety, at, num_elements as nat, ctx, st) {
                                Err(e) => Err(e),
                                Ok(st1) => Ok((st1, es * (num_elements as nat))),
                            }
                        },
                    },
                },
            }
        },
        DataView::Struct { name, elements } => {
            let element_types: Result<Seq<Option<TypeView>>, InitErrorView> = match ty {
                Some(TypeView::Struct { element_types }) => Ok(
                    Seq::new(element_types.len(), |i: int| Some(element_types[i])),
                ),
                Some(TypeView::NamedStruct { name: n }) => match lookup(t, n) {
                    Some(Some(TypeView::Struct { element_types })) => Ok(
                        Seq::new(element_types.len(), |i: int| Some(element_types[i])),
                    ),
                    Some(Some(_)) => Err(InitErrorView::TypeMismatch),
                    _ => Ok(Seq::new(elements.len(), |i: int| None::<TypeView>)),
                },
                Some(_) => Err(InitErrorView::TypeMismatch),
                None => Ok(Seq::new(elements.len(), |i: int| None::<TypeView>)),
            };
            match element_types {
                Err(e) => Err(e),
                Ok(tys) => if tys.len() != elements.len() {
                    Err(InitErrorView::StructLengthMismatch { elements: elements.len() as usize, types: tys.len() as usize })
                } else {
                    let inner = StructContext {
                        cur: match ty {
                            Some(ty) => Some((at, ty)),
                            None => None,
                        },
                        parent: ctx.cur,
                    };
                    match init_struct(t, rank, elements, tys, at, inner, st) {
                        Err(e) => Err(e),
                        Ok(st1) => Ok((st1, DataView::sum_sizes(elements))),
                    }
                },
            }
        },
        DataView::VoidOverride { llvm_struct_name, data } => {
            let ok = match ty {
                Some(TypeView::Integer { bits }) => bits == 8,
                Some(_) => false,
                None => true,
            };
            if !ok {
                Err(InitErrorView::TypeMismatch)
            } else {
                match llvm_struct_name {
                    None => init(t, rank, *data, None, at, ctx, st),
                    Some(n) => match lookup(t, n) {
                        None => Err(InitErrorView::StructNotFound(n)),
                        Some(None) => Err(InitErrorView::OpaqueStruct(n)),
                        Some(Some(def)) => init(t, rank, *data, Some(def), at, ctx, st),
                    },
                }
            }
        },
        DataView::SameSizeOverride { data } => match size_check(t, rank, ty, data.size()) {
            Some(e) => Err(e),
            None => init(t, rank, *data, None, at, ctx, st),
        },
        DataView::WithWatchpoint { name, data } => init(
            t,
            rank,
            *data,
            ty,
            at,
            ctx,
            add_step(st, StepView::Watch { at: here, bytes: (data.size() / 8) as usize, name }),
        ),
    }
}

/// Records the value of `bits` bits at `at` under `name`: the first value
/// with a name gives it its width; a later one must have that width and is
/// constrained to be equal.
pub open spec fn name_value(st: PlanView, at: Target, bits: usize, name: Seq<char>) -> Result<(PlanView, nat), InitErrorView> {
    match lookup(st.names, name) {
        None => Ok(
            (
                PlanView {
                    steps: st.steps.push(StepView::NameValue { at, bits, name, first: true }),
                    names: st.names.push((name, bits)),
                    ..st
                },
                bits as nat,
            ),
        ),
        Some(w) => if w != bits {
            Err(InitErrorView::NamedWidthMismatch(name))
        } else {
            Ok((add_step(st, StepView::NameValue { at, bits, name, first: false }), bits as nat))
        },
    }
}

/// The first `n` elements of an array of `e`, each element at its place
/// after `at`, in order.
pub open spec fn init_array(
    t: TableView,
    rank: Rank,
    e: DataView,
    ety: Option<TypeView>,
    at: Location,
    n: nat,
    ctx: StructContext,
    st: PlanView,
) -> Result<PlanView, InitErrorView>
    decreases dsize(e) + 1, n, 0nat,
{
    if n == 0 {
        Ok(st)
    } else {
        match init_array(t, rank, e, ety, at, (n - 1) as nat, ctx, st) {
            Err(err) => Err(err),
            Ok(st1) => match init(t, rank, e, ety, shifted(at, e.size() * ((n - 1) as nat)), ctx, st1) {
                Err(err) => Err(err),
                Ok((st2, _)) => Ok(st2),
            },
        }
    }
}

/// The elements of a struct, each at its offset after `at`, in order.
pub open spec fn init_struct(
    t: TableView,
    rank: Rank,
    elements: Seq<DataView>,
    tys: Seq<Option<TypeView>>,
    at: Location,
    ctx: StructContext,
    st: PlanView,
) -> Result<PlanView, InitErrorView>
    decreases dsize_all(elements) + 1, 0nat, 0nat,
{
    if elements.len() == 0 {
        Ok(st)
    } else {
        let k = elements.len() - 1;
        proof {
            lemma_dsize_element(elements, k);
        }
        match init_struct(t, rank, elements.subrange(0, k), tys.subrange(0, k), at, ctx, st) {
            Err(err) => Err(err),
            Ok(st1) => {
                let e = elements[k];
                let es = e.size();
                match element_size_check(t, rank, tys[k], es) {
                    Some(err) => Err(err),
                    None => if es % 8 != 0 {
                        Err(InitErrorView::ElementNotWholeBytes(es as usize))
                    } else {
                        match init(
                            t,
                            rank,
                            e,
                            tys[k],
                            shifted(at, DataView::sum_sizes(elements.subrange(0, k))),
                            ctx,
                            st1,
                        ) {
                            Err(err) => Err(err),
                            Ok((st2, _)) => Ok(st2),
                        }
                    },
                }
            },
        }
    }
}

/// Does every size met while initializing the described data, the
/// pointees' included, fit in a `usize`?
pub open spec fn all_fit(d: DataView) -> bool
    decreases d,
{
    &&& d.size() <= usize::MAX
    &&& match d {
        DataView::Array { element_type, .. } => all_fit(*element_type),
        DataView::Struct { elements, .. } => forall|i: int| 0 <= i < elements.len() ==> all_fit(#[trigger] elements[i]),
        DataView::PublicPointerTo { pointee, .. } => all_fit(*pointee),
        DataView::PublicPointerToParentOr(Some(b)) => all_fit(*b),
        DataView::VoidOverride { data, .. } => all_fit(*data),
        DataView::SameSizeOverride { data } => all_fit(*data),
        DataView::WithWatchpoint { data, .. } => all_fit(*data),
        _ => true,
    }
}

/// Everything that fits deeply fits.
pub proof fn lemma_all_fit_fits(d: DataView)
    requires
        all_fit(d),
    ensures
        d.fits(),
    decreases d,
{
    match d {
        DataView::Array { element_type, .. } => lemma_all_fit_fits(*element_type),
        DataView::Struct { elements, .. } => {
            assert forall|i: int| 0 <= i < elements.len() implies (#[trigger] elements[i]).fits() by {
                lemma_all_fit_fits(elements[i]);
            }
        },
        DataView::VoidOverride { data, .. } => lemma_all_fit_fits(*data),
        DataView::SameSizeOverride { data } => lemma_all_fit_fits(*data),
        DataView::WithWatchpoint { data, .. } => lemma_all_fit_fits(*data),
        _ => {},
    }
}

/// Are the two LLVM types the same?
pub fn same_type(a: &LlvmType, b: &LlvmType) -> (r: bool)
    ensures
        r == (a@ == b@),
    decreases a, 0nat,
{
    match (a, b) {
        (LlvmType::Void, LlvmType::Void) => true,
        (LlvmType::Integer { bits: x }, LlvmType::Integer { bits: y }) => *x == *y,
        (LlvmType::Pointer { pointee_type: p }, LlvmType::Pointer { pointee_type: q }) => same_type(p, q),
        (LlvmType::FloatingPoint { bits: x }, LlvmType::FloatingPoint { bits: y }) => *x == *y,
        (LlvmType::Func, LlvmType::Func) => true,
        (
            LlvmType::Array { element_type: e1, num_elements: n1 },
            LlvmType::Array { element_type: e2, num_elements: n2 },
        ) => *n1 == *n2 && same_type(e1, e2),
        (
            LlvmType::Vector { element_type: e1, num_elements: n1 },
            LlvmType::Vector { element_type: e2, num_elements: n2 },
        ) => *n1 == *n2 && same_type(e1, e2),
        (LlvmType::Struct { element_types: es1 }, LlvmType::Struct { element_types: es2 }) => {
            let r = same_types(es1, es2);
            proof {
                LlvmType::lemma_models(es1@);
                LlvmType::lemma_models(es2@);
                if r {
                    assert(LlvmType::models(es1@) =~= LlvmType::models(es2@));
                } else if es1@.len() == es2@.len() {
                    let j = choose|j: int| 0 <= j < es1@.len() && #[trigger] es1@[j].model() != es2@[j].model();
                    assert(LlvmType::models(es1@)[j] != LlvmType::models(es2@)[j]);
                }
            }
            r
        },
        (LlvmType::NamedStruct { name: n1 }, LlvmType::NamedStruct { name: n2 }) => *n1 == *n2,
        (LlvmType::Other, LlvmType::Other) => true,
        _ => false,
    }
}

/// Are the two sequences of types the same, element by element?
fn same_types(es1: &Vec<LlvmType>, es2: &Vec<LlvmType>) -> (r: bool)
    ensures
        r == (es1@.len() == es2@.len() && forall|j: int|
            0 <= j < es1@.len() ==> #[trigger] es1@[j].model() == es2@[j].model()),
    decreases es1@, 0nat,
{
    if es1.len() != es2.len() {
        return false;
    }
    let mut i: usize = 0;
    while i < es1.len()
        invariant
            i <= es1@.len(),
            es1@.len() == es2@.len(),
            forall|j: int| 0 <= j < i ==> #[trigger] es1@[j].model() == es2@[j].model(),
        decreases es1@.len() - i,
    {
        assert(decreases_to!(es1@ => es1@[i as int]));
        if !same_type(&es1[i], &es2[i]) {
            return false;
        }
        i = i + 1;
    }
    true
}

/// The structs around the data being initialized, with their LLVM types.
pub struct StructCtx<'a> {
    pub cur: Option<(Location, &'a LlvmType)>,
    pub parent: Option<(Location, &'a LlvmType)>,
}

/// The model of an optional located type.
pub open spec fn located_view(o: Option<(Location, &LlvmType)>) -> Option<(Location, TypeView)> {
    match o {
        Some((l, t)) => Some((l, t@)),
        None => None,
    }
}

impl<'a> StructCtx<'a> {
    pub open spec fn view(&self) -> StructContext {
        StructContext { cur: located_view(self.cur), parent: located_view(self.parent) }
    }
}

/// A plan of initialization steps being built, with the widths of the named
/// values met so far and the next free region.
pub struct Planner {
    steps: Vec<InitStep>,
    names: NameMap<usize>,
    next_region: usize,
}

/// The models of a sequence of steps.
pub open spec fn steps_view(s: Seq<InitStep>) -> Seq<StepView> {
    Seq::new(s.len(), |i: int| s[i]@)
}

impl View for Planner {
    type V = PlanView;

    closed spec fn view(&self) -> PlanView {
        PlanView { steps: steps_view(self.steps@), names: self.names@, next_region: self.next_region as nat }
    }
}

/// The model of an optional type reference.
pub open spec fn ty_view(ty: Option<&LlvmType>) -> Option<TypeView> {
    match ty {
        Some(t) => Some(t@),
        None => None,
    }
}

impl Planner {
    /// An empty plan: no steps, no named values; region 0 is the memory to
    /// initialize, so the next free region is 1.
    pub fn new() -> (r: Self)
        ensures
            r@.steps == Seq::<StepView>::empty(),
            r@.names == Seq::<(Seq<char>, usize)>::empty(),
            r@.next_region == 1,
    {
        let r = Planner { steps: Vec::new(), names: NameMap::new(), next_region: 1 };
        assert(steps_view(r.steps@) =~= Seq::<StepView>::empty());
        r
    }

    /// The steps planned, in order.
    pub fn into_steps(self) -> (r: Vec<InitStep>)
        ensures
            steps_view(r@) == self@.steps,
    {
        self.steps
    }

    fn add(&mut self, s: InitStep)
        ensures
            final(self)@ == add_step(old(self)@, s@),
    {
        let ghost s0 = self.steps@;
        self.steps.push(s);
        assert(steps_view(self.steps@) =~= steps_view(s0).push(s@));
    }

    fn name_value(&mut self, at: Target, bits: usize, name: &String) -> (r: Result<usize, InitError>)
        ensures
            match r {
                Ok(b) => name_value(old(self)@, at, bits, name@) == Ok::<(PlanView, nat), InitErrorView>((final(self)@, b as nat)),
                Err(e) => name_value(old(self)@, at, bits, name@) == Err::<(PlanView, nat), InitErrorView>(e@),
            },
    {
        match self.names.get(name.as_str()) {
            None => {
                self.add(InitStep::NameValue { at, bits, name: name.clone(), first: true });
                self.names.insert(name.as_str(), bits);
                Ok(bits)
            },
            Some(w) => {
                if *w != bits {
                    Err(InitError::NamedWidthMismatch(name.clone()))
                } else {
                    self.add(InitStep::NameValue { at, bits, name: name.clone(), first: false });
                    Ok(bits)
                }
            },
        }
    }
}

/// The LLVM types of the elements of a struct, when known.
pub open spec fn tys_view(tys: Seq<Option<&LlvmType>>) -> Seq<Option<TypeView>> {
    Seq::new(tys.len(), |i: int| ty_view(tys[i]))
}

/// A size mismatch between the known size of the type and `bits`; see
/// `size_check`.
fn check_size(t: &StructTable, ty: Option<&LlvmType>, bits: usize, Ghost(rank): Ghost<Rank>) -> (r: Option<InitError>)
    requires
        ranked(t@, rank),
    ensures
        match r {
            Some(e) => size_check(t@, rank, ty_view(ty), bits as nat) == Some(e@),
            None => size_check(t@, rank, ty_view(ty), bits as nat) is None,
        },
{
    match ty {
        Some(ty) => match t.bits_of(ty, Ghost(rank)) {
            Some(s) => if s != bits {
                Some(InitError::SizeMismatch { expected: s, found: bits })
            } else {
                None
            },
            None => None,
        },
        None => None,
    }
}

/// A size mismatch of an element; see `element_size_check`.
fn check_element_size(t: &StructTable, ty: Option<&LlvmType>, bits: usize, Ghost(rank): Ghost<Rank>) -> (r: Option<
    InitError,
>)
    requires
        ranked(t@, rank),
    ensures
        match r {
            Some(e) => element_size_check(t@, rank, ty_view(ty), bits as nat) == Some(e@),
            None => element_size_check(t@, rank, ty_view(ty), bits as nat) is None,
        },
{
    match ty {
        Some(ty) => match t.bits_of(ty, Ghost(rank)) {
            Some(s) => if s != 0 && s != bits {
                Some(InitError::SizeMismatch { expected: s, found: bits })
            } else {
                None
            },
            None => None,
        },
        None => None,
    }
}

/// See `pointee_is`.
fn check_pointee(t: &StructTable, pt: &LlvmType, want: &LlvmType) -> (r: Result<bool, InitError>)
    ensures
        match r {
            Ok(b) => pointee_is(t@, pt@, want@) == Ok::<bool, InitErrorView>(b),
            Err(e) => pointee_is(t@, pt@, want@) == Err::<bool, InitErrorView>(e@),
        },
{
    if same_type(pt, want) {
        return Ok(true);
    }
    match pt {
        LlvmType::NamedStruct { name } => match t.get(name.as_str()) {
            Some(NamedStructDef::Defined(def)) => Ok(same_type(def, want)),
            _ => Err(InitError::OpaqueStruct(name.clone())),
        },
        _ => Ok(false),
    }
}

/// Once the first `k` elements of an array fail, so do the first `m`, for
/// every `m` from `k` on, with the same error.
proof fn lemma_init_array_err(
    t: TableView,
    rank: Rank,
    e: DataView,
    ety: Option<TypeView>,
    at: Location,
    k: nat,
    m: nat,
    ctx: StructContext,
    st: PlanView,
)
    requires
        k <= m,
        init_array(t, rank, e, ety, at, k, ctx, st) is Err,
    ensures
        init_array(t, rank, e, ety, at, m, ctx, st) == init_array(t, rank, e, ety, at, k, ctx, st),
    decreases m - k,
{
    if k < m {
        lemma_init_array_err(t, rank, e, ety, at, k, (m - 1) as nat, ctx, st);
    }
}

/// Once a prefix of a struct's elements fails, so does the whole struct, with
/// the same error.
proof fn lemma_init_struct_err(
    t: TableView,
    rank: Rank,
    elements: Seq<DataView>,
    tys: Seq<Option<TypeView>>,
    k: int,
    at: Location,
    ctx: StructContext,
    st: PlanView,
)
    requires
        0 <= k <= elements.len(),
        tys.len() == elements.len(),
        init_struct(t, rank, elements.subrange(0, k), tys.subrange(0, k), at, ctx, st) is Err,
    ensures
        init_struct(t, rank, elements, tys, at, ctx, st) == init_struct(
            t,
            rank,
            elements.subrange(0, k),
            tys.subrange(0, k),
            at,
            ctx,
            st,
        ),
    decreases elements.len() - k,
{
    if k < elements.len() {
        let n = elements.len() - 1;
        assert(elements.subrange(0, n).subrange(0, k) =~= elements.subrange(0, k));
        assert(tys.subrange(0, n).subrange(0, k) =~= tys.subrange(0, k));
        lemma_init_struct_err(t, rank, elements.subrange(0, n), tys.subrange(0, n), k, at, ctx, st);
    } else {
        assert(elements.subrange(0, k) =~= elements);
        assert(tys.subrange(0, k) =~= tys);
    }
}

/// What `init` and its helpers need of their arguments.
pub open spec fn init_requires(t: TableView, rank: Rank, d: DataView, at: Location) -> bool {
    &&& ranked(t, rank)
    &&& all_fit(d)
    &&& at.offset_bits + d.size() <= usize::MAX
}

/// What `init` and its helpers promise of their result.
pub open spec fn init_ensures(
    spec_result: Result<(PlanView, nat), InitErrorView>,
    r: Result<usize, InitError>,
    final_plan: PlanView,
) -> bool {
    match r {
        Ok(b) => spec_result == Ok::<(PlanView, nat), InitErrorView>((final_plan, b as nat)),
        Err(e) => spec_result == Err::<(PlanView, nat), InitErrorView>(e@),
    }
}

impl Planner {
    /// See the spec function `init`.
    fn init<'a>(
        &mut self,
        t: &'a StructTable,
        d: &CompleteAbstractData,
        ty: Option<&'a LlvmType>,
        at: Location,
        ctx: &StructCtx<'a>,
        Ghost(rank): Ghost<Rank>,
    ) -> (r: Result<usize, InitError>)
        requires
            init_requires(t@, rank, d@, at),
        ensures
            init_ensures(init(t@, rank, d@, ty_view(ty), at, ctx@, old(self)@), r, final(self)@),
        decreases dsize(d@), opt_rank(ty_view(ty), rank), opt_size(ty_view(ty)) + 2,
    {
        match ty {
            Some(LlvmType::Array { element_type, num_elements }) | Some(LlvmType::Vector { element_type, num_elements }) => {
                if *num_elements == 1 {
                    match d {
                        CompleteAbstractData::Array { element_type: inner, num_elements: n } => {
                            if *n == 1 {
                                proof {
                                    assert(inner@.size() * 1 == inner@.size()) by (nonlinear_arith);
                                }
                                return self.init(t, inner, Some(element_type), at, ctx, Ghost(rank));
                            }
                        },
                        _ => {},
                    }
                    return self.init(t, d, Some(element_type), at, ctx, Ghost(rank));
                }
            },
            Some(LlvmType::Struct { element_types }) => {
                proof {
                    LlvmType::lemma_models(element_types@);
                }
                if element_types.len() == 1 && !d.could_describe_a_struct_of_one_element() {
                    proof {
                        lemma_element_measures(LlvmType::models(element_types@), rank, 0);
                    }
                    return self.init(t, d, Some(&element_types[0]), at, ctx, Ghost(rank));
                }
            },
            Some(LlvmType::NamedStruct { name }) => {
                match t.get(name.as_str()) {
                    Some(NamedStructDef::Defined(def)) => {
                        match def {
                            LlvmType::Struct { element_types } => {
                                proof {
                                    LlvmType::lemma_models(element_types@);
                                }
                                if element_types.len() == 1 && !d.could_describe_a_struct_of_one_element() {
                                    proof {
                                        lemma_ranked_lookup(t@, rank, name@);
                                        LlvmType::lemma_models(element_types@);
                                        lemma_element_measures(LlvmType::models(element_types@), rank, 0);
                                    }
                                    return self.init(t, d, Some(&element_types[0]), at, ctx, Ghost(rank));
                                }
                            },
                            _ => {},
                        }
                    },
                    _ => {},
                }
            },
            _ => {},
        }
        self.init_data(t, d, ty, at, ctx, Ghost(rank))
    }

    /// See the spec function `init_data`.
    fn init_data<'a>(
        &mut self,
        t: &'a StructTable,
        d: &CompleteAbstractData,
        ty: Option<&'a LlvmType>,
        at: Location,
        ctx: &StructCtx<'a>,
        Ghost(rank): Ghost<Rank>,
    ) -> (r: Result<usize, InitError>)
        requires
            init_requires(t@, rank, d@, at),
        ensures
            init_ensures(init_data(t@, rank, d@, ty_view(ty), at, ctx@, old(self)@), r, final(self)@),
        decreases dsize(d@), 0nat, 1nat,
    {
        match d {
            CompleteAbstractData::Secret { bits } => {
                self.add(InitStep::WriteSecret { at: Target::Memory(at), bits: *bits });
                Ok(*bits)
            },
            CompleteAbstractData::PublicValue { .. } => self.init_value(t, d, ty, at, ctx, Ghost(rank)),
            CompleteAbstractData::PublicPointerTo { .. } => self.init_pointer(t, d, ty, at, ctx, Ghost(rank)),
            CompleteAbstractData::PublicPointerToFunction(f) => match ty {
                Some(LlvmType::Pointer { .. }) | None => {
                    self.add(InitStep::PointToFunction { at: Target::Memory(at), name: f.clone() });
                    Ok(POINTER_SIZE_BITS)
                },
                _ => Err(InitError::TypeMismatch),
            },
            CompleteAbstractData::PublicPointerToHook(f) => match ty {
                Some(LlvmType::Pointer { .. }) | None => {
                    self.add(InitStep::PointToHook { at: Target::Memory(at), name: f.clone() });
                    Ok(POINTER_SIZE_BITS)
                },
                _ => Err(InitError::TypeMismatch),
            },
            CompleteAbstractData::PublicPointerToSelf => self.init_self(t, ty, at, ctx),
            CompleteAbstractData::PublicPointerToParentOr(_) => self.init_parent_or(t, d, ty, at, ctx, Ghost(rank)),
            CompleteAbstractData::Array { .. } => self.init_array(t, d, ty, at, ctx, Ghost(rank)),
            CompleteAbstractData::Struct { .. } => self.init_struct(t, d, ty, at, ctx, Ghost(rank)),
            CompleteAbstractData::VoidOverride { llvm_struct_name, data } => {
                let ok = match ty {
                    Some(LlvmType::Integer { bits }) => *bits == 8,
                    Some(_) => false,
                    None => true,
                };
                if !ok {
                    return Err(InitError::TypeMismatch);
                }
                match llvm_struct_name {
                    None => self.init(t, data, None, at, ctx, Ghost(rank)),
                    Some(n) => match t.get(n.as_str()) {
                        None => Err(InitError::StructNotFound(n.clone())),
                        Some(NamedStructDef::Opaque) => Err(InitError::OpaqueStruct(n.clone())),
                        Some(NamedStructDef::Defined(def)) => self.init(t, data, Some(def), at, ctx, Ghost(rank)),
                    },
                }
            },
            CompleteAbstractData::SameSizeOverride { data } => {
                proof {
                    lemma_all_fit_fits(data@);
                }
                match check_size(t, ty, data.size_in_bits(), Ghost(rank)) {
                    Some(e) => Err(e),
                    None => self.init(t, data, None, at, ctx, Ghost(rank)),
                }
            },
            CompleteAbstractData::WithWatchpoint { name, data } => {
                proof {
                    lemma_all_fit_fits(data@);
                }
                let bytes = data.size_in_bits() / 8;
                self.add(InitStep::Watch { at: Target::Memory(at), bytes, name: name.clone() });
                self.init(t, data, ty, at, ctx, Ghost(rank))
            },
        }
    }

    /// `init_data` of a public value.
    fn init_value<'a>(
        &mut self,
        t: &'a StructTable,
        d: &CompleteAbstractData,
        ty: Option<&'a LlvmType>,
        at: Location,
        ctx: &StructCtx<'a>,
        Ghost(rank): Ghost<Rank>,
    ) -> (r: Result<usize, InitError>)
        requires
            init_requires(t@, rank, d@, at),
            d@ is PublicValue,
        ensures
            init_ensures(init_data(t@, rank, d@, ty_view(ty), at, ctx@, old(self)@), r, final(self)@),
        decreases dsize(d@), 0nat, 0nat,
    {
        let here = Target::Memory(at);
        match d {
            CompleteAbstractData::PublicValue { bits, value } => {
                let bits = *bits;
                match value {
                    AbstractValue::ExactValue(v) => match check_size(t, ty, bits, Ghost(rank)) {
                        Some(e) => Err(e),
                        None => {
                            self.add(InitStep::WriteValue { at: here, bits, value: *v });
                            Ok(bits)
                        },
                    },
                    AbstractValue::Range(min, max) => match check_size(t, ty, bits, Ghost(rank)) {
                        Some(e) => Err(e),
                        None => {
                            self.add(InitStep::ConstrainRange { at: here, bits, min: *min, max: *max });
                            Ok(bits)
                        },
                    },
                    AbstractValue::Unconstrained => match check_size(t, ty, bits, Ghost(rank)) {
                        Some(e) => Err(e),
                        None => Ok(bits),
                    },
                    AbstractValue::Named { name, value: inner } => {
                        let unwrapped = CompleteAbstractData::PublicValue { bits, value: (**inner).clone() };
                        match self.init(t, &unwrapped, ty, at, ctx, Ghost(rank)) {
                            Err(e) => Err(e),
                            Ok(_) => self.name_value(here, bits, name),
                        }
                    },
                    AbstractValue::EqualTo(name) => self.init_related(t, bits, name, Relation::EqualTo, ty, here, Ghost(rank)),
                    AbstractValue::SignedLessThan(name) => self.init_related(
                        t,
                        bits,
                        name,
                        Relation::SignedLessThan,
                        ty,
                        here,
                        Ghost(rank),
                    ),
                    AbstractValue::SignedGreaterThan(name) => self.init_related(
                        t,
                        bits,
                        name,
                        Relation::SignedGreaterThan,
                        ty,
                        here,
                        Ghost(rank),
                    ),
                    AbstractValue::UnsignedLessThan(name) => self.init_related(
                        t,
                        bits,
                        name,
                        Relation::UnsignedLessThan,
                        ty,
                        here,
                        Ghost(rank),
                    ),
                    AbstractValue::UnsignedGreaterThan(name) => self.init_related(
                        t,
                        bits,
                        name,
                        Relation::UnsignedGreaterThan,
                        ty,
                        here,
                        Ghost(rank),
                    ),
                }
            },
            _ => {
                proof {
                    assert(false);
                }
                Err(InitError::TypeMismatch)
            },
        }
    }

    /// A value in a relation to the named value, at `at`.
    fn init_related(
        &mut self,
        t: &StructTable,
        bits: usize,
        name: &String,
        relation: Relation,
        ty: Option<&LlvmType>,
        at: Target,
        Ghost(rank): Ghost<Rank>,
    ) -> (r: Result<usize, InitError>)
        requires
            ranked(t@, rank),
        ensures
            init_ensures(
                match lookup(old(self)@.names, name@) {
                    None => Err(InitErrorView::NamedValueNotFound(name@)),
                    Some(w) => if w != bits {
                        Err(InitErrorView::NamedWidthMismatch(name@))
                    } else {
                        match size_check(t@, rank, ty_view(ty), bits as nat) {
                            Some(e) => Err(e),
                            None => Ok(
                                (
                                    add_step(old(self)@, StepView::WriteRelated { at, bits, name: name@, relation }),
                                    bits as nat,
                                ),
                            ),
                        }
                    },
                },
                r,
                final(self)@,
            ),
    {
        match self.names.get(name.as_str()) {
            None => Err(InitError::NamedValueNotFound(name.clone())),
            Some(w) => {
                if *w != bits {
                    Err(InitError::NamedWidthMismatch(name.clone()))
                } else {
                    match check_size(t, ty, bits, Ghost(rank)) {
                        Some(e) => Err(e),
                        None => {
                            self.add(InitStep::WriteRelated { at, bits, name: name.clone(), relation });
                            Ok(bits)
                        },
                    }
                }
            },
        }
    }

    /// `init_data` of a pointer to described data: allocate a region for the
    /// pointee, point to it, and initialize it.
    fn init_pointer<'a>(
        &mut self,
        t: &'a StructTable,
        d: &CompleteAbstractData,
        ty: Option<&'a LlvmType>,
        at: Location,
        ctx: &StructCtx<'a>,
        Ghost(rank): Ghost<Rank>,
    ) -> (r: Result<usize, InitError>)
        requires
            init_requires(t@, rank, d@, at),
            d@ is PublicPointerTo,
        ensures
            init_ensures(init_data(t@, rank, d@, ty_view(ty), at, ctx@, old(self)@), r, final(self)@),
        decreases dsize(d@), 0nat, 0nat,
    {
        match d {
            CompleteAbstractData::PublicPointerTo { pointee, maybe_null } => {
                let pt: Option<&'a LlvmType> = match ty {
                    Some(LlvmType::Pointer { pointee_type }) => Some(pointee_type),
                    Some(_) => {
                        return Err(InitError::TypeMismatch);
                    },
                    None => None,
                };
                if self.next_region == usize::MAX {
                    return Err(InitError::TooManyRegions);
                }
                let region = self.next_region;
                proof {
                    lemma_all_fit_fits(pointee@);
                }
                let bits = pointee.size_in_bits();
                self.add(InitStep::Allocate { at: Target::Memory(at), region, bits, maybe_null: *maybe_null });
                self.next_region = region + 1;
                match self.init(t, pointee, pt, Location { region, offset_bits: 0 }, ctx, Ghost(rank)) {
                    Err(e) => Err(e),
                    Ok(_) => Ok(POINTER_SIZE_BITS),
                }
            },
            _ => {
                proof {
                    assert(false);
                }
                Err(InitError::TypeMismatch)
            },
        }
    }

    /// `init_data` of a pointer to the containing struct.
    fn init_self<'a>(&mut self, t: &'a StructTable, ty: Option<&'a LlvmType>, at: Location, ctx: &StructCtx<'a>) -> (r:
        Result<usize, InitError>)
        ensures
            forall|rank: Rank|
                init_ensures(
                    #[trigger] init_data(t@, rank, DataView::PublicPointerToSelf, ty_view(ty), at, ctx@, old(self)@),
                    r,
                    final(self)@,
                ),
    {
        match ctx.cur {
            None => Err(InitError::NoCurrentStruct),
            Some((loc, cur_ty)) => {
                match ty {
                    Some(LlvmType::Pointer { pointee_type }) => match check_pointee(t, pointee_type, cur_ty) {
                        Ok(true) => {},
                        Ok(false) => {
                            return Err(InitError::TypeMismatch);
                        },
                        Err(e) => {
                            return Err(e);
                        },
                    },
                    Some(_) => {
                        return Err(InitError::TypeMismatch);
                    },
                    None => {},
                }
                self.add(InitStep::PointTo { at: Target::Memory(at), target: loc });
                Ok(POINTER_SIZE_BITS)
            },
        }
    }

    /// `init_data` of a pointer to the parent struct, or else to the backup.
    fn init_parent_or<'a>(
        &mut self,
        t: &'a StructTable,
        d: &CompleteAbstractData,
        ty: Option<&'a LlvmType>,
        at: Location,
        ctx: &StructCtx<'a>,
        Ghost(rank): Ghost<Rank>,
    ) -> (r: Result<usize, InitError>)
        requires
            init_requires(t@, rank, d@, at),
            d@ is PublicPointerToParentOr,
        ensures
            init_ensures(init_data(t@, rank, d@, ty_view(ty), at, ctx@, old(self)@), r, final(self)@),
        decreases dsize(d@), 0nat, 0nat,
    {
        match d {
            CompleteAbstractData::PublicPointerToParentOr(backup) => {
                let parent_ptr: Option<Location> = match ctx.parent {
                    None => None,
                    Some((ploc, pty)) => match ty {
                        Some(LlvmType::Pointer { pointee_type }) => match check_pointee(t, pointee_type, pty) {
                            Err(e) => {
                                return Err(e);
                            },
                            Ok(true) => Some(ploc),
                            Ok(false) => None,
                        },
                        Some(_) => {
                            return Err(InitError::TypeMismatch);
                        },
                        None => match backup {
                            None => Some(ploc),
                            Some(_) => {
                                return Err(InitError::UnknownParentType);
                            },
                        },
                    },
                };
                match parent_ptr {
                    Some(p) => {
                        self.add(InitStep::PointTo { at: Target::Memory(at), target: p });
                        Ok(POINTER_SIZE_BITS)
                    },
                    None => match backup {
                        Some(b) => {
                            let alt = CompleteAbstractData::PublicPointerTo { pointee: Box::new((**b).clone()), maybe_null: false };
                            self.init(t, &alt, ty, at, ctx, Ghost(rank))
                        },
                        None => match ctx.parent {
                            None => Err(InitError::NoParent),
                            Some(_) => Err(InitError::TypeMismatch),
                        },
                    },
                }
            },
            _ => {
                proof {
                    assert(false);
                }
                Err(InitError::TypeMismatch)
            },
        }
    }

    /// `init_data` of an array.
    #[verifier::loop_isolation(false)]
    fn init_array<'a>(
        &mut self,
        t: &'a StructTable,
        d: &CompleteAbstractData,
        ty: Option<&'a LlvmType>,
        at: Location,
        ctx: &StructCtx<'a>,
        Ghost(rank): Ghost<Rank>,
    ) -> (r: Result<usize, InitError>)
        requires
            init_requires(t@, rank, d@, at),
            d@ is Array,
        ensures
            init_ensures(init_data(t@, rank, d@, ty_view(ty), at, ctx@, old(self)@), r, final(self)@),
        decreases dsize(d@), 0nat, 0nat,
    {
        match d {
            CompleteAbstractData::Array { element_type: e, num_elements } => {
                let n = *num_elements;
                let ety: Option<&'a LlvmType> = match ty {
                    Some(LlvmType::Array { element_type: et, num_elements: found }) => {
                        if *found != 0 && *found != n {
                            return Err(InitError::ArrayLengthMismatch { expected: n, found: *found });
                        }
                        Some(et)
                    },
                    _ => ty,
                };
                proof {
                    lemma_all_fit_fits(e@);
                }
                let es = e.size_in_bits();
                match check_element_size(t, ety, es, Ghost(rank)) {
                    Some(err) => {
                        return Err(err);
                    },
                    None => {},
                }
                match &**e {
                    CompleteAbstractData::Secret { .. } => {
                        let whole = CompleteAbstractData::Secret { bits: es * n };
                        self.init(t, &whole, ty, at, ctx, Ghost(rank))
                    },
                    CompleteAbstractData::PublicValue { bits, value: AbstractValue::Unconstrained } => Ok(*bits * n),
                    _ => {
                        if es % 8 != 0 {
                            return Err(InitError::ElementNotWholeBytes(es));
                        }
                        if n == 0 {
                            return Err(InitError::EmptyArray);
                        }
                        let ghost st0 = self@;
                        let mut i: usize = 0;
                        while i < n
                            invariant
                                i <= n,
                                n == num_elements,
                                es == e@.size(),
                                init_requires(t@, rank, d@, at),
                                *d == (CompleteAbstractData::Array { element_type: *e, num_elements: n }),
                                init_array(t@, rank, e@, ty_view(ety), at, i as nat, ctx@, st0) == Ok::<PlanView, InitErrorView>(self@),
                            decreases n - i,
                        {
                            proof {
                                assert(es * i + es <= es * n) by (nonlinear_arith)
                                    requires i < n;
                            }
                            let loc = Location { region: at.region, offset_bits: at.offset_bits + es * i };
                            assert(loc == shifted(at, e@.size() * (i as nat)));
                            let ghost before = self@;
                            match self.init(t, e, ety, loc, ctx, Ghost(rank)) {
                                Err(err) => {
                                    proof {
                                        assert(init_array(t@, rank, e@, ty_view(ety), at, (i + 1) as nat, ctx@, st0)
                                            == Err::<PlanView, InitErrorView>(err@));
                                        lemma_init_array_err(t@, rank, e@, ty_view(ety), at, (i + 1) as nat, n as nat, ctx@, st0);
                                    }
                                    return Err(err);
                                },
                                Ok(_) => {},
                            }
                            i = i + 1;
                        }
                        Ok(es * n)
                    },
                }
            },
            _ => {
                proof {
                    assert(false);
                }
                Err(InitError::TypeMismatch)
            },
        }
    }

    /// `init_data` of a struct.
    #[verifier::loop_isolation(false)]
    fn init_struct<'a>(
        &mut self,
        t: &'a StructTable,
        d: &CompleteAbstractData,
        ty: Option<&'a LlvmType>,
        at: Location,
        ctx: &StructCtx<'a>,
        Ghost(rank): Ghost<Rank>,
    ) -> (r: Result<usize, InitError>)
        requires
            init_requires(t@, rank, d@, at),
            d@ is Struct,
        ensures
            init_ensures(init_data(t@, rank, d@, ty_view(ty), at, ctx@, old(self)@), r, final(self)@),
        decreases dsize(d@), 0nat, 0nat,
    {
        match d {
            CompleteAbstractData::Struct { name, elements } => {
                proof {
                    CompleteAbstractData::lemma_models(elements@);
                }
                let ghost ev = CompleteAbstractData::models(elements@);
                let tys: Vec<Option<&'a LlvmType>> = match ty {
                    Some(LlvmType::Struct { element_types }) => some_each(element_types),
                    Some(LlvmType::NamedStruct { name: n }) => match t.get(n.as_str()) {
                        Some(NamedStructDef::Defined(LlvmType::Struct { element_types })) => some_each(element_types),
                        Some(NamedStructDef::Defined(_)) => {
                            return Err(InitError::TypeMismatch);
                        },
                        _ => none_each(elements.len()),
                    },
                    Some(_) => {
                        return Err(InitError::TypeMismatch);
                    },
                    None => none_each(elements.len()),
                };
                if tys.len() != elements.len() {
                    return Err(InitError::StructLengthMismatch { elements: elements.len(), types: tys.len() });
                }
                let inner = StructCtx {
                    cur: match ty {
                        Some(ty) => Some((at, ty)),
                        None => None,
                    },
                    parent: ctx.cur,
                };
                let ghost tv = tys_view(tys@);
                let ghost st0 = self@;
                let mut off: usize = 0;
                let mut i: usize = 0;
                while i < elements.len()
                    invariant
                        i <= elements@.len(),
                        tys@.len() == elements@.len(),
                        ev == CompleteAbstractData::models(elements@),
                        ev.len() == elements@.len(),
                        forall|j: int| 0 <= j < elements@.len() ==> #[trigger] ev[j] == elements@[j]@,
                        tv == tys_view(tys@),
                        init_requires(t@, rank, d@, at),
                        d@ == (DataView::Struct { name: name@, elements: ev }),
                        off == DataView::sum_sizes(ev.subrange(0, i as int)),
                        init_struct(t@, rank, ev.subrange(0, i as int), tv.subrange(0, i as int), at, inner@, st0)
                            == Ok::<PlanView, InitErrorView>(self@),
                    decreases elements@.len() - i,
                {
                    let ghost prefix = ev.subrange(0, i + 1);
                    proof {
                        assert(prefix.subrange(0, i as int) =~= ev.subrange(0, i as int));
                        assert(tv.subrange(0, i + 1).subrange(0, i as int) =~= tv.subrange(0, i as int));
                        DataView::lemma_prefix_step(ev, i as int);
                        DataView::lemma_prefix_sum_le(ev, i + 1);
                        lemma_dsize_element(ev, i as int);
                        assert(all_fit(ev[i as int]));
                        lemma_all_fit_fits(ev[i as int]);
                    }
                    let e = &elements[i];
                    let es = e.size_in_bits();
                    assert(tv[i as int] == ty_view(tys@[i as int]));
                    let ghost tp = tv.subrange(0, i + 1);
                    assert(prefix.len() - 1 == i && prefix[i as int] == ev[i as int] && tp[i as int] == tv[i as int]);
                    assert(tp.subrange(0, i as int) =~= tv.subrange(0, i as int));
                    match check_element_size(t, tys[i], es, Ghost(rank)) {
                        Some(err) => {
                            proof {
                                assert(init_struct(t@, rank, prefix, tp, at, inner@, st0) == Err::<PlanView, InitErrorView>(err@));
                                lemma_init_struct_err(t@, rank, ev, tv, i + 1, at, inner@, st0);
                            }
                            return Err(err);
                        },
                        None => {},
                    }
                    if es % 8 != 0 {
                        proof {
                            assert(init_struct(t@, rank, prefix, tp, at, inner@, st0)
                                == Err::<PlanView, InitErrorView>(InitErrorView::ElementNotWholeBytes(es)));
                            lemma_init_struct_err(t@, rank, ev, tv, i + 1, at, inner@, st0);
                        }
                        return Err(InitError::ElementNotWholeBytes(es));
                    }
                    let loc = Location { region: at.region, offset_bits: at.offset_bits + off };
                    assert(loc == shifted(at, DataView::sum_sizes(prefix.subrange(0, i as int))));
                    match self.init(t, e, tys[i], loc, &inner, Ghost(rank)) {
                        Err(err) => {
                            proof {
                                assert(init_struct(t@, rank, prefix, tp, at, inner@, st0) == Err::<PlanView, InitErrorView>(err@));
                                lemma_init_struct_err(t@, rank, ev, tv, i + 1, at, inner@, st0);
                            }
                            return Err(err);
                        },
                        Ok(_) => {},
                    }
                    off = off + es;
                    i = i + 1;
                }
                proof {
                    assert(ev.subrange(0, i as int) =~= ev);
                    assert(tv.subrange(0, i as int) =~= tv);
                }
                Ok(off)
            },
            _ => {
                proof {
                    assert(false);
                }
                Err(InitError::TypeMismatch)
            },
        }
    }
}

/// Each type of the vector, as a known element type.
fn some_each<'a>(v: &'a Vec<LlvmType>) -> (r: Vec<Option<&'a LlvmType>>)
    ensures
        tys_view(r@) == Seq::new(LlvmType::models(v@).len(), |i: int| Some(LlvmType::models(v@)[i])),
{
    proof {
        LlvmType::lemma_models(v@);
    }
    let mut r: Vec<Option<&'a LlvmType>> = Vec::new();
    let mut i: usize = 0;
    while i < v.len()
        invariant
            i <= v@.len(),
            r@.len() == i,
            forall|j: int| 0 <= j < i ==> #[trigger] ty_view(r@[j]) == Some(v@[j]@),
        decreases v.len() - i,
    {
        r.push(Some(&v[i]));
        i = i + 1;
    }
    assert(tys_view(r@) =~= Seq::new(LlvmType::models(v@).len(), |i: int| Some(LlvmType::models(v@)[i])));
    r
}

/// `n` unknown element types.
fn none_each<'a>(n: usize) -> (r: Vec<Option<&'a LlvmType>>)
    ensures
        tys_view(r@) == Seq::new(n as nat, |i: int| None::<TypeView>),
{
    let mut r: Vec<Option<&'a LlvmType>> = Vec::new();
    let mut i: usize = 0;
    while i < n
        invariant
            i <= n,
            r@.len() == i,
            forall|j: int| 0 <= j < i ==> #[trigger] r@[j] is None,
        decreases n - i,
    {
        r.push(None);
        i = i + 1;
    }
    assert(tys_view(r@) =~= Seq::new(n as nat, |i: int| None::<TypeView>));
    r
}

/// No struct is being initialized.
pub open spec fn no_struct() -> StructContext {
    StructContext { cur: None, parent: None }
}

/// The place where the memory given to an initialization starts.
pub open spec fn start() -> Location {
    Location { region: 0, offset_bits: 0 }
}

/// An empty plan: no steps, no named values, and region 0 given.
pub open spec fn fresh_plan() -> PlanView {
    PlanView { steps: Seq::empty(), names: Seq::empty(), next_region: 1 }
}

/// The steps that give the function parameter of LLVM type `param_ty` the
/// value described by `d`, continuing the plan `st`: a value of the
/// parameter itself, or a pointer to newly allocated memory initialized as
/// described. With `type_override`, the parameter type is not checked beyond
/// its size.
pub open spec fn plan_arg(
    t: TableView,
    rank: Rank,
    d: DataView,
    param: usize,
    param_ty: TypeView,
    type_override: bool,
    st: PlanView,
) -> Result<PlanView, InitErrorView>
    decreases dsize(d),
{
    match size_check(t, rank, Some(param_ty), d.size()) {
        Some(e) => Err(e),
        None => match d {
            DataView::Secret { bits } => Ok(add_step(st, StepView::WriteSecret { at: Target::Param(param), bits })),
            DataView::PublicValue { bits, value } => match value {
                AbstractValue::ExactValue(v) => Ok(add_step(st, StepView::WriteValue { at: Target::Param(param), bits, value: v })),
                AbstractValue::Range(min, max) => Ok(
                    add_step(st, StepView::ConstrainRange { at: Target::Param(param), bits, min, max }),
                ),
                AbstractValue::Unconstrained => Ok(st),
                AbstractValue::Named { name, value: inner } => match plan_arg(
                    t,
                    rank,
                    DataView::PublicValue { bits, value: *inner },
                    param,
                    param_ty,
                    type_override,
                    st,
                ) {
                    Err(e) => Err(e),
                    Ok(st1) => match name_value(st1, Target::Param(param), bits, name@) {
                        Err(e) => Err(e),
                        Ok((st2, _)) => Ok(st2),
                    },
                },
                _ => {
                    let (name, relation) = relation_of(value).unwrap();
                    match lookup(st.names, name) {
                        None => Err(InitErrorView::NamedValueNotFound(name)),
                        Some(w) => if w != bits {
                            Err(InitErrorView::NamedWidthMismatch(name))
                        } else {
                            Ok(add_step(st, StepView::WriteRelated { at: Target::Param(param), bits, name, relation }))
                        },
                    }
                },
            },
            DataView::PublicPointerTo { pointee, maybe_null } => if st.next_region >= usize::MAX {
                Err(InitErrorView::TooManyRegions)
            } else {
                let region = st.next_region as usize;
                let st1 = PlanView {
                    steps: st.steps.push(
                        StepView::Allocate { at: Target::Param(param), region, bits: pointee.size() as usize, maybe_null },
                    ),
                    next_region: st.next_region + 1,
                    ..st
                };
                let pt = if type_override {
                    Ok(None)
                } else {
                    match param_ty {
                        TypeView::Pointer { pointee_type } => Ok(Some(*pointee_type)),
                        _ => Err(InitErrorView::TypeMismatch),
                    }
                };
                match pt {
                    Err(e) => Err(e),
                    Ok(pt) => match init(t, rank, *pointee, pt, Location { region, offset_bits: 0 }, no_struct(), st1) {
                        Err(e) => Err(e),
                        Ok((st2, _)) => Ok(st2),
                    },
                }
            },
            DataView::PublicPointerToFunction(f) => if type_override && !(param_ty is Pointer) {
                Err(InitErrorView::TypeMismatch)
            } else {
                Ok(add_step(st, StepView::PointToFunction { at: Target::Param(param), name: f }))
            },
            DataView::PublicPointerToHook(f) => if type_override && !(param_ty is Pointer) {
                Err(InitErrorView::TypeMismatch)
            } else {
                Ok(add_step(st, StepView::PointToHook { at: Target::Param(param), name: f }))
            },
            DataView::SameSizeOverride { data } => plan_arg(t, rank, *data, param, param_ty, true, st),
            _ => Err(InitErrorView::UnsupportedParameter),
        },
    }
}

impl Planner {
    /// Plans the initialization of the memory given (region 0) as the
    /// description `data` says, typechecked against the LLVM type `ty` of that
    /// memory, for data that can be initialized so (see
    /// `try_initialize_cad_in_memory` for the check). Gives the number of bits
    /// initialized.
    pub fn initialize_cad_in_memory(&mut self, t: &StructTable, data: &CompleteAbstractData, ty: Option<&LlvmType>) -> (r:
        usize)
        requires
            well_founded(t@),
            all_fit(data@),
            init(t@, some_rank(t@), data@, ty_view(ty), start(), no_struct(), old(self)@) is Ok,
        ensures
            init(t@, some_rank(t@), data@, ty_view(ty), start(), no_struct(), old(self)@) == Ok::<
                (PlanView, nat),
                InitErrorView,
            >((final(self)@, r as nat)),
    {
        match self.try_initialize_cad_in_memory(t, data, ty) {
            Ok(n) => n,
            Err(_) => {
                assert(false);
                0
            },
        }
    }

    /// Plans the initialization of the memory given (region 0) as the
    /// description `data` says, typechecked against the LLVM type `ty` of that
    /// memory when given. Gives the number of bits initialized, or why the
    /// data cannot be initialized so.
    pub fn try_initialize_cad_in_memory(&mut self, t: &StructTable, data: &CompleteAbstractData, ty: Option<&LlvmType>) -> (r:
        Result<usize, InitError>)
        requires
            well_founded(t@),
            all_fit(data@),
        ensures
            init_ensures(init(t@, some_rank(t@), data@, ty_view(ty), start(), no_struct(), old(self)@), r, final(self)@),
    {
        let ghost rank = some_rank(t@);
        let ctx = StructCtx { cur: None, parent: None };
        self.init(t, data, ty, Location { region: 0, offset_bits: 0 }, &ctx, Ghost(rank))
    }

    /// Plans giving the function parameter of LLVM type `param_ty` the value
    /// described by `arg`, for a description that fits the parameter (see
    /// `try_allocate_arg` for the check); named values are shared with the
    /// other parameters planned by this planner.
    pub fn allocate_arg(&mut self, t: &StructTable, param: usize, param_ty: &LlvmType, arg: &CompleteAbstractData)
        requires
            well_founded(t@),
            all_fit(arg@),
            plan_arg(t@, some_rank(t@), arg@, param, param_ty@, false, old(self)@) is Ok,
        ensures
            plan_arg(t@, some_rank(t@), arg@, param, param_ty@, false, old(self)@) == Ok::<PlanView, InitErrorView>(final(self)@),
    {
        match self.try_allocate_arg(t, param, param_ty, arg) {
            Ok(_) => {},
            Err(_) => {
                assert(false);
            },
        }
    }

    /// Plans giving the function parameter of LLVM type `param_ty` the value
    /// described by `arg`, or says why the description does not fit the
    /// parameter; named values are shared with the other parameters planned
    /// by this planner.
    pub fn try_allocate_arg(&mut self, t: &StructTable, param: usize, param_ty: &LlvmType, arg: &CompleteAbstractData) -> (r: Result<
        (),
        InitError,
    >)
        requires
            well_founded(t@),
            all_fit(arg@),
        ensures
            match r {
                Ok(_) => plan_arg(t@, some_rank(t@), arg@, param, param_ty@, false, old(self)@) == Ok::<PlanView, InitErrorView>(final(self)@),
                Err(e) => plan_arg(t@, some_rank(t@), arg@, param, param_ty@, false, old(self)@) == Err::<PlanView, InitErrorView>(e@),
            },
    {
        let ghost rank = some_rank(t@);
        self.plan_arg(t, arg, param, param_ty, false, Ghost(rank))
    }

    /// See the spec function `plan_arg`.
    fn plan_arg(
        &mut self,
        t: &StructTable,
        d: &CompleteAbstractData,
        param: usize,
        param_ty: &LlvmType,
        type_override: bool,
        Ghost(rank): Ghost<Rank>,
    ) -> (r: Result<(), InitError>)
        requires
            ranked(t@, rank),
            all_fit(d@),
        ensures
            match r {
                Ok(_) => plan_arg(t@, rank, d@, param, param_ty@, type_override, old(self)@) == Ok::<PlanView, InitErrorView>(final(self)@),
                Err(e) => plan_arg(t@, rank, d@, param, param_ty@, type_override, old(self)@) == Err::<PlanView, InitErrorView>(e@),
            },
        decreases dsize(d@),
    {
        proof {
            lemma_all_fit_fits(d@);
        }
        match check_size(t, Some(param_ty), d.size_in_bits(), Ghost(rank)) {
            Some(e) => {
                return Err(e);
            },
            None => {},
        }
        match d {
            CompleteAbstractData::Secret { bits } => {
                self.add(InitStep::WriteSecret { at: Target::Param(param), bits: *bits });
                Ok(())
            },
            CompleteAbstractData::PublicValue { bits, value } => {
                let bits = *bits;
                match value {
                    AbstractValue::ExactValue(v) => {
                        self.add(InitStep::WriteValue { at: Target::Param(param), bits, value: *v });
                        Ok(())
                    },
                    AbstractValue::Range(min, max) => {
                        self.add(InitStep::ConstrainRange { at: Target::Param(param), bits, min: *min, max: *max });
                        Ok(())
                    },
                    AbstractValue::Unconstrained => Ok(()),
                    AbstractValue::Named { name, value: inner } => {
                        let unwrapped = CompleteAbstractData::PublicValue { bits, value: (**inner).clone() };
                        match self.plan_arg(t, &unwrapped, param, param_ty, type_override, Ghost(rank)) {
                            Err(e) => Err(e),
                            Ok(_) => match self.name_value(Target::Param(param), bits, name) {
                                Err(e) => Err(e),
                                Ok(_) => Ok(()),
                            },
                        }
                    },
                    AbstractValue::EqualTo(name) => self.param_related(param, bits, name, Relation::EqualTo),
                    AbstractValue::SignedLessThan(name) => self.param_related(param, bits, name, Relation::SignedLessThan),
                    AbstractValue::SignedGreaterThan(name) => self.param_related(param, bits, name, Relation::SignedGreaterThan),
                    AbstractValue::UnsignedLessThan(name) => self.param_related(param, bits, name, Relation::UnsignedLessThan),
                    AbstractValue::UnsignedGreaterThan(name) => self.param_related(param, bits,
                        name,
                        Relation::UnsignedGreaterThan,
                    ),
                }
            },
            CompleteAbstractData::PublicPointerTo { pointee, maybe_null } => {
                if self.next_region == usize::MAX {
                    return Err(InitError::TooManyRegions);
                }
                let region = self.next_region;
                proof {
                    lemma_all_fit_fits(pointee@);
                }
                let bits = pointee.size_in_bits();
                self.add(InitStep::Allocate { at: Target::Param(param), region, bits, maybe_null: *maybe_null });
                self.next_region = region + 1;
                let pt: Option<&LlvmType> = if type_override {
                    None
                } else {
                    match param_ty {
                        LlvmType::Pointer { pointee_type } => Some(pointee_type),
                        _ => {
                            return Err(InitError::TypeMismatch);
                        },
                    }
                };
                let ctx = StructCtx { cur: None, parent: None };
                match self.init(t, pointee, pt, Location { region, offset_bits: 0 }, &ctx, Ghost(rank)) {
                    Err(e) => Err(e),
                    Ok(_) => Ok(()),
                }
            },
            CompleteAbstractData::PublicPointerToFunction(f) => {
                let is_pointer = match param_ty {
                    LlvmType::Pointer { .. } => true,
                    _ => false,
                };
                if type_override && !is_pointer {
                    return Err(InitError::TypeMismatch);
                }
                self.add(InitStep::PointToFunction { at: Target::Param(param), name: f.clone() });
                Ok(())
            },
            CompleteAbstractData::PublicPointerToHook(f) => {
                let is_pointer = match param_ty {
                    LlvmType::Pointer { .. } => true,
                    _ => false,
                };
                if type_override && !is_pointer {
                    return Err(InitError::TypeMismatch);
                }
                self.add(InitStep::PointToHook { at: Target::Param(param), name: f.clone() });
                Ok(())
            },
            CompleteAbstractData::SameSizeOverride { data } => self.plan_arg(t, data, param, param_ty, true, Ghost(rank)),
            _ => Err(InitError::UnsupportedParameter),
        }
    }

    /// The parameter in a relation to a named value.
    fn param_related(&mut self, param: usize, bits: usize, name: &String, relation: Relation) -> (r: Result<(), InitError>)
        ensures
            match r {
                Ok(_) => lookup(old(self)@.names, name@) == Some(bits) && final(self)@ == add_step(
                    old(self)@,
                    StepView::WriteRelated { at: Target::Param(param), bits, name: name@, relation },
                ),
                Err(e) => match lookup(old(self)@.names, name@) {
                    None => e@ == InitErrorView::NamedValueNotFound(name@),
                    Some(w) => w != bits && e@ == InitErrorView::NamedWidthMismatch(name@),
                },
            },
    {
        match self.names.get(name.as_str()) {
            None => Err(InitError::NamedValueNotFound(name.clone())),
            Some(w) => {
                if *w != bits {
                    Err(InitError::NamedWidthMismatch(name.clone()))
                } else {
                    self.add(InitStep::WriteRelated { at: Target::Param(param), bits, name: name.clone(), relation });
                    Ok(())
                }
            },
        }
    }
}

/// The size of the described data when every size met in initializing it
/// fits in a `usize` (see `all_fit`), else `None`.
pub fn checked_size(d: &CompleteAbstractData) -> (r: Option<usize>)
    ensures
        match r {
            Some(n) => all_fit(d@) && n == d@.size(),
            None => !all_fit(d@),
        },
    decreases d, 0nat,
{
    match d {
        CompleteAbstractData::PublicValue { bits, .. } => Some(*bits),
        CompleteAbstractData::Secret { bits } => Some(*bits),
        CompleteAbstractData::Array { element_type, num_elements } => match checked_size(element_type) {
            Some(es) => es.checked_mul(*num_elements),
            None => None,
        },
        CompleteAbstractData::Struct { elements, .. } => checked_sizes(elements),
        CompleteAbstractData::PublicPointerTo { pointee, .. } => match checked_size(pointee) {
            Some(_) => Some(POINTER_SIZE_BITS),
            None => None,
        },
        CompleteAbstractData::PublicPointerToFunction(_) => Some(POINTER_SIZE_BITS),
        CompleteAbstractData::PublicPointerToHook(_) => Some(POINTER_SIZE_BITS),
        CompleteAbstractData::PublicPointerToSelf => Some(POINTER_SIZE_BITS),
        CompleteAbstractData::PublicPointerToParentOr(backup) => match backup {
            Some(b) => match checked_size(b) {
                Some(_) => Some(POINTER_SIZE_BITS),
                None => None,
            },
            None => Some(POINTER_SIZE_BITS),
        },
        CompleteAbstractData::VoidOverride { data, .. } => checked_size(data),
        CompleteAbstractData::SameSizeOverride { data } => checked_size(data),
        CompleteAbstractData::WithWatchpoint { data, .. } => checked_size(data),
    }
}

/// The total size of the elements of a struct, when it and every size met in
/// initializing them fit in a `usize`.
fn checked_sizes(elements: &Vec<CompleteAbstractData>) -> (r: Option<usize>)
    ensures
        ({
            let ev = CompleteAbstractData::models(elements@);
            match r {
                Some(n) => n == DataView::sum_sizes(ev) && n <= usize::MAX && forall|i: int|
                    0 <= i < ev.len() ==> all_fit(#[trigger] ev[i]),
                None => DataView::sum_sizes(ev) > usize::MAX || exists|i: int|
                    0 <= i < ev.len() && !all_fit(#[trigger] ev[i]),
            }
        }),
    decreases elements@, 0nat,
{
    proof {
        CompleteAbstractData::lemma_models(elements@);
    }
    let ghost ev = CompleteAbstractData::models(elements@);
    let mut total: usize = 0;
    let mut i: usize = 0;
    while i < elements.len()
        invariant
            i <= elements@.len(),
            ev == CompleteAbstractData::models(elements@),
            ev.len() == elements@.len(),
            forall|j: int| 0 <= j < elements@.len() ==> #[trigger] ev[j] == elements@[j]@,
            total == DataView::sum_sizes(ev.subrange(0, i as int)),
            forall|j: int| 0 <= j < i ==> all_fit(#[trigger] ev[j]),
        decreases elements@.len() - i,
    {
        assert(decreases_to!(elements@ => elements@[i as int]));
        proof {
            DataView::lemma_prefix_step(ev, i as int);
        }
        match checked_size(&elements[i]) {
            Some(s) => match total.checked_add(s) {
                Some(t) => {
                    total = t;
                },
                None => {
                    proof {
                        DataView::lemma_prefix_sum_le(ev, i + 1);
                    }
                    return None;
                },
            },
            None => {
                assert(!all_fit(ev[i as int]));
                return None;
            },
        }
        i = i + 1;
    }
    assert(ev.subrange(0, i as int) =~= ev);
    Some(total)
}

/// An initialization that succeeds initializes exactly as many bits as the
/// description's size (when its sizes fit in a `usize`): the initialized size
/// never disagrees with it.
pub proof fn law_initialized_bits_are_the_size(
    t: TableView,
    rank: Rank,
    d: DataView,
    ty: Option<TypeView>,
    at: Location,
    ctx: StructContext,
    st: PlanView,
)
    requires
        all_fit(d),
    ensures
        init(t, rank, d, ty, at, ctx, st) matches Ok((_, b)) ==> b == d.size(),
    decreases dsize(d), opt_rank(ty, rank), opt_size(ty) + 2,
{
    match ty {
        Some(TypeView::Array { element_type, num_elements }) if num_elements == 1 => match d {
            DataView::Array { element_type: inner, num_elements: n } if n == 1 => {
                law_initialized_bits_are_the_size(t, rank, *inner, Some(*element_type), at, ctx, st);
                assert(inner.size() * 1 == inner.size()) by (nonlinear_arith);
            },
            _ => law_initialized_bits_are_the_size(t, rank, d, Some(*element_type), at, ctx, st),
        },
        Some(TypeView::Vector { element_type, num_elements }) if num_elements == 1 => match d {
            DataView::Array { element_type: inner, num_elements: n } if n == 1 => {
                law_initialized_bits_are_the_size(t, rank, *inner, Some(*element_type), at, ctx, st);
                assert(inner.size() * 1 == inner.size()) by (nonlinear_arith);
            },
            _ => law_initialized_bits_are_the_size(t, rank, d, Some(*element_type), at, ctx, st),
        },
        Some(TypeView::Struct { element_types }) if element_types.len() == 1
            && !d.could_describe_one_element_struct() => {
            lemma_element_measures(element_types, rank, 0);
            law_initialized_bits_are_the_size(t, rank, d, Some(element_types[0]), at, ctx, st);
        },
        Some(TypeView::NamedStruct { name }) => match lookup(t, name) {
            Some(Some(TypeView::Struct { element_types })) if element_types.len() == 1
                && !d.could_describe_one_element_struct() => {
                let def = lookup(t, name).unwrap().unwrap();
                if by_value_rank(def, rank) <= rank(name) {
                    lemma_element_measures(element_types, rank, 0);
                    law_initialized_bits_are_the_size(t, rank, d, Some(element_types[0]), at, ctx, st);
                }
            },
            _ => lemma_init_data_bits(t, rank, d, ty, at, ctx, st),
        },
        _ => lemma_init_data_bits(t, rank, d, ty, at, ctx, st),
    }
}

proof fn lemma_init_data_bits(
    t: TableView,
    rank: Rank,
    d: DataView,
    ty: Option<TypeView>,
    at: Location,
    ctx: StructContext,
    st: PlanView,
)
    requires
        all_fit(d),
    ensures
        init_data(t, rank, d, ty, at, ctx, st) matches Ok((_, b)) ==> b == d.size(),
    decreases dsize(d), 0nat, 1nat,
{
    match d {
        DataView::PublicValue { bits, value } => {
            if let AbstractValue::Named { name, value: inner } = value {
                if let Ok((st1, _)) = init(t, rank, DataView::PublicValue { bits, value: *inner }, ty, at, ctx, st) {
                    if let Ok((_, b)) = name_value(st1, Target::Memory(at), bits, name@) {
                        assert(b == bits);
                    }
                }
            }
        },
        DataView::PublicPointerToParentOr(Some(b)) => {
            law_initialized_bits_are_the_size(
                t,
                rank,
                DataView::PublicPointerTo { pointee: b, maybe_null: false },
                ty,
                at,
                ctx,
                st,
            );
        },
        DataView::Array { element_type, num_elements } => {
            let es = element_type.size();
            if *element_type matches DataView::Secret { .. } {
                law_initialized_bits_are_the_size(
                    t,
                    rank,
                    DataView::Secret { bits: (es * num_elements) as usize },
                    ty,
                    at,
                    ctx,
                    st,
                );
                if init_data(t, rank, d, ty, at, ctx, st) is Ok {
                    assert(d.size() == es * num_elements);
                }
            }
        },
        DataView::VoidOverride { llvm_struct_name, data } => {
            match llvm_struct_name {
                None => law_initialized_bits_are_the_size(t, rank, *data, None, at, ctx, st),
                Some(n) => match lookup(t, n) {
                    Some(Some(def)) => law_initialized_bits_are_the_size(t, rank, *data, Some(def), at, ctx, st),
                    _ => {},
                },
            }
        },
        DataView::SameSizeOverride { data } => law_initialized_bits_are_the_size(t, rank, *data, None, at, ctx, st),
        DataView::WithWatchpoint { name, data } => law_initialized_bits_are_the_size(
            t,
            rank,
            *data,
            ty,
            at,
            ctx,
            add_step(st, StepView::Watch { at: Target::Memory(at), bytes: (data.size() / 8) as usize, name }),
        ),
        _ => {},
    }
}

/// Does the description hold secret data anywhere, pointees included?
pub open spec fn has_secret(d: DataView) -> bool
    decreases d,
{
    match d {
        DataView::Secret { .. } => true,
        DataView::Array { element_type, .. } => has_secret(*element_type),
        DataView::Struct { elements, .. } => exists|i: int| 0 <= i < elements.len() && has_secret(#[trigger] elements[i]),
        DataView::PublicPointerTo { pointee, .. } => has_secret(*pointee),
        DataView::PublicPointerToParentOr(Some(b)) => has_secret(*b),
        DataView::VoidOverride { data, .. } => has_secret(*data),
        DataView::SameSizeOverride { data } => has_secret(*data),
        DataView::WithWatchpoint { data, .. } => has_secret(*data),
        _ => false,
    }
}

/// `st2` continues the plan `st` (its steps come first) with no step that
/// writes secret bits.
pub open spec fn public_extension(st: PlanView, st2: PlanView) -> bool {
    &&& st.steps.len() <= st2.steps.len()
    &&& st2.steps.subrange(0, st.steps.len() as int) == st.steps
    &&& forall|i: int| st.steps.len() <= i < st2.steps.len() ==> !(#[trigger] st2.steps[i] is WriteSecret)
}

proof fn lemma_public_extension_trans(a: PlanView, b: PlanView, c: PlanView)
    requires
        public_extension(a, b),
        public_extension(b, c),
    ensures
        public_extension(a, c),
{
    assert(c.steps.subrange(0, a.steps.len() as int) =~= c.steps.subrange(0, b.steps.len() as int).subrange(
        0,
        a.steps.len() as int,
    ));
    assert forall|i: int| a.steps.len() <= i < c.steps.len() implies !(#[trigger] c.steps[i] is WriteSecret) by {
        if i < b.steps.len() {
            assert(c.steps[i] == c.steps.subrange(0, b.steps.len() as int)[i]);
            assert(b.steps[i] == c.steps[i]);
        }
    }
}

proof fn lemma_public_step(st: PlanView, s: StepView)
    requires
        !(s is WriteSecret),
    ensures
        public_extension(st, add_step(st, s)),
{
    assert(add_step(st, s).steps.subrange(0, st.steps.len() as int) =~= st.steps);
}

proof fn lemma_public_refl(st: PlanView)
    ensures
        public_extension(st, st),
{
    assert(st.steps.subrange(0, st.steps.len() as int) =~= st.steps);
}

/// Initializing from a description without secret data plans no write of
/// secret bits: the plan only gains public steps.
pub proof fn law_public_data_writes_no_secret(
    t: TableView,
    rank: Rank,
    d: DataView,
    ty: Option<TypeView>,
    at: Location,
    ctx: StructContext,
    st: PlanView,
)
    requires
        !has_secret(d),
    ensures
        init(t, rank, d, ty, at, ctx, st) matches Ok((st2, _)) ==> public_extension(st, st2),
    decreases dsize(d), opt_rank(ty, rank), opt_size(ty) + 2,
{
    match ty {
        Some(TypeView::Array { element_type, num_elements }) if num_elements == 1 => match d {
            DataView::Array { element_type: inner, num_elements: n } if n == 1 => {
                law_public_data_writes_no_secret(t, rank, *inner, Some(*element_type), at, ctx, st);
            },
            _ => law_public_data_writes_no_secret(t, rank, d, Some(*element_type), at, ctx, st),
        },
        Some(TypeView::Vector { element_type, num_elements }) if num_elements == 1 => match d {
            DataView::Array { element_type: inner, num_elements: n } if n == 1 => {
                law_public_data_writes_no_secret(t, rank, *inner, Some(*element_type), at, ctx, st);
            },
            _ => law_public_data_writes_no_secret(t, rank, d, Some(*element_type), at, ctx, st),
        },
        Some(TypeView::Struct { element_types }) if element_types.len() == 1
            && !d.could_describe_one_element_struct() => {
            lemma_element_measures(element_types, rank, 0);
            law_public_data_writes_no_secret(t, rank, d, Some(element_types[0]), at, ctx, st);
        },
        Some(TypeView::NamedStruct { name }) => match lookup(t, name) {
            Some(Some(TypeView::Struct { element_types })) if element_types.len() == 1
                && !d.could_describe_one_element_struct() => {
                let def = lookup(t, name).unwrap().unwrap();
                if by_value_rank(def, rank) <= rank(name) {
                    lemma_element_measures(element_types, rank, 0);
                    law_public_data_writes_no_secret(t, rank, d, Some(element_types[0]), at, ctx, st);
                }
            },
            _ => lemma_init_data_public(t, rank, d, ty, at, ctx, st),
        },
        _ => lemma_init_data_public(t, rank, d, ty, at, ctx, st),
    }
}

proof fn lemma_init_data_public(
    t: TableView,
    rank: Rank,
    d: DataView,
    ty: Option<TypeView>,
    at: Location,
    ctx: StructContext,
    st: PlanView,
)
    requires
        !has_secret(d),
    ensures
        init_data(t, rank, d, ty, at, ctx, st) matches Ok((st2, _)) ==> public_extension(st, st2),
    decreases dsize(d), 0nat, 1nat,
{
    let here = Target::Memory(at);
    lemma_public_refl(st);
    match d {
        DataView::PublicValue { .. } => lemma_value_public(t, rank, d, ty, at, ctx, st),
        DataView::PublicPointerTo { pointee, maybe_null } => {
            if st.next_region < usize::MAX {
                let region = st.next_region as usize;
                let s1 = StepView::Allocate { at: here, region, bits: pointee.size() as usize, maybe_null };
                let st1 = PlanView { steps: st.steps.push(s1), next_region: st.next_region + 1, ..st };
                lemma_public_step(st, s1);
                assert(public_extension(st, st1));
                let pt = match ty {
                    Some(TypeView::Pointer { pointee_type }) => Some(*pointee_type),
                    _ => None,
                };
                law_public_data_writes_no_secret(t, rank, *pointee, pt, Location { region, offset_bits: 0 }, ctx, st1);
                if let Ok((st2, _)) = init(t, rank, *pointee, pt, Location { region, offset_bits: 0 }, ctx, st1) {
                    lemma_public_extension_trans(st, st1, st2);
                }
            }
        },
        DataView::PublicPointerToFunction(f) => lemma_public_step(st, StepView::PointToFunction { at: here, name: f }),
        DataView::PublicPointerToHook(f) => lemma_public_step(st, StepView::PointToHook { at: here, name: f }),
        DataView::PublicPointerToSelf => {
            if let Some((loc, _)) = ctx.cur {
                lemma_public_step(st, StepView::PointTo { at: here, target: loc });
            }
        },
        DataView::PublicPointerToParentOr(backup) => {
            if let Some((ploc, _)) = ctx.parent {
                lemma_public_step(st, StepView::PointTo { at: here, target: ploc });
            }
            if let Some(b) = backup {
                law_public_data_writes_no_secret(
                    t,
                    rank,
                    DataView::PublicPointerTo { pointee: b, maybe_null: false },
                    ty,
                    at,
                    ctx,
                    st,
                );
            }
        },
        DataView::Array { element_type, num_elements } => {
            let ety = match ty {
                Some(TypeView::Array { element_type: et, .. }) => Some(*et),
                _ => ty,
            };
            lemma_init_array_public(t, rank, *element_type, ety, at, num_elements as nat, ctx, st);
            if let Ok((st2, _)) = init_data(t, rank, d, ty, at, ctx, st) {
                reveal_with_fuel(has_secret, 2);
                assert(!(*element_type is Secret));
                if let DataView::PublicValue { value: AbstractValue::Unconstrained, .. } = *element_type {
                    assert(st2 == st);
                } else {
                    assert(init_array(t, rank, *element_type, ety, at, num_elements as nat, ctx, st) == Ok::<PlanView, InitErrorView>(st2));
                }
            }
        },
        DataView::Struct { name, elements } => {
            let tys: Seq<Option<TypeView>> = match ty {
                Some(TypeView::Struct { element_types }) => Seq::new(element_types.len(), |i: int| Some(element_types[i])),
                Some(TypeView::NamedStruct { name: n }) => match lookup(t, n) {
                    Some(Some(TypeView::Struct { element_types })) => Seq::new(
                        element_types.len(),
                        |i: int| Some(element_types[i]),
                    ),
                    _ => Seq::new(elements.len(), |i: int| None::<TypeView>),
                },
                _ => Seq::new(elements.len(), |i: int| None::<TypeView>),
            };
            let inner = StructContext {
                cur: match ty {
                    Some(ty) => Some((at, ty)),
                    None => None,
                },
                parent: ctx.cur,
            };
            if tys.len() == elements.len() {
                lemma_init_struct_public(t, rank, elements, tys, at, inner, st);
            }
        },
        DataView::VoidOverride { llvm_struct_name, data } => {
            match llvm_struct_name {
                None => law_public_data_writes_no_secret(t, rank, *data, None, at, ctx, st),
                Some(n) => match lookup(t, n) {
                    Some(Some(def)) => law_public_data_writes_no_secret(t, rank, *data, Some(def), at, ctx, st),
                    _ => {},
                },
            }
        },
        DataView::SameSizeOverride { data } => law_public_data_writes_no_secret(t, rank, *data, None, at, ctx, st),
        DataView::WithWatchpoint { name, data } => {
            let s1 = StepView::Watch { at: here, bytes: (data.size() / 8) as usize, name };
            lemma_public_step(st, s1);
            law_public_data_writes_no_secret(t, rank, *data, ty, at, ctx, add_step(st, s1));
            if let Ok((st2, _)) = init(t, rank, *data, ty, at, ctx, add_step(st, s1)) {
                lemma_public_extension_trans(st, add_step(st, s1), st2);
            }
        },
        _ => {},
    }
}

proof fn lemma_value_public(
    t: TableView,
    rank: Rank,
    d: DataView,
    ty: Option<TypeView>,
    at: Location,
    ctx: StructContext,
    st: PlanView,
)
    requires
        d is PublicValue,
    ensures
        init_data(t, rank, d, ty, at, ctx, st) matches Ok((st2, _)) ==> public_extension(st, st2),
    decreases dsize(d), 0nat, 0nat,
{
    let here = Target::Memory(at);
    lemma_public_refl(st);
    match d {
        DataView::PublicValue { bits, value } => match value {
            AbstractValue::ExactValue(v) => lemma_public_step(st, StepView::WriteValue { at: here, bits, value: v }),
            AbstractValue::Range(min, max) => lemma_public_step(st, StepView::ConstrainRange { at: here, bits, min, max }),
            AbstractValue::Unconstrained => {},
            AbstractValue::Named { name, value: inner } => {
                let pv = DataView::PublicValue { bits, value: *inner };
                law_public_data_writes_no_secret(t, rank, pv, ty, at, ctx, st);
                if let Ok((st1, _)) = init(t, rank, pv, ty, at, ctx, st) {
                    match lookup(st1.names, name@) {
                        None => {
                            let st2 = PlanView {
                                steps: st1.steps.push(StepView::NameValue { at: here, bits, name: name@, first: true }),
                                names: st1.names.push((name@, bits)),
                                ..st1
                            };
                            lemma_public_step(st1, StepView::NameValue { at: here, bits, name: name@, first: true });
                            assert(add_step(st1, StepView::NameValue { at: here, bits, name: name@, first: true }).steps
                                == st2.steps);
                            assert(public_extension(st1, st2));
                            lemma_public_extension_trans(st, st1, st2);
                            assert(name_value(st1, here, bits, name@) == Ok::<(PlanView, nat), InitErrorView>((st2, bits as nat)));
                        },
                        Some(_) => {
                            let s2 = StepView::NameValue { at: here, bits, name: name@, first: false };
                            lemma_public_step(st1, s2);
                            lemma_public_extension_trans(st, st1, add_step(st1, s2));
                        },
                    }
                }
            },
            _ => {
                let (name, relation) = relation_of(value).unwrap();
                lemma_public_step(st, StepView::WriteRelated { at: here, bits, name, relation });
            },
        },
        _ => {},
    }
}

proof fn lemma_init_array_public(
    t: TableView,
    rank: Rank,
    e: DataView,
    ety: Option<TypeView>,
    at: Location,
    n: nat,
    ctx: StructContext,
    st: PlanView,
)
    requires
        !has_secret(e),
    ensures
        init_array(t, rank, e, ety, at, n, ctx, st) matches Ok(st2) ==> public_extension(st, st2),
    decreases dsize(e) + 1, n, 0nat,
{
    lemma_public_refl(st);
    if n > 0 {
        lemma_init_array_public(t, rank, e, ety, at, (n - 1) as nat, ctx, st);
        if let Ok(st1) = init_array(t, rank, e, ety, at, (n - 1) as nat, ctx, st) {
            let loc = shifted(at, e.size() * ((n - 1) as nat));
            law_public_data_writes_no_secret(t, rank, e, ety, loc, ctx, st1);
            if let Ok((st2, _)) = init(t, rank, e, ety, loc, ctx, st1) {
                lemma_public_extension_trans(st, st1, st2);
            }
        }
    }
}

proof fn lemma_init_struct_public(
    t: TableView,
    rank: Rank,
    elements: Seq<DataView>,
    tys: Seq<Option<TypeView>>,
    at: Location,
    ctx: StructContext,
    st: PlanView,
)
    requires
        forall|i: int| 0 <= i < elements.len() ==> !has_secret(#[trigger] elements[i]),
        tys.len() == elements.len(),
    ensures
        init_struct(t, rank, elements, tys, at, ctx, st) matches Ok(st2) ==> public_extension(st, st2),
    decreases dsize_all(elements) + 1, 0nat, 0nat,
{
    lemma_public_refl(st);
    if elements.len() > 0 {
        let k = elements.len() - 1;
        lemma_dsize_element(elements, k);
        let prefix = elements.subrange(0, k);
        assert forall|i: int| 0 <= i < prefix.len() implies !has_secret(#[trigger] prefix[i]) by {
            assert(prefix[i] == elements[i]);
        }
        lemma_init_struct_public(t, rank, prefix, tys.subrange(0, k), at, ctx, st);
        if let Ok(st1) = init_struct(t, rank, prefix, tys.subrange(0, k), at, ctx, st) {
            let loc = shifted(at, DataView::sum_sizes(prefix));
            law_public_data_writes_no_secret(t, rank, elements[k], tys[k], loc, ctx, st1);
            if let Ok((st2, _)) = init(t, rank, elements[k], tys[k], loc, ctx, st1) {
                lemma_public_extension_trans(st, st1, st2);
            }
        }
    }
}

/// The parameters' types and descriptions, as models.
pub open spec fn params_view(params: Seq<(LlvmType, AbstractData)>) -> Seq<(TypeView, SpecView)> {
    Seq::new(params.len(), |i: int| (params[i].0@, params[i].1@))
}

/// The plan that gives each parameter, in order, the value its description
/// says, once filled in against the parameter's type (see `complete`).
pub open spec fn plan_args(
    t: TableView,
    sd: DescsView,
    params: Seq<(TypeView, SpecView)>,
    st: PlanView,
) -> Result<PlanView, InitErrorView>
    decreases params.len(),
{
    if params.len() == 0 {
        Ok(st)
    } else {
        let k = params.len() - 1;
        match plan_args(t, sd, params.subrange(0, k), st) {
            Err(e) => Err(e),
            Ok(st1) => match complete(t, sd, some_rank(t), params[k].1, Some(params[k].0), Set::empty()) {
                None => Err(InitErrorView::DescriptionMismatch),
                Some(c) => if !all_fit(c) {
                    Err(InitErrorView::SizeOverflow)
                } else {
                    plan_arg(t, some_rank(t), c, k as usize, params[k].0, false, st1)
                },
            },
        }
    }
}

proof fn lemma_plan_args_err(t: TableView, sd: DescsView, params: Seq<(TypeView, SpecView)>, k: int, st: PlanView)
    requires
        0 <= k <= params.len(),
        plan_args(t, sd, params.subrange(0, k), st) is Err,
    ensures
        plan_args(t, sd, params, st) == plan_args(t, sd, params.subrange(0, k), st),
    decreases params.len() - k,
{
    if k < params.len() {
        let n = params.len() - 1;
        assert(params.subrange(0, n).subrange(0, k) =~= params.subrange(0, k));
        lemma_plan_args_err(t, sd, params.subrange(0, n), k, st);
    } else {
        assert(params.subrange(0, k) =~= params);
    }
}

/// Plans giving each function parameter, in order, the value its
/// description says, for descriptions that fit the parameters (see
/// `try_allocate_args` for the check). Gives the steps.
pub fn allocate_args(t: &StructTable, sd: &StructDescriptions, params: &Vec<(LlvmType, AbstractData)>) -> (r: Vec<InitStep>)
    requires
        well_founded(t@),
        plan_args(t@, sd@, params_view(params@), fresh_plan()) is Ok,
    ensures
        plan_args(t@, sd@, params_view(params@), fresh_plan()) matches Ok(p) && p.steps == steps_view(r@),
{
    match try_allocate_args(t, sd, params) {
        Ok(steps) => steps,
        Err(_) => {
            assert(false);
            Vec::new()
        },
    }
}

/// Plans giving each function parameter, in order, the value its
/// description says: each description is filled in against the parameter's
/// LLVM type, then planned as `Planner::allocate_arg` does, named values being
/// shared among the parameters. Gives the steps, or why a description does
/// not fit its parameter.
pub fn try_allocate_args(t: &StructTable, sd: &StructDescriptions, params: &Vec<(LlvmType, AbstractData)>) -> (r: Result<
    Vec<InitStep>,
    InitError,
>)
    requires
        well_founded(t@),
    ensures
        ({
            let init = PlanView { steps: Seq::empty(), names: Seq::empty(), next_region: 1 };
            match r {
                Ok(steps) => plan_args(t@, sd@, params_view(params@), init) matches Ok(p) && p.steps == steps_view(steps@),
                Err(e) => plan_args(t@, sd@, params_view(params@), init) == Err::<PlanView, InitErrorView>(e@),
            }
        }),
{
    let mut planner = Planner::new();
    let ghost st0 = planner@;
    assert(st0 == PlanView { steps: Seq::empty(), names: Seq::empty(), next_region: 1 });
    let ghost pv = params_view(params@);
    let mut i: usize = 0;
    while i < params.len()
        invariant
            i <= params@.len(),
            well_founded(t@),
            pv == params_view(params@),
            st0 == (PlanView { steps: Seq::empty(), names: Seq::empty(), next_region: 1 }),
            plan_args(t@, sd@, pv.subrange(0, i as int), st0) == Ok::<PlanView, InitErrorView>(planner@),
        decreases params.len() - i,
    {
        let ghost prefix = pv.subrange(0, i + 1);
        proof {
            assert(prefix.subrange(0, i as int) =~= pv.subrange(0, i as int));
            assert(prefix[i as int] == (params@[i as int].0@, params@[i as int].1@));
        }
        let (ty, ad) = (&params[i].0, &params[i].1);
        match ad.try_to_complete(ty, t, sd) {
            None => {
                proof {
                    assert(plan_args(t@, sd@, prefix, st0) == Err::<PlanView, InitErrorView>(InitErrorView::DescriptionMismatch));
                    lemma_plan_args_err(t@, sd@, pv, i + 1, st0);
                }
                return Err(InitError::DescriptionMismatch);
            },
            Some(c) => {
                match checked_size(&c) {
                    None => {
                        proof {
                            assert(plan_args(t@, sd@, prefix, st0) == Err::<PlanView, InitErrorView>(InitErrorView::SizeOverflow));
                            lemma_plan_args_err(t@, sd@, pv, i + 1, st0);
                        }
                        return Err(InitError::SizeOverflow);
                    },
                    Some(_) => {},
                }
                match planner.plan_arg(t, &c, i, ty, false, Ghost(some_rank(t@))) {
                    Err(e) => {
                        proof {
                            lemma_plan_args_err(t@, sd@, pv, i + 1, st0);
                        }
                        return Err(e);
                    },
                    Ok(_) => {},
                }
            },
        }
        i = i + 1;
    }
    assert(pv.subrange(0, i as int) =~= pv);
    Ok(planner.into_steps())
}

/// A parameter described as equal to a value named earlier is given that
/// very value: once a parameter of `w` bits has been planned with a value
/// named `name`, planning another parameter of `w` bits as equal to `name`
/// adds the one step that gives it the named value. With no value of that
/// name planned before, it is an error.
pub proof fn law_equal_to_gets_the_named_value(
    t: TableView,
    rank: Rank,
    name: String,
    v: AbstractValue,
    w: usize,
    p1: usize,
    ty1: TypeView,
    p2: usize,
    ty2: TypeView,
    st: PlanView,
)
    requires
        v is ExactValue || v is Range || v is Unconstrained,
        size_check(t, rank, Some(ty2), w as nat) is None,
    ensures
        plan_arg(
            t,
            rank,
            DataView::PublicValue { bits: w, value: AbstractValue::Named { name, value: Box::new(v) } },
            p1,
            ty1,
            false,
            st,
        ) matches Ok(st1) ==> plan_arg(
            t,
            rank,
            DataView::PublicValue { bits: w, value: AbstractValue::EqualTo(name) },
            p2,
            ty2,
            false,
            st1,
        ) == Ok::<PlanView, InitErrorView>(
            add_step(st1, StepView::WriteRelated { at: Target::Param(p2), bits: w, name: name@, relation: Relation::EqualTo }),
        ),
        lookup(st.names, name@) is None ==> plan_arg(
            t,
            rank,
            DataView::PublicValue { bits: w, value: AbstractValue::EqualTo(name) },
            p2,
            ty2,
            false,
            st,
        ) == Err::<PlanView, InitErrorView>(InitErrorView::NamedValueNotFound(name@)),
{
    let d = DataView::PublicValue { bits: w, value: AbstractValue::Named { name, value: Box::new(v) } };
    let inner = DataView::PublicValue { bits: w, value: v };
    if let Ok(st1) = plan_arg(t, rank, d, p1, ty1, false, st) {
        reveal_with_fuel(plan_arg, 2);
        let st0 = plan_arg(t, rank, inner, p1, ty1, false, st)->Ok_0;
        assert(st0.names == st.names);
        match lookup(st0.names, name@) {
            None => {
                crate::namemap::lemma_lookup(st0.names, name@);
                let ns = st0.names.push((name@, w));
                assert(ns == st1.names);
                assert forall|j: int| 0 <= j < st0.names.len() implies ns[j].0 != name@ by {
                    assert(ns[j] == st0.names[j]);
                    assert(!crate::namemap::has_name(st0.names, name@));
                }
                crate::namemap::lemma_lookup_first(ns, name@, st0.names.len() as int);
            },
            Some(_) => {},
        }
        assert(lookup(st1.names, name@) == Some(w));
    }
}

/// Is the description made of secret data and public values alone (exact,
/// ranged or unconstrained), gathered in arrays and structs whose elements
/// fill whole bytes (arrays of other than secret or unconstrained elements
/// having at least one)?
pub open spec fn plain_data(d: DataView) -> bool
    decreases d,
{
    match d {
        DataView::Secret { .. } => true,
        DataView::PublicValue { value, .. } => value is ExactValue || value is Range || value is Unconstrained,
        DataView::Array { element_type, num_elements } => match *element_type {
            DataView::Secret { .. } => true,
            DataView::PublicValue { value: AbstractValue::Unconstrained, .. } => true,
            _ => plain_data(*element_type) && element_type.size() % 8 == 0 && num_elements > 0,
        },
        DataView::Struct { elements, .. } => forall|i: int|
            0 <= i < elements.len() ==> plain_data(#[trigger] elements[i]) && elements[i].size() % 8 == 0,
        _ => false,
    }
}

/// The writes that give plain data at `at` its value, leaf by leaf in
/// order: a secret write of the leaf's width at its offset for secret data
/// (one for a whole array of secret elements), the value for an exact public
/// value, the range for a ranged one, and nothing for an unconstrained one.
pub open spec fn leaf_writes(d: DataView, at: Location) -> Seq<StepView>
    decreases dsize(d), 0nat,
{
    let here = Target::Memory(at);
    match d {
        DataView::Secret { bits } => seq![StepView::WriteSecret { at: here, bits }],
        DataView::PublicValue { bits, value } => match value {
            AbstractValue::ExactValue(v) => seq![StepView::WriteValue { at: here, bits, value: v }],
            AbstractValue::Range(min, max) => seq![StepView::ConstrainRange { at: here, bits, min, max }],
            _ => Seq::empty(),
        },
        DataView::Array { element_type, num_elements } => match *element_type {
            DataView::Secret { .. } => seq![
                StepView::WriteSecret { at: here, bits: (element_type.size() * (num_elements as nat)) as usize },
            ],
            DataView::PublicValue { value: AbstractValue::Unconstrained, .. } => Seq::empty(),
            _ => array_leaf_writes(*element_type, at, num_elements as nat),
        },
        DataView::Struct { elements, .. } => struct_leaf_writes(elements, at),
        _ => Seq::empty(),
    }
}

/// `leaf_writes` of the first `n` elements of an array of `e` at `at`.
pub open spec fn array_leaf_writes(e: DataView, at: Location, n: nat) -> Seq<StepView>
    decreases dsize(e) + 1, n,
{
    if n == 0 {
        Seq::empty()
    } else {
        array_leaf_writes(e, at, (n - 1) as nat) + leaf_writes(e, shifted(at, e.size() * ((n - 1) as nat)))
    }
}

/// `leaf_writes` of the elements of a struct at `at`, each at its offset.
pub open spec fn struct_leaf_writes(elements: Seq<DataView>, at: Location) -> Seq<StepView>
    decreases dsize_all(elements) + 1, 0nat,
{
    if elements.len() == 0 {
        Seq::empty()
    } else {
        let k = elements.len() - 1;
        proof {
            lemma_dsize_element(elements, k);
        }
        struct_leaf_writes(elements.subrange(0, k), at) + leaf_writes(
            elements[k],
            shifted(at, DataView::sum_sizes(elements.subrange(0, k))),
        )
    }
}

/// The plan with the given steps added and nothing else changed.
pub open spec fn with_steps(st: PlanView, steps: Seq<StepView>) -> PlanView {
    PlanView { steps: st.steps + steps, ..st }
}

/// Initializing plain data with no LLVM type to check against never fails,
/// and adds exactly its leaf writes to the plan: every secret leaf a secret
/// write of its width at its offset, every exact public leaf its value,
/// every ranged one its range. Named values and regions are left as they
/// were.
pub proof fn law_plain_data_writes_each_leaf(
    t: TableView,
    d: DataView,
    at: Location,
    ctx: StructContext,
    st: PlanView,
)
    requires
        plain_data(d),
    ensures
        init(t, some_rank(t), d, None, at, ctx, st) is Ok,
        init(t, some_rank(t), d, None, at, ctx, st)->Ok_0.0 == with_steps(st, leaf_writes(d, at)),
{
    lemma_plain_init(t, some_rank(t), d, at, ctx, st);
}

proof fn lemma_plain_init(t: TableView, rank: Rank, d: DataView, at: Location, ctx: StructContext, st: PlanView)
    requires
        plain_data(d),
    ensures
        init(t, rank, d, None, at, ctx, st) is Ok,
        init(t, rank, d, None, at, ctx, st)->Ok_0.0 == with_steps(st, leaf_writes(d, at)),
    decreases dsize(d), 0nat,
{
    let here = Target::Memory(at);
    assert(init(t, rank, d, None, at, ctx, st) == init_data(t, rank, d, None, at, ctx, st));
    match d {
        DataView::Secret { bits } => {
            let w = StepView::WriteSecret { at: here, bits };
            assert(add_step(st, w).steps =~= with_steps(st, leaf_writes(d, at)).steps);
        },
        DataView::PublicValue { bits, value } => {
            match value {
                AbstractValue::ExactValue(v) => {
                    let w = StepView::WriteValue { at: here, bits, value: v };
                    assert(add_step(st, w).steps =~= with_steps(st, leaf_writes(d, at)).steps);
                },
                AbstractValue::Range(min, max) => {
                    let w = StepView::ConstrainRange { at: here, bits, min, max };
                    assert(add_step(st, w).steps =~= with_steps(st, leaf_writes(d, at)).steps);
                },
                _ => {
                    assert(st.steps =~= with_steps(st, leaf_writes(d, at)).steps);
                },
            }
        },
        DataView::Array { element_type, num_elements } => {
            let es = element_type.size();
            match *element_type {
                DataView::Secret { .. } => {
                    let sd = DataView::Secret { bits: (es * num_elements) as usize };
                    assert(init(t, rank, sd, None, at, ctx, st) == init_data(t, rank, sd, None, at, ctx, st));
                    let w = StepView::WriteSecret { at: here, bits: (es * num_elements) as usize };
                    assert(add_step(st, w).steps =~= with_steps(st, leaf_writes(d, at)).steps);
                },
                DataView::PublicValue { value: AbstractValue::Unconstrained, .. } => {
                    assert(st.steps =~= with_steps(st, leaf_writes(d, at)).steps);
                },
                _ => {
                    lemma_plain_array(t, rank, *element_type, at, num_elements as nat, ctx, st);
                },
            }
        },
        DataView::Struct { elements, .. } => {
            let inner = StructContext { cur: None, parent: ctx.cur };
            lemma_plain_struct(t, rank, elements, at, inner, st);
        },
        _ => {},
    }
}

proof fn lemma_plain_array(
    t: TableView,
    rank: Rank,
    e: DataView,
    at: Location,
    n: nat,
    ctx: StructContext,
    st: PlanView,
)
    requires
        plain_data(e),
    ensures
        init_array(t, rank, e, None, at, n, ctx, st) == Ok::<PlanView, InitErrorView>(
            with_steps(st, array_leaf_writes(e, at, n)),
        ),
    decreases dsize(e) + 1, n,
{
    if n == 0 {
        assert(st.steps =~= with_steps(st, array_leaf_writes(e, at, n)).steps);
    } else {
        lemma_plain_array(t, rank, e, at, (n - 1) as nat, ctx, st);
        let st1 = with_steps(st, array_leaf_writes(e, at, (n - 1) as nat));
        let a = shifted(at, e.size() * ((n - 1) as nat));
        lemma_plain_init(t, rank, e, a, ctx, st1);
        assert(with_steps(st1, leaf_writes(e, a)).steps =~= with_steps(st, array_leaf_writes(e, at, n)).steps);
    }
}

proof fn lemma_plain_struct(
    t: TableView,
    rank: Rank,
    elements: Seq<DataView>,
    at: Location,
    ctx: StructContext,
    st: PlanView,
)
    requires
        forall|i: int| 0 <= i < elements.len() ==> plain_data(#[trigger] elements[i]) && elements[i].size() % 8 == 0,
    ensures
        init_struct(t, rank, elements, Seq::new(elements.len(), |i: int| None::<TypeView>), at, ctx, st) == Ok::<
            PlanView,
            InitErrorView,
        >(with_steps(st, struct_leaf_writes(elements, at))),
    decreases dsize_all(elements) + 1, 0nat,
{
    let tys = Seq::new(elements.len(), |i: int| None::<TypeView>);
    if elements.len() == 0 {
        assert(st.steps =~= with_steps(st, struct_leaf_writes(elements, at)).steps);
    } else {
        let k = elements.len() - 1;
        lemma_dsize_element(elements, k);
        let prefix = elements.subrange(0, k);
        assert(tys.subrange(0, k) =~= Seq::new(prefix.len(), |i: int| None::<TypeView>));
        assert forall|i: int| 0 <= i < prefix.len() implies plain_data(#[trigger] prefix[i]) && prefix[i].size() % 8
            == 0 by {
            assert(prefix[i] == elements[i]);
        }
        lemma_plain_struct(t, rank, prefix, at, ctx, st);
        let st1 = with_steps(st, struct_leaf_writes(prefix, at));
        let a = shifted(at, DataView::sum_sizes(prefix));
        assert(plain_data(elements[k]) && elements[k].size() % 8 == 0);
        lemma_plain_init(t, rank, elements[k], a, ctx, st1);
        assert(with_steps(st1, leaf_writes(elements[k], a)).steps =~= with_steps(
            st,
            struct_leaf_writes(elements, at),
        ).steps);
    }
}

/// A parameter described as a pointer to the function `f` is made to point
/// to that function: when planning it succeeds, it adds exactly one step,
/// `PointToFunction` at the parameter with the name `f`, and changes nothing
/// else. For a parameter of pointer type it always succeeds.
pub proof fn law_function_pointer_parameter(
    t: TableView,
    rank: Rank,
    f: Seq<char>,
    param: usize,
    param_ty: TypeView,
    type_override: bool,
    st: PlanView,
)
    ensures
        plan_arg(t, rank, DataView::PublicPointerToFunction(f), param, param_ty, type_override, st) matches Ok(st2)
            ==> st2 == (PlanView {
            steps: st.steps.push(StepView::PointToFunction { at: Target::Param(param), name: f }),
            ..st
        }),
        param_ty is Pointer ==> plan_arg(
            t,
            rank,
            DataView::PublicPointerToFunction(f),
            param,
            param_ty,
            type_override,
            st,
        ) == Ok::<PlanView, InitErrorView>(
            PlanView { steps: st.steps.push(StepView::PointToFunction { at: Target::Param(param), name: f }), ..st },
        ),
{
}

/// A parameter described as a pointer to the hook for the function `f` is
/// made to point to that hook: when planning it succeeds, it adds exactly
/// one step, `PointToHook` at the parameter with the name `f`, and changes
/// nothing else. For a parameter of pointer type it always succeeds.
pub proof fn law_hook_pointer_parameter(
    t: TableView,
    rank: Rank,
    f: Seq<char>,
    param: usize,
    param_ty: TypeView,
    type_override: bool,
    st: PlanView,
)
    ensures
        plan_arg(t, rank, DataView::PublicPointerToHook(f), param, param_ty, type_override, st) matches Ok(st2)
            ==> st2 == (PlanView {
            steps: st.steps.push(StepView::PointToHook { at: Target::Param(param), name: f }),
            ..st
        }),
        param_ty is Pointer ==> plan_arg(
            t,
            rank,
            DataView::PublicPointerToHook(f),
            param,
            param_ty,
            type_override,
            st,
        ) == Ok::<PlanView, InitErrorView>(
            PlanView { steps: st.steps.push(StepView::PointToHook { at: Target::Param(param), name: f }), ..st },
        ),
{
}

/// Does the plan `st2` start with the steps of the plan `st`?
pub open spec fn steps_kept(st: PlanView, st2: PlanView) -> bool {
    &&& st.steps.len() <= st2.steps.len()
    &&& st2.steps.subrange(0, st.steps.len() as int) == st.steps
}

proof fn lemma_kept_trans(a: PlanView, b: PlanView, c: PlanView)
    requires
        steps_kept(a, b),
        steps_kept(b, c),
    ensures
        steps_kept(a, c),
{
    assert(c.steps.subrange(0, a.steps.len() as int) =~= c.steps.subrange(0, b.steps.len() as int).subrange(
        0,
        a.steps.len() as int,
    ));
}

proof fn lemma_kept_step(st: PlanView, s: StepView)
    ensures
        steps_kept(st, add_step(st, s)),
{
    assert(add_step(st, s).steps.subrange(0, st.steps.len() as int) =~= st.steps);
}

proof fn lemma_kept_refl(st: PlanView)
    ensures
        steps_kept(st, st),
{
    assert(st.steps.subrange(0, st.steps.len() as int) =~= st.steps);
}

/// Initializing memory only adds steps to the plan: whenever it succeeds,
/// the steps planned before are kept, unchanged and in order, at the start of
/// the new plan.
pub proof fn law_init_keeps_earlier_steps(
    t: TableView,
    rank: Rank,
    d: DataView,
    ty: Option<TypeView>,
    at: Location,
    ctx: StructContext,
    st: PlanView,
)
    ensures
        init(t, rank, d, ty, at, ctx, st) matches Ok((st2, _)) ==> steps_kept(st, st2),
    decreases dsize(d), opt_rank(ty, rank), opt_size(ty) + 2,
{
    match ty {
        Some(TypeView::Array { element_type, num_elements }) if num_elements == 1 => match d {
            DataView::Array { element_type: inner, num_elements: n } if n == 1 => {
                law_init_keeps_earlier_steps(t, rank, *inner, Some(*element_type), at, ctx, st);
            },
            _ => law_init_keeps_earlier_steps(t, rank, d, Some(*element_type), at, ctx, st),
        },
        Some(TypeView::Vector { element_type, num_elements }) if num_elements == 1 => match d {
            DataView::Array { element_type: inner, num_elements: n } if n == 1 => {
                law_init_keeps_earlier_steps(t, rank, *inner, Some(*element_type), at, ctx, st);
            },
            _ => law_init_keeps_earlier_steps(t, rank, d, Some(*element_type), at, ctx, st),
        },
        Some(TypeView::Struct { element_types }) if element_types.len() == 1
            && !d.could_describe_one_element_struct() => {
            lemma_element_measures(element_types, rank, 0);
            law_init_keeps_earlier_steps(t, rank, d, Some(element_types[0]), at, ctx, st);
        },
        Some(TypeView::NamedStruct { name }) => match lookup(t, name) {
            Some(Some(TypeView::Struct { element_types })) if element_types.len() == 1
                && !d.could_describe_one_element_struct() => {
                let def = lookup(t, name).unwrap().unwrap();
                if by_value_rank(def, rank) <= rank(name) {
                    lemma_element_measures(element_types, rank, 0);
                    law_init_keeps_earlier_steps(t, rank, d, Some(element_types[0]), at, ctx, st);
                }
            },
            _ => lemma_init_data_kept(t, rank, d, ty, at, ctx, st),
        },
        _ => lemma_init_data_kept(t, rank, d, ty, at, ctx, st),
    }
}

proof fn lemma_init_data_kept(
    t: TableView,
    rank: Rank,
    d: DataView,
    ty: Option<TypeView>,
    at: Location,
    ctx: StructContext,
    st: PlanView,
)
    ensures
        init_data(t, rank, d, ty, at, ctx, st) matches Ok((st2, _)) ==> steps_kept(st, st2),
    decreases dsize(d), 0nat, 1nat,
{
    let here = Target::Memory(at);
    lemma_kept_refl(st);
    match d {
        DataView::Secret { bits } => lemma_kept_step(st, StepView::WriteSecret { at: here, bits }),
        DataView::PublicValue { .. } => lemma_value_kept(t, rank, d, ty, at, ctx, st),
        DataView::PublicPointerTo { pointee, maybe_null } => {
            if st.next_region < usize::MAX {
                let region = st.next_region as usize;
                let s1 = StepView::Allocate { at: here, region, bits: pointee.size() as usize, maybe_null };
                let st1 = PlanView { steps: st.steps.push(s1), next_region: st.next_region + 1, ..st };
                lemma_kept_step(st, s1);
                assert(steps_kept(st, st1));
                let pt = match ty {
                    Some(TypeView::Pointer { pointee_type }) => Some(*pointee_type),
                    _ => None,
                };
                law_init_keeps_earlier_steps(t, rank, *pointee, pt, Location { region, offset_bits: 0 }, ctx, st1);
                if let Ok((st2, _)) = init(t, rank, *pointee, pt, Location { region, offset_bits: 0 }, ctx, st1) {
                    lemma_kept_trans(st, st1, st2);
                }
            }
        },
        DataView::PublicPointerToFunction(f) => lemma_kept_step(st, StepView::PointToFunction { at: here, name: f }),
        DataView::PublicPointerToHook(f) => lemma_kept_step(st, StepView::PointToHook { at: here, name: f }),
        DataView::PublicPointerToSelf => {
            if let Some((loc, _)) = ctx.cur {
                lemma_kept_step(st, StepView::PointTo { at: here, target: loc });
            }
        },
        DataView::PublicPointerToParentOr(backup) => {
            if let Some((ploc, _)) = ctx.parent {
                lemma_kept_step(st, StepView::PointTo { at: here, target: ploc });
            }
            if let Some(b) = backup {
                law_init_keeps_earlier_steps(
                    t,
                    rank,
                    DataView::PublicPointerTo { pointee: b, maybe_null: false },
                    ty,
                    at,
                    ctx,
                    st,
                );
            }
        },
        DataView::Array { element_type, num_elements } => {
            let ety = match ty {
                Some(TypeView::Array { element_type: et, .. }) => Some(*et),
                _ => ty,
            };
            lemma_init_array_kept(t, rank, *element_type, ety, at, num_elements as nat, ctx, st);
            let sd = DataView::Secret { bits: (element_type.size() * num_elements) as usize };
            law_init_keeps_earlier_steps(t, rank, sd, ty, at, ctx, st);
            if let Ok((st2, _)) = init_data(t, rank, d, ty, at, ctx, st) {
                match *element_type {
                    DataView::Secret { .. } => {},
                    DataView::PublicValue { value: AbstractValue::Unconstrained, .. } => {
                        assert(st2 == st);
                    },
                    _ => {
                        assert(init_array(t, rank, *element_type, ety, at, num_elements as nat, ctx, st) == Ok::<
                            PlanView,
                            InitErrorView,
                        >(st2));
                    },
                }
            }
        },
        DataView::Struct { name, elements } => {
            let tys: Seq<Option<TypeView>> = match ty {
                Some(TypeView::Struct { element_types }) => Seq::new(element_types.len(), |i: int| Some(element_types[i])),
                Some(TypeView::NamedStruct { name: n }) => match lookup(t, n) {
                    Some(Some(TypeView::Struct { element_types })) => Seq::new(
                        element_types.len(),
                        |i: int| Some(element_types[i]),
                    ),
                    _ => Seq::new(elements.len(), |i: int| None::<TypeView>),
                },
                _ => Seq::new(elements.len(), |i: int| None::<TypeView>),
            };
            let inner = StructContext {
                cur: match ty {
                    Some(ty) => Some((at, ty)),
                    None => None,
                },
                parent: ctx.cur,
            };
            if tys.len() == elements.len() {
                lemma_init_struct_kept(t, rank, elements, tys, at, inner, st);
            }
        },
        DataView::VoidOverride { llvm_struct_name, data } => {
            match llvm_struct_name {
                None => law_init_keeps_earlier_steps(t, rank, *data, None, at, ctx, st),
                Some(n) => match lookup(t, n) {
                    Some(Some(def)) => law_init_keeps_earlier_steps(t, rank, *data, Some(def), at, ctx, st),
                    _ => {},
                },
            }
        },
        DataView::SameSizeOverride { data } => law_init_keeps_earlier_steps(t, rank, *data, None, at, ctx, st),
        DataView::WithWatchpoint { name, data } => {
            let s1 = StepView::Watch { at: here, bytes: (data.size() / 8) as usize, name };
            lemma_kept_step(st, s1);
            law_init_keeps_earlier_steps(t, rank, *data, ty, at, ctx, add_step(st, s1));
            if let Ok((st2, _)) = init(t, rank, *data, ty, at, ctx, add_step(st, s1)) {
                lemma_kept_trans(st, add_step(st, s1), st2);
            }
        },
        _ => {},
    }
}

proof fn lemma_value_kept(
    t: TableView,
    rank: Rank,
    d: DataView,
    ty: Option<TypeView>,
    at: Location,
    ctx: StructContext,
    st: PlanView,
)
    requires
        d is PublicValue,
    ensures
        init_data(t, rank, d, ty, at, ctx, st) matches Ok((st2, _)) ==> steps_kept(st, st2),
    decreases dsize(d), 0nat, 0nat,
{
    let here = Target::Memory(at);
    lemma_kept_refl(st);
    match d {
        DataView::PublicValue { bits, value } => match value {
            AbstractValue::ExactValue(v) => lemma_kept_step(st, StepView::WriteValue { at: here, bits, value: v }),
            AbstractValue::Range(min, max) => lemma_kept_step(st, StepView::ConstrainRange { at: here, bits, min, max }),
            AbstractValue::Unconstrained => {},
            AbstractValue::Named { name, value: inner } => {
                let pv = DataView::PublicValue { bits, value: *inner };
                law_init_keeps_earlier_steps(t, rank, pv, ty, at, ctx, st);
                if let Ok((st1, _)) = init(t, rank, pv, ty, at, ctx, st) {
                    match lookup(st1.names, name@) {
                        None => {
                            let st2 = PlanView {
                                steps: st1.steps.push(StepView::NameValue { at: here, bits, name: name@, first: true }),
                                names: st1.names.push((name@, bits)),
                                ..st1
                            };
                            lemma_kept_step(st1, StepView::NameValue { at: here, bits, name: name@, first: true });
                            assert(add_step(st1, StepView::NameValue { at: here, bits, name: name@, first: true }).steps
                                == st2.steps);
                            assert(steps_kept(st1, st2));
                            lemma_kept_trans(st, st1, st2);
                            assert(name_value(st1, here, bits, name@) == Ok::<(PlanView, nat), InitErrorView>((st2, bits as nat)));
                        },
                        Some(_) => {
                            let s2 = StepView::NameValue { at: here, bits, name: name@, first: false };
                            lemma_kept_step(st1, s2);
                            lemma_kept_trans(st, st1, add_step(st1, s2));
                        },
                    }
                }
            },
            _ => {
                let (name, relation) = relation_of(value).unwrap();
                lemma_kept_step(st, StepView::WriteRelated { at: here, bits, name, relation });
            },
        },
        _ => {},
    }
}

proof fn lemma_init_array_kept(
    t: TableView,
    rank: Rank,
    e: DataView,
    ety: Option<TypeView>,
    at: Location,
    n: nat,
    ctx: StructContext,
    st: PlanView,
)
    ensures
        init_array(t, rank, e, ety, at, n, ctx, st) matches Ok(st2) ==> steps_kept(st, st2),
    decreases dsize(e) + 1, n, 0nat,
{
    lemma_kept_refl(st);
    if n > 0 {
        lemma_init_array_kept(t, rank, e, ety, at, (n - 1) as nat, ctx, st);
        if let Ok(st1) = init_array(t, rank, e, ety, at, (n - 1) as nat, ctx, st) {
            let loc = shifted(at, e.size() * ((n - 1) as nat));
            law_init_keeps_earlier_steps(t, rank, e, ety, loc, ctx, st1);
            if let Ok((st2, _)) = init(t, rank, e, ety, loc, ctx, st1) {
                lemma_kept_trans(st, st1, st2);
            }
        }
    }
}

proof fn lemma_init_struct_kept(
    t: TableView,
    rank: Rank,
    elements: Seq<DataView>,
    tys: Seq<Option<TypeView>>,
    at: Location,
    ctx: StructContext,
    st: PlanView,
)
    requires
        tys.len() == elements.len(),
    ensures
        init_struct(t, rank, elements, tys, at, ctx, st) matches Ok(st2) ==> steps_kept(st, st2),
    decreases dsize_all(elements) + 1, 0nat, 0nat,
{
    lemma_kept_refl(st);
    if elements.len() > 0 {
        let k = elements.len() - 1;
        lemma_dsize_element(elements, k);
        let prefix = elements.subrange(0, k);
        lemma_init_struct_kept(t, rank, prefix, tys.subrange(0, k), at, ctx, st);
        if let Ok(st1) = init_struct(t, rank, prefix, tys.subrange(0, k), at, ctx, st) {
            let loc = shifted(at, DataView::sum_sizes(prefix));
            law_init_keeps_earlier_steps(t, rank, elements[k], tys[k], loc, ctx, st1);
            if let Ok((st2, _)) = init(t, rank, elements[k], tys[k], loc, ctx, st1) {
                lemma_kept_trans(st, st1, st2);
            }
        }
    }
}


/// Does the plan `st2` keep the steps of `st` and go on with the allocation,
/// at `at`, of the next free region for `pointee`, with the given
/// `maybe_null`?
pub open spec fn allocates_next(st: PlanView, st2: PlanView, at: Target, pointee: DataView, maybe_null: bool) -> bool {
    &&& steps_kept(st, st2)
    &&& st.steps.len() < st2.steps.len()
    &&& st2.steps[st.steps.len() as int] == StepView::Allocate {
        at,
        region: st.next_region as usize,
        bits: pointee.size() as usize,
        maybe_null,
    }
}

/// Memory described as a pointer to `pointee` that may be null exactly when
/// `maybe_null` gets, when its initialization succeeds, a new region for the
/// pointee: right after the steps planned before, the plan allocates the next
/// free region, of the pointee's size, at that place, and the pointer may be
/// null exactly when `maybe_null` says so.
pub proof fn law_pointer_allocates_with_its_nullability(
    t: TableView,
    pointee: DataView,
    maybe_null: bool,
    ty: Option<TypeView>,
    at: Location,
    ctx: StructContext,
    st: PlanView,
)
    ensures
        init(
            t,
            some_rank(t),
            DataView::PublicPointerTo { pointee: Box::new(pointee), maybe_null },
            ty,
            at,
            ctx,
            st,
        ) matches Ok((st2, _)) ==> allocates_next(st, st2, Target::Memory(at), pointee, maybe_null),
{
    lemma_pointer_allocates(t, some_rank(t), pointee, maybe_null, ty, at, ctx, st);
}

proof fn lemma_pointer_allocates(
    t: TableView,
    rank: Rank,
    pointee: DataView,
    maybe_null: bool,
    ty: Option<TypeView>,
    at: Location,
    ctx: StructContext,
    st: PlanView,
)
    ensures
        init(t, rank, DataView::PublicPointerTo { pointee: Box::new(pointee), maybe_null }, ty, at, ctx, st) matches Ok(
            (st2, _),
        ) ==> allocates_next(st, st2, Target::Memory(at), pointee, maybe_null),
    decreases opt_rank(ty, rank), opt_size(ty),
{
    let d = DataView::PublicPointerTo { pointee: Box::new(pointee), maybe_null };
    match ty {
        Some(TypeView::Array { element_type, num_elements }) if num_elements == 1 => {
            lemma_pointer_allocates(t, rank, pointee, maybe_null, Some(*element_type), at, ctx, st);
        },
        Some(TypeView::Vector { element_type, num_elements }) if num_elements == 1 => {
            lemma_pointer_allocates(t, rank, pointee, maybe_null, Some(*element_type), at, ctx, st);
        },
        Some(TypeView::Struct { element_types }) if element_types.len() == 1 => {
            lemma_element_measures(element_types, rank, 0);
            lemma_pointer_allocates(t, rank, pointee, maybe_null, Some(element_types[0]), at, ctx, st);
        },
        Some(TypeView::NamedStruct { name }) => match lookup(t, name) {
            Some(Some(TypeView::Struct { element_types })) if element_types.len() == 1 => {
                let def = lookup(t, name).unwrap().unwrap();
                if by_value_rank(def, rank) <= rank(name) {
                    lemma_element_measures(element_types, rank, 0);
                    lemma_pointer_allocates(t, rank, pointee, maybe_null, Some(element_types[0]), at, ctx, st);
                }
            },
            _ => lemma_pointer_data_allocates(t, rank, pointee, maybe_null, ty, at, ctx, st),
        },
        _ => lemma_pointer_data_allocates(t, rank, pointee, maybe_null, ty, at, ctx, st),
    }
}

proof fn lemma_pointer_data_allocates(
    t: TableView,
    rank: Rank,
    pointee: DataView,
    maybe_null: bool,
    ty: Option<TypeView>,
    at: Location,
    ctx: StructContext,
    st: PlanView,
)
    ensures
        init_data(t, rank, DataView::PublicPointerTo { pointee: Box::new(pointee), maybe_null }, ty, at, ctx, st) matches Ok(
            (st2, _),
        ) ==> allocates_next(st, st2, Target::Memory(at), pointee, maybe_null),
{
    if st.next_region < usize::MAX {
        let region = st.next_region as usize;
        let s1 = StepView::Allocate { at: Target::Memory(at), region, bits: pointee.size() as usize, maybe_null };
        let st1 = PlanView { steps: st.steps.push(s1), next_region: st.next_region + 1, ..st };
        let pt = match ty {
            Some(TypeView::Pointer { pointee_type }) => Some(*pointee_type),
            _ => None,
        };
        law_init_keeps_earlier_steps(t, rank, pointee, pt, Location { region, offset_bits: 0 }, ctx, st1);
        if let Ok((st2, _)) = init(t, rank, pointee, pt, Location { region, offset_bits: 0 }, ctx, st1) {
            lemma_kept_step(st, s1);
            assert(add_step(st, s1).steps == st1.steps);
            lemma_kept_trans(st, st1, st2);
            assert(st2.steps[st.steps.len() as int] == st2.steps.subrange(0, st1.steps.len() as int)[st.steps.len() as int]);
        }
    }
}

/// A parameter described as a pointer to `pointee` that may be null exactly
/// when `maybe_null` gets, when planning it succeeds, a new region for the
/// pointee: right after the steps planned before, the plan allocates the next
/// free region, of the pointee's size, and makes the parameter point to it,
/// possibly null exactly when `maybe_null` says so.
pub proof fn law_pointer_parameter_allocates_with_its_nullability(
    t: TableView,
    rank: Rank,
    pointee: DataView,
    maybe_null: bool,
    param: usize,
    param_ty: TypeView,
    type_override: bool,
    st: PlanView,
)
    ensures
        plan_arg(
            t,
            rank,
            DataView::PublicPointerTo { pointee: Box::new(pointee), maybe_null },
            param,
            param_ty,
            type_override,
            st,
        ) matches Ok(st2) ==> allocates_next(st, st2, Target::Param(param), pointee, maybe_null),
{
    if st.next_region < usize::MAX {
        let region = st.next_region as usize;
        let s1 = StepView::Allocate { at: Target::Param(param), region, bits: pointee.size() as usize, maybe_null };
        let st1 = PlanView { steps: st.steps.push(s1), next_region: st.next_region + 1, ..st };
        let pt = if type_override {
            None
        } else {
            match param_ty {
                TypeView::Pointer { pointee_type } => Some(*pointee_type),
                _ => None,
            }
        };
        law_init_keeps_earlier_steps(t, rank, pointee, pt, Location { region, offset_bits: 0 }, no_struct(), st1);
        if let Ok((st2, _)) = init(t, rank, pointee, pt, Location { region, offset_bits: 0 }, no_struct(), st1) {
            lemma_kept_step(st, s1);
            assert(add_step(st, s1).steps == st1.steps);
            lemma_kept_trans(st, st1, st2);
            assert(st2.steps[st.steps.len() as int] == st2.steps.subrange(0, st1.steps.len() as int)[st.steps.len() as int]);
        }
    }
}

/// The one step that makes the place `at` point to the function `f`
/// (`hook`: to the hook registered for `f`).
pub open spec fn code_pointer_step(at: Target, f: Seq<char>, hook: bool) -> StepView {
    if hook {
        StepView::PointToHook { at, name: f }
    } else {
        StepView::PointToFunction { at, name: f }
    }
}

/// The description of a pointer to the function `f` (`hook`: to the hook
/// registered for `f`).
pub open spec fn code_pointer(f: Seq<char>, hook: bool) -> DataView {
    if hook {
        DataView::PublicPointerToHook(f)
    } else {
        DataView::PublicPointerToFunction(f)
    }
}

/// Memory described as a pointer to the function `f` is made to point to
/// that function, and memory described as a pointer to the hook for `f` to
/// that hook: when initializing it succeeds, exactly that one step is added
/// at that place and nothing else changes; with a pointer type, or no type
/// to check against, it always succeeds.
pub proof fn law_code_pointer_in_memory(
    t: TableView,
    f: Seq<char>,
    hook: bool,
    ty: Option<TypeView>,
    at: Location,
    ctx: StructContext,
    st: PlanView,
)
    ensures
        init(t, some_rank(t), code_pointer(f, hook), ty, at, ctx, st) matches Ok((st2, _)) ==> st2 == add_step(
            st,
            code_pointer_step(Target::Memory(at), f, hook),
        ),
        (ty is None || ty matches Some(TypeView::Pointer { .. })) ==> init(
            t,
            some_rank(t),
            code_pointer(f, hook),
            ty,
            at,
            ctx,
            st,
        ) is Ok,
{
    lemma_code_pointer(t, some_rank(t), f, hook, ty, at, ctx, st);
}

proof fn lemma_code_pointer(
    t: TableView,
    rank: Rank,
    f: Seq<char>,
    hook: bool,
    ty: Option<TypeView>,
    at: Location,
    ctx: StructContext,
    st: PlanView,
)
    ensures
        init(t, rank, code_pointer(f, hook), ty, at, ctx, st) matches Ok((st2, _)) ==> st2 == add_step(
            st,
            code_pointer_step(Target::Memory(at), f, hook),
        ),
        (ty is None || ty matches Some(TypeView::Pointer { .. })) ==> init(t, rank, code_pointer(f, hook), ty, at, ctx, st)
            is Ok,
    decreases opt_rank(ty, rank), opt_size(ty),
{
    let d = code_pointer(f, hook);
    assert(!(d is Array) && !d.could_describe_one_element_struct());
    match ty {
        Some(TypeView::Array { element_type, num_elements }) if num_elements == 1 => {
            lemma_code_pointer(t, rank, f, hook, Some(*element_type), at, ctx, st);
            assert(init(t, rank, d, ty, at, ctx, st) == init(t, rank, d, Some(*element_type), at, ctx, st));
        },
        Some(TypeView::Vector { element_type, num_elements }) if num_elements == 1 => {
            lemma_code_pointer(t, rank, f, hook, Some(*element_type), at, ctx, st);
        },
        Some(TypeView::Struct { element_types }) if element_types.len() == 1 => {
            lemma_element_measures(element_types, rank, 0);
            lemma_code_pointer(t, rank, f, hook, Some(element_types[0]), at, ctx, st);
        },
        Some(TypeView::NamedStruct { name }) => match lookup(t, name) {
            Some(Some(TypeView::Struct { element_types })) if element_types.len() == 1 => {
                let def = lookup(t, name).unwrap().unwrap();
                if by_value_rank(def, rank) <= rank(name) {
                    lemma_element_measures(element_types, rank, 0);
                    lemma_code_pointer(t, rank, f, hook, Some(element_types[0]), at, ctx, st);
                }
            },
            _ => lemma_code_pointer_data(t, rank, f, hook, ty, at, ctx, st),
        },
        _ => lemma_code_pointer_data(t, rank, f, hook, ty, at, ctx, st),
    }
}

proof fn lemma_code_pointer_data(
    t: TableView,
    rank: Rank,
    f: Seq<char>,
    hook: bool,
    ty: Option<TypeView>,
    at: Location,
    ctx: StructContext,
    st: PlanView,
)
    ensures
        init_data(t, rank, code_pointer(f, hook), ty, at, ctx, st) matches Ok((st2, _)) ==> st2 == add_step(
            st,
            code_pointer_step(Target::Memory(at), f, hook),
        ),
        (ty is None || ty matches Some(TypeView::Pointer { .. })) ==> init_data(
            t,
            rank,
            code_pointer(f, hook),
            ty,
            at,
            ctx,
            st,
        ) is Ok,
{
    if hook {
        assert(code_pointer(f, hook) == DataView::PublicPointerToHook(f));
    } else {
        assert(code_pointer(f, hook) == DataView::PublicPointerToFunction(f));
    }
}

} // verus!
