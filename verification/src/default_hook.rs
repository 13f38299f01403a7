//! Whether a value handed to a function without definition or hook may refer
//! to secret data, decided one level of its LLVM type at a time.
use vstd::prelude::*;
use crate::completion::TableView;
use crate::llvmtype::{ranked, some_rank, type_bits, well_founded, LlvmType, NamedStructDef, Rank, StructTable, TypeView};
use crate::namemap::lookup;

verus! {

/// What is known of a value's secrecy, the data it points to included.
#[derive(PartialEq, Eq, Structural, Clone, Copy, Debug)]
pub enum ArgumentKind {
    /// The value is fully public, and any pointed-to data is also public.
    Public,
    /// The value is secret, or points to (or contains pointers to) secret data.
    Secret,
    /// The value points to (or contains pointers to) an opaque struct type, so
    /// its data could not be fully looked at.
    Unknown,
}

impl ArgumentKind {
    /// The kind of a value made of parts of the kinds `self` and `other`:
    /// secret if either part is, else unknown if either part is, else public.
    pub fn combine(self, other: ArgumentKind) -> (r: ArgumentKind)
        ensures
            r == (if self is Secret || other is Secret {
                ArgumentKind::Secret
            } else if self is Unknown || other is Unknown {
                ArgumentKind::Unknown
            } else {
                ArgumentKind::Public
            }),
    {
        match (self, other) {
            (ArgumentKind::Secret, _) | (_, ArgumentKind::Secret) => ArgumentKind::Secret,
            (ArgumentKind::Unknown, _) | (_, ArgumentKind::Unknown) => ArgumentKind::Unknown,
            _ => ArgumentKind::Public,
        }
    }
}

/// The bits `low..=high` of a value, of the LLVM type given by `element`: the
/// element type of an array or vector (0), or the index of a struct's field.
#[derive(PartialEq, Eq, Structural, Clone, Copy, Debug)]
pub struct Slice {
    pub high: u32,
    pub low: u32,
    pub element: usize,
}

/// What follows the slices of a value.
#[derive(PartialEq, Eq, Structural, Clone, Copy, Debug)]
pub enum AfterSlices {
    /// Nothing: the value is as secret as its slices together.
    Done,
    /// A field without a known size: unless a slice is secret, the value is
    /// unknown.
    Unknown,
    /// The fields so far end off a byte boundary, which is not supported.
    Misaligned,
}

/// The kind of a value so far, after one more of its slices, of kind `k`,
/// was looked at; and whether to stop looking, as nothing can change a
/// secret value.
pub fn fold_slice(acc: ArgumentKind, k: ArgumentKind) -> (r: (ArgumentKind, bool))
    ensures
        r.0 == (if acc is Secret || k is Secret {
            ArgumentKind::Secret
        } else if acc is Unknown || k is Unknown {
            ArgumentKind::Unknown
        } else {
            ArgumentKind::Public
        }),
        r.1 == (r.0 is Secret),
{
    let c = acc.combine(k);
    let stop = match c {
        ArgumentKind::Secret => true,
        _ => false,
    };
    (c, stop)
}

/// The kind of a value whose slices together are of kind `acc`, given what
/// follows them: the same when nothing does, unknown after a field without a
/// known size; `Err` for fields that end off a byte boundary, which are not
/// supported.
pub fn after_slices(acc: ArgumentKind, after: AfterSlices) -> (r: Result<ArgumentKind, AfterSlices>)
    ensures
        r == match after {
            AfterSlices::Done => Ok::<ArgumentKind, AfterSlices>(acc),
            AfterSlices::Unknown => Ok(ArgumentKind::Unknown),
            AfterSlices::Misaligned => Err(AfterSlices::Misaligned),
        },
{
    match after {
        AfterSlices::Done => Ok(acc),
        AfterSlices::Unknown => Ok(ArgumentKind::Unknown),
        AfterSlices::Misaligned => Err(AfterSlices::Misaligned),
    }
}

/// How to look further into a public value of an LLVM type.
#[derive(PartialEq, Eq, Debug)]
pub enum ScanStep {
    /// There is nothing more to look at: the value is public.
    Public,
    /// What the value refers to cannot be known.
    Unknown,
    /// Look at the `bits` bits that the (pointer) value points to, as the
    /// pointee type; a null pointer points to nothing.
    Pointee { bits: u32 },
    /// Look at each slice in order, then at what follows.
    Slices { slices: Vec<Slice>, after: AfterSlices },
    /// Look at the value as the definition of the named struct type.
    AsDefinition,
    /// The named struct type does not exist.
    StructNotFound,
    /// The value is wider than a bitvector can be.
    TooWide,
}

/// The model of a `ScanStep`.
pub enum ScanStepView {
    Public,
    Unknown,
    Pointee { bits: u32 },
    Slices { slices: Seq<Slice>, after: AfterSlices },
    AsDefinition,
    StructNotFound,
    TooWide,
}

impl View for ScanStep {
    type V = ScanStepView;

    open spec fn view(&self) -> ScanStepView {
        match *self {
            ScanStep::Public => ScanStepView::Public,
            ScanStep::Unknown => ScanStepView::Unknown,
            ScanStep::Pointee { bits } => ScanStepView::Pointee { bits },
            ScanStep::Slices { slices, after } => ScanStepView::Slices { slices: slices@, after },
            ScanStep::AsDefinition => ScanStepView::AsDefinition,
            ScanStep::StructNotFound => ScanStepView::StructNotFound,
            ScanStep::TooWide => ScanStepView::TooWide,
        }
    }
}

/// The slices of the `n` elements of `eb` bits each of an array or vector.
pub open spec fn array_slices(eb: nat, n: nat) -> Seq<Slice> {
    Seq::new(n, |i: int| Slice { high: ((i + 1) * eb - 1) as u32, low: (i * eb) as u32, element: 0 })
}

/// The slices of the fields of a struct, from its first, with where they end
/// and what follows them: fields of size 0 take no slice; a field without a
/// known size ends the slices, as does an end off a byte boundary (after the
/// field's slice); an end beyond `u32::MAX` bits is `None`.
pub open spec fn struct_slices(t: TableView, rank: Rank, ets: Seq<TypeView>) -> Option<(Seq<Slice>, nat, AfterSlices)>
    decreases ets.len(),
{
    if ets.len() == 0 {
        Some((Seq::empty(), 0, AfterSlices::Done))
    } else {
        let k = ets.len() - 1;
        match struct_slices(t, rank, ets.subrange(0, k)) {
            None => None,
            Some((slices, off, after)) => if !(after is Done) {
                Some((slices, off, after))
            } else {
                match type_bits(t, ets[k], rank) {
                    None => Some((slices, off, AfterSlices::Unknown)),
                    Some(eb) => if eb == 0 {
                        Some((slices, off, AfterSlices::Done))
                    } else if off + eb > u32::MAX {
                        None
                    } else {
                        let s = Slice { high: (off + eb - 1) as u32, low: off as u32, element: k as usize };
                        let end = off + eb;
                        Some((slices.push(s), end, if end % 8 == 0 { AfterSlices::Done } else { AfterSlices::Misaligned }))
                    },
                }
            },
        }
    }
}

/// How to look further into a public value of LLVM type `ty`, with named
/// structs resolved through `t`.
pub open spec fn scan_step_of(t: TableView, rank: Rank, ty: TypeView) -> ScanStepView {
    match ty {
        TypeView::Pointer { pointee_type } => match *pointee_type {
            TypeView::Func => ScanStepView::Public,
            _ => match type_bits(t, *pointee_type, rank) {
                None => ScanStepView::Unknown,
                Some(s) => if s > u32::MAX {
                    ScanStepView::TooWide
                } else {
                    ScanStepView::Pointee { bits: s as u32 }
                },
            },
        },
        TypeView::Array { element_type, num_elements } | TypeView::Vector { element_type, num_elements } => match type_bits(
            t,
            *element_type,
            rank,
        ) {
            None => ScanStepView::Unknown,
            Some(eb) => if eb == 0 {
                ScanStepView::Public
            } else if eb * num_elements > u32::MAX {
                ScanStepView::TooWide
            } else {
                ScanStepView::Slices { slices: array_slices(eb, num_elements as nat), after: AfterSlices::Done }
            },
        },
        TypeView::Struct { element_types } => match struct_slices(t, rank, element_types) {
            None => ScanStepView::TooWide,
            Some((slices, _, after)) => ScanStepView::Slices { slices, after },
        },
        TypeView::NamedStruct { name } => match lookup(t, name) {
            None => ScanStepView::StructNotFound,
            Some(None) => ScanStepView::Unknown,
            Some(Some(_)) => ScanStepView::AsDefinition,
        },
        _ => ScanStepView::Public,
    }
}

/// How to look further into a public value of LLVM type `ty` for secret data:
/// the data behind a pointer (none behind a function pointer), the elements of
/// an array or vector or the fields of a struct as slices of the value, or the
/// definition of a named struct; unknown where a size is unknown or a struct
/// opaque.
pub fn scan_step(t: &StructTable, ty: &LlvmType) -> (r: ScanStep)
    requires
        well_founded(t@),
    ensures
        r@ == scan_step_of(t@, some_rank(t@), ty@),
{
    let ghost rank = some_rank(t@);
    match ty {
        LlvmType::Pointer { pointee_type } => match &**pointee_type {
            LlvmType::Func => {
                assert((**pointee_type)@ == TypeView::Func);
                ScanStep::Public
            },
            _ => match t.bits_of(pointee_type, Ghost(rank)) {
                None => ScanStep::Unknown,
                Some(s) => if s > 0xffff_ffffusize {
                    ScanStep::TooWide
                } else {
                    ScanStep::Pointee { bits: s as u32 }
                },
            },
        },
        LlvmType::Array { element_type, num_elements } | LlvmType::Vector { element_type, num_elements } => match t.bits_of(
            element_type,
            Ghost(rank),
        ) {
            None => ScanStep::Unknown,
            Some(eb) => if eb == 0 {
                ScanStep::Public
            } else {
                match eb.checked_mul(*num_elements) {
                    None => ScanStep::TooWide,
                    Some(total) => if total > 0xffff_ffffusize {
                        ScanStep::TooWide
                    } else {
                        ScanStep::Slices { slices: array_slices_of(eb, *num_elements), after: AfterSlices::Done }
                    },
                }
            },
        },
        LlvmType::Struct { element_types } => {
            proof {
                LlvmType::lemma_models(element_types@);
            }
            match struct_slices_of(t, element_types, Ghost(rank)) {
                None => ScanStep::TooWide,
                Some((slices, after)) => ScanStep::Slices { slices, after },
            }
        },
        LlvmType::NamedStruct { name } => match t.get(name.as_str()) {
            None => ScanStep::StructNotFound,
            Some(NamedStructDef::Opaque) => ScanStep::Unknown,
            Some(NamedStructDef::Defined(_)) => ScanStep::AsDefinition,
        },
        _ => ScanStep::Public,
    }
}

/// See `array_slices`.
fn array_slices_of(eb: usize, n: usize) -> (r: Vec<Slice>)
    requires
        eb >= 1,
        eb * n <= u32::MAX,
    ensures
        r@ == array_slices(eb as nat, n as nat),
{
    let mut r: Vec<Slice> = Vec::new();
    let mut i: usize = 0;
    while i < n
        invariant
            i <= n,
            eb >= 1,
            eb * n <= u32::MAX,
            r@ == array_slices(eb as nat, n as nat).subrange(0, i as int),
        decreases n - i,
    {
        proof {
            assert((i + 1) * eb <= eb * n) by (nonlinear_arith)
                requires i < n;
            assert((i + 1) * eb == i * eb + eb) by (nonlinear_arith);
        }
        let low = i * eb;
        let high = low + eb - 1;
        r.push(Slice { high: high as u32, low: low as u32, element: 0 });
        i = i + 1;
        assert(r@ =~= array_slices(eb as nat, n as nat).subrange(0, i as int));
    }
    assert(array_slices(eb as nat, n as nat).subrange(0, i as int) =~= array_slices(eb as nat, n as nat));
    r
}

/// See `struct_slices`.
fn struct_slices_of(t: &StructTable, ets: &Vec<LlvmType>, Ghost(rank): Ghost<Rank>) -> (r: Option<(Vec<Slice>, AfterSlices)>)
    requires
        ranked(t@, rank),
    ensures
        match r {
            Some((slices, after)) => struct_slices(t@, rank, LlvmType::models(ets@)) matches Some((s, _, a)) && s == slices@
                && a == after,
            None => struct_slices(t@, rank, LlvmType::models(ets@)) is None,
        },
{
    proof {
        LlvmType::lemma_models(ets@);
    }
    let ghost ms = LlvmType::models(ets@);
    let mut slices: Vec<Slice> = Vec::new();
    let mut off: usize = 0;
    let mut after = AfterSlices::Done;
    let mut i: usize = 0;
    while i < ets.len()
        invariant
            i <= ets@.len(),
            ms == LlvmType::models(ets@),
            ms.len() == ets@.len(),
            forall|j: int| 0 <= j < ets@.len() ==> #[trigger] ms[j] == ets@[j]@,
            ranked(t@, rank),
            off <= u32::MAX,
            struct_slices(t@, rank, ms.subrange(0, i as int)) == Some((slices@, off as nat, after)),
        decreases ets.len() - i,
    {
        let ghost prefix = ms.subrange(0, i + 1);
        proof {
            assert(prefix.subrange(0, i as int) =~= ms.subrange(0, i as int));
            assert(prefix[i as int] == ms[i as int]);
        }
        if after == AfterSlices::Done {
            match t.bits_of(&ets[i], Ghost(rank)) {
                None => {
                    after = AfterSlices::Unknown;
                },
                Some(eb) => {
                    if eb != 0 {
                        if eb > 0xffff_ffffusize - off {
                            proof {
                                lemma_struct_slices_none(t@, rank, ms, i + 1);
                            }
                            return None;
                        }
                        let end = off + eb;
                        slices.push(Slice { high: (end - 1) as u32, low: off as u32, element: i });
                        off = end;
                        if end % 8 != 0 {
                            after = AfterSlices::Misaligned;
                        }
                    }
                },
            }
        }
        i = i + 1;
    }
    assert(ms.subrange(0, i as int) =~= ms);
    Some((slices, after))
}

/// Once the slices of a prefix of the fields overflow, so do those of all of
/// them.
proof fn lemma_struct_slices_none(t: TableView, rank: Rank, ets: Seq<TypeView>, k: int)
    requires
        0 <= k <= ets.len(),
        struct_slices(t, rank, ets.subrange(0, k)) is None,
    ensures
        struct_slices(t, rank, ets) is None,
    decreases ets.len() - k,
{
    if k < ets.len() {
        let n = ets.len() - 1;
        assert(ets.subrange(0, n).subrange(0, k) =~= ets.subrange(0, k));
        lemma_struct_slices_none(t, rank, ets.subrange(0, n), k);
    } else {
        assert(ets.subrange(0, k) =~= ets);
    }
}

/// The width of the secret value that a call of a function returning `ty`
/// gives back: `None` for `void`; an error for a type without a known size, or
/// of size 0 or beyond `u32::MAX` bits.
pub open spec fn secret_return_width(t: TableView, rank: Rank, ty: TypeView) -> Result<Option<u32>, ReturnError> {
    match ty {
        TypeView::Void => Ok(None),
        _ => match type_bits(t, ty, rank) {
            None => Err(ReturnError::OpaqueType),
            Some(w) => if w == 0 {
                Err(ReturnError::ZeroSized)
            } else if w > u32::MAX {
                Err(ReturnError::TooWide)
            } else {
                Ok(Some(w as u32))
            },
        },
    }
}

/// Why a function's return type cannot be given a secret value.
#[derive(PartialEq, Eq, Structural, Clone, Copy, Debug)]
pub enum ReturnError {
    /// The return type is an opaque struct type.
    OpaqueType,
    /// The return type has size 0 bits but isn't `void`.
    ZeroSized,
    /// The return type is wider than a bitvector can be.
    TooWide,
}

/// See `secret_return_width`: the shape of the value that the hook returning
/// a secret gives back for a call returning `ty`.
pub fn secret_return(t: &StructTable, ty: &LlvmType) -> (r: Result<Option<u32>, ReturnError>)
    requires
        well_founded(t@),
    ensures
        r == secret_return_width(t@, some_rank(t@), ty@),
{
    let ghost rank = some_rank(t@);
    match ty {
        LlvmType::Void => Ok(None),
        _ => match t.bits_of(ty, Ghost(rank)) {
            None => Err(ReturnError::OpaqueType),
            Some(w) => if w == 0 {
                Err(ReturnError::ZeroSized)
            } else if w > 0xffff_ffffusize {
                Err(ReturnError::TooWide)
            } else {
                Ok(Some(w as u32))
            },
        },
    }
}

} // verus!
