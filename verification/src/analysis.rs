//! The decisions around the analysis of one function: what its parameters
//! are taken to be when every input is secret, whether the struct
//! descriptions name only structs that exist, and which basic blocks the
//! explored paths missed.
use vstd::prelude::*;
use crate::abstractdata::{AbstractData, DataView, SpecView, StructDescriptions};
use crate::allocation::{add_step, plan_arg, PlanView, StepView, Target};
use crate::completion::TableView;
use crate::llvmtype::{size_of, some_rank, type_bits, well_founded, LlvmType, StructTable, TypeView};
use crate::namemap::lookup;

verus! {

/// The descriptions of parameters of the given types when every input is
/// secret: each parameter is secret data of its type's size; `None` when a
/// parameter type has no known size (an opaque struct type).
pub open spec fn all_secret(t: TableView, params: Seq<TypeView>) -> Option<Seq<SpecView>> {
    if forall|i: int| 0 <= i < params.len() ==> size_of(t, #[trigger] params[i]) is Some {
        Some(Seq::new(params.len(), |i: int| SpecView::Complete(DataView::Secret { bits: size_of(t, params[i]).unwrap() as usize })))
    } else {
        None
    }
}

/// The parameter descriptions for checking a function in all its inputs:
/// every parameter secret, of its type's size. `None` when a parameter type
/// has no known size (an opaque struct type).
pub fn secret_inputs(t: &StructTable, params: &Vec<LlvmType>) -> (r: Option<Vec<AbstractData>>)
    requires
        well_founded(t@),
    ensures
        match r {
            Some(v) => all_secret(t@, Seq::new(params@.len(), |i: int| params@[i]@)) == Some(
                Seq::new(v@.len(), |i: int| v@[i]@),
            ),
            None => all_secret(t@, Seq::new(params@.len(), |i: int| params@[i]@)) is None,
        },
{
    let ghost pv = Seq::new(params@.len(), |i: int| params@[i]@);
    let mut v: Vec<AbstractData> = Vec::new();
    let mut i: usize = 0;
    while i < params.len()
        invariant
            i <= params@.len(),
            well_founded(t@),
            pv == Seq::new(params@.len(), |i: int| params@[i]@),
            v@.len() == i,
            forall|j: int| 0 <= j < i ==> size_of(t@, #[trigger] pv[j]) is Some,
            forall|j: int|
                0 <= j < i ==> #[trigger] v@[j]@ == SpecView::Complete(DataView::Secret { bits: size_of(t@, pv[j]).unwrap() as usize }),
        decreases params.len() - i,
    {
        match t.size_in_bits(&params[i]) {
            None => {
                assert(size_of(t@, pv[i as int]) is None);
                return None;
            },
            Some(bits) => {
                v.push(AbstractData::sec_integer(bits));
            },
        }
        i = i + 1;
    }
    assert(Seq::new(v@.len(), |i: int| v@[i]@) =~= all_secret(t@, pv).unwrap());
    Some(v)
}

/// A parameter that is secret data of its type's full size is planned as
/// one step that makes the whole parameter secret.
pub proof fn law_secret_parameter_is_planned_secret(t: TableView, param: usize, ty: TypeView, st: PlanView)
    requires
        well_founded(t),
        size_of(t, ty) matches Some(n) && n <= usize::MAX,
    ensures
        plan_arg(t, some_rank(t), DataView::Secret { bits: size_of(t, ty).unwrap() as usize }, param, ty, false, st) == Ok::<
            PlanView,
            crate::allocation::InitErrorView,
        >(add_step(st, StepView::WriteSecret { at: Target::Param(param), bits: size_of(t, ty).unwrap() as usize })),
{
}

/// The first struct name described in `sd` that has no definition (not even
/// an opaque one) among the struct types `t`, if any.
pub fn first_unknown_description(sd: &StructDescriptions, t: &StructTable) -> (r: Option<String>)
    ensures
        match r {
            Some(n) => exists|i: int| 0 <= i < sd@.len() && sd@[i].0 == n@ && lookup(t@, n@) is None,
            None => forall|i: int| 0 <= i < sd@.len() ==> lookup(t@, #[trigger] sd@[i].0) is Some,
        },
{
    let names = sd.names();
    let mut i: usize = 0;
    while i < names.len()
        invariant
            i <= names@.len(),
            names@.len() == sd@.len(),
            forall|j: int| 0 <= j < names@.len() ==> #[trigger] names@[j]@ == sd@[j].0,
            forall|j: int| 0 <= j < i ==> lookup(t@, #[trigger] sd@[j].0) is Some,
        decreases names.len() - i,
    {
        if t.get(names[i].as_str()).is_none() {
            assert(sd@[i as int].0 == names@[i as int]@);
            return Some(names[i].clone());
        }
        i = i + 1;
    }
    None
}

/// The blocks of a function that no explored path went through: those of
/// `blocks` (in their order) that are not among `seen`.
pub fn missed_blocks(blocks: &Vec<String>, seen: &Vec<String>) -> (r: Vec<String>)
    ensures
        Seq::new(r@.len(), |i: int| r@[i]@) == Seq::new(blocks@.len(), |i: int| blocks@[i]@).filter(
            |b: Seq<char>| !Seq::new(seen@.len(), |i: int| seen@[i]@).contains(b),
        ),
{
    let ghost sv = Seq::new(seen@.len(), |i: int| seen@[i]@);
    let ghost bv = Seq::new(blocks@.len(), |i: int| blocks@[i]@);
    let ghost keep = |b: Seq<char>| !sv.contains(b);
    let mut r: Vec<String> = Vec::new();
    let mut i: usize = 0;
    while i < blocks.len()
        invariant
            i <= blocks@.len(),
            sv == Seq::new(seen@.len(), |i: int| seen@[i]@),
            bv == Seq::new(blocks@.len(), |i: int| blocks@[i]@),
            keep == (|b: Seq<char>| !sv.contains(b)),
            Seq::new(r@.len(), |i: int| r@[i]@) == bv.subrange(0, i as int).filter(keep),
        decreases blocks.len() - i,
    {
        proof {
            assert(bv.subrange(0, i + 1).drop_last() =~= bv.subrange(0, i as int));
            reveal(Seq::filter);
        }
        let ghost before = Seq::new(r@.len(), |i: int| r@[i]@);
        let mut found = false;
        let mut j: usize = 0;
        while j < seen.len()
            invariant
                j <= seen@.len(),
                i < blocks@.len(),
                sv == Seq::new(seen@.len(), |i: int| seen@[i]@),
                found == exists|k: int| 0 <= k < j && #[trigger] sv[k] == blocks@[i as int]@,
            decreases seen.len() - j,
        {
            let eq = seen[j] == blocks[i];
            assert(sv[j as int] == seen@[j as int]@);
            if eq {
                found = true;
            }
            j = j + 1;
        }
        assert(found == sv.contains(bv[i as int]));
        if !found {
            r.push(blocks[i].clone());
            assert(Seq::new(r@.len(), |i: int| r@[i]@) =~= before.push(bv[i as int]));
        } else {
            assert(Seq::new(r@.len(), |i: int| r@[i]@) =~= before);
        }
        i = i + 1;
    }
    assert(bv.subrange(0, i as int) =~= bv);
    r
}

} // verus!
