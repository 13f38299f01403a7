//! Short English descriptions of abstract data, as shown to users in
//! messages: "a 32-bit secret value", "a pointer to an array of 4 elements".
use vstd::prelude::*;
use vstd::string::StringExecFns;
use crate::abstractdata::{CompleteAbstractData, DataView, SpecView};

verus! {

/// The character of a decimal digit.
pub open spec fn digit_char(d: nat) -> char {
    (d + 48) as char
}

/// The decimal notation of `n`, without leading zeros.
pub open spec fn decimal(n: nat) -> Seq<char>
    decreases n,
{
    if n < 10 {
        seq![digit_char(n)]
    } else {
        decimal(n / 10).push(digit_char(n % 10))
    }
}

/// Appends `t` to `s`.
pub(crate) fn push_str(s: &mut String, t: &str)
    ensures
        final(s)@ == old(s)@ + t@,
{
    s.append(t);
}

/// The decimal digit `d` as a string.
fn digit_str(d: u8) -> (r: &'static str)
    requires
        d < 10,
    ensures
        r@ == seq![digit_char(d as nat)],
{
    proof {
        reveal_strlit("0");
        reveal_strlit("1");
        reveal_strlit("2");
        reveal_strlit("3");
        reveal_strlit("4");
        reveal_strlit("5");
        reveal_strlit("6");
        reveal_strlit("7");
        reveal_strlit("8");
        reveal_strlit("9");
    }
    let r = match d {
        0 => "0",
        1 => "1",
        2 => "2",
        3 => "3",
        4 => "4",
        5 => "5",
        6 => "6",
        7 => "7",
        8 => "8",
        _ => "9",
    };
    assert(r@ =~= seq![digit_char(d as nat)]);
    r
}

/// Appends the decimal notation of `n` to `s`.
pub fn push_decimal(s: &mut String, n: usize)
    ensures
        final(s)@ == old(s)@ + decimal(n as nat),
    decreases n,
{
    let d: u8 = (n % 10) as u8;
    if n >= 10 {
        push_decimal(s, n / 10);
        push_str(s, digit_str(d));
        assert(s@ =~= old(s)@ + decimal(n as nat));
    } else {
        push_str(s, digit_str(d));
        assert(s@ =~= old(s)@ + decimal(n as nat));
    }
}

/// The description of complete abstract data.
pub open spec fn data_description(d: DataView) -> Seq<char>
    decreases d,
{
    match d {
        DataView::PublicValue { bits, .. } => "a "@ + decimal(bits as nat) + "-bit public value"@,
        DataView::Secret { bits } => "a "@ + decimal(bits as nat) + "-bit secret value"@,
        DataView::Array { num_elements, .. } => "an array of "@ + decimal(num_elements as nat) + " elements"@,
        DataView::Struct { name, elements } => "a struct named "@ + name + " with "@ + decimal(elements.len())
            + " elements"@,
        DataView::PublicPointerTo { pointee, .. } => "a pointer to "@ + data_description(*pointee),
        DataView::PublicPointerToFunction(f) => "a pointer to a function named "@ + f,
        DataView::PublicPointerToHook(f) => "a pointer to the active hook for a function named "@ + f,
        DataView::PublicPointerToSelf => "a pointer to this struct itself"@,
        DataView::PublicPointerToParentOr(Some(_)) => "a pointer to this struct's parent, with a backup"@,
        DataView::PublicPointerToParentOr(None) => "a pointer to this struct's parent, with no backup"@,
        DataView::VoidOverride { data, .. } => "a void override containing "@ + data_description(*data),
        DataView::SameSizeOverride { data } => "a same-size override containing "@ + data_description(*data),
        DataView::WithWatchpoint { name, data } => data_description(*data) + ", with a watchpoint named "@ + name,
    }
}

/// Appends the description of `d` to `s`.
pub fn push_data_description(s: &mut String, d: &CompleteAbstractData)
    ensures
        final(s)@ == old(s)@ + data_description(d@),
    decreases d,
{
    match d {
        CompleteAbstractData::PublicValue { bits, .. } => {
            push_str(s, "a ");
            push_decimal(s, *bits);
            push_str(s, "-bit public value");
        },
        CompleteAbstractData::Secret { bits } => {
            push_str(s, "a ");
            push_decimal(s, *bits);
            push_str(s, "-bit secret value");
        },
        CompleteAbstractData::Array { num_elements, .. } => {
            push_str(s, "an array of ");
            push_decimal(s, *num_elements);
            push_str(s, " elements");
        },
        CompleteAbstractData::Struct { name, elements } => {
            proof {
                CompleteAbstractData::lemma_models(elements@);
            }
            push_str(s, "a struct named ");
            push_str(s, name.as_str());
            push_str(s, " with ");
            push_decimal(s, elements.len());
            push_str(s, " elements");
        },
        CompleteAbstractData::PublicPointerTo { pointee, .. } => {
            push_str(s, "a pointer to ");
            push_data_description(s, &**pointee);
        },
        CompleteAbstractData::PublicPointerToFunction(f) => {
            push_str(s, "a pointer to a function named ");
            push_str(s, f.as_str());
        },
        CompleteAbstractData::PublicPointerToHook(f) => {
            push_str(s, "a pointer to the active hook for a function named ");
            push_str(s, f.as_str());
        },
        CompleteAbstractData::PublicPointerToSelf => {
            push_str(s, "a pointer to this struct itself");
        },
        CompleteAbstractData::PublicPointerToParentOr(opt) => match opt {
            Some(_) => push_str(s, "a pointer to this struct's parent, with a backup"),
            None => push_str(s, "a pointer to this struct's parent, with no backup"),
        },
        CompleteAbstractData::VoidOverride { data, .. } => {
            push_str(s, "a void override containing ");
            push_data_description(s, &**data);
        },
        CompleteAbstractData::SameSizeOverride { data } => {
            push_str(s, "a same-size override containing ");
            push_data_description(s, &**data);
        },
        CompleteAbstractData::WithWatchpoint { name, data } => {
            push_data_description(s, &**data);
            push_str(s, ", with a watchpoint named ");
            push_str(s, name.as_str());
        },
    }
    assert(s@ =~= old(s)@ + data_description(d@));
}

/// The description of possibly underspecified abstract data.
pub open spec fn spec_description(d: SpecView) -> Seq<char>
    decreases d,
{
    match d {
        SpecView::Unspecified => "an unspecified value"@,
        SpecView::Unconstrained => "an unconstrained value"@,
        SpecView::Secret => "a secret value"@,
        SpecView::Complete(c) => "a complete value: "@ + data_description(c),
        SpecView::PublicPointerTo { pointee, .. } => "a pointer to "@ + spec_description(*pointee),
        SpecView::PublicPointerToParentOr(_) => "a public pointer to parent, with a backup"@,
        SpecView::Array { num_elements, .. } => "an array of "@ + decimal(num_elements as nat) + " elements"@,
        SpecView::Struct { name, elements } => "a struct named "@ + name + " with "@ + decimal(elements.len())
            + " elements"@,
        SpecView::DefaultForLLVMStructName { llvm_struct_name } => "the default for the LLVM struct "@
            + llvm_struct_name,
        SpecView::VoidOverride { data, .. } => "a void override with data "@ + spec_description(*data),
        SpecView::SameSizeOverride { data } => "a same-size override with data "@ + spec_description(*data),
        SpecView::WithWatchpoint { name, data } => spec_description(*data) + " with a watchpoint named "@ + name,
    }
}

} // verus!
