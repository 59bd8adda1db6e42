//! The functions that queries may call: a built-in set, and those that a
//! caller supplies with each transformation.

use vstd::prelude::*;

use crate::text::{folded_match, same_folded};

verus! {

/// Whether a function works on one row or summarizes many.
#[derive(Clone, Copy, Debug, PartialEq, Eq, Structural)]
pub enum FunctionKind {
    Scalar,
    Aggregate,
}

/// The signature of a function that the caller supplies.
#[derive(Debug, PartialEq, Eq)]
pub struct FunctionSignature {
    pub name: String,
    pub kind: FunctionKind,
}

pub struct FunctionSignatureView {
    pub name: Seq<char>,
    pub kind: FunctionKind,
}

impl View for FunctionSignature {
    type V = FunctionSignatureView;

    open spec fn view(&self) -> FunctionSignatureView {
        FunctionSignatureView { name: self.name@, kind: self.kind }
    }
}

/// The values of a sequence of signatures.
pub open spec fn signature_views(s: Seq<FunctionSignature>) -> Seq<FunctionSignatureView> {
    Seq::new(s.len(), |i: int| s[i]@)
}

/// Whether `name` is a built-in aggregate, in any case.
pub open spec fn is_builtin_aggregate(name: Seq<char>) -> bool {
    ||| same_folded(name, "count"@)
    ||| same_folded(name, "sum"@)
    ||| same_folded(name, "avg"@)
    ||| same_folded(name, "min"@)
    ||| same_folded(name, "max"@)
}

/// Whether `name` is a built-in scalar function, in any case.
pub open spec fn is_builtin_scalar(name: Seq<char>) -> bool {
    ||| same_folded(name, "abs"@)
    ||| same_folded(name, "round"@)
    ||| same_folded(name, "floor"@)
    ||| same_folded(name, "ceil"@)
    ||| same_folded(name, "lower"@)
    ||| same_folded(name, "upper"@)
    ||| same_folded(name, "length"@)
    ||| same_folded(name, "trim"@)
    ||| same_folded(name, "concat"@)
    ||| same_folded(name, "coalesce"@)
    ||| same_folded(name, "nullif"@)
    ||| same_folded(name, "substr"@)
    ||| same_folded(name, "now"@)
    ||| same_folded(name, "md5"@)
}

/// The kind of the built-in function `name`, if it is one.
pub open spec fn builtin_kind(name: Seq<char>) -> Option<FunctionKind> {
    if is_builtin_aggregate(name) {
        Some(FunctionKind::Aggregate)
    } else if is_builtin_scalar(name) {
        Some(FunctionKind::Scalar)
    } else {
        None
    }
}

/// The kind of the first signature from the `i`-th on whose name is `name`,
/// in any case.
pub open spec fn supplied_kind(
    supplied: Seq<FunctionSignatureView>,
    name: Seq<char>,
    i: int,
) -> Option<FunctionKind>
    decreases supplied.len() - i,
{
    if 0 <= i < supplied.len() {
        if same_folded(supplied[i].name, name) {
            Some(supplied[i].kind)
        } else {
            supplied_kind(supplied, name, i + 1)
        }
    } else {
        None
    }
}

/// The kind of the function `name`: built in, or else supplied.
pub open spec fn function_kind(supplied: Seq<FunctionSignatureView>, name: Seq<char>) -> Option<
    FunctionKind,
> {
    match builtin_kind(name) {
        Some(k) => Some(k),
        None => supplied_kind(supplied, name, 0),
    }
}

/// Looks up the built-in function `name`.
pub(crate) fn find_builtin(name: &str) -> (r: Option<FunctionKind>)
    ensures
        r == builtin_kind(name@),
{
    if folded_match(name, "count") || folded_match(name, "sum") || folded_match(name, "avg")
        || folded_match(name, "min") || folded_match(name, "max") {
        Some(FunctionKind::Aggregate)
    } else if folded_match(name, "abs") || folded_match(name, "round") || folded_match(
        name,
        "floor",
    ) || folded_match(name, "ceil") || folded_match(name, "lower") || folded_match(name, "upper")
        || folded_match(name, "length") || folded_match(name, "trim") || folded_match(
        name,
        "concat",
    ) || folded_match(name, "coalesce") || folded_match(name, "nullif") || folded_match(
        name,
        "substr",
    ) || folded_match(name, "now") || folded_match(name, "md5") {
        Some(FunctionKind::Scalar)
    } else {
        None
    }
}

/// Looks up the function `name` among the built-in ones, then among the
/// supplied ones.
pub fn find_function(supplied: &Vec<FunctionSignature>, name: &str) -> (r: Option<FunctionKind>)
    ensures
        r == function_kind(signature_views(supplied@), name@),
{
    match find_builtin(name) {
        Some(k) => Some(k),
        None => {
            let ghost s = signature_views(supplied@);
            let mut i: usize = 0;
            while i < supplied.len()
                invariant
                    i <= supplied.len(),
                    s == signature_views(supplied@),
                    builtin_kind(name@) is None,
                    supplied_kind(s, name@, 0) == supplied_kind(s, name@, i as int),
                decreases supplied.len() - i,
            {
                assert(s[i as int] == supplied@[i as int]@);
                if folded_match(supplied[i].name.as_str(), name) {
                    return Some(supplied[i].kind);
                }
                i += 1;
            }
            None
        },
    }
}

} // verus!
