//! Builders for bare glob filters.

use vstd::prelude::*;
use vstd::string::StringExecFns;

use crate::expr::GlobExpression;
use crate::expr::GlobExpressionView;

verus! {

/// A glob filter with an include pattern alone.
pub fn create_glob_single(val: &str) -> (r: GlobExpression)
    ensures
        r@ == GlobExpressionView::Single(val@),
{
    GlobExpression::Single(String::from_str(val))
}

/// A glob filter with an include and an exclude pattern.
pub fn create_glob_single_with_exclude(val: &str, exclude: &str) -> (r: GlobExpression)
    ensures
        r@ == GlobExpressionView::SingleWithExclude(val@, exclude@),
{
    GlobExpression::SingleWithExclude(String::from_str(val), String::from_str(exclude))
}

} // verus!
