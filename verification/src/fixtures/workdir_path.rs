//! Builders for whole workdir expressions.

use vstd::prelude::*;
use vstd::string::StringExecFns;

use crate::expr::GlobExpression;
use crate::expr::GlobExpressionView;
use crate::expr::WorkDirExpression;
use crate::expr::WorkDirExpressionView;

verus! {

/// A workdir expression holding a glob filter with an include pattern alone.
pub fn create_glob_single(val: &str) -> (r: WorkDirExpression)
    ensures
        r@ == WorkDirExpressionView::Glob(GlobExpressionView::Single(val@)),
{
    WorkDirExpression::Glob(GlobExpression::Single(String::from_str(val)))
}

/// A workdir expression holding a glob filter with an include and an exclude
/// pattern.
pub fn create_glob_single_with_exclude(val: &str, exclude: &str) -> (r: WorkDirExpression)
    ensures
        r@ == WorkDirExpressionView::Glob(
            GlobExpressionView::SingleWithExclude(val@, exclude@),
        ),
{
    WorkDirExpression::Glob(
        GlobExpression::SingleWithExclude(String::from_str(val), String::from_str(exclude)),
    )
}

/// A workdir expression holding a literal path selector.
pub fn create_workdir_path(val: &str) -> (r: WorkDirExpression)
    ensures
        r@ == WorkDirExpressionView::Path(val@),
{
    WorkDirExpression::Path(String::from_str(val))
}

} // verus!
