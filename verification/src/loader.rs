//! The insertion of a module's image.

use vstd::prelude::*;
use vstd::slice::slice_to_vec;
use crate::step::{Inserting, InsertingView, Step, StepView};

verus! {

/// The only step of inserting `image` but the last: the kernel is handed the
/// image and the parameters.
pub open spec fn insert(image: Seq<u8>, params: Seq<char>) -> StepView {
    StepView::Insert { image, params, then: InsertingView::Image }
}

/// Loads the module whose image is given, with the parameters `params`.
///
/// Returns the first step: the kernel is handed the image, its length and
/// the parameters. The outcome of the insertion is the result.
pub fn load(image: &[u8], params: String) -> (step: Step)
    ensures
        step@ == insert(image@, params@),
{
    Step::Insert { image: slice_to_vec(image), params, then: Inserting::Image }
}

} // verus!
