use super::Mat;
use crate::scalar::R;
use vstd::prelude::*;
use vstd::std_specs::convert::FromSpecImpl;

verus! {

impl From<Mat<1, 1>> for R {
    /// The single scalar of a 1×1 matrix.
    fn from(value: Mat<1, 1>) -> (x: R) {
        value.index(1, 1)
    }
}

impl FromSpecImpl<Mat<1, 1>> for R {
    open spec fn obeys_from_spec() -> bool {
        true
    }

    open spec fn from_spec(value: Mat<1, 1>) -> R {
        value.entry(1, 1)
    }
}

} // verus!
