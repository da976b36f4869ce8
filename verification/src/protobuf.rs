//! Conversion of internal models back to wire messages.

use vstd::prelude::*;

verus! {

/// Conversion to the wire form, specified through each implementer's
/// `spec_to_protobuf`.
pub trait ToProtobuf: Sized {
    type Output: DeepView;

    /// The abstract value of the wire message this model renders to.
    spec fn spec_to_protobuf(self, include_nested: bool) -> <Self::Output as DeepView>::V;

    /// Render the model as a wire message; never fails.
    fn to_protobuf(self, include_nested: bool) -> (r: Self::Output)
        ensures
            r.deep_view() == self.spec_to_protobuf(include_nested),
    ;
}

} // verus!
