use std::ops::{Add, AddAssign};
use vstd::prelude::*;
use vstd::std_specs::ops::AddSpecImpl;

verus! {

/// A position in a text, counted in bytes of its UTF-8 encoding.
#[derive(Clone, Copy, PartialEq, Eq, Structural, PartialOrd, Ord, Hash, Debug)]
pub struct ByteOffset(pub usize);

impl Add<ByteOffset> for ByteOffset {
    type Output = ByteOffset;

    fn add(self, rhs: ByteOffset) -> (sum: ByteOffset) {
        ByteOffset(self.0 + rhs.0)
    }
}

impl AddSpecImpl<ByteOffset> for ByteOffset {
    open spec fn obeys_add_spec() -> bool {
        true
    }

    open spec fn add_req(self, rhs: ByteOffset) -> bool {
        self.0 + rhs.0 <= usize::MAX
    }

    open spec fn add_spec(self, rhs: ByteOffset) -> ByteOffset {
        ByteOffset((self.0 + rhs.0) as usize)
    }
}

impl AddAssign<ByteOffset> for ByteOffset {
    fn add_assign(&mut self, rhs: ByteOffset)
        requires
            old(self).0 + rhs.0 <= usize::MAX,
        ensures
            final(self).0 == old(self).0 + rhs.0,
    {
        self.0 = self.0 + rhs.0;
    }
}

} // verus!
