use vstd::prelude::*;

verus! {

/// The buffers of a render target cleared at the start of every frame; combine with `|`.
#[derive(Copy, Clone, Debug, Eq, PartialEq, Structural)]
pub struct ClearFlags(pub u8);

impl ClearFlags {
    /// Clear nothing.
    pub fn none() -> (r: ClearFlags)
        ensures
            r.0 == 0,
    {
        ClearFlags(0)
    }

    /// Clear the color buffer.
    pub fn color() -> (r: ClearFlags)
        ensures
            r.0 == 1,
    {
        ClearFlags(1)
    }

    /// Clear the depth buffer.
    pub fn depth() -> (r: ClearFlags)
        ensures
            r.0 == 2,
    {
        ClearFlags(2)
    }

    /// Clear the stencil buffer.
    pub fn stencil() -> (r: ClearFlags)
        ensures
            r.0 == 4,
    {
        ClearFlags(4)
    }
}

impl core::ops::BitAnd for ClearFlags {
    type Output = bool;

    /// Whether the two sets share a buffer.
    fn bitand(self, rhs: Self) -> (r: bool)
        ensures
            r == (self.0 & rhs.0 != 0),
    {
        self.0 & rhs.0 > 0
    }
}

impl vstd::std_specs::ops::BitAndSpecImpl for ClearFlags {
    open spec fn obeys_bitand_spec() -> bool {
        true
    }

    open spec fn bitand_req(self, rhs: Self) -> bool {
        true
    }

    open spec fn bitand_spec(self, rhs: Self) -> bool {
        self.0 & rhs.0 != 0
    }
}

impl core::ops::BitOr for ClearFlags {
    type Output = Self;

    /// Both sets of buffers.
    fn bitor(self, rhs: Self) -> (r: Self)
        ensures
            r.0 == self.0 | rhs.0,
    {
        ClearFlags(self.0 | rhs.0)
    }
}

impl vstd::std_specs::ops::BitOrSpecImpl for ClearFlags {
    open spec fn obeys_bitor_spec() -> bool {
        true
    }

    open spec fn bitor_req(self, rhs: Self) -> bool {
        true
    }

    open spec fn bitor_spec(self, rhs: Self) -> Self {
        ClearFlags(self.0 | rhs.0)
    }
}

} // verus!
