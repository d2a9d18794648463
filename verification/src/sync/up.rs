//! How deep a core is in nested sections that mask interrupts, and
//! whether interrupts were enabled before the outermost one.

use vstd::prelude::*;

verus! {

/// The masking state of one core.
#[derive(Clone, Copy, Debug, PartialEq, Eq, Structural)]
pub struct IntrMaskingInfo {
    pub nested_level: usize,
    pub sie_before_masking: bool,
}

impl IntrMaskingInfo {
    /// No section is open.
    pub fn new() -> (info: Self)
        ensures
            info == (IntrMaskingInfo { nested_level: 0, sie_before_masking: false }),
    {
        Self { nested_level: 0, sie_before_masking: false }
    }

    /// A section opens. `sie` says whether interrupts were enabled just
    /// before; the caller has disabled them. The outermost section
    /// remembers `sie`.
    pub fn enter(&mut self, sie: bool)
        requires
            old(self).nested_level < usize::MAX,
        ensures
            final(self).nested_level == old(self).nested_level + 1,
            final(self).sie_before_masking == (if old(self).nested_level == 0 {
                sie
            } else {
                old(self).sie_before_masking
            }),
    {
        if self.nested_level == 0 {
            self.sie_before_masking = sie;
        }
        self.nested_level += 1;
    }

    /// A section closes. The answer says whether the caller is to enable
    /// interrupts: it is, when the outermost section closes and interrupts
    /// were enabled before it opened.
    pub fn exit(&mut self) -> (enable: bool)
        requires
            old(self).nested_level > 0,
        ensures
            final(self).nested_level == old(self).nested_level - 1,
            final(self).sie_before_masking == old(self).sie_before_masking,
            enable == (old(self).nested_level == 1 && old(self).sie_before_masking),
    {
        self.nested_level -= 1;
        self.nested_level == 0 && self.sie_before_masking
    }
}

} // verus!
