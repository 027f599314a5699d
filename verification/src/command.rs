use vstd::prelude::*;

verus! {

/// A non-zero 64-bit identifier chosen by application code for one logical
/// action. Zero is reserved at the native binding layer to mean "no command",
/// so a `CommandId` can never hold it.
#[derive(Debug, Clone, Copy, PartialEq, Eq, Hash, Structural)]
pub struct CommandId {
    id: u64,
}

impl CommandId {
    /// The raw identifier this command id carries; never zero.
    pub closed spec fn spec_as_u64(self) -> u64 {
        self.id
    }

    #[verifier::type_invariant]
    pub closed spec fn wf(self) -> bool {
        self.id != 0
    }

    /// A command id for `id`, or `None` when `id` is zero.
    pub fn new(id: u64) -> (r: Option<CommandId>)
        ensures
            id == 0 <==> r is None,
            r matches Some(c) ==> c.spec_as_u64() == id,
    {
        if id == 0 {
            None
        } else {
            Some(CommandId { id })
        }
    }

    /// The raw value; never zero.
    pub fn as_u64(&self) -> (r: u64)
        ensures
            r == self.spec_as_u64(),
            r != 0,
    {
        proof {
            use_type_invariant(self);
        }
        self.id
    }
}

} // verus!
