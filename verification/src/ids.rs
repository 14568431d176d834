use vstd::prelude::*;

verus! {

/// An opaque, externally supplied caller reference. Equality is byte-exact;
/// the bytes are never interpreted locally.
#[derive(Debug)]
pub struct IdentityHandle {
    bytes: Vec<u8>,
}

impl View for IdentityHandle {
    type V = Seq<u8>;

    closed spec fn view(&self) -> Seq<u8> {
        self.bytes@
    }
}

impl IdentityHandle {
    pub fn new(bytes: Vec<u8>) -> (h: IdentityHandle)
        ensures
            h@ == bytes@,
    {
        IdentityHandle { bytes }
    }

    /// A second handle carrying the same bytes.
    pub fn duplicate(&self) -> (h: IdentityHandle)
        ensures
            h@ == self@,
    {
        let n = self.bytes.len();
        let mut bytes: Vec<u8> = Vec::new();
        let mut i: usize = 0;
        while i < n
            invariant
                n == self.bytes@.len(),
                i <= n,
                bytes@ == self.bytes@.subrange(0, i as int),
            decreases n - i,
        {
            proof {
                assert(self.bytes@.subrange(0, i + 1) =~= self.bytes@.subrange(0, i as int).push(
                    self.bytes@[i as int],
                ));
            }
            bytes.push(self.bytes[i]);
            i += 1;
        }
        proof {
            assert(self.bytes@.subrange(0, n as int) =~= self.bytes@);
        }
        IdentityHandle { bytes }
    }

    /// Byte-exact equality of two handles.
    pub fn same_as(&self, other: &IdentityHandle) -> (r: bool)
        ensures
            r == (self@ == other@),
    {
        if self.bytes.len() != other.bytes.len() {
            assert(self@ != other@);
            return false;
        }
        let n = self.bytes.len();
        let mut i: usize = 0;
        while i < n
            invariant
                n == self.bytes.len() == other.bytes.len(),
                i <= n,
                forall|j: int| 0 <= j < i ==> self@[j] == other@[j],
            decreases n - i,
        {
            if self.bytes[i] != other.bytes[i] {
                return false;
            }
            i += 1;
        }
        assert(self@ =~= other@);
        true
    }
}

/// A stable internal identity that an `IdentityHandle` resolves to.
#[derive(Clone, Copy, PartialEq, Eq, Structural, Debug)]
pub struct UserId {
    pub raw: u64,
}

/// The stable identity of a peer process (e.g. the external identity authority).
#[derive(Clone, Copy, PartialEq, Eq, Structural, Debug)]
pub struct CanisterId {
    pub raw: u64,
}

/// Identifies a channel within the process's data payload.
#[derive(Clone, Copy, PartialEq, Eq, Structural, Debug)]
pub struct ChannelId {
    pub raw: u32,
}

/// Index of a message within a channel's event log.
#[derive(Clone, Copy, PartialEq, Eq, Structural, Debug)]
pub struct MessageIndex {
    pub raw: u32,
}

} // verus!
