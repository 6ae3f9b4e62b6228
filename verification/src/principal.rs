use vstd::prelude::*;

verus! {

/// The text form of an identifier: its bytes behind a checksum, in base 32,
/// in groups of five characters.
pub uninterp spec fn principal_text(bytes: Seq<u8>) -> Seq<char>;

/// Largest number of bytes an actor identifier may hold.
pub const MAX_PRINCIPAL_BYTES: usize = 29;

/// An actor or node identifier: an opaque byte string of at most
/// [`MAX_PRINCIPAL_BYTES`] bytes. Two principals are the same actor exactly
/// when their bytes agree.
#[derive(Debug, PartialEq, Eq, Hash, PartialOrd, Ord)]
pub struct Principal {
    pub(crate) bytes: Vec<u8>,
}

impl View for Principal {
    type V = Seq<u8>;

    closed spec fn view(&self) -> Seq<u8> {
        self.bytes@
    }
}

impl DeepView for Principal {
    type V = Seq<u8>;

    open spec fn deep_view(&self) -> Seq<u8> {
        self@
    }
}

impl Principal {
    #[verifier::type_invariant]
    spec fn within_capacity(self) -> bool {
        self.bytes@.len() <= MAX_PRINCIPAL_BYTES
    }

    /// The identifier holding exactly `bytes`, or `None` when there are too many.
    pub fn from_slice(bytes: &[u8]) -> (r: Option<Principal>)
        ensures
            r is Some <==> bytes@.len() <= MAX_PRINCIPAL_BYTES,
            r matches Some(p) ==> p@ == bytes@,
    {
        if bytes.len() > MAX_PRINCIPAL_BYTES {
            return None;
        }
        let mut copy: Vec<u8> = Vec::new();
        let mut i: usize = 0;
        while i < bytes.len()
            invariant
                i <= bytes@.len(),
                copy@ == bytes@.subrange(0, i as int),
            decreases bytes@.len() - i,
        {
            copy.push(bytes[i]);
            i += 1;
        }
        assert(bytes@.subrange(0, i as int) == bytes@);
        Some(Principal { bytes: copy })
    }

    /// The anonymous actor.
    pub fn anonymous() -> (r: Principal)
        ensures
            r@ == seq![4u8],
    {
        let mut bytes: Vec<u8> = Vec::new();
        bytes.push(4u8);
        Principal { bytes }
    }

    /// The bytes of the identifier.
    pub fn as_slice(&self) -> (r: &[u8])
        ensures
            r@ == self@,
            r@.len() <= MAX_PRINCIPAL_BYTES,
    {
        proof {
            use_type_invariant(self);
        }
        self.bytes.as_slice()
    }

    /// Whether `self` and `other` name the same actor.
    pub fn same(&self, other: &Principal) -> (r: bool)
        ensures
            r == (self@ == other@),
    {
        if self.bytes.len() != other.bytes.len() {
            return false;
        }
        let mut i: usize = 0;
        while i < self.bytes.len()
            invariant
                i <= self.bytes@.len(),
                self.bytes@.len() == other.bytes@.len(),
                forall|j: int| 0 <= j < i ==> self.bytes@[j] == other.bytes@[j],
            decreases self.bytes@.len() - i,
        {
            if self.bytes[i] != other.bytes[i] {
                return false;
            }
            i += 1;
        }
        assert(self.bytes@ =~= other.bytes@);
        true
    }

    /// `Principal::to_text` of `candid` on the principal with these bytes,
    /// of which there are never more than that principal can hold. The text
    /// depends on the bytes alone; the contract gives it a name.
    #[verifier::external_body]
    pub(crate) fn to_text(&self) -> (r: String)
        ensures
            r@ == principal_text(self@),
    {
        candid::Principal::from_slice(&self.bytes).to_text()
    }

    /// A copy of the identifier.
    pub fn duplicate(&self) -> (r: Principal)
        ensures
            r@ == self@,
    {
        proof {
            use_type_invariant(self);
        }
        Principal { bytes: self.bytes.clone() }
    }
}

impl Clone for Principal {
    fn clone(&self) -> (r: Principal)
        ensures
            r@ == self@,
    {
        self.duplicate()
    }
}

} // verus!
