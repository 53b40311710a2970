//! 128-bit row identifiers and their order.

use vstd::prelude::*;

verus! {

/// A 128-bit unique identifier, held as its 16 bytes in big-endian order.
#[derive(Clone, Copy, Debug, PartialEq, Eq, Hash)]
pub struct Identifier {
    bytes: [u8; 16],
}

impl View for Identifier {
    type V = Seq<u8>;

    closed spec fn view(&self) -> Seq<u8> {
        self.bytes@
    }
}

/// Every identifier has 16 bytes.
pub broadcast proof fn lemma_identifier_len(id: Identifier)
    ensures
        #[trigger] id@.len() == 16,
{
}

/// Byte-wise lexicographic order on two identifiers' bytes: `a` comes before
/// `b` when, at the first position where they differ, `a` holds the smaller byte.
pub open spec fn id_before(a: Seq<u8>, b: Seq<u8>) -> bool {
    exists|k: int|
        #![trigger a[k], b[k]]
        0 <= k < a.len() && k < b.len() && a[k] < b[k] && (forall|j: int|
            0 <= j < k ==> a[j] == b[j])
}

/// No identifier comes before itself, and of two identifiers at most one
/// comes before the other.
pub proof fn lemma_id_before_asymmetric(a: Seq<u8>, b: Seq<u8>)
    ensures
        id_before(a, b) ==> !id_before(b, a),
        !id_before(a, a),
{
    if id_before(a, b) && id_before(b, a) {
        let k1 = choose|k: int|
            #![trigger a[k], b[k]]
            0 <= k < a.len() && k < b.len() && a[k] < b[k] && (forall|j: int|
                0 <= j < k ==> a[j] == b[j]);
        let k2 = choose|k: int|
            #![trigger b[k], a[k]]
            0 <= k < b.len() && k < a.len() && b[k] < a[k] && (forall|j: int|
                0 <= j < k ==> b[j] == a[j]);
        if k1 < k2 {
            assert(b[k1] == a[k1]);
        } else if k2 < k1 {
            assert(a[k2] == b[k2]);
        }
    }
}

/// Of two 16-byte identifiers that are not equal, one comes before the
/// other.
pub proof fn lemma_id_order_total(a: Seq<u8>, b: Seq<u8>)
    requires
        a.len() == 16,
        b.len() == 16,
    ensures
        a == b <==> (!id_before(a, b) && !id_before(b, a)),
{
    lemma_id_before_asymmetric(a, b);
    lemma_id_before_asymmetric(b, a);
    if a != b {
        let k = choose|k: int| 0 <= k < 16 && a[k] != b[k];
        assert(!(forall|j: int| 0 <= j < 16 ==> a[j] == b[j])) by {
            if forall|j: int| 0 <= j < 16 ==> a[j] == b[j] {
                assert(a =~= b);
            }
        }
        let first = choose|f: int|
            0 <= f < 16 && a[f] != b[f] && (forall|j: int| 0 <= j < f ==> a[j] == b[j]);
        if a[first] < b[first] {
            assert(id_before(a, b));
        } else {
            assert(id_before(b, a));
        }
    }
}

/// Identifier order is transitive.
pub proof fn lemma_id_before_transitive(a: Seq<u8>, b: Seq<u8>, c: Seq<u8>)
    requires
        id_before(a, b),
        id_before(b, c),
    ensures
        id_before(a, c),
{
    let k1 = choose|k: int|
        #![trigger a[k], b[k]]
        0 <= k < a.len() && k < b.len() && a[k] < b[k] && (forall|j: int|
            0 <= j < k ==> a[j] == b[j]);
    let k2 = choose|k: int|
        #![trigger b[k], c[k]]
        0 <= k < b.len() && k < c.len() && b[k] < c[k] && (forall|j: int|
            0 <= j < k ==> b[j] == c[j]);
    if k1 <= k2 {
        if k1 < k2 {
            assert(b[k1] == c[k1]);
        }
        assert(a[k1] < c[k1]);
        assert forall|j: int| 0 <= j < k1 implies a[j] == c[j] by {
            assert(a[j] == b[j]);
            assert(b[j] == c[j]);
        }
    } else {
        assert(a[k2] == b[k2]);
        assert(a[k2] < c[k2]);
        assert forall|j: int| 0 <= j < k2 implies a[j] == c[j] by {
            assert(a[j] == b[j]);
            assert(b[j] == c[j]);
        }
    }
}

impl Identifier {
    /// Builds an identifier from its 16 big-endian bytes.
    pub fn from_bytes(bytes: [u8; 16]) -> (r: Identifier)
        ensures
            r@ == bytes@,
    {
        Identifier { bytes }
    }

    /// The 16 big-endian bytes of the identifier.
    pub fn to_bytes(&self) -> (r: [u8; 16])
        ensures
            r@ == self@,
    {
        self.bytes
    }

    /// Builds an identifier from a byte slice, which must hold exactly 16 bytes.
    pub fn from_slice(b: &[u8]) -> (r: Option<Identifier>)
        ensures
            r is Some <==> b@.len() == 16,
            r matches Some(id) ==> id@ == b@,
    {
        if b.len() != 16 {
            return None;
        }
        let mut bytes = [0u8; 16];
        let mut i: usize = 0;
        while i < 16
            invariant
                b@.len() == 16,
                0 <= i <= 16,
                bytes@.len() == 16,
                forall|j: int| 0 <= j < i ==> bytes@[j] == b@[j],
            decreases 16 - i,
        {
            bytes[i] = b[i];
            i = i + 1;
        }
        assert(bytes@ =~= b@);
        Some(Identifier { bytes })
    }

    /// Whether `self` comes strictly before `other` in identifier order.
    pub fn precedes(&self, other: &Identifier) -> (r: bool)
        ensures
            r == id_before(self@, other@),
    {
        let mut i: usize = 0;
        while i < 16
            invariant
                0 <= i <= 16,
                self@.len() == 16,
                other@.len() == 16,
                forall|j: int| 0 <= j < i ==> self@[j] == other@[j],
            decreases 16 - i,
        {
            let a = self.bytes[i];
            let c = other.bytes[i];
            if a != c {
                if a < c {
                    assert(self@[i as int] < other@[i as int]);
                    return true;
                } else {
                    assert forall|k: int|
                        0 <= k < 16 && self@[k] < other@[k] implies !(forall|j: int|
                            0 <= j < k ==> self@[j] == other@[j]) by {
                        if k > i {
                            assert(self@[i as int] != other@[i as int]);
                        }
                    }
                    return false;
                }
            }
            i = i + 1;
        }
        false
    }
}

} // verus!
