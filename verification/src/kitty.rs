use vstd::prelude::*;

verus! {

/// Identifier of a record; issued consecutively starting at zero.
pub type KittyId = u32;

/// An account that can own records.
pub type AccountId = u64;

/// Length in bytes of a genome.
pub const DNA_LEN: usize = 16;

/// Length in bytes of a label under the current record layout.
pub const NAME_LEN: usize = 8;

/// A collectible record: an immutable genome of sixteen bytes and a label
/// of eight bytes under the current layout.
#[derive(Debug, PartialEq, Eq)]
pub struct Kitty {
    pub dna: Vec<u8>,
    pub name: Vec<u8>,
}

/// The mathematical content of a record.
pub struct KittyView {
    pub dna: Seq<u8>,
    pub name: Seq<u8>,
}

impl Kitty {
    /// Fixed byte lengths of the current layout.
    pub open spec fn wf(self) -> bool {
        self.dna@.len() == DNA_LEN && self.name@.len() == NAME_LEN
    }
}

impl View for Kitty {
    type V = KittyView;

    open spec fn view(&self) -> KittyView {
        KittyView { dna: self.dna@, name: self.name@ }
    }
}

impl Clone for Kitty {
    fn clone(&self) -> (r: Self)
        ensures
            r@ == self@,
    {
        Kitty { dna: copy_bytes(&self.dna), name: copy_bytes(&self.name) }
    }
}

/// A fresh byte vector with the same contents.
pub fn copy_bytes(v: &Vec<u8>) -> (r: Vec<u8>)
    ensures
        r@ == v@,
{
    let n = v.len();
    let mut out: Vec<u8> = Vec::new();
    let mut i: usize = 0;
    while i < n
        invariant
            i <= n,
            n == v@.len(),
            out@ == v@.subrange(0, i as int),
        decreases n - i,
    {
        out.push(v[i]);
        proof {
            assert(out@ =~= v@.subrange(0, i + 1));
        }
        i = i + 1;
    }
    proof {
        assert(out@ =~= v@);
    }
    out
}

/// Bit `i` of a byte.
pub open spec fn bit_of(b: u8, i: u8) -> bool {
    (b >> i) & 1 == 1
}

/// The genetic combination rule: position by position, the child byte takes
/// each bit from parent `a` where the selector bit is set and from parent
/// `b` where it is clear.
pub open spec fn combined_dna(a: Seq<u8>, b: Seq<u8>, sel: Seq<u8>) -> Seq<u8> {
    Seq::new(a.len(), |i: int| (a[i] & sel[i]) | (b[i] & !sel[i]))
}

/// Combine two parent genomes under a selector drawn from the randomness
/// provider, one selector bit per genome bit.
pub fn combine_dna(a: &Vec<u8>, b: &Vec<u8>, sel: &Vec<u8>) -> (r: Vec<u8>)
    requires
        a@.len() == DNA_LEN,
        b@.len() == DNA_LEN,
        sel@.len() == DNA_LEN,
    ensures
        r@ == combined_dna(a@, b@, sel@),
{
    let mut out: Vec<u8> = Vec::new();
    let mut i: usize = 0;
    while i < DNA_LEN
        invariant
            i <= DNA_LEN,
            a@.len() == DNA_LEN,
            b@.len() == DNA_LEN,
            sel@.len() == DNA_LEN,
            out@ == combined_dna(a@, b@, sel@).subrange(0, i as int),
        decreases DNA_LEN - i,
    {
        out.push((a[i] & sel[i]) | (b[i] & !sel[i]));
        proof {
            assert(out@ =~= combined_dna(a@, b@, sel@).subrange(0, i + 1));
        }
        i = i + 1;
    }
    proof {
        assert(out@ =~= combined_dna(a@, b@, sel@));
    }
    out
}

/// Law: in a combined genome, the bit at every position is parent `a`'s bit
/// where the selector bit is set and parent `b`'s bit where it is clear; in
/// particular no bit value appears that neither parent had at that position.
pub proof fn lemma_combined_dna_bits(a: Seq<u8>, b: Seq<u8>, sel: Seq<u8>)
    requires
        a.len() == DNA_LEN,
        b.len() == DNA_LEN,
        sel.len() == DNA_LEN,
    ensures
        forall|i: int, j: u8|
            0 <= i < DNA_LEN && j < 8 ==> #[trigger] bit_of(combined_dna(a, b, sel)[i], j) == (
            if bit_of(sel[i], j) {
                bit_of(a[i], j)
            } else {
                bit_of(b[i], j)
            }),
        forall|i: int, j: u8|
            0 <= i < DNA_LEN && j < 8 ==> #[trigger] bit_of(combined_dna(a, b, sel)[i], j)
                == bit_of(a[i], j) || bit_of(combined_dna(a, b, sel)[i], j) == bit_of(b[i], j),
{
    assert forall|i: int, j: u8| 0 <= i < DNA_LEN && j < 8 implies #[trigger] bit_of(
        combined_dna(a, b, sel)[i],
        j,
    ) == (if bit_of(sel[i], j) {
        bit_of(a[i], j)
    } else {
        bit_of(b[i], j)
    }) by {
        let av = a[i];
        let bv = b[i];
        let sv = sel[i];
        assert(combined_dna(a, b, sel)[i] == (av & sv) | (bv & !sv));
        assert(bit_of((av & sv) | (bv & !sv), j) == (if bit_of(sv, j) {
            bit_of(av, j)
        } else {
            bit_of(bv, j)
        })) by (bit_vector)
            requires
                j < 8,
        ;
    }
}

} // verus!
