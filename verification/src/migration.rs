use vstd::prelude::*;

use crate::kitty::{copy_bytes, Kitty, DNA_LEN};
use crate::store::Store;

verus! {

/// Byte length of a label under the old record layout.
pub const OLD_NAME_LEN: usize = 4;

/// Byte length of an encoded record under the old layout: sixteen genome
/// bytes followed by four label bytes.
pub const OLD_RECORD_LEN: usize = 20;

/// Byte length of an encoded record under the current layout: sixteen
/// genome bytes followed by eight label bytes.
pub const RECORD_LEN: usize = 24;

/// A record as the old layout stored it: a genome of sixteen bytes and a
/// label of four bytes.
#[derive(Debug, PartialEq, Eq)]
pub struct OldKitty {
    pub dna: Vec<u8>,
    pub name: Vec<u8>,
}

impl OldKitty {
    /// Fixed byte lengths of the old layout.
    pub open spec fn wf(self) -> bool {
        self.dna@.len() == DNA_LEN && self.name@.len() == OLD_NAME_LEN
    }
}

/// The fixed placeholder label, the bytes of `kitty_v1`, written into
/// every migrated record in place of its old label.
pub open spec fn migrated_name() -> Seq<u8> {
    seq![0x6bu8, 0x69u8, 0x74u8, 0x74u8, 0x79u8, 0x5fu8, 0x76u8, 0x31u8]
}

/// What migration makes of one stored value: the genome bytes kept
/// verbatim, the label bytes replaced by the placeholder.
pub open spec fn migrated_value(v: Seq<u8>) -> Seq<u8> {
    v.subrange(0, DNA_LEN as int) + migrated_name()
}

/// Migration acts exactly when the persisted layout version is 1 and the
/// deployed code expects version 2.
pub open spec fn migration_applies(on_chain_version: u16, current_version: u16) -> bool {
    on_chain_version == 1 && current_version == 2
}

/// The placeholder label as a byte vector.
fn placeholder_name() -> (r: Vec<u8>)
    ensures
        r@ == migrated_name(),
{
    let mut out: Vec<u8> = Vec::new();
    out.push(0x6b);
    out.push(0x69);
    out.push(0x74);
    out.push(0x74);
    out.push(0x79);
    out.push(0x5f);
    out.push(0x76);
    out.push(0x31);
    proof {
        assert(out@ =~= migrated_name());
    }
    out
}

/// The bytes of `v` from `start` up to `end`, as a fresh vector.
fn sub_bytes(v: &Vec<u8>, start: usize, end: usize) -> (r: Vec<u8>)
    requires
        start <= end <= v@.len(),
    ensures
        r@ == v@.subrange(start as int, end as int),
{
    let mut out: Vec<u8> = Vec::new();
    let mut i: usize = start;
    while i < end
        invariant
            start <= i <= end <= v@.len(),
            out@ == v@.subrange(start as int, i as int),
        decreases end - i,
    {
        out.push(v[i]);
        proof {
            assert(out@ =~= v@.subrange(start as int, i + 1));
        }
        i = i + 1;
    }
    out
}

/// Decode a stored value under the old layout.  Exactly the values of the
/// old record length decode; the first sixteen bytes are the genome, the
/// remaining four the label.
pub fn decode_old_kitty(v: &Vec<u8>) -> (r: Option<OldKitty>)
    ensures
        r.is_some() <==> v@.len() == OLD_RECORD_LEN,
        match r {
            Some(k) => k.wf() && k.dna@ == v@.subrange(0, DNA_LEN as int) && k.name@
                == v@.subrange(DNA_LEN as int, OLD_RECORD_LEN as int),
            None => true,
        },
{
    if v.len() != OLD_RECORD_LEN {
        return None;
    }
    let dna = sub_bytes(v, 0, DNA_LEN);
    let name = sub_bytes(v, DNA_LEN, OLD_RECORD_LEN);
    Some(OldKitty { dna, name })
}

/// Decode a stored value under the current layout.  Exactly the values of
/// the current record length decode; the first sixteen bytes are the
/// genome, the remaining eight the label.
pub fn decode_kitty(v: &Vec<u8>) -> (r: Option<Kitty>)
    ensures
        r.is_some() <==> v@.len() == RECORD_LEN,
        match r {
            Some(k) => k.wf() && k.dna@ == v@.subrange(0, DNA_LEN as int) && k.name@
                == v@.subrange(DNA_LEN as int, RECORD_LEN as int),
            None => true,
        },
{
    if v.len() != RECORD_LEN {
        return None;
    }
    let dna = sub_bytes(v, 0, DNA_LEN);
    let name = sub_bytes(v, DNA_LEN, RECORD_LEN);
    Some(Kitty { dna, name })
}

/// Encode a record under the current layout: the genome bytes followed by
/// the label bytes.
pub fn encode_kitty(k: &Kitty) -> (r: Vec<u8>)
    requires
        k.wf(),
    ensures
        r@ == k.dna@ + k.name@,
        r@.len() == RECORD_LEN,
{
    let mut out = copy_bytes(&k.dna);
    let n = k.name.len();
    let mut i: usize = 0;
    while i < n
        invariant
            i <= n,
            n == k.name@.len(),
            out@ == k.dna@ + k.name@.subrange(0, i as int),
        decreases n - i,
    {
        out.push(k.name[i]);
        proof {
            assert(out@ =~= k.dna@ + k.name@.subrange(0, i + 1));
        }
        i = i + 1;
    }
    proof {
        assert(out@ =~= k.dna@ + k.name@);
    }
    out
}

/// The pure per-record transform from the old layout to the current one:
/// the genome is preserved verbatim, and the label is overwritten with the
/// fixed placeholder — the old label content is discarded, not
/// reinterpreted.
pub fn migrate_record(record: &OldKitty) -> (r: Kitty)
    requires
        record.wf(),
    ensures
        r.wf(),
        r.dna@ == record.dna@,
        r.name@ == migrated_name(),
{
    Kitty { dna: copy_bytes(&record.dna), name: placeholder_name() }
}

/// The one-shot, version-gated schema migration.  Outside its version
/// window it performs no work at all and the store stays byte-for-byte
/// unchanged, however often it is invoked.  Inside the window it rewrites
/// every stored entry in place under its identifier: the genome bytes are
/// kept verbatim and the label becomes the fixed placeholder.  The
/// returned cost figure is zero either way; bumping the recorded version
/// is the invoking upgrade pipeline's responsibility.
pub fn migrate(store: &mut Store<Vec<u8>>, on_chain_version: u16, current_version: u16) -> (w: u64)
    requires
        old(store).wf(),
        migration_applies(on_chain_version, current_version) ==> forall|id: u32|
            #[trigger] old(store).as_map().contains_key(id) ==> old(store).as_map()[id]@.len()
                == OLD_RECORD_LEN,
    ensures
        final(store).wf(),
        w == 0,
        !migration_applies(on_chain_version, current_version) ==> *final(store) == *old(store),
        migration_applies(on_chain_version, current_version) ==> {
            &&& forall|id: u32|
                final(store).as_map().contains_key(id) <==> #[trigger] old(
                    store,
                ).as_map().contains_key(id)
            &&& forall|id: u32|
                #[trigger] old(store).as_map().contains_key(id) ==> final(store).as_map()[id]@
                    == migrated_value(old(store).as_map()[id]@)
        },
{
    if !(on_chain_version == 1 && current_version == 2) {
        return 0;
    }
    let ks = store.keys();
    let n = ks.len();
    let mut i: usize = 0;
    while i < n
        invariant
            n == ks@.len(),
            i <= n,
            store.wf(),
            ks@.no_duplicates(),
            forall|k: u32| ks@.contains(k) <==> #[trigger] old(store).as_map().contains_key(k),
            forall|k: u32|
                store.as_map().contains_key(k) <==> #[trigger] old(store).as_map().contains_key(k),
            forall|k: u32|
                #[trigger] old(store).as_map().contains_key(k) ==> old(store).as_map()[k]@.len()
                    == OLD_RECORD_LEN,
            forall|j: int|
                0 <= j < i ==> store.as_map()[#[trigger] ks@[j]]@ == migrated_value(
                    old(store).as_map()[ks@[j]]@,
                ),
            forall|k: u32|
                old(store).as_map().contains_key(k) && !ks@.subrange(0, i as int).contains(k)
                    ==> store.as_map()[k] == #[trigger] old(store).as_map()[k],
        decreases n - i,
    {
        let key = ks[i];
        proof {
            assert(ks@.contains(ks@[i as int]));
            assert(!ks@.subrange(0, i as int).contains(key)) by {
                if ks@.subrange(0, i as int).contains(key) {
                    let j = choose|j: int|
                        0 <= j < i && ks@.subrange(0, i as int)[j] == key;
                    assert(ks@[j] == ks@[i as int]);
                }
            }
            assert(old(store).as_map().contains_key(key));
            assert(store.as_map().contains_key(key));
            assert(store.as_map()[key] == old(store).as_map()[key]);
        }
        let v = store.get(key).unwrap();
        let decoded = decode_old_kitty(v).unwrap();
        let rewritten = migrate_record(&decoded);
        let encoded = encode_kitty(&rewritten);
        proof {
            assert(encoded@ =~= migrated_value(old(store).as_map()[key]@));
        }
        store.insert(key, encoded);
        proof {
            assert(ks@.subrange(0, i + 1) =~= ks@.subrange(0, i as int).push(ks@[i as int]));
            assert forall|k: u32|
                old(store).as_map().contains_key(k) && !ks@.subrange(0, i + 1).contains(k) implies
                store.as_map()[k] == #[trigger] old(store).as_map()[k] by {
                assert(!ks@.subrange(0, i as int).contains(k));
                assert(ks@.subrange(0, i + 1)[i as int] == ks@[i as int]);
                assert(k != ks@[i as int]);
            }
            assert forall|j: int|
                0 <= j < i + 1 implies store.as_map()[#[trigger] ks@[j]]@ == migrated_value(
                old(store).as_map()[ks@[j]]@,
            ) by {
                if j < i {
                    assert(ks@[j] != ks@[i as int]);
                }
            }
        }
        i = i + 1;
    }
    proof {
        assert(ks@.subrange(0, n as int) =~= ks@);
        assert forall|id: u32| #[trigger] old(store).as_map().contains_key(id) implies
            store.as_map()[id]@ == migrated_value(old(store).as_map()[id]@) by {
            assert(ks@.contains(id));
            let j = choose|j: int| 0 <= j < ks@.len() && ks@[j] == id;
            assert(store.as_map()[ks@[j]]@ == migrated_value(old(store).as_map()[ks@[j]]@));
        }
    }
    0
}

} // verus!
