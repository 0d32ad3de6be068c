//! Blocks and chains of blocks.
//!
//! A block is 2560 bytes at an absolute offset of the archive, encrypted, and
//! holds twenty entries. The last entry of a block may name the offset of a
//! further block; the blocks linked this way form a chain.
//!
//! The archive is handed to these functions as the sequence of its bytes.

use vstd::prelude::*;
use vstd::slice::slice_subrange;

verus! {

use crate::blowfish::{spec_decrypt, Blowfish};
use crate::pk2::constants::{blowfish, spec_pk2_schedule, BLOCK_SIZE, ENTRIES_PER_BLOCK, ENTRY_SIZE};
use crate::pk2::entry::{spec_parse_entry, Entry, EntryModel};
use crate::pk2::errors::Error;
use crate::pk2::util::copy_bytes;

/// The entries of a sequence as mathematical values.
pub open spec fn spec_models(entries: Seq<Entry>) -> Seq<EntryModel> {
    entries.map_values(|e: Entry| e@)
}

/// Whether the archive holds all 2560 bytes of a block at `offset`.
pub open spec fn spec_block_fits(image: Seq<u8>, offset: u64) -> bool {
    offset + 2560 <= image.len()
}

/// The twenty entries that 2560 decrypted bytes spell.
pub open spec fn spec_block_entries(plain: Seq<u8>) -> Seq<EntryModel>
    recommends
        plain.len() == 2560,
{
    Seq::new(20, |i: int| spec_parse_entry(plain.subrange(128 * i, 128 * i + 128)))
}

/// The twenty entries of the block at `offset`.
#[verifier::opaque]
pub open spec fn spec_entries_at(image: Seq<u8>, offset: u64) -> Seq<EntryModel>
    recommends
        spec_block_fits(image, offset),
{
    spec_block_entries(
        spec_decrypt(spec_pk2_schedule(), image.subrange(offset as int, offset + 2560)),
    )
}

/// The entries that are not empty slots, in their order.
pub open spec fn spec_non_empty(entries: Seq<EntryModel>) -> Seq<EntryModel> {
    entries.filter(|e: EntryModel| e.typ != 0)
}

/// The offsets of the blocks read so far on one chain: each is the offset of
/// a whole block, and none occurs twice.
pub open spec fn spec_seen_ok(image: Seq<u8>, seen: Seq<u64>) -> bool {
    &&& seen.no_duplicates()
    &&& forall|i: int| 0 <= i < seen.len() ==> spec_block_fits(image, #[trigger] seen[i])
}

/// `prefix` put before the entries of a successful result.
pub open spec fn spec_prepend(prefix: Seq<EntryModel>, rest: Result<Seq<EntryModel>, Error>) -> Result<
    Seq<EntryModel>,
    Error,
> {
    match rest {
        Ok(entries) => Ok(prefix + entries),
        Err(e) => Err(e),
    }
}

/// The non-empty entries of the chain that starts at `offset`, block after
/// block, where the blocks at the offsets in `seen` were read before.
///
/// A block that the archive does not hold in full is an error, and so is a
/// chain that comes back to a block it has read.
pub open spec fn spec_read_chain(image: Seq<u8>, offset: u64, seen: Seq<u64>) -> Result<
    Seq<EntryModel>,
    Error,
>
    decreases image.len() - seen.len(),
    when spec_seen_ok(image, seen)
    via spec_read_chain_terminates
{
    if seen.contains(offset) {
        Err(Error::InvalidBlock("cyclic block chain"))
    } else if !spec_block_fits(image, offset) {
        Err(Error::InvalidBlock("wrong block size"))
    } else {
        let entries = spec_entries_at(image, offset);
        let next = entries[19].next_chain;
        if next == 0 {
            Ok(spec_non_empty(entries))
        } else {
            spec_prepend(spec_non_empty(entries), spec_read_chain(image, next, seen.push(offset)))
        }
    }
}

#[via_fn]
proof fn spec_read_chain_terminates(image: Seq<u8>, offset: u64, seen: Seq<u64>) {
    if !seen.contains(offset) && spec_block_fits(image, offset) {
        lemma_seen_push(image, seen, offset);
    }
}

/// The non-empty entries of the chain that starts at `offset`.
pub open spec fn spec_read_block(image: Seq<u8>, offset: u64) -> Result<Seq<EntryModel>, Error> {
    spec_read_chain(image, offset, Seq::empty())
}

/// Whether an outcome is the one the model gives: the same entries, or the
/// same error.
pub open spec fn spec_same_outcome(
    got: Result<Vec<Entry>, Error>,
    model: Result<Seq<EntryModel>, Error>,
) -> bool {
    match model {
        Ok(entries) => got is Ok && spec_models(got->Ok_0@) == entries,
        Err(e) => got is Err && got->Err_0 == e,
    }
}

/// Numbers below a bound, no two alike, are at most as many as the bound.
pub proof fn lemma_distinct_bounded(s: Seq<u64>, bound: nat)
    requires
        s.no_duplicates(),
        forall|i: int| 0 <= i < s.len() ==> s[i] < bound,
    ensures
        s.len() <= bound,
    decreases bound,
{
    if bound == 0 {
        if s.len() > 0 {
            assert(s[0] < bound);
        }
    } else {
        let top = (bound - 1) as nat;
        if exists|k: int| 0 <= k < s.len() && s[k] == top {
            let k = choose|k: int| 0 <= k < s.len() && s[k] == top;
            let rest = s.remove(k);
            assert forall|i: int| 0 <= i < rest.len() implies rest[i] < top by {
                if i < k {
                    assert(rest[i] == s[i]);
                } else {
                    assert(rest[i] == s[i + 1]);
                }
            }
            assert forall|i: int, j: int| 0 <= i < rest.len() && 0 <= j < rest.len() && i
                != j implies rest[i] != rest[j] by {
                let si = if i < k {
                    i
                } else {
                    i + 1
                };
                let sj = if j < k {
                    j
                } else {
                    j + 1
                };
                assert(rest[i] == s[si] && rest[j] == s[sj]);
            }
            lemma_distinct_bounded(rest, top);
        } else {
            lemma_distinct_bounded(s, top);
        }
    }
}

/// Reading one more block keeps the record of read blocks in order, and
/// there is room for it: the archive has more bytes than blocks were read.
pub proof fn lemma_seen_push(image: Seq<u8>, seen: Seq<u64>, offset: u64)
    requires
        spec_seen_ok(image, seen),
        !seen.contains(offset),
        spec_block_fits(image, offset),
    ensures
        spec_seen_ok(image, seen.push(offset)),
        seen.len() < image.len(),
{
    let grown = seen.push(offset);
    assert forall|i: int, j: int| 0 <= i < grown.len() && 0 <= j < grown.len() && i
        != j implies grown[i] != grown[j] by {
        if i < seen.len() {
            assert(seen.contains(seen[i]));
        }
        if j < seen.len() {
            assert(seen.contains(seen[j]));
        }
    }
    assert forall|i: int| 0 <= i < grown.len() implies grown[i] < image.len() by {
        assert(spec_block_fits(image, grown[i]));
    }
    lemma_distinct_bounded(grown, image.len());
}

/// Whether every entry of every block that the archive holds has a kind byte
/// of the format: 0, 1 or 2.
pub open spec fn spec_kinds_known(image: Seq<u8>) -> bool {
    forall|offset: u64, i: int|
        spec_block_fits(image, offset) && 0 <= i < 20 ==> (#[trigger] spec_entries_at(
            image,
            offset,
        )[i]).typ <= 2
}

/// No entry that a chain yields is an empty slot; where the archive holds
/// kind bytes of the format only, every entry that a chain yields is a
/// directory or a file.
pub proof fn lemma_read_chain_kinds(image: Seq<u8>, offset: u64, seen: Seq<u64>)
    requires
        spec_seen_ok(image, seen),
        spec_read_chain(image, offset, seen) is Ok,
    ensures
        forall|i: int|
            0 <= i < spec_read_chain(image, offset, seen)->Ok_0.len() ==> (
            #[trigger] spec_read_chain(image, offset, seen)->Ok_0[i]).typ != 0,
        spec_kinds_known(image) ==> forall|i: int|
            0 <= i < spec_read_chain(image, offset, seen)->Ok_0.len() ==> ({
                let e = #[trigger] spec_read_chain(image, offset, seen)->Ok_0[i];
                e.typ == 1 || e.typ == 2
            }),
    decreases image.len() - seen.len(),
{
    lemma_read_chain_step(image, offset, seen);
    let entries = spec_entries_at(image, offset);
    let kept = spec_non_empty(entries);
    let keep = |e: EntryModel| e.typ != 0;
    assert(entries.len() == 20) by {
        reveal(spec_entries_at);
    }
    assert forall|i: int| 0 <= i < kept.len() implies (#[trigger] kept[i]).typ != 0 && (
    spec_kinds_known(image) ==> kept[i].typ <= 2) by {
        entries.lemma_filter_pred(keep, i);
        assert(kept.contains(kept[i]));
        entries.lemma_filter_contains_rev(keep, kept[i]);
        let j = choose|j: int| 0 <= j < entries.len() && entries[j] == kept[i];
        assert(entries[j] == kept[i]);
    }
    let next = entries[19].next_chain;
    if next != 0 {
        lemma_read_chain_kinds(image, next, seen.push(offset));
    }
}

/// The view of a vector of entries after one more entry was pushed.
proof fn lemma_models_push(before: Seq<Entry>, after: Seq<Entry>, e: Entry)
    requires
        after == before.push(e),
    ensures
        spec_models(after) == spec_models(before).push(e@),
{
    assert(spec_models(after) =~= spec_models(before).push(e@));
}

/// Whether `offset` is among the offsets in `seen`.
pub fn offset_seen(seen: &Vec<u64>, offset: u64) -> (r: bool)
    ensures
        r == seen@.contains(offset),
{
    let mut i: usize = 0;
    while i < seen.len()
        invariant
            i <= seen@.len(),
            forall|j: int| 0 <= j < i ==> seen@[j] != offset,
        decreases seen@.len() - i,
    {
        if seen[i] == offset {
            return true;
        }
        i = i + 1;
    }
    false
}

/// Reads, decrypts and splits the block at `offset`, if the archive holds
/// all of it.
fn load_block(cipher: &Blowfish, image: &[u8], offset: u64) -> (r: Option<Vec<Entry>>)
    requires
        cipher@ == spec_pk2_schedule(),
    ensures
        r is Some <==> spec_block_fits(image@, offset),
        r matches Some(entries) ==> entries@.len() == 20 && spec_models(entries@)
            == spec_entries_at(image@, offset),
{
    let len: usize = image.len();
    if len < BLOCK_SIZE {
        return None;
    }
    if offset > (len - BLOCK_SIZE) as u64 {
        return None;
    }
    let start: usize = offset as usize;
    let mut buf: [u8; 2560] = copy_bytes::<2560>(image, start);
    cipher.decrypt(&mut buf);
    let ghost plain = buf@;
    let mut entries: Vec<Entry> = Vec::with_capacity(ENTRIES_PER_BLOCK);
    let mut i: usize = 0;
    while i < ENTRIES_PER_BLOCK
        invariant
            i <= 20,
            buf@ == plain,
            plain.len() == 2560,
            entries@.len() == i,
            forall|j: int|
                0 <= j < i ==> (#[trigger] entries@[j])@ == spec_parse_entry(
                    plain.subrange(128 * j, 128 * j + 128),
                ),
        decreases 20 - i,
    {
        let entry = Entry::from(slice_subrange(buf.as_slice(), ENTRY_SIZE * i, ENTRY_SIZE * i + ENTRY_SIZE));
        entries.push(entry);
        i = i + 1;
    }
    assert(spec_models(entries@) =~= spec_entries_at(image@, offset)) by {
        reveal(spec_entries_at);
    }
    Some(entries)
}

/// Appends the entries of `block` that are not empty slots to `out`.
fn append_non_empty(out: &mut Vec<Entry>, block: &Vec<Entry>)
    ensures
        spec_models(final(out)@) == spec_models(old(out)@) + spec_non_empty(spec_models(block@)),
{
    let ghost before = spec_models(out@);
    let ghost all = spec_models(block@);
    let mut i: usize = 0;
    assert(all.subrange(0, 0) =~= Seq::<EntryModel>::empty());
    assert(before + spec_non_empty(all.subrange(0, 0)) =~= before) by {
        reveal(Seq::filter);
    }
    while i < block.len()
        invariant
            i <= block@.len(),
            all == spec_models(block@),
            spec_models(out@) == before + spec_non_empty(all.subrange(0, i as int)),
        decreases block@.len() - i,
    {
        let entry: Entry = block[i];
        let ghost head = all.subrange(0, i as int);
        let ghost grown = all.subrange(0, i + 1);
        proof {
            reveal(Seq::filter);
            assert(grown.drop_last() =~= head);
            assert(grown.last() == entry@);
        }
        if !entry.is_empty() {
            let ghost prior = out@;
            out.push(entry);
            proof {
                lemma_models_push(prior, out@, entry);
                assert(spec_models(out@) =~= before + spec_non_empty(grown));
            }
        }
        i = i + 1;
    }
    assert(all.subrange(0, block@.len() as int) =~= all);
}

/// What a chain gives from a block on, by the block's own entries and what
/// the chain gives from the next block on.
pub proof fn lemma_read_chain_step(image: Seq<u8>, offset: u64, seen: Seq<u64>)
    requires
        spec_seen_ok(image, seen),
    ensures
        seen.contains(offset) ==> spec_read_chain(image, offset, seen) == Err::<
            Seq<EntryModel>,
            Error,
        >(Error::InvalidBlock("cyclic block chain")),
        !seen.contains(offset) && !spec_block_fits(image, offset) ==> spec_read_chain(
            image,
            offset,
            seen,
        ) == Err::<Seq<EntryModel>, Error>(Error::InvalidBlock("wrong block size")),
        !seen.contains(offset) && spec_block_fits(image, offset) ==> ({
            let entries = spec_entries_at(image, offset);
            let next = entries[19].next_chain;
            &&& spec_seen_ok(image, seen.push(offset))
            &&& seen.len() < image.len()
            &&& next == 0 ==> spec_read_chain(image, offset, seen) == Ok::<Seq<EntryModel>, Error>(
                spec_non_empty(entries),
            )
            &&& next != 0 ==> spec_read_chain(image, offset, seen) == spec_prepend(
                spec_non_empty(entries),
                spec_read_chain(image, next, seen.push(offset)),
            )
        }),
{
    if !seen.contains(offset) && spec_block_fits(image, offset) {
        lemma_seen_push(image, seen, offset);
    }
}

/// Putting two runs of entries before a result, one after the other, is
/// putting their concatenation before it.
pub proof fn lemma_prepend_twice(
    head: Seq<EntryModel>,
    kept: Seq<EntryModel>,
    rest: Result<Seq<EntryModel>, Error>,
)
    ensures
        spec_prepend(head, spec_prepend(kept, rest)) == spec_prepend(head + kept, rest),
        spec_prepend(head, Ok(kept)) == Ok::<Seq<EntryModel>, Error>(head + kept),
{
    if rest is Ok {
        assert(head + (kept + rest->Ok_0) =~= (head + kept) + rest->Ok_0);
    }
}

/// Reads the chain of blocks that starts at `offset` with a cipher that was
/// built before.
pub fn read_block_with(cipher: &Blowfish, image: &[u8], offset: u64) -> (r: Result<
    Vec<Entry>,
    Error,
>)
    requires
        cipher@ == spec_pk2_schedule(),
    ensures
        spec_same_outcome(r, spec_read_block(image@, offset)),
{
    let mut out: Vec<Entry> = Vec::new();
    let mut seen: Vec<u64> = Vec::new();
    let mut cur: u64 = offset;
    let ghost whole = spec_read_block(image@, offset);
    proof {
        assert(spec_models(out@) =~= Seq::<EntryModel>::empty());
        if whole is Ok {
            assert(Seq::<EntryModel>::empty() + whole->Ok_0 =~= whole->Ok_0);
        }
    }
    loop
        invariant
            cipher@ == spec_pk2_schedule(),
            spec_seen_ok(image@, seen@),
            whole == spec_read_block(image@, offset),
            whole == spec_prepend(spec_models(out@), spec_read_chain(image@, cur, seen@)),
        decreases image@.len() - seen@.len(),
    {
        proof {
            lemma_read_chain_step(image@, cur, seen@);
        }
        if offset_seen(&seen, cur) {
            return Err(Error::InvalidBlock("cyclic block chain"));
        }
        match load_block(cipher, image, cur) {
            None => {
                return Err(Error::InvalidBlock("wrong block size"));
            },
            Some(entries) => {
                let next: u64 = entries[19].next_chain;
                let ghost head = spec_models(out@);
                let ghost kept = spec_non_empty(spec_entries_at(image@, cur));
                assert(spec_models(entries@)[19] == entries@[19]@);
                append_non_empty(&mut out, &entries);
                proof {
                    lemma_prepend_twice(
                        head,
                        kept,
                        spec_read_chain(image@, next, seen@.push(cur)),
                    );
                }
                if next == 0 {
                    return Ok(out);
                }
                seen.push(cur);
                cur = next;
            },
        }
    }
}

/// Reads a block (see [BLOCK_SIZE]) in a PK2 archive and returns the entries.
///
/// The chain that starts at `offset` is followed to its end. The result holds
/// the entries of all its blocks that are not empty slots, in the order of
/// the archive: block after block, and within a block slot after slot.
pub fn read_block(image: &[u8], offset: u64) -> (r: Result<Vec<Entry>, Error>)
    ensures
        spec_same_outcome(r, spec_read_block(image@, offset)),
        r matches Ok(entries) ==> forall|i: int|
            0 <= i < entries@.len() ==> (#[trigger] entries@[i]).typ != 0,
{
    let cipher = blowfish();
    let r = read_block_with(&cipher, image, offset);
    proof {
        if r is Ok {
            lemma_read_chain_kinds(image@, offset, Seq::empty());
            let entries = r->Ok_0;
            assert forall|i: int| 0 <= i < entries@.len() implies (#[trigger] entries@[i]).typ
                != 0 by {
                assert(spec_models(entries@)[i] == entries@[i]@);
            }
        }
    }
    r
}

} // verus!
