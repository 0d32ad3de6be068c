//! Directories of an archive.
//!
//! A directory holds the entry that describes it and two keyed lists: its
//! entries, keyed by the directory's path joined with the entry's name, and
//! its sub-directories, keyed by their names. Entries whose name starts with
//! a dot, the self and parent links of the format, are not listed.
//!
//! Expansion walks the tree depth first. The positions of the directories on
//! the way down are recorded, and a directory whose position is on record is
//! refused, so that expansion ends on every archive.

use vstd::prelude::*;
use vstd::slice::{slice_subrange, slice_to_vec};

verus! {

use crate::blowfish::Blowfish;
use crate::pk2::block::{
    lemma_read_chain_step,
    lemma_seen_push,
    offset_seen,
    read_block_with,
    spec_block_fits,
    spec_models,
    spec_read_block,
    spec_seen_ok,
};
use crate::pk2::constants::{blowfish, spec_pk2_schedule, DOT};
use crate::pk2::entry::{spec_path_of, Entry, EntryModel};
use crate::pk2::errors::Error;
use crate::pk2::keyed::{
    find_key,
    join_path,
    put,
    lemma_key_index,
    lemma_put_all_distinct,
    lemma_put_all_exact,
    lemma_put_all_has,
    lemma_put_all_keeps,
    lemma_put_keeps,
    spec_get,
    spec_join_path,
    spec_key_index,
    spec_keys,
    spec_keys_distinct,
    spec_paths,
    spec_put,
    spec_put_all,
};

/// Represents a directory entry in the PK2 archive.
#[derive(Debug)]
pub struct Directory {
    pub entry: Entry,
    pub entries: Vec<(String, Entry)>,
    pub directories: Vec<(String, Directory)>,
}

/// A directory as a mathematical value.
pub ghost struct DirectoryModel {
    pub entry: EntryModel,
    pub entries: Seq<(Seq<char>, EntryModel)>,
    pub directories: Seq<(Seq<char>, DirectoryModel)>,
}

/// The keyed entries of a directory as mathematical values.
pub open spec fn spec_entry_pairs(list: Seq<(String, Entry)>) -> Seq<(Seq<char>, EntryModel)> {
    list.map_values(|p: (String, Entry)| (p.0@, p.1@))
}

/// The keyed sub-directories of a directory as mathematical values.
pub open spec fn spec_child_pairs(list: Seq<(String, Directory)>) -> Seq<
    (Seq<char>, DirectoryModel),
> {
    list.map_values(|p: (String, Directory)| (p.0@, p.1@))
}

impl Directory {
    /// The directory as a mathematical value.
    pub open spec fn spec_model(self) -> DirectoryModel
        decreases self,
    {
        DirectoryModel {
            entry: self.entry@,
            entries: spec_entry_pairs(self.entries@),
            directories: Seq::new(
                self.directories@.len(),
                |i: int|
                    if 0 <= i < self.directories@.len() {
                        (self.directories@[i].0@, self.directories@[i].1.spec_model())
                    } else {
                        arbitrary()
                    },
            ),
        }
    }

    /// The model's sub-directories are the models of the sub-directories.
    pub proof fn lemma_model_children(self)
        ensures
            self@.directories == spec_child_pairs(self.directories@),
    {
        assert(self@.directories =~= spec_child_pairs(self.directories@));
    }
}

impl View for Directory {
    type V = DirectoryModel;

    open spec fn view(&self) -> DirectoryModel {
        self.spec_model()
    }
}

/// Whether a directory lists an entry: it is not an empty slot, and its name
/// does not start with a dot.
pub open spec fn spec_listed(e: EntryModel) -> bool {
    e.typ != 0 && e.name[0] != 0x2E
}

/// Whether an entry is a sub-directory to descend into: a directory whose
/// name does not start with a dot.
pub open spec fn spec_descends(e: EntryModel) -> bool {
    e.typ == 1 && e.name[0] != 0x2E
}

/// The listed entries of a chain, each with the key it is filed under: the
/// directory's path joined with the entry's name.
pub open spec fn spec_listed_pairs(path: Seq<char>, chain: Seq<EntryModel>) -> Seq<
    (Seq<char>, EntryModel),
> {
    chain.filter(|e: EntryModel| spec_listed(e)).map_values(
        |e: EntryModel| (spec_join_path(path, spec_path_of(e.name)), e),
    )
}

/// The sub-directory entries of a chain, each with its name.
pub open spec fn spec_directory_pairs(chain: Seq<EntryModel>) -> Seq<(Seq<char>, EntryModel)> {
    chain.filter(|e: EntryModel| spec_descends(e)).map_values(
        |e: EntryModel| (spec_path_of(e.name), e),
    )
}

/// The directory of an entry before it is expanded: without children.
pub open spec fn spec_fresh(entry: EntryModel) -> DirectoryModel {
    DirectoryModel { entry, entries: Seq::empty(), directories: Seq::empty() }
}

/// Whether the lists of a directory, and of every directory below it, stand
/// for mappings: none holds a key twice.
pub open spec fn spec_directory_wf(dir: DirectoryModel) -> bool
    decreases dir,
{
    &&& spec_keys_distinct(dir.entries)
    &&& spec_keys_distinct(dir.directories)
    &&& forall|i: int|
        0 <= i < dir.directories.len() ==> spec_directory_wf((#[trigger] dir.directories[i]).1)
}

/// The directory after expansion, where the directories at the positions in
/// `ancestors` are being expanded around it.
///
/// The chain at the directory's position is read. Its listed entries are put
/// into the directory's entries. Its sub-directory entries, of those that
/// share a name the last one, are expanded in turn and put into the
/// directory's sub-directories. The first failure is the result; a directory
/// whose position is among `ancestors` fails.
pub open spec fn spec_expand(image: Seq<u8>, dir: DirectoryModel, ancestors: Seq<u64>) -> Result<
    DirectoryModel,
    Error,
>
    decreases image.len() - ancestors.len(), 0nat,
    when spec_seen_ok(image, ancestors)
    via spec_expand_terminates
{
    if ancestors.contains(dir.entry.position) {
        Err(Error::InvalidBlock("cyclic directory"))
    } else {
        match spec_read_block(image, dir.entry.position) {
            Err(e) => Err(e),
            Ok(chain) => match spec_expand_each(
                image,
                spec_put_all(Seq::empty(), spec_directory_pairs(chain)),
                ancestors.push(dir.entry.position),
            ) {
                Err(e) => Err(e),
                Ok(children) => Ok(
                    DirectoryModel {
                        entry: dir.entry,
                        entries: spec_put_all(
                            dir.entries,
                            spec_listed_pairs(spec_path_of(dir.entry.name), chain),
                        ),
                        directories: spec_put_all(dir.directories, children),
                    },
                ),
            },
        }
    }
}

/// The expanded directories of the entries in `dirs`, in their order, or the
/// first failure.
pub open spec fn spec_expand_each(
    image: Seq<u8>,
    dirs: Seq<(Seq<char>, EntryModel)>,
    ancestors: Seq<u64>,
) -> Result<Seq<(Seq<char>, DirectoryModel)>, Error>
    decreases image.len() - ancestors.len(), dirs.len() + 1,
    when spec_seen_ok(image, ancestors)
{
    if dirs.len() == 0 {
        Ok(Seq::empty())
    } else {
        match spec_expand_each(image, dirs.drop_last(), ancestors) {
            Err(e) => Err(e),
            Ok(done) => match spec_expand(image, spec_fresh(dirs.last().1), ancestors) {
                Err(e) => Err(e),
                Ok(child) => Ok(done.push((dirs.last().0, child))),
            },
        }
    }
}

#[via_fn]
proof fn spec_expand_terminates(image: Seq<u8>, dir: DirectoryModel, ancestors: Seq<u64>) {
    let position = dir.entry.position;
    if !ancestors.contains(position) && spec_read_block(image, position) is Ok {
        lemma_read_block_fits(image, position);
        lemma_seen_push(image, ancestors, position);
    }
}

/// A chain that can be read starts with a block that the archive holds.
pub proof fn lemma_read_block_fits(image: Seq<u8>, offset: u64)
    requires
        spec_read_block(image, offset) is Ok,
    ensures
        spec_block_fits(image, offset),
{
    lemma_read_chain_step(image, offset, Seq::empty());
}

/// How the outcome of an expansion shows: on success the directory is the
/// expanded one; on failure the error is returned and the directory is as it
/// was.
pub open spec fn spec_expanded(
    before: DirectoryModel,
    after: DirectoryModel,
    got: Result<(), Error>,
    model: Result<DirectoryModel, Error>,
) -> bool {
    match model {
        Ok(dir) => got is Ok && after == dir,
        Err(e) => got == Err::<(), Error>(e) && after == before,
    }
}

/// Puts an entry under a key.
fn put_entry(list: &mut Vec<(String, Entry)>, key: String, value: Entry)
    ensures
        spec_entry_pairs(final(list)@) == spec_put(spec_entry_pairs(old(list)@), key@, value@),
{
    let ghost before = list@;
    assert(spec_paths(before) =~= spec_keys(spec_entry_pairs(before)));
    proof {
        lemma_key_index(spec_paths(before), key@);
    }
    put(list, key, value);
    let ghost i = spec_key_index(spec_paths(before), key@);
    proof {
        if i < before.len() {
            assert(spec_entry_pairs(before.update(i, (key, value))) =~= spec_entry_pairs(before).update(
                i,
                (key@, value@),
            ));
        } else {
            assert(spec_entry_pairs(before.push((key, value))) =~= spec_entry_pairs(before).push(
                (key@, value@),
            ));
        }
    }
}

/// Puts a directory under a key.
fn put_child(list: &mut Vec<(String, Directory)>, key: String, value: Directory)
    ensures
        spec_child_pairs(final(list)@) == spec_put(spec_child_pairs(old(list)@), key@, value@),
{
    let ghost before = list@;
    assert(spec_paths(before) =~= spec_keys(spec_child_pairs(before)));
    proof {
        lemma_key_index(spec_paths(before), key@);
    }
    put(list, key, value);
    let ghost i = spec_key_index(spec_paths(before), key@);
    proof {
        if i < before.len() {
            assert(spec_child_pairs(before.update(i, (key, value))) =~= spec_child_pairs(before).update(
                i,
                (key@, value@),
            ));
        } else {
            assert(spec_child_pairs(before.push((key, value))) =~= spec_child_pairs(before).push(
                (key@, value@),
            ));
        }
    }
}

/// The offsets in `seen`, and `offset` after them.
fn with_offset(seen: &Vec<u64>, offset: u64) -> (out: Vec<u64>)
    ensures
        out@ == seen@.push(offset),
{
    let mut out: Vec<u64> = Vec::with_capacity(seen.len());
    let mut i: usize = 0;
    while i < seen.len()
        invariant
            i <= seen@.len(),
            out@ == seen@.subrange(0, i as int),
        decreases seen@.len() - i,
    {
        out.push(seen[i]);
        i = i + 1;
    }
    assert(seen@.subrange(0, seen@.len() as int) =~= seen@);
    out.push(offset);
    out
}

/// The sub-directory entries of a chain, keyed by name; of those that share
/// a name the last one is kept.
fn collect_directories(chain: &Vec<Entry>) -> (dirs: Vec<(String, Entry)>)
    ensures
        spec_entry_pairs(dirs@) == spec_put_all(
            Seq::empty(),
            spec_directory_pairs(spec_models(chain@)),
        ),
        forall|j: int| 0 <= j < dirs@.len() ==> (#[trigger] dirs@[j]).1.typ == 1,
{
    let mut dirs: Vec<(String, Entry)> = Vec::new();
    let mut i: usize = 0;
    proof {
        lemma_filter_map_empty(
            |e: EntryModel| spec_descends(e),
            |e: EntryModel| (spec_path_of(e.name), e),
        );
        assert(spec_models(chain@).subrange(0, 0) =~= Seq::<EntryModel>::empty());
        assert(spec_entry_pairs(dirs@) =~= Seq::<(Seq<char>, EntryModel)>::empty());
    }
    while i < chain.len()
        invariant
            i <= chain@.len(),
            spec_entry_pairs(dirs@) == spec_put_all(
                Seq::empty(),
                spec_directory_pairs(spec_models(chain@).subrange(0, i as int)),
            ),
            forall|j: int|
                0 <= j < dirs@.len() ==> (#[trigger] spec_entry_pairs(dirs@)[j]).1.typ == 1,
        decreases chain@.len() - i,
    {
        let entry: Entry = chain[i];
        proof {
            let head = spec_models(chain@).subrange(0, i as int);
            assert(spec_models(chain@).subrange(0, i + 1) =~= head.push(entry@));
            lemma_filter_map_push(
                head,
                entry@,
                |e: EntryModel| spec_descends(e),
                |e: EntryModel| (spec_path_of(e.name), e),
            );
            let pairs = spec_directory_pairs(head);
            if spec_descends(entry@) {
                assert(pairs.push((spec_path_of(entry@.name), entry@)).drop_last() =~= pairs);
            }
        }
        if entry.is_dir() && entry.name[0] != DOT {
            let name: String = entry.path_buf();
            proof {
                lemma_put_keeps(
                    spec_entry_pairs(dirs@),
                    name@,
                    entry@,
                    |p: (Seq<char>, EntryModel)| p.1.typ == 1,
                );
            }
            put_entry(&mut dirs, name, entry);
        }
        i = i + 1;
    }
    assert(spec_models(chain@).subrange(0, chain@.len() as int) =~= spec_models(chain@));
    assert forall|j: int| 0 <= j < dirs@.len() implies (#[trigger] dirs@[j]).1.typ == 1 by {
        assert(spec_entry_pairs(dirs@)[j].1.typ == 1);
    }
    dirs
}

/// Puts the listed entries of a chain into a list, each under the
/// directory's path joined with its name.
fn file_entries(list: &mut Vec<(String, Entry)>, path: &String, chain: &Vec<Entry>)
    ensures
        spec_entry_pairs(final(list)@) == spec_put_all(
            spec_entry_pairs(old(list)@),
            spec_listed_pairs(path@, spec_models(chain@)),
        ),
{
    let ghost base = spec_entry_pairs(list@);
    let mut i: usize = 0;
    proof {
        lemma_filter_map_empty(
            |e: EntryModel| spec_listed(e),
            |e: EntryModel| (spec_join_path(path@, spec_path_of(e.name)), e),
        );
        assert(spec_models(chain@).subrange(0, 0) =~= Seq::<EntryModel>::empty());
    }
    while i < chain.len()
        invariant
            i <= chain@.len(),
            spec_entry_pairs(list@) == spec_put_all(
                base,
                spec_listed_pairs(path@, spec_models(chain@).subrange(0, i as int)),
            ),
        decreases chain@.len() - i,
    {
        let entry: Entry = chain[i];
        proof {
            let head = spec_models(chain@).subrange(0, i as int);
            assert(spec_models(chain@).subrange(0, i + 1) =~= head.push(entry@));
            lemma_filter_map_push(
                head,
                entry@,
                |e: EntryModel| spec_listed(e),
                |e: EntryModel| (spec_join_path(path@, spec_path_of(e.name)), e),
            );
            let pairs = spec_listed_pairs(path@, head);
            if spec_listed(entry@) {
                assert(pairs.push(
                    (spec_join_path(path@, spec_path_of(entry@.name)), entry@),
                ).drop_last() =~= pairs);
            }
        }
        if !entry.is_empty() && entry.name[0] != DOT {
            let name: String = entry.path_buf();
            put_entry(list, join_path(path.as_str(), name.as_str()), entry);
        }
        i = i + 1;
    }
    assert(spec_models(chain@).subrange(0, chain@.len() as int) =~= spec_models(chain@));
}

/// Puts expanded sub-directories into a list, in their order.
fn file_children(list: &mut Vec<(String, Directory)>, children: Vec<(String, Directory)>)
    ensures
        spec_child_pairs(final(list)@) == spec_put_all(
            spec_child_pairs(old(list)@),
            spec_child_pairs(children@),
        ),
{
    let ghost base = spec_child_pairs(list@);
    let ghost all = spec_child_pairs(children@);
    let mut rest: Vec<(String, Directory)> = children;
    let ghost mut done: int = 0;
    proof {
        assert(all.subrange(0, 0) =~= Seq::<(Seq<char>, DirectoryModel)>::empty());
        assert(all.subrange(0, all.len() as int) =~= all);
    }
    while rest.len() > 0
        invariant
            0 <= done <= all.len(),
            spec_child_pairs(rest@) == all.subrange(done, all.len() as int),
            spec_child_pairs(list@) == spec_put_all(base, all.subrange(0, done)),
        decreases rest@.len(),
    {
        let ghost before = rest@;
        let ghost tail = all.subrange(done, all.len() as int);
        assert(spec_child_pairs(before) == tail);
        assert(tail.len() == before.len());
        let pair: (String, Directory) = rest.remove(0);
        proof {
            assert(pair == before[0]);
            assert(rest@ == before.remove(0));
            assert(spec_child_pairs(before)[0] == (pair.0@, pair.1@));
            assert(tail[0] == all[done]);
            assert forall|j: int| 0 <= j < rest@.len() implies spec_child_pairs(rest@)[j]
                == all.subrange(done + 1, all.len() as int)[j] by {
                assert(rest@[j] == before[j + 1]);
                assert(spec_child_pairs(before)[j + 1] == tail[j + 1]);
                assert(tail[j + 1] == all[done + j + 1]);
            }
            assert(spec_child_pairs(rest@) =~= all.subrange(done + 1, all.len() as int));
            assert(all.subrange(0, done + 1).drop_last() =~= all.subrange(0, done));
        }
        put_child(list, pair.0, pair.1);
        proof {
            done = done + 1;
        }
    }
}

/// One line of a listing: a directory or a file, with the key it is filed
/// under.
#[derive(Debug, PartialEq, Eq)]
pub enum Listed {
    Dir(String),
    File(String),
}

/// A line of a listing as a mathematical value.
pub ghost enum ListedModel {
    Dir(Seq<char>),
    File(Seq<char>),
}

impl View for Listed {
    type V = ListedModel;

    open spec fn view(&self) -> ListedModel {
        match self {
            Listed::Dir(path) => ListedModel::Dir(path@),
            Listed::File(path) => ListedModel::File(path@),
        }
    }
}

/// The lines of a listing as mathematical values.
pub open spec fn spec_lines(lines: Seq<Listed>) -> Seq<ListedModel> {
    lines.map_values(|l: Listed| l@)
}

/// The lines for the files among keyed entries, in their order.
pub open spec fn spec_file_lines(entries: Seq<(Seq<char>, EntryModel)>) -> Seq<ListedModel> {
    entries.filter(|p: (Seq<char>, EntryModel)| p.1.typ == 2).map_values(
        |p: (Seq<char>, EntryModel)| ListedModel::File(p.0),
    )
}

/// The listing of a directory: its sub-directories first, each with a line
/// of its own followed by its listing, then its files.
pub open spec fn spec_listing(dir: DirectoryModel) -> Seq<ListedModel>
    decreases dir,
{
    spec_directory_lines(dir.directories) + spec_file_lines(dir.entries)
}

/// The lines for keyed sub-directories, in their order: for each its own line
/// and its listing.
pub open spec fn spec_directory_lines(dirs: Seq<(Seq<char>, DirectoryModel)>) -> Seq<ListedModel>
    decreases dirs,
{
    if dirs.len() == 0 {
        Seq::empty()
    } else {
        spec_directory_lines(dirs.drop_last()) + seq![ListedModel::Dir(dirs.last().0)]
            + spec_listing(dirs.last().1)
    }
}

/// One step of an extraction: a directory to create with all its parents
/// where it is missing, or a file to write.
#[derive(Debug, PartialEq, Eq)]
pub enum ExtractStep {
    CreateDir(String),
    WriteFile { path: String, data: Vec<u8>, complete: bool },
}

/// A step of an extraction as a mathematical value.
pub ghost enum ExtractStepModel {
    CreateDir(Seq<char>),
    WriteFile { path: Seq<char>, data: Seq<u8>, complete: bool },
}

impl View for ExtractStep {
    type V = ExtractStepModel;

    open spec fn view(&self) -> ExtractStepModel {
        match self {
            ExtractStep::CreateDir(path) => ExtractStepModel::CreateDir(path@),
            ExtractStep::WriteFile { path, data, complete } => ExtractStepModel::WriteFile {
                path: path@,
                data: data@,
                complete: *complete,
            },
        }
    }
}

/// The steps of an extraction as mathematical values.
pub open spec fn spec_steps(steps: Seq<ExtractStep>) -> Seq<ExtractStepModel> {
    steps.map_values(|s: ExtractStep| s@)
}

/// Whether the archive holds all `size` bytes of a payload at `position`.
pub open spec fn spec_payload_complete(image: Seq<u8>, position: u64, size: u32) -> bool {
    position + size <= image.len()
}

/// The payload of a file: `size` bytes, those that the archive holds from
/// `position` on, as they stand, and zero bytes for the rest.
pub open spec fn spec_payload(image: Seq<u8>, position: u64, size: u32) -> Seq<u8> {
    Seq::new(
        size as nat,
        |i: int|
            if position + i < image.len() {
                image[position + i]
            } else {
                0u8
            },
    )
}

/// The step that writes the file of an entry below `location`.
pub open spec fn spec_write_step(image: Seq<u8>, location: Seq<char>, e: EntryModel) -> ExtractStepModel {
    ExtractStepModel::WriteFile {
        path: spec_join_path(location, spec_path_of(e.name)),
        data: spec_payload(image, e.position, e.size),
        complete: spec_payload_complete(image, e.position, e.size),
    }
}

/// The steps that write the files among keyed entries, in their order.
pub open spec fn spec_file_steps(
    image: Seq<u8>,
    location: Seq<char>,
    entries: Seq<(Seq<char>, EntryModel)>,
) -> Seq<ExtractStepModel> {
    entries.filter(|p: (Seq<char>, EntryModel)| p.1.typ == 2).map_values(
        |p: (Seq<char>, EntryModel)| spec_write_step(image, location, p.1),
    )
}

/// The steps that extract a directory to `location`: the location is
/// created, the directory's files are written into it, and each
/// sub-directory is extracted to the location joined with its key.
pub open spec fn spec_extract(image: Seq<u8>, location: Seq<char>, dir: DirectoryModel) -> Seq<
    ExtractStepModel,
>
    decreases dir,
{
    seq![ExtractStepModel::CreateDir(location)] + spec_file_steps(image, location, dir.entries)
        + spec_extract_each(image, location, dir.directories)
}

/// The steps that extract keyed sub-directories below `location`, in their
/// order.
pub open spec fn spec_extract_each(
    image: Seq<u8>,
    location: Seq<char>,
    dirs: Seq<(Seq<char>, DirectoryModel)>,
) -> Seq<ExtractStepModel>
    decreases dirs,
{
    if dirs.len() == 0 {
        Seq::empty()
    } else {
        spec_extract_each(image, location, dirs.drop_last()) + spec_extract(
            image,
            spec_join_path(location, dirs.last().0),
            dirs.last().1,
        )
    }
}

/// Filtering and mapping a sequence that grew by one element.
pub proof fn lemma_filter_map_push<A, B>(
    s: Seq<A>,
    x: A,
    keep: spec_fn(A) -> bool,
    f: spec_fn(A) -> B,
)
    ensures
        keep(x) ==> s.push(x).filter(keep).map_values(f) == s.filter(keep).map_values(f).push(
            f(x),
        ),
        !keep(x) ==> s.push(x).filter(keep).map_values(f) == s.filter(keep).map_values(f),
{
    reveal(Seq::filter);
    let grown = s.push(x);
    assert(grown.drop_last() =~= s);
    if keep(x) {
        assert(grown.filter(keep) == s.filter(keep).push(x));
        assert(grown.filter(keep).map_values(f) =~= s.filter(keep).map_values(f).push(f(x)));
    } else {
        assert(grown.filter(keep) == s.filter(keep));
    }
}

/// Filtering and mapping the empty sequence.
pub proof fn lemma_filter_map_empty<A, B>(keep: spec_fn(A) -> bool, f: spec_fn(A) -> B)
    ensures
        Seq::<A>::empty().filter(keep).map_values(f) == Seq::<B>::empty(),
{
    reveal(Seq::filter);
    assert(Seq::<A>::empty().filter(keep) =~= Seq::<A>::empty());
    assert(Seq::<A>::empty().filter(keep).map_values(f) =~= Seq::<B>::empty());
}

/// The bytes of a file's payload.
pub fn read_payload(image: &[u8], position: u64, size: u32) -> (r: (Vec<u8>, bool))
    ensures
        r.0@ == spec_payload(image@, position, size),
        r.1 == spec_payload_complete(image@, position, size),
{
    let len: usize = image.len();
    let want: usize = size as usize;
    let start: usize = if position > len as u64 {
        len
    } else {
        position as usize
    };
    let have: usize = if len - start < want {
        len - start
    } else {
        want
    };
    let mut data: Vec<u8> = slice_to_vec(slice_subrange(image, start, start + have));
    let mut i: usize = have;
    while i < want
        invariant
            have <= i <= want,
            data@.len() == i,
            forall|j: int| 0 <= j < have ==> data@[j] == image@[start + j],
            forall|j: int| have <= j < i ==> data@[j] == 0u8,
        decreases want - i,
    {
        data.push(0u8);
        i = i + 1;
    }
    assert(data@ =~= spec_payload(image@, position, size));
    (data, position as u128 + size as u128 <= len as u128)
}

impl Directory {
    /// Creates a [Directory] from a given [Entry], which must be a directory.
    pub fn from(entry: Entry) -> (dir: Directory)
        requires
            entry.typ == 1,
        ensures
            dir@ == spec_fresh(entry@),
            dir.entry == entry,
            spec_directory_wf(dir@),
    {
        let dir = Directory { entry, entries: Vec::new(), directories: Vec::new() };
        proof {
            dir.lemma_model_children();
            assert(dir@.entries =~= Seq::<(Seq<char>, EntryModel)>::empty());
            assert(dir@.directories =~= Seq::<(Seq<char>, DirectoryModel)>::empty());
        }
        dir
    }

    /// Expands a directory recursively. Used for indexing.
    ///
    /// On failure the directory is left as it was.
    pub fn expand(&mut self, image: &[u8]) -> (r: Result<(), Error>)
        ensures
            spec_expanded(old(self)@, final(self)@, r, spec_expand(image@, old(self)@, Seq::empty())),
            spec_directory_wf(old(self)@) ==> spec_directory_wf(final(self)@),
    {
        let cipher = blowfish();
        let ancestors: Vec<u64> = Vec::new();
        self.expand_with(&cipher, image, &ancestors)
    }

    /// Expands a directory below the directories at the positions in
    /// `ancestors`, with a cipher that was built before.
    #[verifier::loop_isolation(false)]
    pub fn expand_with(&mut self, cipher: &Blowfish, image: &[u8], ancestors: &Vec<u64>) -> (r:
        Result<(), Error>)
        requires
            cipher@ == spec_pk2_schedule(),
            spec_seen_ok(image@, ancestors@),
        ensures
            spec_expanded(old(self)@, final(self)@, r, spec_expand(image@, old(self)@, ancestors@)),
            spec_directory_wf(old(self)@) ==> spec_directory_wf(final(self)@),
        decreases image@.len() - ancestors@.len(),
    {
        let position: u64 = self.entry.position;
        if offset_seen(ancestors, position) {
            return Err(Error::InvalidBlock("cyclic directory"));
        }
        let chain: Vec<Entry> = match read_block_with(cipher, image, position) {
            Err(e) => {
                return Err(e);
            },
            Ok(chain) => chain,
        };
        proof {
            lemma_read_block_fits(image@, position);
            lemma_seen_push(image@, ancestors@, position);
        }
        let inner: Vec<u64> = with_offset(ancestors, position);
        let dirs: Vec<(String, Entry)> = collect_directories(&chain);
        let mut children: Vec<(String, Directory)> = Vec::new();
        let mut i: usize = 0;
        proof {
            assert(spec_entry_pairs(dirs@).subrange(0, 0) =~= Seq::<
                (Seq<char>, EntryModel),
            >::empty());
            assert(spec_child_pairs(children@) =~= Seq::<(Seq<char>, DirectoryModel)>::empty());
        }
        while i < dirs.len()
            invariant
                i <= dirs@.len(),
                cipher@ == spec_pk2_schedule(),
                spec_seen_ok(image@, inner@),
                inner@.len() == ancestors@.len() + 1,
                inner@.len() <= image@.len(),
                forall|j: int| 0 <= j < dirs@.len() ==> (#[trigger] dirs@[j]).1.typ == 1,
                spec_expand_each(image@, spec_entry_pairs(dirs@).subrange(0, i as int), inner@)
                    == Ok::<Seq<(Seq<char>, DirectoryModel)>, Error>(spec_child_pairs(children@)),
            decreases dirs@.len() - i,
        {
            let entry: Entry = dirs[i].1;
            let name: String = dirs[i].0.clone();
            let mut child: Directory = Directory::from(entry);
            let ghost head = spec_entry_pairs(dirs@).subrange(0, i as int);
            let ghost grown = spec_entry_pairs(dirs@).subrange(0, i + 1);
            proof {
                assert(grown.drop_last() =~= head);
                assert(grown.last() == (dirs@[i as int].0@, entry@));
            }
            match child.expand_with(cipher, image, &inner) {
                Err(e) => {
                    proof {
                        lemma_expand_each_fails(image@, spec_entry_pairs(dirs@), inner@, i + 1);
                    }
                    return Err(e);
                },
                Ok(_) => {
                    let ghost before = children@;
                    children.push((name, child));
                    proof {
                        assert(spec_child_pairs(children@) =~= spec_child_pairs(before).push(
                            (name@, child@),
                        ));
                    }
                },
            }
            i = i + 1;
        }
        assert(spec_entry_pairs(dirs@).subrange(0, dirs@.len() as int) =~= spec_entry_pairs(dirs@));
        let path: String = self.entry.path_buf();
        let ghost before = *self;
        proof {
            before.lemma_model_children();
        }
        file_entries(&mut self.entries, &path, &chain);
        file_children(&mut self.directories, children);
        proof {
            self.lemma_model_children();
            if spec_directory_wf(old(self)@) {
                lemma_expand_wf(image@, old(self)@, ancestors@);
            }
        }
        Ok(())
    }
}

impl Directory {
    /// The entry that the directory holds under `key`, if any.
    pub fn get_entry(&self, key: &String) -> (r: Option<Entry>)
        ensures
            match spec_get(self@.entries, key@) {
                Some(e) => r is Some && r->Some_0@ == e,
                None => r is None,
            },
    {
        assert(spec_paths(self.entries@) =~= spec_keys(spec_entry_pairs(self.entries@)));
        let i: usize = find_key(&self.entries, key);
        if i < self.entries.len() {
            Some(self.entries[i].1)
        } else {
            None
        }
    }

    /// The sub-directory that the directory holds under `key`, if any.
    pub fn get_directory(&self, key: &String) -> (r: Option<&Directory>)
        ensures
            match spec_get(self@.directories, key@) {
                Some(d) => r is Some && r->Some_0@ == d,
                None => r is None,
            },
    {
        proof {
            self.lemma_model_children();
        }
        assert(spec_paths(self.directories@) =~= spec_keys(spec_child_pairs(self.directories@)));
        let i: usize = find_key(&self.directories, key);
        if i < self.directories.len() {
            Some(&self.directories[i].1)
        } else {
            None
        }
    }

    /// Lists all entries of a directory recursively: sub-directories before
    /// files at each level.
    pub fn print_entries(&self) -> (lines: Vec<Listed>)
        ensures
            spec_lines(lines@) == spec_listing(self@),
        decreases self,
    {
        let mut lines: Vec<Listed> = Vec::new();
        let ghost dirs = spec_child_pairs(self.directories@);
        proof {
            self.lemma_model_children();
            assert(dirs.subrange(0, 0) =~= Seq::<(Seq<char>, DirectoryModel)>::empty());
            assert(spec_lines(lines@) =~= Seq::<ListedModel>::empty());
        }
        let mut i: usize = 0;
        while i < self.directories.len()
            invariant
                i <= self.directories@.len(),
                dirs == spec_child_pairs(self.directories@),
                spec_lines(lines@) == spec_directory_lines(dirs.subrange(0, i as int)),
            decreases self.directories@.len() - i,
        {
            let ghost before = lines@;
            let path: String = self.directories[i].0.clone();
            lines.push(Listed::Dir(path));
            let mut below: Vec<Listed> = self.directories[i].1.print_entries();
            let ghost inner = below@;
            lines.append(&mut below);
            proof {
                let grown = dirs.subrange(0, i + 1);
                assert(grown.drop_last() =~= dirs.subrange(0, i as int));
                assert(grown.last() == dirs[i as int]);
                assert(spec_lines(lines@) =~= spec_lines(before) + seq![
                    ListedModel::Dir(dirs[i as int].0),
                ] + spec_lines(inner));
            }
            i = i + 1;
        }
        let ghost head = spec_lines(lines@);
        let ghost entries = spec_entry_pairs(self.entries@);
        proof {
            assert(dirs.subrange(0, dirs.len() as int) =~= dirs);
            lemma_filter_map_empty(
                |p: (Seq<char>, EntryModel)| p.1.typ == 2,
                |p: (Seq<char>, EntryModel)| ListedModel::File(p.0),
            );
            assert(entries.subrange(0, 0) =~= Seq::<(Seq<char>, EntryModel)>::empty());
            assert(head + spec_file_lines(entries.subrange(0, 0)) =~= head);
        }
        let mut k: usize = 0;
        while k < self.entries.len()
            invariant
                k <= self.entries@.len(),
                entries == spec_entry_pairs(self.entries@),
                spec_lines(lines@) == head + spec_file_lines(entries.subrange(0, k as int)),
            decreases self.entries@.len() - k,
        {
            proof {
                let done = entries.subrange(0, k as int);
                assert(entries.subrange(0, k + 1) =~= done.push(entries[k as int]));
                lemma_filter_map_push(
                    done,
                    entries[k as int],
                    |p: (Seq<char>, EntryModel)| p.1.typ == 2,
                    |p: (Seq<char>, EntryModel)| ListedModel::File(p.0),
                );
            }
            if self.entries[k].1.is_file() {
                let ghost before = lines@;
                let path: String = self.entries[k].0.clone();
                lines.push(Listed::File(path));
                proof {
                    let done = spec_file_lines(entries.subrange(0, k as int));
                    let line = ListedModel::File(entries[k as int].0);
                    assert(spec_lines(lines@) =~= spec_lines(before).push(line));
                    assert((head + done).push(line) =~= head + done.push(line));
                }
            }
            k = k + 1;
        }
        assert(entries.subrange(0, entries.len() as int) =~= entries);
        lines
    }

    /// Plans the extraction of the directory to `location`: the location is
    /// created, every file is written into it under its name, and every
    /// sub-directory is extracted to the location joined with its key.
    ///
    /// A file's bytes are taken from the archive as they stand. Where the
    /// archive ends before the file does, the bytes that are missing are
    /// zero, and the step says that the file is not complete.
    pub fn extract(&self, location: &str, image: &[u8]) -> (steps: Vec<ExtractStep>)
        ensures
            spec_steps(steps@) == spec_extract(image@, location@, self@),
        decreases self,
    {
        let mut steps: Vec<ExtractStep> = Vec::new();
        steps.push(ExtractStep::CreateDir(location.to_owned()));
        let ghost head = spec_steps(steps@);
        let ghost entries = spec_entry_pairs(self.entries@);
        proof {
            assert(head =~= seq![ExtractStepModel::CreateDir(location@)]);
            lemma_filter_map_empty(
                |p: (Seq<char>, EntryModel)| p.1.typ == 2,
                |p: (Seq<char>, EntryModel)| spec_write_step(image@, location@, p.1),
            );
            assert(entries.subrange(0, 0) =~= Seq::<(Seq<char>, EntryModel)>::empty());
            assert(head + spec_file_steps(image@, location@, entries.subrange(0, 0)) =~= head);
        }
        let mut k: usize = 0;
        while k < self.entries.len()
            invariant
                k <= self.entries@.len(),
                entries == spec_entry_pairs(self.entries@),
                spec_steps(steps@) == head + spec_file_steps(
                    image@,
                    location@,
                    entries.subrange(0, k as int),
                ),
            decreases self.entries@.len() - k,
        {
            proof {
                let done = entries.subrange(0, k as int);
                assert(entries.subrange(0, k + 1) =~= done.push(entries[k as int]));
                lemma_filter_map_push(
                    done,
                    entries[k as int],
                    |p: (Seq<char>, EntryModel)| p.1.typ == 2,
                    |p: (Seq<char>, EntryModel)| spec_write_step(image@, location@, p.1),
                );
            }
            let entry: Entry = self.entries[k].1;
            if entry.is_file() {
                let ghost before = steps@;
                let name: String = entry.path_buf();
                let path: String = join_path(location, name.as_str());
                let payload = read_payload(image, entry.position, entry.size);
                steps.push(ExtractStep::WriteFile { path, data: payload.0, complete: payload.1 });
                proof {
                    let done = spec_file_steps(image@, location@, entries.subrange(0, k as int));
                    let step = spec_write_step(image@, location@, entry@);
                    assert(spec_steps(steps@) =~= spec_steps(before).push(step));
                    assert((head + done).push(step) =~= head + done.push(step));
                }
            }
            k = k + 1;
        }
        let ghost files = spec_steps(steps@);
        let ghost dirs = spec_child_pairs(self.directories@);
        proof {
            self.lemma_model_children();
            assert(entries.subrange(0, entries.len() as int) =~= entries);
            assert(dirs.subrange(0, 0) =~= Seq::<(Seq<char>, DirectoryModel)>::empty());
            assert(files + spec_extract_each(image@, location@, dirs.subrange(0, 0)) =~= files);
        }
        let mut i: usize = 0;
        while i < self.directories.len()
            invariant
                i <= self.directories@.len(),
                dirs == spec_child_pairs(self.directories@),
                spec_steps(steps@) == files + spec_extract_each(
                    image@,
                    location@,
                    dirs.subrange(0, i as int),
                ),
            decreases self.directories@.len() - i,
        {
            let ghost before = steps@;
            let target: String = join_path(location, self.directories[i].0.as_str());
            let mut below: Vec<ExtractStep> = self.directories[i].1.extract(target.as_str(), image);
            let ghost inner = below@;
            steps.append(&mut below);
            proof {
                let grown = dirs.subrange(0, i + 1);
                assert(grown.drop_last() =~= dirs.subrange(0, i as int));
                assert(grown.last() == dirs[i as int]);
                assert(spec_steps(steps@) =~= spec_steps(before) + spec_steps(inner));
                assert(files + (spec_extract_each(image@, location@, dirs.subrange(0, i as int))
                    + spec_steps(inner)) =~= (files + spec_extract_each(
                    image@,
                    location@,
                    dirs.subrange(0, i as int),
                )) + spec_steps(inner));
            }
            i = i + 1;
        }
        assert(dirs.subrange(0, dirs.len() as int) =~= dirs);
        steps
    }
}

/// What a directory lists of a chain: every listed pair holds an entry of the
/// chain that is no empty slot and whose name starts with no dot, under the
/// directory's path joined with the entry's decoded name.
pub proof fn lemma_listed_pairs(path: Seq<char>, chain: Seq<EntryModel>)
    ensures
        forall|i: int|
            0 <= i < spec_listed_pairs(path, chain).len() ==> ({
                let pair = #[trigger] spec_listed_pairs(path, chain)[i];
                &&& chain.contains(pair.1)
                &&& pair.1.typ != 0
                &&& pair.1.name[0] != 0x2E
                &&& pair.0 == spec_join_path(path, spec_path_of(pair.1.name))
            }),
{
    let keep = |e: EntryModel| spec_listed(e);
    let kept = chain.filter(keep);
    assert forall|i: int| 0 <= i < spec_listed_pairs(path, chain).len() implies ({
        let pair = #[trigger] spec_listed_pairs(path, chain)[i];
        &&& chain.contains(pair.1)
        &&& pair.1.typ != 0
        &&& pair.1.name[0] != 0x2E
        &&& pair.0 == spec_join_path(path, spec_path_of(pair.1.name))
    }) by {
        chain.lemma_filter_pred(keep, i);
        assert(kept.contains(kept[i]));
        chain.lemma_filter_contains_rev(keep, kept[i]);
    }
}

/// The expansion of each of a run of sub-directory entries: as many
/// directories as entries, each under its entry's key, each the expansion of
/// the fresh directory of its entry.
pub proof fn lemma_expand_each_items(
    image: Seq<u8>,
    dirs: Seq<(Seq<char>, EntryModel)>,
    ancestors: Seq<u64>,
)
    requires
        spec_seen_ok(image, ancestors),
        spec_expand_each(image, dirs, ancestors) is Ok,
    ensures
        spec_expand_each(image, dirs, ancestors)->Ok_0.len() == dirs.len(),
        forall|i: int|
            0 <= i < dirs.len() ==> ({
                let child = #[trigger] spec_expand_each(image, dirs, ancestors)->Ok_0[i];
                &&& child.0 == dirs[i].0
                &&& spec_expand(image, spec_fresh(dirs[i].1), ancestors) == Ok::<
                    DirectoryModel,
                    Error,
                >(child.1)
            }),
    decreases dirs.len(),
{
    if dirs.len() > 0 {
        let head = dirs.drop_last();
        lemma_expand_each_items(image, head, ancestors);
        let all = spec_expand_each(image, dirs, ancestors)->Ok_0;
        let done = spec_expand_each(image, head, ancestors)->Ok_0;
        assert forall|i: int| 0 <= i < dirs.len() implies ({
            let child = #[trigger] all[i];
            &&& child.0 == dirs[i].0
            &&& spec_expand(image, spec_fresh(dirs[i].1), ancestors) == Ok::<
                DirectoryModel,
                Error,
            >(child.1)
        }) by {
            if i < head.len() {
                assert(all[i] == done[i]);
                assert(head[i] == dirs[i]);
            }
        }
    }
}

/// Expansion keeps the lists of a directory mappings: a directory whose
/// lists, and those of the directories below it, hold no key twice is such a
/// directory after expansion.
pub proof fn lemma_expand_wf(image: Seq<u8>, dir: DirectoryModel, ancestors: Seq<u64>)
    requires
        spec_seen_ok(image, ancestors),
        spec_directory_wf(dir),
        spec_expand(image, dir, ancestors) is Ok,
    ensures
        spec_directory_wf(spec_expand(image, dir, ancestors)->Ok_0),
    decreases image.len() - ancestors.len(), 0nat,
{
    let chain = spec_read_block(image, dir.entry.position)->Ok_0;
    let subdirs = spec_put_all(Seq::empty(), spec_directory_pairs(chain));
    let below = ancestors.push(dir.entry.position);
    lemma_read_block_fits(image, dir.entry.position);
    lemma_seen_push(image, ancestors, dir.entry.position);
    let children = spec_expand_each(image, subdirs, below)->Ok_0;
    let after = spec_expand(image, dir, ancestors)->Ok_0;
    lemma_expand_each_wf(image, subdirs, below);
    lemma_put_all_distinct(
        dir.entries,
        spec_listed_pairs(spec_path_of(dir.entry.name), chain),
    );
    lemma_put_all_distinct(dir.directories, children);
    lemma_put_all_keeps(
        dir.directories,
        children,
        |p: (Seq<char>, DirectoryModel)| spec_directory_wf(p.1),
    );
    assert forall|i: int| 0 <= i < after.directories.len() implies spec_directory_wf(
        (#[trigger] after.directories[i]).1,
    ) by {}
}

/// Every directory that the expansion of a run of sub-directory entries
/// gives has lists that stand for mappings.
pub proof fn lemma_expand_each_wf(
    image: Seq<u8>,
    dirs: Seq<(Seq<char>, EntryModel)>,
    ancestors: Seq<u64>,
)
    requires
        spec_seen_ok(image, ancestors),
        spec_expand_each(image, dirs, ancestors) is Ok,
    ensures
        forall|i: int|
            0 <= i < spec_expand_each(image, dirs, ancestors)->Ok_0.len() ==> spec_directory_wf(
                (#[trigger] spec_expand_each(image, dirs, ancestors)->Ok_0[i]).1,
            ),
    decreases image.len() - ancestors.len(), dirs.len() + 1,
{
    if dirs.len() > 0 {
        let head = dirs.drop_last();
        lemma_expand_each_wf(image, head, ancestors);
        lemma_expand_wf(image, spec_fresh(dirs.last().1), ancestors);
        let all = spec_expand_each(image, dirs, ancestors)->Ok_0;
        let done = spec_expand_each(image, head, ancestors)->Ok_0;
        assert forall|i: int| 0 <= i < all.len() implies spec_directory_wf(
            (#[trigger] all[i]).1,
        ) by {
            if i < done.len() {
                assert(all[i] == done[i]);
            }
        }
    }
}

/// What the index of a directory holds after a successful expansion of the
/// fresh directory of an entry.
///
/// The chain at the entry's position could be read. The entries of the
/// directory are listed entries of that chain, no key twice; every listed
/// entry's key is among them; and where the listed entries have keys that
/// all differ, the directory's entries are exactly the listed ones, in the
/// order of the archive. The sub-directories are the expansions of the
/// chain's sub-directory entries, each under its name.
pub proof fn lemma_expand_index(image: Seq<u8>, entry: EntryModel, ancestors: Seq<u64>)
    requires
        spec_seen_ok(image, ancestors),
        spec_expand(image, spec_fresh(entry), ancestors) is Ok,
    ensures
        spec_read_block(image, entry.position) is Ok,
        ({
            let dir = spec_expand(image, spec_fresh(entry), ancestors)->Ok_0;
            let chain = spec_read_block(image, entry.position)->Ok_0;
            let listed = spec_listed_pairs(spec_path_of(entry.name), chain);
            let subdirs = spec_put_all(Seq::empty(), spec_directory_pairs(chain));
            let below = ancestors.push(entry.position);
            &&& dir.entry == entry
            &&& spec_keys_distinct(dir.entries)
            &&& forall|i: int|
                0 <= i < dir.entries.len() ==> listed.contains(#[trigger] dir.entries[i])
            &&& forall|j: int|
                0 <= j < listed.len() ==> spec_get(dir.entries, (#[trigger] listed[j]).0) is Some
            &&& spec_keys_distinct(listed) ==> dir.entries == listed
            &&& spec_keys_distinct(dir.directories)
            &&& dir.directories.len() == subdirs.len()
            &&& forall|i: int|
                0 <= i < subdirs.len() ==> ({
                    let child = #[trigger] dir.directories[i];
                    &&& child.0 == subdirs[i].0
                    &&& spec_expand(image, spec_fresh(subdirs[i].1), below) == Ok::<
                        DirectoryModel,
                        Error,
                    >(child.1)
                })
        }),
{
    let chain = spec_read_block(image, entry.position)->Ok_0;
    let listed = spec_listed_pairs(spec_path_of(entry.name), chain);
    let subdirs = spec_put_all(Seq::empty(), spec_directory_pairs(chain));
    let below = ancestors.push(entry.position);
    let empty = Seq::<(Seq<char>, EntryModel)>::empty();
    lemma_read_block_fits(image, entry.position);
    lemma_seen_push(image, ancestors, entry.position);
    let children = spec_expand_each(image, subdirs, below)->Ok_0;
    lemma_put_all_distinct(empty, listed);
    lemma_put_all_keeps(empty, listed, |p: (Seq<char>, EntryModel)| listed.contains(p));
    lemma_put_all_has(empty, listed);
    if spec_keys_distinct(listed) {
        lemma_put_all_exact(listed);
    }
    lemma_put_all_distinct(empty, spec_directory_pairs(chain));
    lemma_expand_each_items(image, subdirs, below);
    assert forall|i: int, j: int|
        0 <= i < children.len() && 0 <= j < children.len() && i != j implies (
    #[trigger] children[i]).0 != (#[trigger] children[j]).0 by {
        assert(children[i].0 == subdirs[i].0);
        assert(children[j].0 == subdirs[j].0);
    }
    lemma_put_all_exact(children);
}

/// Once the expansion of a prefix of the sub-directories fails, the
/// expansion of all of them fails alike.
proof fn lemma_expand_each_fails(
    image: Seq<u8>,
    dirs: Seq<(Seq<char>, EntryModel)>,
    ancestors: Seq<u64>,
    n: int,
)
    requires
        spec_seen_ok(image, ancestors),
        0 <= n <= dirs.len(),
        spec_expand_each(image, dirs.subrange(0, n), ancestors) is Err,
    ensures
        spec_expand_each(image, dirs, ancestors) == spec_expand_each(
            image,
            dirs.subrange(0, n),
            ancestors,
        ),
    decreases dirs.len() - n,
{
    if n < dirs.len() {
        assert(dirs.subrange(0, n + 1).drop_last() =~= dirs.subrange(0, n));
        lemma_expand_each_fails(image, dirs, ancestors, n + 1);
    } else {
        assert(dirs.subrange(0, n) =~= dirs);
    }
}

} // verus!
