//! A whole archive: header, root directory and the bytes they were read from.

use vstd::prelude::*;
use vstd::slice::slice_subrange;

verus! {

use crate::pk2::block::{read_block, spec_models, spec_read_block, spec_seen_ok};
use crate::pk2::constants::{DOT, HEADER_SIZE};
use crate::pk2::directory::{
    lemma_expand_index,
    lemma_expand_wf,
    spec_directory_wf,
    spec_expand,
    spec_extract,
    spec_fresh,
    spec_listed_pairs,
    spec_steps,
    Directory,
    DirectoryModel,
    ExtractStep,
};
use crate::pk2::entry::{spec_path_of, Entry, EntryModel};
use crate::pk2::keyed::{spec_get, spec_keys_distinct};
use crate::pk2::errors::Error;
use crate::pk2::header::{spec_parse_header, spec_verify, Header, HeaderModel};

/// A structure to access an SRO PK2 archive.
pub struct Archive {
    pub image: Vec<u8>,
    pub header: Header,
    pub root: Directory,
}

/// An archive as a mathematical value.
pub ghost struct ArchiveModel {
    pub image: Seq<u8>,
    pub header: HeaderModel,
    pub root: DirectoryModel,
}

impl View for Archive {
    type V = ArchiveModel;

    open spec fn view(&self) -> ArchiveModel {
        ArchiveModel { image: self.image@, header: self.header@, root: self.root@ }
    }
}

/// Offset of the first block of the root directory: the block after the
/// header.
pub const ROOT_AT: u64 = 256;

/// Whether an entry is the root directory's link to itself: a directory
/// whose name starts with a dot.
pub open spec fn spec_is_root(e: EntryModel) -> bool {
    e.typ == 1 && e.name[0] == 0x2E
}

/// The first entry of a chain that is the root directory's link to itself.
pub open spec fn spec_find_root(chain: Seq<EntryModel>) -> Option<EntryModel>
    decreases chain.len(),
{
    if chain.len() == 0 {
        None
    } else if spec_is_root(chain[0]) {
        Some(chain[0])
    } else {
        spec_find_root(chain.drop_first())
    }
}

/// The entry of the root directory: the link to itself with the dot taken
/// out of its name, so that the root's path is empty.
pub open spec fn spec_root_entry(e: EntryModel) -> EntryModel {
    EntryModel { name: e.name.update(0, 0u8), ..e }
}

/// The root directory of an archive with all that is below it. The chain
/// after the header is read for the root's link to itself, and the directory
/// of that entry is expanded.
pub open spec fn spec_index(image: Seq<u8>) -> Result<DirectoryModel, Error> {
    match spec_read_block(image, 256) {
        Err(e) => Err(e),
        Ok(chain) => match spec_find_root(chain) {
            None => Err(Error::InvalidBlock("root directory not found")),
            Some(e) => spec_expand(image, spec_fresh(spec_root_entry(e)), Seq::empty()),
        },
    }
}

/// The archive that a sequence of bytes holds: the header is parsed from the
/// first 256 bytes and verified, then the tree is indexed. The first failure
/// is the result.
pub open spec fn spec_open(image: Seq<u8>) -> Result<ArchiveModel, Error> {
    if image.len() < 256 {
        Err(Error::InvalidHeader("Header length too short"))
    } else {
        let header = spec_parse_header(image.subrange(0, 256));
        match spec_verify(header) {
            Err(e) => Err(e),
            Ok(_) => match spec_index(image) {
                Err(e) => Err(e),
                Ok(root) => Ok(ArchiveModel { image, header, root }),
            },
        }
    }
}

/// The root link that is found in a chain is an entry of the chain, and a
/// directory whose name starts with a dot.
pub proof fn lemma_find_root(chain: Seq<EntryModel>)
    requires
        spec_find_root(chain) is Some,
    ensures
        spec_is_root(spec_find_root(chain)->Some_0),
        chain.contains(spec_find_root(chain)->Some_0),
    decreases chain.len(),
{
    if chain.len() > 0 && !spec_is_root(chain[0]) {
        let rest = chain.drop_first();
        lemma_find_root(rest);
        let found = spec_find_root(rest)->Some_0;
        let i = choose|i: int| 0 <= i < rest.len() && rest[i] == found;
        assert(chain[i + 1] == found);
    } else if chain.len() > 0 {
        assert(chain[0] == spec_find_root(chain)->Some_0);
    }
}

/// What an archive that could be opened holds.
///
/// Its header is the one that the first 256 bytes spell, and it verifies.
/// Its root is the directory of the root link of the chain after the header,
/// with the dot taken out of the name. The root's entries are listed entries
/// of the root's chain, no key twice, under their decoded names; the key of
/// every listed entry is among them; and where the keys of the listed
/// entries all differ, the root's entries are exactly the listed entries, in
/// the order of the archive. The same holds of every directory below, by
/// what expansion gives.
pub proof fn lemma_open_root(image: Seq<u8>)
    requires
        spec_open(image) is Ok,
    ensures
        ({
            let archive = spec_open(image)->Ok_0;
            let link = spec_find_root(spec_read_block(image, 256)->Ok_0)->Some_0;
            let entry = spec_root_entry(link);
            let chain = spec_read_block(image, entry.position)->Ok_0;
            let listed = spec_listed_pairs(spec_path_of(entry.name), chain);
            &&& archive.image == image
            &&& archive.header == spec_parse_header(image.subrange(0, 256))
            &&& spec_verify(archive.header) is Ok
            &&& spec_is_root(link)
            &&& archive.root.entry == entry
            &&& spec_directory_wf(archive.root)
            &&& forall|i: int|
                0 <= i < archive.root.entries.len() ==> listed.contains(
                    #[trigger] archive.root.entries[i],
                )
            &&& forall|j: int|
                0 <= j < listed.len() ==> spec_get(
                    archive.root.entries,
                    (#[trigger] listed[j]).0,
                ) is Some
            &&& spec_keys_distinct(listed) ==> archive.root.entries == listed
        }),
{
    let first = spec_read_block(image, 256)->Ok_0;
    lemma_find_root(first);
    let entry = spec_root_entry(spec_find_root(first)->Some_0);
    let none = Seq::<u64>::empty();
    assert(spec_seen_ok(image, none));
    lemma_expand_index(image, entry, none);
    lemma_expand_wf(image, spec_fresh(entry), none);
}

/// The first root link among the entries of a chain.
fn find_root(chain: &Vec<Entry>) -> (r: Option<Entry>)
    ensures
        r is Some <==> spec_find_root(spec_models(chain@)) is Some,
        r matches Some(e) ==> spec_is_root(e@) && e@ == spec_find_root(
            spec_models(chain@),
        )->Some_0,
{
    let ghost all = spec_models(chain@);
    let mut i: usize = 0;
    assert(all.skip(0) =~= all);
    while i < chain.len()
        invariant
            i <= chain@.len(),
            all == spec_models(chain@),
            spec_find_root(all) == spec_find_root(all.skip(i as int)),
        decreases chain@.len() - i,
    {
        let entry: Entry = chain[i];
        proof {
            assert(all.skip(i as int)[0] == entry@);
            assert(all.skip(i as int).drop_first() =~= all.skip(i + 1));
        }
        if entry.is_dir() && entry.name[0] == DOT {
            return Some(entry);
        }
        i = i + 1;
    }
    None
}

impl Archive {
    /// Opens the PK2 archive held by `image` and creates an accessible
    /// instance.
    pub fn open(image: Vec<u8>) -> (r: Result<Archive, Error>)
        ensures
            match spec_open(image@) {
                Ok(archive) => r is Ok && r->Ok_0@ == archive,
                Err(e) => r is Err && r->Err_0 == e,
            },
            r is Ok ==> spec_directory_wf(r->Ok_0@.root),
    {
        if image.len() < HEADER_SIZE {
            return Err(Error::InvalidHeader("Header length too short"));
        }
        let header: Header = Header::from(slice_subrange(image.as_slice(), 0, HEADER_SIZE));
        match header.verify() {
            Err(e) => {
                return Err(e);
            },
            Ok(_) => {},
        }
        match Archive::index(image.as_slice()) {
            Err(e) => Err(e),
            Ok(root) => Ok(Archive { image, header, root }),
        }
    }

    /// Indexes all archive entries recursively
    pub fn index(image: &[u8]) -> (r: Result<Directory, Error>)
        ensures
            match spec_index(image@) {
                Ok(root) => r is Ok && r->Ok_0@ == root,
                Err(e) => r is Err && r->Err_0 == e,
            },
            r is Ok ==> spec_directory_wf(r->Ok_0@),
    {
        let chain: Vec<Entry> = match read_block(image, ROOT_AT) {
            Err(e) => {
                return Err(e);
            },
            Ok(chain) => chain,
        };
        let mut root_entry: Entry = match find_root(&chain) {
            None => {
                return Err(Error::InvalidBlock("root directory not found"));
            },
            Some(entry) => entry,
        };
        let ghost found = root_entry@;
        let mut name: [u8; 81] = root_entry.name;
        name[0] = 0;
        root_entry.name = name;
        assert(root_entry@ == spec_root_entry(found));
        let mut root: Directory = Directory::from(root_entry);
        match root.expand(image) {
            Err(e) => Err(e),
            Ok(_) => Ok(root),
        }
    }

    /// The root directory.
    pub fn root(&self) -> (root: &Directory)
        ensures
            *root == self.root,
    {
        &self.root
    }

    /// Plans the extraction of the whole archive to `target`.
    pub fn extract_all(&self, target: &str) -> (steps: Vec<ExtractStep>)
        ensures
            spec_steps(steps@) == spec_extract(self@.image, target@, self@.root),
    {
        self.root.extract(target, self.image.as_slice())
    }
}

} // verus!
