//! The file tree of a version 2 torrent.
//!
//! A tree maps names to entries; an entry is a file or a tree of its own. The
//! names of one level are kept in ascending order of their bytes, and no name
//! stands twice. A walk through the tree hands out its files depth first: the
//! entries of a level in the order of their names, and everything below a
//! directory before the entry that follows the directory.

use crate::crypto::digest::Sha256;
use crate::files::fileattributes::TorrentFileAttributes;
use crate::text::bytes_eq;
use crate::text::bytes_lt;
use crate::text::spec_bytes_lt;
use vstd::prelude::*;
use vstd::string::StringSliceAdditionalSpecFns;
use vstd::utf8::encode_utf8;

verus! {

/// The length of a file in bytes, which is never zero, and which a Bencoded
/// integer of 64 bits can hold.
#[derive(Debug, Clone, Copy, PartialEq, Eq)]
pub struct FileLength {
    value: u64,
}

impl View for FileLength {
    type V = u64;

    closed spec fn view(&self) -> u64 {
        self.value
    }
}

impl FileLength {
    #[verifier::type_invariant]
    spec fn wf(&self) -> bool {
        0 < self.value <= i64::MAX
    }

    /// The length `value`, unless it is zero or above `i64::MAX`.
    pub fn new(value: u64) -> (r: Option<Self>)
        ensures
            !(0 < value <= i64::MAX) ==> r is None,
            0 < value <= i64::MAX ==> (r matches Some(length) && length@ == value),
    {
        if value == 0 || value > 0x7fff_ffff_ffff_ffff {
            None
        } else {
            Some(FileLength { value })
        }
    }

    /// The length in bytes.
    pub fn get(&self) -> (r: u64)
        ensures
            r == self@,
            0 < r <= i64::MAX,
    {
        proof {
            use_type_invariant(self);
        }
        self.value
    }
}

/// What a tree holds of one file.
#[derive(Debug)]
pub struct FileTreeInfo {
    pub attr: Option<TorrentFileAttributes>,
    pub length: FileLength,
    pub pieces_root: Option<Sha256>,
}

/// An entry of a tree: a file, or the tree of a directory.
#[derive(Debug)]
pub enum FileTreeEntry {
    File(FileTreeInfo),
    Directory(FileTree),
}

/// A level of the file tree: names and what they stand for.
#[derive(Debug)]
pub struct FileTree {
    node: Vec<(String, FileTreeEntry)>,
}

/// What to do with a name that a level of the tree holds already.
#[derive(Debug, Clone, Copy, PartialEq, Eq, Structural)]
pub enum DuplicatePolicy {
    /// Refuse the entry.
    Reject,
    /// Keep the entry under the name with `_dup` added, as often as needed
    /// for a name that the level does not hold.
    Rename,
}

/// The bytes of a name.
pub open spec fn spec_name_bytes(name: Seq<char>) -> Seq<u8> {
    encode_utf8(name)
}

/// Whether `names` are in ascending order of their bytes, none twice.
pub open spec fn spec_names_ascending(entries: Seq<(String, FileTreeEntry)>) -> bool {
    forall|i: int, j: int|
        0 <= i < j < entries.len() ==> spec_bytes_lt(
            spec_name_bytes(#[trigger] entries[i].0@),
            spec_name_bytes(#[trigger] entries[j].0@),
        )
}

impl FileTree {
    #[verifier::type_invariant]
    spec fn wf(&self) -> bool {
        spec_names_ascending(self.node@)
    }

    /// The entries of this level, in the order of their names.
    pub closed spec fn entries(&self) -> Seq<(String, FileTreeEntry)> {
        self.node@
    }

    /// The entries of a level are smaller than the level, as a recursion
    /// over a tree needs it.
    pub proof fn lemma_entries_decrease(self)
        ensures
            decreases_to!(self => self.entries()),
    {
        broadcast use vstd::std_specs::vec::axiom_vec_decreases_to_view;

    }

    /// A tree without entries.
    pub fn new() -> (r: Self)
        ensures
            r.entries().len() == 0,
    {
        FileTree { node: Vec::new() }
    }

    /// The number of entries of this level.
    pub fn len(&self) -> (r: usize)
        ensures
            r == self.entries().len(),
    {
        self.node.len()
    }

    /// Whether this level has no entry.
    pub fn is_empty(&self) -> (r: bool)
        ensures
            r == (self.entries().len() == 0),
    {
        self.node.len() == 0
    }

    /// The name of the entry at `index`.
    pub fn name(&self, index: usize) -> (r: &str)
        requires
            index < self.entries().len(),
        ensures
            r@ == self.entries()[index as int].0@,
    {
        self.node[index].0.as_str()
    }

    /// The entry at `index`.
    pub fn entry(&self, index: usize) -> (r: &FileTreeEntry)
        requires
            index < self.entries().len(),
        ensures
            *r == self.entries()[index as int].1,
    {
        &self.node[index].1
    }

    /// The names of a level are in ascending order, none twice.
    pub fn names_ascending(&self)
        ensures
            spec_names_ascending(self.entries()),
    {
        proof {
            use_type_invariant(self);
        }
    }

    /// The place of `name` on this level: where it stands, or where it would
    /// have to be put.
    pub fn position(&self, name: &str) -> (r: (usize, bool))
        ensures
            r.0 <= self.entries().len(),
            r.1 ==> r.0 < self.entries().len() && self.entries()[r.0 as int].0@ == name@,
            !r.1 ==> forall|i: int|
                0 <= i < self.entries().len() ==> (#[trigger] self.entries()[i]).0@ != name@,
            forall|i: int|
                0 <= i < r.0 ==> spec_bytes_lt(
                    spec_name_bytes((#[trigger] self.entries()[i]).0@),
                    spec_name_bytes(name@),
                ),
            forall|i: int|
                r.0 <= i < self.entries().len() && !(r.1 && i == r.0) ==> spec_bytes_lt(
                    spec_name_bytes(name@),
                    spec_name_bytes((#[trigger] self.entries()[i]).0@),
                ),
    {
        proof {
            use_type_invariant(self);
        }
        let wanted = name.as_bytes();
        let mut i: usize = 0;
        while i < self.node.len()
            invariant
                i <= self.node@.len(),
                wanted@ == spec_name_bytes(name@),
                spec_names_ascending(self.node@),
                forall|k: int|
                    0 <= k < i ==> spec_bytes_lt(
                        spec_name_bytes((#[trigger] self.node@[k]).0@),
                        spec_name_bytes(name@),
                    ),
            decreases self.node@.len() - i,
        {
            let here = self.node[i].0.as_str().as_bytes();
            if bytes_eq(here, wanted) {
                proof {
                    vstd::utf8::encode_utf8_decode_utf8(name@);
                    vstd::utf8::encode_utf8_decode_utf8(self.node@[i as int].0@);
                    assert forall|k: int| 0 <= k < self.node@.len() && k != i implies (
                    #[trigger] self.node@[k]).0@ != name@ by {
                        if k < i {
                            crate::text::lemma_bytes_lt_irreflexive(wanted@);
                        } else {
                            assert(spec_bytes_lt(
                                spec_name_bytes(self.node@[i as int].0@),
                                spec_name_bytes(self.node@[k].0@),
                            ));
                            crate::text::lemma_bytes_lt_irreflexive(wanted@);
                        }
                    }
                }
                return (i, true);
            }
            if !bytes_lt(here, wanted) {
                proof {
                    crate::text::lemma_bytes_lt_total(here@, wanted@);
                    assert forall|k: int| i <= k < self.node@.len() implies spec_bytes_lt(
                        spec_name_bytes(name@),
                        spec_name_bytes((#[trigger] self.node@[k]).0@),
                    ) by {
                        if k > i {
                            crate::text::lemma_bytes_lt_transitive(
                                wanted@,
                                here@,
                                spec_name_bytes(self.node@[k].0@),
                            );
                        }
                    }
                    assert forall|k: int| 0 <= k < self.node@.len() implies (
                    #[trigger] self.node@[k]).0@ != name@ by {
                        crate::text::lemma_bytes_lt_irreflexive(wanted@);
                    }
                }
                return (i, false);
            }
            i += 1;
        }
        proof {
            assert forall|k: int| 0 <= k < self.node@.len() implies (#[trigger] self.node@[k]).0@
                != name@ by {
                crate::text::lemma_bytes_lt_irreflexive(wanted@);
            }
        }
        (i, false)
    }
}

/// The names of a level, in their order.
pub open spec fn spec_names(entries: Seq<(String, FileTreeEntry)>) -> Seq<Seq<char>> {
    Seq::new(entries.len(), |i: int| entries[i].0@)
}

/// Whether a level with the names `names` holds `name`.
pub open spec fn spec_holds(names: Seq<Seq<char>>, name: Seq<char>) -> bool {
    names.contains(name)
}

/// The name under which `Rename` keeps an entry: `name` where the level does
/// not hold it, else `name` with `_dup` added as often as needed, up to
/// `tries` times.
pub open spec fn spec_free_name(names: Seq<Seq<char>>, name: Seq<char>, tries: nat) -> Option<
    Seq<char>,
>
    decreases tries,
{
    if !spec_holds(names, name) {
        Some(name)
    } else if tries == 0 {
        None
    } else {
        spec_free_name(names, name + "_dup"@, (tries - 1) as nat)
    }
}

/// Where an entry of the name `name` stands on a level that holds it not
/// yet: behind the names that come before it.
pub open spec fn spec_place(names: Seq<Seq<char>>, name: Seq<char>) -> int
    decreases names.len(),
{
    if names.len() == 0 {
        0
    } else if spec_bytes_lt(spec_name_bytes(names.last()), spec_name_bytes(name)) {
        names.len() as int
    } else {
        spec_place(names.drop_last(), name)
    }
}

/// The name under which a policy keeps an entry, if it keeps it.
pub open spec fn spec_kept_name(names: Seq<Seq<char>>, name: Seq<char>, policy: DuplicatePolicy) -> Option<
    Seq<char>,
> {
    match policy {
        DuplicatePolicy::Reject => if spec_holds(names, name) {
            None
        } else {
            Some(name)
        },
        DuplicatePolicy::Rename => spec_free_name(names, name, names.len()),
    }
}

/// On a level the place of a name is behind all names before it, where no
/// name from there on comes before it.
pub proof fn lemma_place(names: Seq<Seq<char>>, name: Seq<char>, p: int)
    requires
        0 <= p <= names.len(),
        forall|i: int|
            0 <= i < p ==> spec_bytes_lt(spec_name_bytes(#[trigger] names[i]), spec_name_bytes(name)),
        forall|i: int|
            p <= i < names.len() ==> !spec_bytes_lt(
                spec_name_bytes(#[trigger] names[i]),
                spec_name_bytes(name),
            ),
    ensures
        spec_place(names, name) == p,
    decreases names.len(),
{
    if names.len() > 0 {
        if p == names.len() {
            assert(spec_bytes_lt(spec_name_bytes(names[names.len() - 1]), spec_name_bytes(name)));
        } else {
            let front = names.drop_last();
            assert(!spec_bytes_lt(spec_name_bytes(names[names.len() - 1]), spec_name_bytes(name)));
            assert forall|i: int| 0 <= i < p implies spec_bytes_lt(
                spec_name_bytes(#[trigger] front[i]),
                spec_name_bytes(name),
            ) by {
                assert(front[i] == names[i]);
            }
            assert forall|i: int| p <= i < front.len() implies !spec_bytes_lt(
                spec_name_bytes(#[trigger] front[i]),
                spec_name_bytes(name),
            ) by {
                assert(front[i] == names[i]);
            }
            lemma_place(front, name, p);
        }
    }
}

/// What a tree holds of one file, as contracts see it.
pub struct FileInfoModel {
    /// The letters of the attributes, in ascending order.
    pub attr: Option<Seq<u8>>,
    pub length: u64,
    /// The bytes of the piece root.
    pub pieces_root: Option<Seq<u8>>,
}

/// An entry of a tree as contracts see it.
pub enum EntryModel {
    File(FileInfoModel),
    Directory(Seq<(Seq<char>, EntryModel)>),
}

impl FileTreeInfo {
    /// What contracts see of a file.
    pub open spec fn model(&self) -> FileInfoModel {
        FileInfoModel {
            attr: match self.attr {
                Some(a) => Some(a.spec_letters()),
                None => None,
            },
            length: self.length@,
            pieces_root: match self.pieces_root {
                Some(d) => Some(d@),
                None => None,
            },
        }
    }
}

/// What contracts see of an entry.
pub open spec fn spec_entry_model(entry: FileTreeEntry) -> EntryModel
    decreases entry,
{
    match entry {
        FileTreeEntry::File(info) => EntryModel::File(info.model()),
        FileTreeEntry::Directory(tree) => {
            proof {
                tree.lemma_entries_decrease();
            }
            EntryModel::Directory(spec_level_model(tree.entries()))
        },
    }
}

/// What contracts see of a level: each name with what it stands for.
pub open spec fn spec_level_model(entries: Seq<(String, FileTreeEntry)>) -> Seq<
    (Seq<char>, EntryModel),
>
    decreases entries,
{
    Seq::new(
        entries.len(),
        |i: int|
            if 0 <= i < entries.len() {
                (entries[i].0@, spec_entry_model(entries[i].1))
            } else {
                (Seq::empty(), EntryModel::Directory(Seq::empty()))
            },
    )
}

/// The names of a level as contracts see it.
pub open spec fn spec_model_names(level: Seq<(Seq<char>, EntryModel)>) -> Seq<Seq<char>> {
    Seq::new(level.len(), |i: int| level[i].0)
}

/// A level with an entry put on it as `FileTree::insert` does it: at the
/// place that the order of the names gives it, under the name that the
/// policy keeps it under; `None` where the policy refuses it.
pub open spec fn spec_model_insert(
    level: Seq<(Seq<char>, EntryModel)>,
    name: Seq<char>,
    entry: EntryModel,
    policy: DuplicatePolicy,
) -> Option<Seq<(Seq<char>, EntryModel)>> {
    match spec_kept_name(spec_model_names(level), name, policy) {
        None => None,
        Some(kept) => Some(level.insert(spec_place(spec_model_names(level), kept), (kept, entry))),
    }
}

impl FileTree {
    /// Whether this level holds `name`.
    pub fn contains_key(&self, name: &str) -> (r: bool)
        ensures
            r == spec_holds(spec_names(self.entries()), name@),
    {
        let found = self.position(name);
        proof {
            lemma_holds(self.entries(), name@);
        }
        found.1
    }

    /// The entry of the name `name`.
    pub fn get(&self, name: &str) -> (r: Option<&FileTreeEntry>)
        ensures
            r is Some <==> spec_holds(spec_names(self.entries()), name@),
            r matches Some(entry) ==> exists|i: int|
                0 <= i < self.entries().len() && (#[trigger] self.entries()[i]).0@ == name@
                    && self.entries()[i].1 == *entry,
    {
        let found = self.position(name);
        proof {
            lemma_holds(self.entries(), name@);
        }
        if found.1 {
            Some(&self.node[found.0].1)
        } else {
            None
        }
    }

    /// What contracts see of this level.
    pub open spec fn model(&self) -> Seq<(Seq<char>, EntryModel)> {
        spec_level_model(self.entries())
    }

    /// Put an entry on this level, at the place that the order of the names
    /// gives it. Where the level holds the name already, the policy decides:
    /// the entry is refused and the level stays as it is, or the entry is
    /// kept under another name.
    pub fn insert(&mut self, name: String, entry: FileTreeEntry, policy: DuplicatePolicy) -> (r:
        bool)
        ensures
            match spec_model_insert(old(self).model(), name@, spec_entry_model(entry), policy) {
                None => !r && final(self).entries() == old(self).entries(),
                Some(level) => r && final(self).model() == level,
            },
    {
        proof {
            use_type_invariant(&*self);
        }
        let ghost names = spec_names(self.node@);
        let ghost asked = name@;
        let ghost entry_model = spec_entry_model(entry);
        proof {
            assert(spec_model_names(self.model()) =~= names);
        }
        let mut name = name;
        let mut found = self.position(name.as_str());
        let mut tries: usize = self.node.len();
        proof {
            lemma_holds(self.node@, name@);
        }
        match policy {
            DuplicatePolicy::Reject => {
                if found.1 {
                    return false;
                }
            },
            DuplicatePolicy::Rename => {
                while found.1 && tries > 0
                    invariant
                        self.node@ == old(self).node@,
                        names == spec_names(self.node@),
                        spec_names_ascending(self.node@),
                        tries <= self.node@.len(),
                        spec_free_name(names, asked, names.len()) == spec_free_name(
                            names,
                            name@,
                            tries as nat,
                        ),
                        found.1 == spec_holds(names, name@),
                        found.0 <= self.node@.len(),
                        forall|i: int|
                            0 <= i < found.0 ==> spec_bytes_lt(
                                spec_name_bytes((#[trigger] self.node@[i]).0@),
                                spec_name_bytes(name@),
                            ),
                        forall|i: int|
                            found.0 <= i < self.node@.len() && !(found.1 && i == found.0)
                                ==> spec_bytes_lt(
                                spec_name_bytes(name@),
                                spec_name_bytes((#[trigger] self.node@[i]).0@),
                            ),
                    decreases tries,
                {
                    name.append("_dup");
                    tries -= 1;
                    found = self.position(name.as_str());
                    proof {
                        lemma_holds(self.node@, name@);
                    }
                }
                if found.1 {
                    return false;
                }
            },
        }
        let place: usize = found.0;
        proof {
            assert forall|i: int| 0 <= i < place implies spec_bytes_lt(
                spec_name_bytes(#[trigger] names[i]),
                spec_name_bytes(name@),
            ) by {
                assert(names[i] == self.node@[i].0@);
            }
            assert forall|i: int| place <= i < names.len() implies !spec_bytes_lt(
                spec_name_bytes(#[trigger] names[i]),
                spec_name_bytes(name@),
            ) by {
                assert(names[i] == self.node@[i].0@);
                crate::text::lemma_bytes_lt_total(spec_name_bytes(names[i]), spec_name_bytes(name@));
            }
            lemma_place(names, name@, place as int);
        }
        let ghost before = self.node@;
        let ghost kept = name@;
        let mut taken = FileTree::new();
        core::mem::swap(self, &mut taken);
        let mut node = taken.node;
        node.insert(place, (name, entry));
        proof {
            assert forall|i: int, j: int| 0 <= i < j < node@.len() implies spec_bytes_lt(
                spec_name_bytes(#[trigger] node@[i].0@),
                spec_name_bytes(#[trigger] node@[j].0@),
            ) by {
                if i < place && j > place {
                    assert(node@[i] == before[i] && node@[j] == before[j - 1]);
                } else if i < place && j < place {
                    assert(node@[i] == before[i] && node@[j] == before[j]);
                } else if i > place {
                    assert(node@[i] == before[i - 1] && node@[j] == before[j - 1]);
                } else if i == place {
                    assert(node@[j] == before[j - 1]);
                } else {
                    assert(node@[i] == before[i]);
                }
            }
            let level = spec_level_model(before);
            assert(spec_level_model(node@) =~= level.insert(place as int, (kept, entry_model))) by {
                assert forall|i: int| 0 <= i < node@.len() implies spec_level_model(node@)[i]
                    == level.insert(place as int, (kept, entry_model))[i] by {
                    if i < place {
                        assert(node@[i] == before[i]);
                    } else if i > place {
                        assert(node@[i] == before[i - 1]);
                    }
                }
            }
        }
        *self = FileTree { node };
        true
    }
}

/// A level holds a name exactly where one of its entries has that name.
pub proof fn lemma_holds(entries: Seq<(String, FileTreeEntry)>, name: Seq<char>)
    ensures
        spec_holds(spec_names(entries), name) <==> exists|i: int|
            0 <= i < entries.len() && (#[trigger] entries[i]).0@ == name,
{
    let names = spec_names(entries);
    if names.contains(name) {
        let i = choose|i: int| 0 <= i < names.len() && names[i] == name;
        assert(entries[i].0@ == name);
    }
    if exists|i: int| 0 <= i < entries.len() && (#[trigger] entries[i]).0@ == name {
        let i = choose|i: int| 0 <= i < entries.len() && (#[trigger] entries[i]).0@ == name;
        assert(names[i] == name);
    }
}

} // verus!
