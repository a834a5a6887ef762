//! The walk through a file tree, depth first.
//!
//! The walk keeps a stack of the levels that it is in, each with the path
//! that leads to it and the place that it has reached there. It never calls
//! itself: a tree of any depth is walked in constant stack space.

use crate::files::filetree::FileTree;
use crate::files::filetree::FileTreeEntry;
use crate::files::filetree::FileTreeInfo;
use vstd::prelude::*;

verus! {

/// One file of a tree as contracts see it: the names of the directories that
/// lead to it, its own name, and what the tree holds of it.
pub struct PathView {
    pub directory: Seq<Seq<char>>,
    pub name: Seq<char>,
    pub file_info: FileTreeInfo,
}

/// One file of a tree: the names of the directories that lead to it, its own
/// name, and what the tree holds of it.
#[derive(Debug)]
pub struct FileTreePathView<'iter> {
    pub directory: Vec<&'iter str>,
    pub name: &'iter str,
    pub file_info: &'iter FileTreeInfo,
}

/// The names that a path holds.
pub open spec fn spec_path(directory: Seq<&str>) -> Seq<Seq<char>> {
    Seq::new(directory.len(), |i: int| directory[i]@)
}

impl<'iter> View for FileTreePathView<'iter> {
    type V = PathView;

    open spec fn view(&self) -> PathView {
        PathView {
            directory: spec_path(self.directory@),
            name: self.name@,
            file_info: *self.file_info,
        }
    }
}

/// The path at which every walk begins.
pub open spec fn spec_root() -> Seq<Seq<char>> {
    seq!["./"@]
}

/// The files of the entries from `from` on, and of all that lies below them,
/// in the order of the walk: an entry that is a file gives that file; one
/// that is a directory gives all files below it, under the path with its
/// name added; and then come the entries behind it.
pub open spec fn spec_dfs(
    entries: Seq<(String, FileTreeEntry)>,
    from: int,
    prefix: Seq<Seq<char>>,
) -> Seq<PathView>
    decreases entries, entries.len() - from,
{
    if from < 0 || from >= entries.len() {
        Seq::empty()
    } else {
        let here = match entries[from].1 {
            FileTreeEntry::File(info) => seq![
                PathView { directory: prefix, name: entries[from].0@, file_info: info },
            ],
            FileTreeEntry::Directory(tree) => {
                proof {
                    tree.lemma_entries_decrease();
                }
                spec_dfs(tree.entries(), 0, prefix.push(entries[from].0@))
            },
        };
        here + spec_dfs(entries, from + 1, prefix)
    }
}

/// The number of steps that the walk still needs for the entries from `from`
/// on: one for each entry, and for a directory one more and those of its own
/// entries.
pub open spec fn spec_weight(entries: Seq<(String, FileTreeEntry)>, from: int) -> nat
    decreases entries, entries.len() - from,
{
    if from < 0 || from >= entries.len() {
        0
    } else {
        let here: nat = match entries[from].1 {
            FileTreeEntry::File(_) => 0,
            FileTreeEntry::Directory(tree) => {
                proof {
                    tree.lemma_entries_decrease();
                }
                1 + spec_weight(tree.entries(), 0)
            },
        };
        1 + here + spec_weight(entries, from + 1)
    }
}

/// A level that the walk is in: the path that leads to it, and the place
/// that the walk has reached there.
#[derive(Debug)]
pub struct Frame<'iter> {
    directory: Vec<&'iter str>,
    tree: &'iter FileTree,
    index: usize,
}

/// The files that the walk still hands out from one level and below it.
pub closed spec fn spec_frame_rest(frame: Frame) -> Seq<PathView> {
    spec_dfs(frame.tree.entries(), frame.index as int, spec_path(frame.directory@))
}

/// The files that the walk still hands out: those of the level on top of the
/// stack, then those of the levels below it.
pub closed spec fn spec_stack_rest(frames: Seq<Frame>) -> Seq<PathView>
    decreases frames.len(),
{
    if frames.len() == 0 {
        Seq::empty()
    } else {
        spec_frame_rest(frames.last()) + spec_stack_rest(frames.drop_last())
    }
}

/// The number of steps that the walk still needs.
pub closed spec fn spec_stack_weight(frames: Seq<Frame>) -> nat
    decreases frames.len(),
{
    if frames.len() == 0 {
        0
    } else {
        1 + spec_weight(frames.last().tree.entries(), frames.last().index as int)
            + spec_stack_weight(frames.drop_last())
    }
}

proof fn lemma_stack_push(frames: Seq<Frame>, frame: Frame)
    ensures
        spec_stack_rest(frames.push(frame)) == spec_frame_rest(frame) + spec_stack_rest(frames),
        spec_stack_weight(frames.push(frame)) == 1 + spec_weight(
            frame.tree.entries(),
            frame.index as int,
        ) + spec_stack_weight(frames),
{
    assert(frames.push(frame).drop_last() =~= frames);
    assert(frames.push(frame).last() == frame);
}

/// A copy of a path.
pub fn copy_path<'iter>(path: &Vec<&'iter str>) -> (r: Vec<&'iter str>)
    ensures
        r@ == path@,
{
    let mut copy: Vec<&'iter str> = Vec::new();
    let mut i: usize = 0;
    while i < path.len()
        invariant
            i <= path@.len(),
            copy@ == path@.take(i as int),
        decreases path@.len() - i,
    {
        copy.push(path[i]);
        assert(path@.take(i as int).push(path@[i as int]) =~= path@.take(i + 1));
        i += 1;
    }
    assert(path@.take(i as int) =~= path@);
    copy
}

/// A walk through a file tree, depth first. It borrows from the tree and
/// changes nothing in it; a new walk begins at the first file again.
#[derive(Debug)]
pub struct FileTreeDepthFirstIter<'iter> {
    iters: Vec<Frame<'iter>>,
}

impl<'iter> FileTreeDepthFirstIter<'iter> {
    /// The files that the walk has still to hand out, in their order.
    pub closed spec fn remaining(&self) -> Seq<PathView> {
        spec_stack_rest(self.iters@)
    }

    /// The walk through `tree` that begins at its first file, under the path
    /// `./`.
    pub fn new(tree: &'iter FileTree) -> (r: Self)
        ensures
            r.remaining() == spec_dfs(tree.entries(), 0, spec_root()),
    {
        let mut directory: Vec<&'iter str> = Vec::new();
        directory.push("./");
        let mut iters: Vec<Frame<'iter>> = Vec::new();
        let frame = Frame { directory, tree, index: 0 };
        proof {
            assert(spec_path(frame.directory@) =~= spec_root());
            lemma_stack_push(iters@, frame);
        }
        iters.push(frame);
        FileTreeDepthFirstIter { iters }
    }

    /// The next file of the walk, or `None` once all files were handed out,
    /// and then `None` again at every later call.
    pub fn next(&mut self) -> (r: Option<FileTreePathView<'iter>>)
        ensures
            old(self).remaining().len() == 0 ==> r is None && final(self).remaining().len() == 0,
            old(self).remaining().len() > 0 ==> r is Some && r.unwrap()@ == old(
                self,
            ).remaining()[0] && final(self).remaining() == old(self).remaining().drop_first(),
    {
        loop
            invariant
                spec_stack_rest(self.iters@) == old(self).remaining(),
            decreases spec_stack_weight(self.iters@),
        {
            let ghost before = self.iters@;
            let frame = match self.iters.pop() {
                None => {
                    return None;
                },
                Some(frame) => frame,
            };
            proof {
                assert(before =~= self.iters@.push(frame));
                lemma_stack_push(self.iters@, frame);
            }
            let ghost below = self.iters@;
            if frame.index < frame.tree.len() {
                let name: &'iter str = frame.tree.name(frame.index);
                let ghost entries = frame.tree.entries();
                let ghost prefix = spec_path(frame.directory@);
                match frame.tree.entry(frame.index) {
                    FileTreeEntry::File(info) => {
                        let directory = copy_path(&frame.directory);
                        let onward = Frame {
                            directory: frame.directory,
                            tree: frame.tree,
                            index: frame.index + 1,
                        };
                        proof {
                            lemma_stack_push(below, onward);
                            let view = PathView {
                                directory: prefix,
                                name: name@,
                                file_info: *info,
                            };
                            assert(spec_dfs(entries, frame.index as int, prefix) == seq![view]
                                + spec_dfs(entries, frame.index + 1, prefix));
                            assert(old(self).remaining() =~= seq![view] + (spec_frame_rest(onward)
                                + spec_stack_rest(below)));
                            assert((seq![view] + (spec_frame_rest(onward) + spec_stack_rest(
                                below,
                            ))).drop_first() =~= spec_frame_rest(onward) + spec_stack_rest(below));
                        }
                        self.iters.push(onward);
                        return Some(FileTreePathView { directory, name, file_info: info });
                    },
                    FileTreeEntry::Directory(tree) => {
                        let mut directory = copy_path(&frame.directory);
                        directory.push(name);
                        let onward = Frame {
                            directory: frame.directory,
                            tree: frame.tree,
                            index: frame.index + 1,
                        };
                        let inward = Frame { directory, tree, index: 0 };
                        proof {
                            lemma_stack_push(below, onward);
                            lemma_stack_push(below.push(onward), inward);
                            assert(spec_path(inward.directory@) =~= prefix.push(name@));
                            assert(spec_dfs(entries, frame.index as int, prefix) == spec_dfs(
                                tree.entries(),
                                0,
                                prefix.push(name@),
                            ) + spec_dfs(entries, frame.index + 1, prefix));
                            assert(spec_stack_rest(below.push(onward).push(inward)) =~= old(
                                self,
                            ).remaining());
                            assert(spec_weight(entries, frame.index as int) == 1 + (1 + spec_weight(
                                tree.entries(),
                                0,
                            )) + spec_weight(entries, frame.index + 1));
                        }
                        self.iters.push(onward);
                        self.iters.push(inward);
                    },
                }
            } else {
                proof {
                    assert(spec_frame_rest(frame) =~= Seq::<PathView>::empty());
                    assert(spec_stack_rest(below) =~= old(self).remaining());
                }
            }
        }
    }

    /// All files that the walk has still to hand out.
    pub fn collect(self) -> (r: Vec<FileTreePathView<'iter>>)
        ensures
            r@.len() == self.remaining().len(),
            forall|i: int| 0 <= i < r@.len() ==> (#[trigger] r@[i])@ == self.remaining()[i],
    {
        let mut walk = self;
        let mut out: Vec<FileTreePathView<'iter>> = Vec::new();
        loop
            invariant
                out@.len() + walk.remaining().len() == self.remaining().len(),
                forall|i: int| 0 <= i < out@.len() ==> (#[trigger] out@[i])@ == self.remaining()[i],
                forall|i: int|
                    0 <= i < walk.remaining().len() ==> walk.remaining()[i] == self.remaining()[out@.len()
                        + i],
            decreases walk.remaining().len(),
        {
            let ghost rest = walk.remaining();
            match walk.next() {
                None => {
                    return out;
                },
                Some(view) => {
                    out.push(view);
                    proof {
                        assert forall|i: int| 0 <= i < walk.remaining().len() implies walk.remaining()[i]
                            == self.remaining()[out@.len() + i] by {
                            assert(walk.remaining()[i] == rest[i + 1]);
                        }
                    }
                },
            }
        }
    }
}

impl FileTree {
    /// The files of the tree, depth first, under the path `./`.
    pub open spec fn spec_files(&self) -> Seq<PathView> {
        spec_dfs(self.entries(), 0, spec_root())
    }

    /// A walk through the tree, depth first.
    pub fn iter_dfs(&self) -> (r: FileTreeDepthFirstIter<'_>)
        ensures
            r.remaining() == self.spec_files(),
    {
        FileTreeDepthFirstIter::new(self)
    }
}

/// A level whose entry at `from` is a file gives that file first, under the
/// path of the level, and then what the entries behind it give.
pub proof fn lemma_dfs_file(entries: Seq<(String, FileTreeEntry)>, from: int, prefix: Seq<Seq<char>>)
    requires
        0 <= from < entries.len(),
        entries[from].1 is File,
    ensures
        spec_dfs(entries, from, prefix) == seq![
            PathView { directory: prefix, name: entries[from].0@, file_info: entries[from].1->File_0 },
        ] + spec_dfs(entries, from + 1, prefix),
{
}

/// A level whose entry at `from` is a directory gives all files below that
/// directory first, under the path with its name added, and only then what
/// the entries behind it give: the walk goes down before it goes on.
pub proof fn lemma_dfs_directory(
    entries: Seq<(String, FileTreeEntry)>,
    from: int,
    prefix: Seq<Seq<char>>,
)
    requires
        0 <= from < entries.len(),
        entries[from].1 is Directory,
    ensures
        spec_dfs(entries, from, prefix) == spec_dfs(
            entries[from].1->Directory_0.entries(),
            0,
            prefix.push(entries[from].0@),
        ) + spec_dfs(entries, from + 1, prefix),
{
}

/// A tree of one file gives one view, with the path `./`, and nothing more.
pub proof fn lemma_dfs_single_file(tree: FileTree)
    requires
        tree.entries().len() == 1,
        tree.entries()[0].1 is File,
    ensures
        tree.spec_files() == seq![
            PathView {
                directory: spec_root(),
                name: tree.entries()[0].0@,
                file_info: tree.entries()[0].1->File_0,
            },
        ],
{
    lemma_dfs_file(tree.entries(), 0, spec_root());
    assert(spec_dfs(tree.entries(), 1, spec_root()) =~= Seq::<PathView>::empty());
}

} // verus!
