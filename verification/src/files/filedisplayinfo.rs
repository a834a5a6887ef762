//! One view of a file for all versions.
//!
//! Whatever the version of a torrent, a file of it has a path of
//! directories, a name and a length.

use crate::dictionary::spec_strings;
use crate::files::depthfirst::spec_path;
use crate::files::depthfirst::FileTreePathView;
use crate::files::depthfirst::PathView;
use crate::files::filetree::FileLength;
use crate::files::filetree::FileTree;
use crate::files::flatfile::FlatFile;
use vstd::prelude::*;

verus! {

/// A file of a torrent: where it lies, its name and its length.
#[derive(Debug)]
pub struct FileDisplayInfo<'file> {
    pub file_path: Vec<&'file str>,
    pub name: &'file str,
    pub length: FileLength,
}

/// A file of a torrent as contracts see it.
pub struct DisplayModel {
    pub file_path: Seq<Seq<char>>,
    pub name: Seq<char>,
    pub length: u64,
}

impl<'file> View for FileDisplayInfo<'file> {
    type V = DisplayModel;

    open spec fn view(&self) -> DisplayModel {
        DisplayModel {
            file_path: spec_path(self.file_path@),
            name: self.name@,
            length: self.length@,
        }
    }
}

/// What contracts see of a list of files.
pub open spec fn spec_display_models(files: Seq<FileDisplayInfo>) -> Seq<DisplayModel> {
    Seq::new(files.len(), |i: int| files[i]@)
}

/// The view of a file of a version 1 torrent that names one file only: the
/// file lies in no directory and is named as the torrent.
pub open spec fn spec_display_single(name: Seq<char>, length: u64) -> DisplayModel {
    DisplayModel { file_path: Seq::empty(), name, length }
}

/// The view of a listed file of a version 1 torrent: the last part of its
/// path is its name, the parts before it are the directories. A path
/// without parts gives a file without a name.
pub open spec fn spec_display_flat(path: Seq<Seq<char>>, length: u64) -> DisplayModel {
    if path.len() == 0 {
        DisplayModel { file_path: Seq::empty(), name: Seq::empty(), length }
    } else {
        DisplayModel { file_path: path.drop_last(), name: path.last(), length }
    }
}

/// The view of a file of a tree.
pub open spec fn spec_display_tree(view: PathView) -> DisplayModel {
    DisplayModel { file_path: view.directory, name: view.name, length: view.file_info.length@ }
}

/// The views of listed files, in the order of the list.
pub open spec fn spec_display_flats(files: Seq<FlatFile>) -> Seq<DisplayModel> {
    Seq::new(files.len(), |i: int| spec_display_flat(spec_strings(files[i].path@), files[i].length@))
}

/// The views of the files of a tree, in the order of the walk.
pub open spec fn spec_display_views(views: Seq<PathView>) -> Seq<DisplayModel> {
    Seq::new(views.len(), |i: int| spec_display_tree(views[i]))
}

impl FlatFile {
    /// The view of the file.
    pub fn as_file_display(&self) -> (r: FileDisplayInfo<'_>)
        ensures
            r@ == spec_display_flat(spec_strings(self.path@), self.length@),
    {
        let count: usize = self.path.len();
        let mut file_path: Vec<&str> = Vec::new();
        if count == 0 {
            let r = FileDisplayInfo { file_path, name: "", length: self.length };
            proof {
                reveal_strlit("");
                assert(r.name@ =~= Seq::<char>::empty());
                assert(spec_path(r.file_path@) =~= Seq::<Seq<char>>::empty());
            }
            return r;
        }
        let mut i: usize = 0;
        while i < count - 1
            invariant
                count == self.path@.len(),
                count > 0,
                i <= count - 1,
                file_path@.len() == i,
                forall|k: int| 0 <= k < i ==> (#[trigger] file_path@[k])@ == self.path@[k]@,
            decreases count - 1 - i,
        {
            file_path.push(self.path[i].as_str());
            i += 1;
        }
        let r = FileDisplayInfo {
            file_path,
            name: self.path[count - 1].as_str(),
            length: self.length,
        };
        proof {
            assert(spec_path(r.file_path@) =~= spec_strings(self.path@).drop_last());
        }
        r
    }
}

/// The views of listed files, in the order of the list.
pub fn display_flats(files: &Vec<FlatFile>) -> (r: Vec<FileDisplayInfo<'_>>)
    ensures
        spec_display_models(r@) == spec_display_flats(files@),
{
    let mut out: Vec<FileDisplayInfo<'_>> = Vec::new();
    let mut i: usize = 0;
    while i < files.len()
        invariant
            i <= files@.len(),
            out@.len() == i,
            forall|k: int|
                0 <= k < i ==> (#[trigger] out@[k])@ == spec_display_flat(
                    spec_strings(files@[k].path@),
                    files@[k].length@,
                ),
        decreases files@.len() - i,
    {
        out.push(files[i].as_file_display());
        i += 1;
    }
    assert(spec_display_models(out@) =~= spec_display_flats(files@));
    out
}

impl FileTree {
    /// The views of the files of the tree, in the order of the walk.
    pub fn as_file_display(&self) -> (r: Vec<FileDisplayInfo<'_>>)
        ensures
            spec_display_models(r@) == spec_display_views(self.spec_files()),
    {
        let mut views: Vec<FileTreePathView<'_>> = self.iter_dfs().collect();
        let ghost all = self.spec_files();
        let ghost count = views@.len();
        let mut out: Vec<FileDisplayInfo<'_>> = Vec::new();
        // The views are taken from the end, so each is moved and none copied.
        while views.len() > 0
            invariant
                views@.len() + out@.len() == count,
                count == all.len(),
                forall|k: int| 0 <= k < views@.len() ==> (#[trigger] views@[k])@ == all[k],
                forall|k: int|
                    0 <= k < out@.len() ==> (#[trigger] out@[k])@ == spec_display_tree(
                        all[count - 1 - k],
                    ),
            decreases views@.len(),
        {
            let ghost before = views@;
            match views.pop() {
                Some(view) => {
                    assert(view@ == all[before.len() - 1]);
                    out.push(
                        FileDisplayInfo {
                            file_path: view.directory,
                            name: view.name,
                            length: view.file_info.length,
                        },
                    );
                },
                None => {},
            }
        }
        let mut ordered: Vec<FileDisplayInfo<'_>> = Vec::new();
        while out.len() > 0
            invariant
                out@.len() + ordered@.len() == count,
                count == all.len(),
                forall|k: int|
                    0 <= k < out@.len() ==> (#[trigger] out@[k])@ == spec_display_tree(
                        all[count - 1 - k],
                    ),
                forall|k: int|
                    0 <= k < ordered@.len() ==> (#[trigger] ordered@[k])@ == spec_display_tree(
                        all[k],
                    ),
            decreases out@.len(),
        {
            match out.pop() {
                Some(info) => {
                    ordered.push(info);
                },
                None => {},
            }
        }
        assert(spec_display_models(ordered@) =~= spec_display_views(all));
        ordered
    }
}

/// A walk over the files of a torrent. It borrows from the torrent; a new
/// walk begins at the first file again.
#[derive(Debug)]
pub struct FileDisplayInfoIter<'iter> {
    // The files still to come, the next one last.
    branches: Vec<FileDisplayInfo<'iter>>,
}

impl<'iter> FileDisplayInfoIter<'iter> {
    /// The files that the walk has still to hand out, in their order.
    pub closed spec fn remaining(&self) -> Seq<DisplayModel> {
        spec_display_models(self.branches@).reverse()
    }

    /// A walk over `files`, in their order.
    pub fn new(files: Vec<FileDisplayInfo<'iter>>) -> (r: Self)
        ensures
            r.remaining() == spec_display_models(files@),
    {
        let ghost all = spec_display_models(files@);
        let mut files = files;
        let mut branches: Vec<FileDisplayInfo<'iter>> = Vec::new();
        while files.len() > 0
            invariant
                files@.len() + branches@.len() == all.len(),
                forall|k: int| 0 <= k < files@.len() ==> (#[trigger] files@[k])@ == all[k],
                forall|k: int|
                    0 <= k < branches@.len() ==> (#[trigger] branches@[k])@ == all[all.len() - 1
                        - k],
            decreases files@.len(),
        {
            match files.pop() {
                Some(info) => {
                    branches.push(info);
                },
                None => {},
            }
        }
        assert(spec_display_models(branches@).reverse() =~= all);
        FileDisplayInfoIter { branches }
    }

    /// The next file, or `None` once all files were handed out, and then
    /// `None` again at every later call.
    pub fn next(&mut self) -> (r: Option<FileDisplayInfo<'iter>>)
        ensures
            old(self).remaining().len() == 0 ==> r is None && final(self).remaining().len() == 0,
            old(self).remaining().len() > 0 ==> r is Some && r.unwrap()@ == old(
                self,
            ).remaining()[0] && final(self).remaining() == old(self).remaining().drop_first(),
    {
        let ghost before = self.branches@;
        let r = self.branches.pop();
        proof {
            if before.len() > 0 {
                let views = spec_display_models(before);
                assert(spec_display_models(self.branches@) =~= views.drop_last());
                assert(views.drop_last().reverse() =~= views.reverse().drop_first());
                assert(views.reverse()[0] == views[views.len() - 1]);
            }
        }
        r
    }
}

} // verus!
