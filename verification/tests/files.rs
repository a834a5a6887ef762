use star_cloudburst::bencode::value::from_bytes;
use star_cloudburst::bencode::value::lookup;
use star_cloudburst::bencode::value::to_bytes;
use star_cloudburst::bencode::value::Value;
use star_cloudburst::crypto::digest::DigestError;
use star_cloudburst::crypto::digest::Sha256;
use star_cloudburst::dictionary::DecodeOptions;
use star_cloudburst::error::Field;
use star_cloudburst::error::ParseTorrentError;
use star_cloudburst::error::ValueKind;
use star_cloudburst::files::depthfirst::copy_path;
use star_cloudburst::files::fileattributes::AttributeError;
use star_cloudburst::files::filetree::DuplicatePolicy;
use star_cloudburst::files::filetree::FileLength;
use star_cloudburst::files::FileAttribute;
use star_cloudburst::files::FileDisplayInfoIter;
use star_cloudburst::files::FileTree;
use star_cloudburst::files::FileTreeDepthFirstIter;
use star_cloudburst::files::FileTreeEntry;
use star_cloudburst::files::FileTreeInfo;
use star_cloudburst::files::FileTreePathView;
use star_cloudburst::files::FlatFile;
use star_cloudburst::files::TorrentFileAttributes;

const STRICT: DecodeOptions = DecodeOptions { strict: true, duplicates: DuplicatePolicy::Reject };
const LENIENT: DecodeOptions = DecodeOptions { strict: false, duplicates: DuplicatePolicy::Rename };

// Convenience function to return a new FileTreeEntry that's a file.
fn new_file(name: &str) -> (String, FileTreeEntry) {
    (
        name.to_string(),
        FileTreeEntry::File(FileTreeInfo {
            attr: None,
            length: FileLength::new(1).unwrap(),
            pieces_root: None,
        }),
    )
}

// Convenience function to return a new FileTreeEntry that's a directory.
fn new_dir(name: &str, entries: Vec<(String, FileTreeEntry)>) -> (String, FileTreeEntry) {
    (name.to_owned(), FileTreeEntry::Directory(tree_of(entries)))
}

fn tree_of(entries: Vec<(String, FileTreeEntry)>) -> FileTree {
    let mut tree = FileTree::new();
    for (name, entry) in entries {
        assert!(tree.insert(name, entry, DuplicatePolicy::Reject));
    }
    tree
}

// A FileTree consisting of multiple files and a few nested directories.
fn multiple_files_tree() -> FileTree {
    tree_of(vec![
        new_file("alienwarpowers"),
        new_file("alienwarpowers.exe"),
        new_dir(
            "assets",
            vec![new_dir(
                "audio",
                vec![
                    new_dir(
                        "music",
                        (0..3).map(|n| new_file(&format!("jon_music{n}.mp3"))).collect(),
                    ),
                    new_dir(
                        "sound",
                        (0..3).map(|n| new_file(&format!("soundlol{n}.wav"))).collect(),
                    ),
                ],
            )],
        ),
        new_dir("media", vec![new_file("manual.pdf"), new_file("aliens.pdf")]),
    ])
}

fn pls_equal(view_one: &FileTreePathView<'_>, name: &str, directory: Vec<&str>) {
    assert_eq!(view_one.directory, directory);
    assert_eq!(view_one.name, name);
    assert_eq!(view_one.file_info.length.get(), 1);
    assert!(view_one.file_info.attr.is_none());
    assert!(view_one.file_info.pieces_root.is_none());
}

// The example of BEP-0052 with a misprint mended: the BEP prints `d5:length`
// where `d6:length` is meant.
const BENCODE: &str = "d4:infod9:file treed4:dir1d4:dir2d9:fileA.txtd0:d6:lengthi1024e11:pieces root32:aaaaaaaaaaaaaaaaaaaaaaaaaaaaaaaaeeeeeee";

fn dict(value: &Value) -> &Vec<(Vec<u8>, Value)> {
    value.as_dict().expect("a dictionary")
}

fn under<'a>(pairs: &'a Vec<(Vec<u8>, Value)>, key: &str) -> &'a Value {
    &pairs[lookup(pairs, key).expect("the key")].1
}

#[test]
fn filetree_bencode_roundtrip() {
    // Deserialize
    let outer = from_bytes(BENCODE.as_bytes()).unwrap();
    let info = under(dict(&outer), "info");
    let tree = FileTree::deserialize(dict(under(dict(info), "file tree")), STRICT).unwrap();

    // Serialize
    let info_se = Value::Dict(vec![(
        b"info".to_vec(),
        Value::Dict(vec![(b"file tree".to_vec(), Value::Dict(tree.serialize()))]),
    )]);
    assert_eq!(BENCODE.as_bytes(), &to_bytes(&info_se)[..]);
}

#[test]
fn files_filetree_from_bencode() {
    let bencode = "d4:infod9:file treed4:dir1d4:dir2d9:fileA.txtd0:d6:lengthi1024e11:pieces root32:aaaaaaaaaaaaaaaaaaaaaaaaaaaaaaaaeeeeeee";
    let outer = from_bytes(bencode.as_bytes()).unwrap();
    let info = under(dict(&outer), "info");
    let tree = FileTree::deserialize(dict(under(dict(info), "file tree")), STRICT).unwrap();
    assert_eq!(tree.len(), 1);
    assert_eq!(tree.name(0), "dir1");
    let views = tree.iter_dfs().collect();
    assert_eq!(views.len(), 1);
    assert_eq!(views[0].directory, vec!["./", "dir1", "dir2"]);
    assert_eq!(views[0].name, "fileA.txt");
    assert_eq!(views[0].file_info.length.get(), 1024);
    assert_eq!(views[0].file_info.pieces_root.as_ref().unwrap().as_slice(), &[b'a'; 32]);
}

#[test]
fn filetree_of_the_misprinted_example_is_refused() {
    // As BEP-0052 prints it: `d5:length` announces five bytes for a key of six.
    let bencode = "d4:infod9:file treed4:dir1d4:dir2d9:fileA.txtd0:d5:lengthi1024e11:pieces root32:aaaaaaaaaaaaaaaaaaaaaaaaaaaaaaaaeeeeeee";
    assert!(from_bytes(bencode.as_bytes()).is_err());
}

#[test]
fn filetree_single_iter_depth() {
    let tree = tree_of(vec![new_file("raees_buggy_code.js")]);
    let tree_view: Vec<_> = tree.iter_dfs().collect();
    assert_eq!(tree_view.len(), 1);

    let raees = tree_view.into_iter().next().expect("Expected Raees' buggy code.");
    assert_eq!(raees.directory, vec!["./"]);
    assert_eq!(raees.name, "raees_buggy_code.js");
    pls_equal(&raees, "raees_buggy_code.js", vec!["./"]);

    // the walk ends, and stays ended
    let mut walk = tree.iter_dfs();
    assert!(walk.next().is_some());
    assert!(walk.next().is_none());
    assert!(walk.next().is_none());
}

#[test]
fn filetree_multiple_iter_depth() {
    let tree = multiple_files_tree();
    let mut tree_view = tree.iter_dfs();
    pls_equal(&tree_view.next().unwrap(), "alienwarpowers", vec!["./"]);
}

#[test]
fn filetree_dirs_o_fun() {
    // A directory in a directory in a directory, a hundred deep.
    let mut entry = new_file("bottom");
    for depth in (0..100).rev() {
        entry = new_dir(&format!("d{depth}"), vec![entry]);
    }
    let tree = tree_of(vec![entry, new_file("top")]);
    let views = tree.iter_dfs().collect();
    assert_eq!(views.len(), 2);
    assert_eq!(views[0].name, "bottom");
    assert_eq!(views[0].directory.len(), 101);
    assert_eq!(views[0].directory[0], "./");
    assert_eq!(views[0].directory[1], "d0");
    assert_eq!(views[0].directory[100], "d99");
    pls_equal(&views[1], "top", vec!["./"]);
}

#[test]
fn filetree_walk_goes_down_before_it_goes_on() {
    let tree = multiple_files_tree();
    let seen: Vec<(String, String)> = tree
        .iter_dfs()
        .collect()
        .iter()
        .map(|view| (view.directory.join("|"), view.name.to_string()))
        .collect();
    let expected = [
        ("./", "alienwarpowers"),
        ("./", "alienwarpowers.exe"),
        ("./|assets|audio|music", "jon_music0.mp3"),
        ("./|assets|audio|music", "jon_music1.mp3"),
        ("./|assets|audio|music", "jon_music2.mp3"),
        ("./|assets|audio|sound", "soundlol0.wav"),
        ("./|assets|audio|sound", "soundlol1.wav"),
        ("./|assets|audio|sound", "soundlol2.wav"),
        ("./|media", "aliens.pdf"),
        ("./|media", "manual.pdf"),
    ];
    assert_eq!(seen.len(), expected.len());
    for (found, wanted) in seen.iter().zip(expected) {
        assert_eq!((found.0.as_str(), found.1.as_str()), wanted);
    }
    // a second walk begins at the first file again
    let again = FileTreeDepthFirstIter::new(&tree).collect();
    assert_eq!(again.len(), 10);
    assert_eq!(again[0].name, "alienwarpowers");
    assert_eq!(copy_path(&again[9].directory), vec!["./", "media"]);
}

#[test]
fn filetree_walk_of_nothing_and_of_empty_directories() {
    let empty = FileTree::new();
    assert!(empty.is_empty());
    assert!(empty.iter_dfs().next().is_none());
    let hollow = tree_of(vec![
        new_dir("a", vec![new_dir("b", vec![])]),
        new_dir("c", vec![]),
        new_file("d"),
    ]);
    let views = hollow.iter_dfs().collect();
    assert_eq!(views.len(), 1);
    pls_equal(&views[0], "d", vec!["./"]);
}

#[test]
fn filetree_keeps_names_in_order() {
    let mut tree = FileTree::new();
    for name in ["b", "a", "ab", "B", "", "é", "aa"] {
        let (name, entry) = new_file(name);
        assert!(tree.insert(name, entry, DuplicatePolicy::Reject));
    }
    let names: Vec<&str> = (0..tree.len()).map(|i| tree.name(i)).collect();
    assert_eq!(names, vec!["", "B", "a", "aa", "ab", "b", "é"]);
    assert!(tree.contains_key("ab"));
    assert!(!tree.contains_key("abc"));
    assert!(matches!(tree.get("a"), Some(FileTreeEntry::File(_))));
    assert!(tree.get("zz").is_none());
    assert_eq!(tree.position("ab"), (4, true));
    assert_eq!(tree.position("ac"), (5, false));
    assert!(matches!(tree.entry(2), FileTreeEntry::File(_)));
}

#[test]
fn filetree_duplicate_names_by_policy() {
    let mut tree = tree_of(vec![new_file("a"), new_file("b")]);
    let (name, entry) = new_file("a");
    assert!(!tree.insert(name, entry, DuplicatePolicy::Reject));
    assert_eq!(tree.len(), 2);
    let (name, entry) = new_file("a");
    assert!(tree.insert(name, entry, DuplicatePolicy::Rename));
    let (name, entry) = new_file("a");
    assert!(tree.insert(name, entry, DuplicatePolicy::Rename));
    let names: Vec<&str> = (0..tree.len()).map(|i| tree.name(i)).collect();
    assert_eq!(names, vec!["a", "a_dup", "a_dup_dup", "b"]);
}

#[test]
fn filetree_from_a_dictionary_with_a_name_twice() {
    let twice = b"d1:ad0:d6:lengthi1eee1:ad0:d6:lengthi2eeee";
    let value = from_bytes(twice).unwrap();
    assert_eq!(
        FileTree::deserialize(dict(&value), STRICT).unwrap_err(),
        ParseTorrentError::DuplicateName
    );
    let tree = FileTree::deserialize(dict(&value), LENIENT).unwrap();
    assert_eq!(tree.len(), 2);
    assert_eq!(tree.name(1), "a_dup");
    let views = tree.iter_dfs().collect();
    assert_eq!(views[0].file_info.length.get(), 1);
    assert_eq!(views[1].file_info.length.get(), 2);
}

#[test]
fn filetree_entries_that_are_none() {
    let tree = |text: &[u8], options| {
        let value = from_bytes(text).unwrap();
        FileTree::deserialize(dict(&value), options).map(|tree| tree.len())
    };
    assert_eq!(
        tree(b"d1:ai1ee", STRICT).unwrap_err(),
        ParseTorrentError::InvalidType { field: Field::FileTree, expected: ValueKind::Dict }
    );
    assert_eq!(
        tree(b"d1:ad0:i1eee", STRICT).unwrap_err(),
        ParseTorrentError::InvalidType { field: Field::FileTree, expected: ValueKind::Dict }
    );
    assert_eq!(
        tree(b"d2:\xff\xfed0:d6:lengthi1eeee", STRICT).unwrap_err(),
        ParseTorrentError::InvalidText { field: Field::FileTree }
    );
    assert_eq!(
        tree(b"d1:ad0:deee", STRICT).unwrap_err(),
        ParseTorrentError::MissingField(Field::Length)
    );
    assert_eq!(
        tree(b"d1:ad0:d6:lengthi0eeee", STRICT).unwrap_err(),
        ParseTorrentError::InvalidValue { field: Field::Length }
    );
    assert_eq!(
        tree(b"d1:ad0:d6:lengthi-4eeee", STRICT).unwrap_err(),
        ParseTorrentError::InvalidValue { field: Field::Length }
    );
    assert_eq!(
        tree(b"d1:ad0:d6:length1:1eee", STRICT).unwrap_err(),
        ParseTorrentError::InvalidType { field: Field::Length, expected: ValueKind::Int }
    );
    assert_eq!(
        tree(b"d1:ad0:d4:attr1:q6:lengthi1eeee", STRICT).unwrap_err(),
        ParseTorrentError::Attribute(AttributeError::UnknownVariant(b'q'))
    );
    assert_eq!(
        tree(b"d1:ad0:d6:lengthi1e11:pieces root3:abceee", STRICT).unwrap_err(),
        ParseTorrentError::Digest {
            field: Field::PiecesRoot,
            error: DigestError::InvalidLength { actual: 3, expected: 32 }
        }
    );
    // a key that is not known is refused by a strict reading only
    assert_eq!(
        tree(b"d1:ad0:d6:lengthi1e5:mtimei5eeee", STRICT).unwrap_err(),
        ParseTorrentError::UnknownField { within: Field::FileTree, index: 1 }
    );
    assert_eq!(tree(b"d1:ad0:d6:lengthi1e5:mtimei5eeee", LENIENT), Ok(1));
    // a dictionary with the empty key and another is a directory
    assert_eq!(
        tree(b"d1:ad0:d6:lengthi1ee1:bd0:d6:lengthi1eeeee", STRICT).unwrap_err(),
        ParseTorrentError::InvalidType { field: Field::FileTree, expected: ValueKind::Dict }
    );
    assert_eq!(tree(b"de", STRICT), Ok(0));
}

#[test]
fn file_leaf_with_all_fields() {
    let text = b"d4:attr2:xh6:lengthi77e11:pieces root32:0123456789abcdef0123456789abcdefe";
    let value = from_bytes(text).unwrap();
    let info = FileTreeInfo::try_from(dict(&value), true).unwrap();
    assert_eq!(info.length.get(), 77);
    let attr = info.attr.as_ref().unwrap();
    assert_eq!(attr.to_string(), "hx");
    assert_eq!(info.pieces_root.as_ref().unwrap().as_slice(), b"0123456789abcdef0123456789abcdef");
    // written with its keys in order; the letters come out in theirs
    assert_eq!(
        to_bytes(&Value::Dict(info.serialize())),
        b"d4:attr2:hx6:lengthi77e11:pieces root32:0123456789abcdef0123456789abcdefe".to_vec()
    );
    assert!(Sha256::from_bytes(b"0123456789abcdef0123456789abcdef").is_ok());
}

#[test]
fn file_length_is_never_zero() {
    assert!(FileLength::new(0).is_none());
    assert_eq!(FileLength::new(1).unwrap().get(), 1);
    assert_eq!(FileLength::new(i64::MAX as u64).unwrap().get(), i64::MAX as u64);
    assert!(FileLength::new(i64::MAX as u64 + 1).is_none());
}

#[test]
fn attributes_are_a_set_in_the_order_of_the_letters() {
    let attrs = TorrentFileAttributes::try_from("xXhLp").unwrap();
    assert_eq!(attrs.to_string(), "hlpx");
    assert_eq!(attrs.len(), 4);
    assert_eq!(attrs.letters(), b"hlpx".to_vec());
    assert_eq!(attrs.get(0), FileAttribute::Hidden);
    assert_eq!(attrs.get(1), FileAttribute::Symlink);
    assert_eq!(attrs.get(2), FileAttribute::Padding);
    assert_eq!(attrs.get(3), FileAttribute::Executable);
    assert!(attrs.contains(FileAttribute::Padding));
    assert_eq!(attrs.clone().to_string(), "hlpx");

    let attrs = TorrentFileAttributes::try_from("ppp").unwrap();
    assert_eq!(attrs.to_string(), "p");
    assert!(!attrs.contains(FileAttribute::Hidden));
    assert_eq!(TorrentFileAttributes::try_from("").unwrap().len(), 0);
    assert_eq!(TorrentFileAttributes::try_from_bytes(b"lx").unwrap().to_string(), "lx");
}

#[test]
fn attributes_refuse_the_smallest_unknown_byte() {
    assert_eq!(
        TorrentFileAttributes::try_from("xzhq").unwrap_err(),
        AttributeError::UnknownVariant(b'q')
    );
    assert_eq!(
        TorrentFileAttributes::try_from("Z").unwrap_err(),
        AttributeError::UnknownVariant(b'z')
    );
    assert_eq!(
        TorrentFileAttributes::try_from("x h").unwrap_err(),
        AttributeError::UnknownVariant(b' ')
    );
    assert_eq!(
        TorrentFileAttributes::try_from_bytes(b"x\xffh").unwrap_err(),
        AttributeError::UnknownVariant(0xff)
    );
}

#[test]
fn attribute_letters() {
    assert_eq!(FileAttribute::try_from(b'x'), Ok(FileAttribute::Executable));
    assert_eq!(FileAttribute::try_from(b'H'), Ok(FileAttribute::Hidden));
    assert_eq!(FileAttribute::try_from(b'p'), Ok(FileAttribute::Padding));
    assert_eq!(FileAttribute::try_from(b'L'), Ok(FileAttribute::Symlink));
    assert_eq!(FileAttribute::try_from(b'Q'), Err(AttributeError::UnknownVariant(b'q')));
    assert_eq!(FileAttribute::try_from_str("l"), Ok(FileAttribute::Symlink));
    assert_eq!(FileAttribute::try_from_str("lx"), Err(AttributeError::InvalidLength(2)));
    assert_eq!(FileAttribute::try_from_str(""), Err(AttributeError::InvalidLength(0)));
    assert_eq!(FileAttribute::Executable.as_str(), "x");
    assert_eq!(FileAttribute::Hidden.as_str(), "h");
    assert_eq!(FileAttribute::Padding.letter(), b'p');
    assert_eq!(FileAttribute::Symlink.as_str(), "l");
}

#[test]
fn flat_file_from_its_dictionary() {
    let text = b"d4:attr1:p6:lengthi42e6:md5sum16:0123456789abcdef4:pathl7:scripts2:ai10:raees_0.pye4:sha120:0123456789abcdefghij12:symlink pathl1:a1:bee";
    let value = from_bytes(text).unwrap();
    let file = FlatFile::deserialize(dict(&value), true).unwrap();
    assert_eq!(file.length.get(), 42);
    assert_eq!(file.path, vec!["scripts", "ai", "raees_0.py"]);
    assert_eq!(file.attr.as_ref().unwrap().to_string(), "p");
    assert_eq!(file.md5sum.as_ref().unwrap().as_slice(), b"0123456789abcdef");
    assert_eq!(file.sha1.as_ref().unwrap().as_slice(), b"0123456789abcdefghij");
    assert_eq!(file.symlink_path, Some(vec!["a".to_string(), "b".to_string()]));
    assert_eq!(to_bytes(&Value::Dict(file.serialize())), text.to_vec());
    let view = file.as_file_display();
    assert_eq!(view.file_path, vec!["scripts", "ai"]);
    assert_eq!(view.name, "raees_0.py");
    assert_eq!(view.length.get(), 42);

    let flat = |text: &[u8]| {
        let value = from_bytes(text).unwrap();
        FlatFile::deserialize(dict(&value), true).map(|f| f.path.len())
    };
    assert_eq!(flat(b"d6:lengthi1e4:pathl1:aee"), Ok(1));
    assert_eq!(
        flat(b"d6:lengthi1e4:pathlee").unwrap_err(),
        ParseTorrentError::InvalidLength { field: Field::Path, actual: 0 }
    );
    assert_eq!(flat(b"d6:lengthi1ee").unwrap_err(), ParseTorrentError::MissingField(Field::Path));
    assert_eq!(
        flat(b"d4:pathl1:aee").unwrap_err(),
        ParseTorrentError::MissingField(Field::Length)
    );
    assert_eq!(
        flat(b"d6:lengthi1e4:pathli1eee").unwrap_err(),
        ParseTorrentError::InvalidType { field: Field::Path, expected: ValueKind::Bytes }
    );
    assert_eq!(
        flat(b"d6:lengthi1e4:path1:ae").unwrap_err(),
        ParseTorrentError::InvalidType { field: Field::Path, expected: ValueKind::List }
    );
    assert_eq!(
        flat(b"d6:lengthi1e4:pathl1:\xffee").unwrap_err(),
        ParseTorrentError::InvalidText { field: Field::Path }
    );
    assert_eq!(
        flat(b"d6:lengthi1e6:md5sum3:abc4:pathl1:aee").unwrap_err(),
        ParseTorrentError::Digest {
            field: Field::Md5sum,
            error: DigestError::InvalidLength { actual: 3, expected: 16 }
        }
    );
    assert_eq!(
        flat(b"d5:crc324:abcd6:lengthi1e4:pathl1:aee").unwrap_err(),
        ParseTorrentError::UnknownField { within: Field::Files, index: 0 }
    );
}

#[test]
fn file_views_come_one_by_one() {
    let tree = multiple_files_tree();
    let files = tree.as_file_display();
    assert_eq!(files.len(), 10);
    assert_eq!(files[2].file_path, vec!["./", "assets", "audio", "music"]);
    assert_eq!(files[2].name, "jon_music0.mp3");
    let mut walk = FileDisplayInfoIter::new(files);
    let first = walk.next().unwrap();
    assert_eq!(first.name, "alienwarpowers");
    assert_eq!(first.file_path, vec!["./"]);
    let mut count = 1;
    while let Some(file) = walk.next() {
        count += 1;
        assert_eq!(file.length.get(), 1);
    }
    assert_eq!(count, 10);
    assert!(walk.next().is_none());
}
