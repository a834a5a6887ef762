use star_cloudburst::bencode::value::from_bytes;
use star_cloudburst::bencode::value::to_bytes;
use star_cloudburst::bencode::value::Value;
use star_cloudburst::dictionary::DecodeOptions;
use star_cloudburst::error::AmbiguousFiles;
use star_cloudburst::error::Field;
use star_cloudburst::error::ParseTorrentError;
use star_cloudburst::error::ValueKind;
use star_cloudburst::files::filetree::DuplicatePolicy;
use star_cloudburst::files::MetaV1FileRepr;
use star_cloudburst::metainfo::boolint::bool_from_int;
use star_cloudburst::metainfo::boolint::bool_to_int;
use star_cloudburst::metainfo::boolint::private_flag;
use star_cloudburst::metainfo::hybrid::validate;
use star_cloudburst::metainfo::metav2::check_version;
use star_cloudburst::metainfo::resolve::structure;
use star_cloudburst::metainfo::Hybrid;
use star_cloudburst::metainfo::Info;
use star_cloudburst::metainfo::MetaInfo;
use star_cloudburst::metainfo::MetaV1;
use star_cloudburst::metainfo::MetaV2;

const STRICT: DecodeOptions = DecodeOptions { strict: true, duplicates: DuplicatePolicy::Reject };
const LENIENT: DecodeOptions = DecodeOptions { strict: false, duplicates: DuplicatePolicy::Reject };

fn pairs(text: &str) -> Vec<(Vec<u8>, Value)> {
    match from_bytes(text.as_bytes()).expect("Bencode") {
        Value::Dict(pairs) => pairs,
        _ => panic!("a dictionary"),
    }
}

fn pieces(count: usize) -> String {
    format!("6:pieces{}:{}", count * 20, "p".repeat(count * 20))
}

const TREE: &str = "9:file treed1:ad0:d6:lengthi5eee1:dd1:bd0:d6:lengthi7eeeee";
const FILES: &str = "5:filesld6:lengthi5e4:pathl1:d1:aeed6:lengthi7e4:pathl1:beee";
const ROOT: &str = "9:root hash20:rrrrrrrrrrrrrrrrrrrr";

fn v1_single() -> String {
    format!("d6:lengthi9e4:name3:one12:piece lengthi16e{}e", pieces(1))
}

fn v1_multi() -> String {
    format!("d{FILES}4:name3:two12:piece lengthi32e{}7:privatei1ee", pieces(2))
}

fn v2() -> String {
    format!("d{TREE}12:meta versioni2e4:name3:new12:piece lengthi16384e{ROOT}e")
}

fn hybrid() -> String {
    format!(
        "d{TREE}{FILES}12:meta versioni2e4:name4:both12:piece lengthi16384e{}e",
        pieces(1)
    )
}

#[test]
fn info_bool_from_int_valid() {
    let states = [("i0e", false), ("i1e", true)];
    for (value, expected) in states {
        let value = from_bytes(value.as_bytes()).unwrap();
        let maybe_bool = bool_from_int(Some(&value)).unwrap();
        assert_eq!(maybe_bool, expected);
    }
}

#[test]
#[should_panic(expected = "Invalid Value: integer `14` (expected: `zero or one`)")]
fn info_bool_from_int_invalid() {
    let value = from_bytes("i14e".as_bytes()).unwrap();
    bool_from_int(Some(&value)).expect("Invalid Value: integer `14` (expected: `zero or one`)");
}

#[test]
fn info_bool_from_int_none() {
    assert_eq!(bool_from_int(None).unwrap(), false);
}

#[test]
fn info_int_from_bool() {
    let bytes_ser = to_bytes(&Value::Int(bool_to_int(true)));
    assert!(bytes_ser == "i1e".as_bytes(), "`true` wasn't serialized");
}

#[test]
fn serde_bool_int_bool_from_int_valid() {
    let states = [("i0e", false), ("i1e", true)];
    for (value, expected) in states {
        let value = from_bytes(value.as_bytes()).unwrap();
        assert_eq!(bool_from_int(Some(&value)), Ok(expected));
    }
}

#[test]
#[should_panic(expected = "Invalid Value: integer `14` (expected: `zero or one`)")]
fn serde_bool_int_bool_from_int_invalid() {
    let value = from_bytes("i14e".as_bytes()).unwrap();
    bool_from_int(Some(&value)).expect("Invalid Value: integer `14` (expected: `zero or one`)");
}

#[test]
fn serde_bool_int_bool_from_int_none() {
    bool_from_int(None).unwrap();
}

#[test]
fn serde_bool_int_int_from_bool() {
    assert_eq!(to_bytes(&Value::Int(bool_to_int(true))), b"i1e".to_vec());
    assert_eq!(to_bytes(&Value::Int(bool_to_int(false))), b"i0e".to_vec());
}

#[test]
fn flag_of_another_kind_is_refused() {
    assert_eq!(
        bool_from_int(Some(&Value::Int(14))),
        Err(ParseTorrentError::InvalidValue { field: Field::Private })
    );
    assert_eq!(
        bool_from_int(Some(&Value::Int(-1))),
        Err(ParseTorrentError::InvalidValue { field: Field::Private })
    );
    assert_eq!(
        bool_from_int(Some(&Value::Bytes(vec![]))),
        Err(ParseTorrentError::InvalidType { field: Field::Private, expected: ValueKind::Int })
    );
    assert_eq!(private_flag(&pairs("d7:privatei1ee")), Ok(Some(true)));
    assert_eq!(private_flag(&pairs("d7:privatei0ee")), Ok(Some(false)));
    assert_eq!(private_flag(&pairs("de")), Ok(None));
}

#[test]
fn yield_one_metav1_de() {
    let info = MetaV1::deserialize(&pairs(&v1_single()), true).unwrap();
    match info.files {
        MetaV1FileRepr::Single(length) => assert_eq!(length.get(), 9),
        MetaV1FileRepr::Multiple(_) => panic!("one file was named"),
    }
    let files = info.as_file_display();
    assert_eq!(files.len(), 1);
    assert!(files[0].file_path.is_empty());
    assert_eq!(files[0].name, "one");
    assert_eq!(files[0].length.get(), 9);
}

#[test]
fn yield_multi_metav2_de() {
    let info = MetaV1::deserialize(&pairs(&v1_multi()), true).unwrap();
    match &info.files {
        MetaV1FileRepr::Multiple(files) => {
            assert_eq!(files.len(), 2);
            assert_eq!(files[0].path, vec!["d", "a"]);
            assert_eq!(files[1].length.get(), 7);
        }
        MetaV1FileRepr::Single(_) => panic!("two files were named"),
    }
    let files = info.as_file_display();
    assert_eq!(files.len(), 2);
    assert_eq!(files[0].file_path, vec!["d"]);
    assert_eq!(files[0].name, "a");
    assert!(files[1].file_path.is_empty());
    assert_eq!(files[1].name, "b");
}

#[test]
fn info_info_metav1_only() {
    for text in [v1_single(), v1_multi()] {
        let info = Info::deserialize(&pairs(&text), STRICT).unwrap();
        assert!(matches!(info, MetaInfo::MetaV1(_)));
        assert_eq!(info.meta_version_str(), "1");
        assert_eq!(to_bytes(&Value::Dict(info.serialize())), text.into_bytes());
    }
}

#[test]
fn info_info_metav2_only() {
    let info = Info::deserialize(&pairs(&v2()), STRICT).unwrap();
    assert!(matches!(info, MetaInfo::MetaV2(_)));
    assert_eq!(info.meta_version_str(), "2");
    assert_eq!(to_bytes(&Value::Dict(info.serialize())), v2().into_bytes());
}

#[test]
fn info_info_hybrid() {
    let info = Info::deserialize(&pairs(&hybrid()), STRICT).unwrap();
    assert!(matches!(info, MetaInfo::Hybrid(_)));
    assert_eq!(info.meta_version_str(), "hybrid");
    assert_eq!(to_bytes(&Value::Dict(info.serialize())), hybrid().into_bytes());
}

#[test]
fn metainfo_info_metav1_only() {
    let info = MetaInfo::deserialize(&pairs(&v1_multi()), LENIENT).unwrap();
    assert_eq!(info.name(), "two");
    assert_eq!(info.piece_length().get(), 32);
    match &info {
        MetaInfo::MetaV1(v1) => {
            assert_eq!(v1.private, Some(true));
            assert_eq!(v1.pieces.len(), 2);
            assert!(v1.md5sum.is_none());
        }
        _ => panic!("version 1"),
    }
    let mut files = info.iter_files();
    assert_eq!(files.next().unwrap().name, "a");
    assert_eq!(files.next().unwrap().name, "b");
    assert!(files.next().is_none());
}

#[test]
fn metainfo_info_metav2_only() {
    let info = MetaInfo::deserialize(&pairs(&v2()), LENIENT).unwrap();
    assert_eq!(info.name(), "new");
    assert_eq!(info.piece_length().get(), 16384);
    match &info {
        MetaInfo::MetaV2(v2) => {
            assert_eq!(v2.meta_version, 2);
            assert_eq!(v2.private, None);
            assert_eq!(v2.root_hash.as_slice(), &[b'r'; 20]);
            assert_eq!(v2.file_tree.len(), 2);
        }
        _ => panic!("version 2"),
    }
    let mut files = info.iter_files();
    let first = files.next().unwrap();
    assert_eq!((first.file_path.clone(), first.name, first.length.get()), (vec!["./"], "a", 5));
    let second = files.next().unwrap();
    assert_eq!((second.file_path.clone(), second.name, second.length.get()), (vec!["./", "d"], "b", 7));
    assert!(files.next().is_none());
}

#[test]
fn metainfo_info_hybrid() {
    let info = MetaInfo::deserialize(&pairs(&hybrid()), LENIENT).unwrap();
    assert_eq!(info.name(), "both");
    match &info {
        MetaInfo::Hybrid(both) => {
            assert_eq!(both.meta_version, Some(2));
            assert_eq!(both.files.as_ref().unwrap().len(), 2);
            assert_eq!(both.file_tree.as_ref().unwrap().len(), 2);
            assert!(both.length.is_none());
            assert!(both.root_hash.is_none());
        }
        _ => panic!("both versions"),
    }
    // the tree is shown where there is one
    let mut files = info.iter_files();
    assert_eq!(files.next().unwrap().file_path, vec!["./"]);

    // a version 1 torrent with a key that version 1 does not know is taken as
    // of both versions, and shows its list or its one file
    let text = format!("d{FILES}4:name1:n12:piece lengthi16e{}6:source1:xe", pieces(1));
    let info = MetaInfo::deserialize(&pairs(&text), LENIENT).unwrap();
    assert!(matches!(info, MetaInfo::Hybrid(_)));
    let mut files = info.iter_files();
    assert_eq!(files.next().unwrap().file_path, vec!["d"]);
    let text = format!("d6:lengthi3e4:name1:n12:piece lengthi16e{}6:source1:xe", pieces(1));
    let info = MetaInfo::deserialize(&pairs(&text), LENIENT).unwrap();
    let mut files = info.iter_files();
    let only = files.next().unwrap();
    assert_eq!((only.name, only.length.get()), ("n", 3));
    assert!(files.next().is_none());
    // which a strict reading refuses
    assert_eq!(
        MetaInfo::deserialize(&pairs(&text), STRICT).unwrap_err(),
        ParseTorrentError::NoVariant
    );
}

#[test]
fn files_named_in_no_way_or_in_more_than_one() {
    // without a meta version, of the eight ways two are accepted
    let cases = [
        (false, false, false, Some(ParseTorrentError::AmbiguousFiles(AmbiguousFiles::NoFiles))),
        (true, false, false, None),
        (false, true, false, None),
        (false, false, true, Some(ParseTorrentError::MissingField(Field::MetaVersion))),
        (
            true,
            true,
            false,
            Some(ParseTorrentError::AmbiguousFiles(AmbiguousFiles::LengthAndFiles)),
        ),
        (
            true,
            false,
            true,
            Some(ParseTorrentError::AmbiguousFiles(AmbiguousFiles::LengthAndFileTree)),
        ),
        (
            false,
            true,
            true,
            Some(ParseTorrentError::AmbiguousFiles(AmbiguousFiles::FilesAndFileTree)),
        ),
        (
            true,
            true,
            true,
            Some(ParseTorrentError::AmbiguousFiles(AmbiguousFiles::LengthFilesAndFileTree)),
        ),
    ];
    for (length, files, tree, expected) in &cases {
        let (length, files, tree) = (*length, *files, *tree);
        assert_eq!(validate(None, length, files, tree).err().as_ref(), expected.as_ref());
        let text = format!(
            "d{}{}{}4:name1:n12:piece lengthi16e{}e",
            if tree { TREE } else { "" },
            if files { FILES } else { "" },
            if length { "6:lengthi9e" } else { "" },
            pieces(1)
        );
        let found = MetaInfo::deserialize(&pairs(&text), LENIENT);
        match expected {
            None => assert!(found.is_ok(), "{text}"),
            Some(e) => assert_eq!(&found.unwrap_err(), e, "{text}"),
        }
    }
    let errors: Vec<_> = cases.iter().filter_map(|c| c.3.as_ref()).collect();
    for (i, a) in errors.iter().enumerate() {
        for b in &errors[i + 1..] {
            assert_ne!(a, b);
        }
    }
}

#[test]
fn meta_version_must_be_two_at_least() {
    assert_eq!(check_version(2), Ok(2));
    assert_eq!(check_version(255), Ok(255));
    assert_eq!(check_version(1), Err(ParseTorrentError::InvalidVersion(1)));
    assert_eq!(check_version(0), Err(ParseTorrentError::InvalidVersion(0)));
    assert_eq!(validate(Some(2), true, true, true), Ok(()));
    assert_eq!(validate(Some(3), false, false, false), Ok(()));
    assert_eq!(validate(Some(1), false, true, false), Err(ParseTorrentError::InvalidVersion(1)));
    for (version, error) in [("1", 1), ("0", 0), ("256", 256), ("-2", -2)] {
        let text = format!("d{TREE}12:meta versioni{version}e4:name1:n12:piece lengthi16e{ROOT}e");
        assert_eq!(
            MetaInfo::deserialize(&pairs(&text), LENIENT).unwrap_err(),
            ParseTorrentError::InvalidVersion(error),
        );
    }
}

#[test]
fn info_that_is_of_no_version() {
    let info = |text: String| MetaInfo::deserialize(&pairs(&text), LENIENT).unwrap_err();
    // a broken file tree says what is broken in it
    assert_eq!(
        info(format!(
            "d9:file treed1:ad0:deee12:meta versioni2e4:name1:n12:piece lengthi16e{ROOT}e"
        )),
        ParseTorrentError::MissingField(Field::Length)
    );
    assert_eq!(
        info("d9:file treei1e4:name1:n12:piece lengthi16ee".to_string()),
        ParseTorrentError::InvalidType { field: Field::FileTree, expected: ValueKind::Dict }
    );
    // a piece length that is none
    assert_eq!(
        info(format!("d6:lengthi9e4:name1:n12:piece lengthi24e{}e", pieces(1))),
        ParseTorrentError::PieceLength(24)
    );
    assert_eq!(
        info(format!("d6:lengthi9e4:name1:n12:piece lengthi8e{}e", pieces(1))),
        ParseTorrentError::PieceLength(8)
    );
    // digests of pieces that are cut short
    assert_eq!(
        info("d6:lengthi9e4:name1:n12:piece lengthi16e6:pieces3:abce".to_string()),
        ParseTorrentError::InvalidLength { field: Field::Pieces, actual: 3 }
    );
    // else only that nothing matched
    assert_eq!(
        info(format!("d6:lengthi9e12:piece lengthi16e{}e", pieces(1))),
        ParseTorrentError::NoVariant
    );
    assert_eq!(
        info(format!("d6:lengthi9e4:namei1e12:piece lengthi16e{}e", pieces(1))),
        ParseTorrentError::NoVariant
    );
    assert_eq!(
        structure(&pairs("d6:lengthi9e12:piece lengthi16ee")),
        Ok(())
    );
}

#[test]
fn candidates_one_by_one() {
    assert_eq!(
        MetaV1::deserialize(&pairs(&v2()), true).unwrap_err(),
        ParseTorrentError::AmbiguousFiles(AmbiguousFiles::NoFiles)
    );
    assert_eq!(
        MetaV1::deserialize(&pairs(&hybrid()), true).unwrap_err(),
        ParseTorrentError::UnknownField { within: Field::Info, index: 0 }
    );
    assert_eq!(
        MetaV1::deserialize(
            &pairs(&format!("d6:lengthi9e4:name3:one12:piece lengthi16ee")),
            true
        )
        .unwrap_err(),
        ParseTorrentError::MissingField(Field::Pieces)
    );
    assert_eq!(
        MetaV2::deserialize(&pairs(&v1_single()), STRICT).unwrap_err(),
        ParseTorrentError::MissingField(Field::FileTree)
    );
    assert_eq!(
        MetaV2::deserialize(
            &pairs(&format!("d{TREE}12:meta versioni2e4:name3:new12:piece lengthi16ee")),
            STRICT
        )
        .unwrap_err(),
        ParseTorrentError::MissingField(Field::RootHash)
    );
    assert_eq!(
        MetaV2::deserialize(
            &pairs(&format!("d{TREE}4:name3:new12:piece lengthi16e{ROOT}e")),
            STRICT
        )
        .unwrap_err(),
        ParseTorrentError::MissingField(Field::MetaVersion)
    );
    assert_eq!(
        Hybrid::deserialize(&pairs("d12:piece lengthi16ee"), STRICT).unwrap_err(),
        ParseTorrentError::MissingField(Field::Name)
    );
    assert_eq!(
        Hybrid::deserialize(&pairs("d4:name1:ne"), STRICT).unwrap_err(),
        ParseTorrentError::MissingField(Field::PieceLength)
    );
    let both = Hybrid::deserialize(&pairs(&v1_single()), STRICT).unwrap();
    assert_eq!(both.length.unwrap().get(), 9);
    assert_eq!(to_bytes(&Value::Dict(both.serialize())), v1_single().into_bytes());
}
