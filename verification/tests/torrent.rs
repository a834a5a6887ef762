use star_cloudburst::bencode::error::BencodeError;
use star_cloudburst::bencode::error::BencodeErrorKind;
use star_cloudburst::bencode::error::BertErrorKind;
use star_cloudburst::bencode::error::ContextLabel;
use star_cloudburst::bencode::error::GrammarKind;
use star_cloudburst::bencode::value::decode_value;
use star_cloudburst::bencode::value::from_bytes;
use star_cloudburst::bencode::value::lookup;
use star_cloudburst::bencode::value::to_bytes;
use star_cloudburst::bencode::value::Value;
use star_cloudburst::bencode::value::MAX_DEPTH;
use star_cloudburst::crypto::calculateinfohash::info_bytes;
use star_cloudburst::crypto::calculateinfohash::CalculateInfoHash;
use star_cloudburst::crypto::digest::Sha1;
use star_cloudburst::crypto::digest::Sha2;
use star_cloudburst::dictionary::check_keys;
use star_cloudburst::dictionary::find;
use star_cloudburst::dictionary::is_known;
use star_cloudburst::dictionary::opt_int;
use star_cloudburst::dictionary::opt_text;
use star_cloudburst::dictionary::DecodeOptions;
use star_cloudburst::error::key;
use star_cloudburst::error::Field;
use star_cloudburst::error::ParseTorrentError;
use star_cloudburst::error::UriError;
use star_cloudburst::error::ValueKind;
use star_cloudburst::files::filetree::DuplicatePolicy;
use star_cloudburst::metainfo::InfoHashAny;
use star_cloudburst::metainfo::InfoHashVersioned;
use star_cloudburst::metainfo::MetaInfo;
use star_cloudburst::torrent::default_options;
use star_cloudburst::torrent::Torrent;

const STRICT: DecodeOptions = DecodeOptions { strict: true, duplicates: DuplicatePolicy::Reject };

fn pieces(count: usize) -> String {
    format!("6:pieces{}:{}", count * 20, "p".repeat(count * 20))
}

const TREE: &str = "9:file treed1:ad0:d6:lengthi5eee1:dd1:bd0:d6:lengthi7eeeee";
const FILES: &str = "5:filesld6:lengthi5e4:pathl1:d1:aeed6:lengthi7e4:pathl1:beee";
const ROOT: &str = "9:root hash20:rrrrrrrrrrrrrrrrrrrr";

fn v1() -> String {
    format!("d6:lengthi9e4:name3:one12:piece lengthi16e{}e", pieces(1))
}

fn v2() -> String {
    format!("d{TREE}12:meta versioni2e4:name3:new12:piece lengthi16384e{ROOT}e")
}

fn hybrid() -> String {
    format!(
        "d{TREE}{FILES}12:meta versioni2e4:name4:both12:piece lengthi16384e{}e",
        pieces(1)
    )
}

fn bare(info: &str) -> String {
    format!("d4:info{info}e")
}

fn full(info: &str) -> String {
    format!(
        "d8:announce28:udp://tracker.example:1337/a13:announce-listll28:udp://tracker.example:1337/a18:https://b.example/el16:ws://c.example/xee7:comment5:hello10:created by4:test13:creation datei1700000000e8:encoding5:UTF-89:httpseedsl20:http://seed.example/e4:info{info}5:nodesll9:127.0.0.1i6881eel14:router.examplei4804eee12:piece layersd2:k12:v12:k20:e13:publisher-url20:https://pub.example/10:signaturesd5:aliced11:certificate4:cert4:infode9:signature3:sigee8:url-listl18:https://d.example/ee"
    )
}

fn sha1_hex(hash: &InfoHashVersioned<'_>) -> Option<String> {
    match hash {
        InfoHashVersioned::V1(sha1) => Some(sha1.to_string()),
        InfoHashVersioned::V2(_) => None,
        InfoHashVersioned::Hybrid { sha1, .. } => Some(sha1.to_string()),
    }
}

fn sha2_hex(hash: &InfoHashVersioned<'_>) -> Option<String> {
    match hash {
        InfoHashVersioned::V1(_) => None,
        InfoHashVersioned::V2(sha2) => Some(sha2.to_string()),
        InfoHashVersioned::Hybrid { sha2, .. } => Some(sha2.to_string()),
    }
}

#[test]
fn torrent_is_written_as_it_was_read() {
    for info in [v1(), v2(), hybrid()] {
        for text in [bare(&info), full(&info)] {
            let torrent = Torrent::decode(text.as_bytes()).unwrap();
            assert_eq!(torrent.encode(), text.clone().into_bytes());
            assert_eq!(torrent.se_to_bytes(), text.clone().into_bytes());
            assert_eq!(torrent.se_to_string(), Some(text.clone()));
            let strict = Torrent::decode_with(text.as_bytes(), STRICT).unwrap();
            assert_eq!(strict.encode(), text.clone().into_bytes());
            assert_eq!(Torrent::de_from_bytes(text.as_bytes()).unwrap().encode(), text.as_bytes());
            assert_eq!(Torrent::de_from_str(&text).unwrap().encode(), text.as_bytes());
            let value = from_bytes(text.as_bytes()).unwrap();
            assert_eq!(Value::Dict(torrent.serialize()), value);
        }
    }
}

#[test]
fn torrent_fields_are_those_of_the_wire() {
    let torrent = Torrent::decode(full(&v1()).as_bytes()).unwrap();
    assert_eq!(torrent.name(), "one");
    assert_eq!(torrent.announce().as_ref().unwrap().as_str(), "udp://tracker.example:1337/a");
    let tiers = torrent.announce_list().as_ref().unwrap();
    assert_eq!(tiers.len(), 2);
    assert_eq!(tiers[0].len(), 2);
    assert_eq!(tiers[0][1].as_str(), "https://b.example/");
    assert_eq!(tiers[1][0].as_str(), "ws://c.example/x");
    assert_eq!(torrent.comment().as_deref(), Some("hello"));
    assert_eq!(torrent.created_by().as_deref(), Some("test"));
    assert_eq!(torrent.creation_date(), Some(1_700_000_000));
    assert_eq!(torrent.encoding().as_deref(), Some("UTF-8"));
    assert_eq!(torrent.httpseeds().as_ref().unwrap()[0].as_str(), "http://seed.example/");
    let nodes = torrent.nodes().as_ref().unwrap();
    assert_eq!(nodes.len(), 2);
    assert_eq!(nodes[0].as_uri().as_str(), "127.0.0.1:6881");
    assert_eq!(nodes[1].serialize(), (b"router.example".to_vec(), 4804));
    let layers = torrent.piece_layers().as_ref().unwrap();
    assert_eq!(layers.len(), 2);
    assert_eq!(layers[0].0.as_slice(), b"k1");
    assert_eq!(layers[0].1.as_slice(), b"v1");
    assert!(layers[1].1.is_empty());
    assert_eq!(torrent.publisher_url().as_ref().unwrap().as_str(), "https://pub.example/");
    let signatures = torrent.signatures().as_ref().unwrap();
    assert_eq!(signatures[0].0, "alice");
    assert_eq!(signatures[0].1.certificate.as_deref(), Some("cert"));
    assert!(signatures[0].1.info.is_some());
    assert_eq!(signatures[0].1.signature.as_slice(), b"sig");
    assert_eq!(torrent.url_list().as_ref().unwrap()[0].as_str(), "https://d.example/");
    assert!(matches!(torrent.info(), MetaInfo::MetaV1(_)));
    let mut files = torrent.iter_files();
    assert_eq!(files.next().unwrap().name, "one");
    assert!(files.next().is_none());

    let torrent = Torrent::decode(bare(&v2()).as_bytes()).unwrap();
    assert!(torrent.announce().is_none());
    assert!(torrent.nodes().is_none());
    assert_eq!(torrent.creation_date(), None);
}

#[test]
fn info_hash_is_that_of_the_version() {
    let mut torrent = Torrent::decode(full(&v1()).as_bytes()).unwrap();
    let hash = torrent.info_hash();
    assert!(matches!(hash, InfoHashVersioned::V1(_)));
    assert_eq!(sha1_hex(&hash).unwrap(), "4ae6d02596fd2a855ac312a6e2a523ca925503b5");

    let mut torrent = Torrent::decode(bare(&v2()).as_bytes()).unwrap();
    let hash = torrent.info_hash();
    assert!(matches!(hash, InfoHashVersioned::V2(_)));
    assert_eq!(
        sha2_hex(&hash).unwrap(),
        "7f50528358be74b2e46130c384c3c4fb7ca88ecdf80005c0cb527b96454f0f71"
    );

    let mut torrent = Torrent::decode(bare(&hybrid()).as_bytes()).unwrap();
    let hash = torrent.info_hash();
    assert!(matches!(hash, InfoHashVersioned::Hybrid { .. }));
    assert_eq!(sha1_hex(&hash).unwrap(), "3085accfb11ce4e784f48f97ed71fffb16ca9ce0");
    assert_eq!(
        sha2_hex(&hash).unwrap(),
        "b7622bfd49df1c5607c1909a104dd8ae9de0cffa3de84a61ef4a7d1cd653d98c"
    );
}

#[test]
fn info_hash_is_computed_once() {
    let mut torrent = Torrent::decode(bare(&hybrid()).as_bytes()).unwrap();
    assert_eq!(torrent.info_hash_computations(), 0);
    assert!(torrent.info_hash_computed().is_none());
    let first = (sha1_hex(&torrent.info_hash()), sha2_hex(&torrent.info_hash()));
    assert_eq!(torrent.info_hash_computations(), 1);
    for _ in 0..5 {
        let again = torrent.info_hash();
        assert_eq!((sha1_hex(&again), sha2_hex(&again)), first);
    }
    assert_eq!(torrent.info_hash_computations(), 1);
    let kept = torrent.info_hash_computed().unwrap();
    assert_eq!(sha1_hex(&kept), first.0);
    // the hash is that of the info dictionary as it is written
    assert_eq!(info_bytes(torrent.info()), hybrid().into_bytes());
    let both = InfoHashAny::calculate_infohash(torrent.info());
    assert_eq!(Some(both.sha1().to_string()), first.0);
    assert_eq!(Some(both.sha2().to_string()), first.1);
    assert_eq!(Sha1::calculate_infohash(torrent.info()), *both.sha1());
    assert_eq!(Sha2::calculate_infohash(torrent.info()), *both.sha2());
}

#[test]
fn info_hashes_of_two_versions_are_never_the_same() {
    let one = Sha1::new([1; 20]);
    let other = Sha1::new([2; 20]);
    let long = Sha2::new([1; 32]);
    let longer = Sha2::new([3; 32]);
    assert!(InfoHashVersioned::V1(&one) == InfoHashVersioned::V1(&one));
    assert!(InfoHashVersioned::V1(&one) != InfoHashVersioned::V1(&other));
    assert!(InfoHashVersioned::V2(&long) == InfoHashVersioned::V2(&long));
    assert!(InfoHashVersioned::V2(&long) != InfoHashVersioned::V2(&longer));
    assert!(InfoHashVersioned::V1(&one) != InfoHashVersioned::V2(&long));
    assert!(InfoHashVersioned::V2(&long) != InfoHashVersioned::V1(&one));
    let both = InfoHashVersioned::Hybrid { sha1: &one, sha2: &long };
    assert!(both == InfoHashVersioned::Hybrid { sha1: &one, sha2: &long });
    assert!(both != InfoHashVersioned::Hybrid { sha1: &other, sha2: &long });
    assert!(both != InfoHashVersioned::Hybrid { sha1: &one, sha2: &longer });
    assert!(both != InfoHashVersioned::V1(&one));
    assert!(both != InfoHashVersioned::V2(&long));
}

#[test]
fn torrent_that_is_no_bencode() {
    match Torrent::decode(b"d4:infod").unwrap_err() {
        ParseTorrentError::Bencode(trail) => {
            assert_eq!(trail.frame(0).source(), BertErrorKind::Grammar(GrammarKind::Eof));
            assert_eq!(
                trail.frame(trail.len() - 1).source(),
                BertErrorKind::Context(ContextLabel::Dictionary)
            );
            assert_eq!(trail.frame(trail.len() - 1).input(), b"d4:infod");
        }
        other => panic!("{other:?}"),
    }
    assert!(matches!(Torrent::decode(b"").unwrap_err(), ParseTorrentError::Bencode(_)));
    assert!(matches!(
        Torrent::decode(format!("{}x", bare(&v1())).as_bytes()).unwrap_err(),
        ParseTorrentError::Bencode(_)
    ));
    assert_eq!(
        Torrent::decode(b"i1e").unwrap_err(),
        ParseTorrentError::InvalidType { field: Field::Torrent, expected: ValueKind::Dict }
    );
    assert_eq!(
        Torrent::decode(b"le").unwrap_err(),
        ParseTorrentError::InvalidType { field: Field::Torrent, expected: ValueKind::Dict }
    );
}

#[test]
fn torrent_that_is_no_torrent() {
    let decode = |text: String| Torrent::decode(text.as_bytes()).map(|t| t.name().to_string());
    assert_eq!(decode("de".into()).unwrap_err(), ParseTorrentError::MissingField(Field::Info));
    assert_eq!(
        decode("d4:infoi1ee".into()).unwrap_err(),
        ParseTorrentError::InvalidType { field: Field::Info, expected: ValueKind::Dict }
    );
    assert_eq!(
        decode(format!("d8:announce11:/etc/shadow4:info{}e", v1())).unwrap_err(),
        ParseTorrentError::Uri { field: Field::Announce, error: UriError::Relative }
    );
    assert_eq!(
        decode(format!("d8:announce16:file://host/path4:info{}e", v1())).unwrap_err(),
        ParseTorrentError::Uri { field: Field::Announce, error: UriError::InvalidScheme }
    );
    assert_eq!(
        decode(format!("d8:announcei1e4:info{}e", v1())).unwrap_err(),
        ParseTorrentError::InvalidType { field: Field::Announce, expected: ValueKind::Bytes }
    );
    assert_eq!(
        decode(format!("d13:announce-listl1:ae4:info{}e", v1())).unwrap_err(),
        ParseTorrentError::InvalidType { field: Field::AnnounceList, expected: ValueKind::List }
    );
    assert_eq!(
        decode(format!("d7:comment2:\u{0}\u{0}13:creation datei-1e4:info{}e", v1())).unwrap_err(),
        ParseTorrentError::InvalidValue { field: Field::CreationDate }
    );
    assert_eq!(
        decode(format!("d4:info{}5:nodesl9:127.0.0.1ee", v1())).unwrap_err(),
        ParseTorrentError::InvalidType { field: Field::Nodes, expected: ValueKind::List }
    );
    assert_eq!(
        decode(format!("d4:info{}12:piece layersd1:ai1eee", v1())).unwrap_err(),
        ParseTorrentError::InvalidType { field: Field::PieceLayers, expected: ValueKind::Bytes }
    );
    assert_eq!(
        decode(format!("d4:info{}10:signaturesd1:adeee", v1())).unwrap_err(),
        ParseTorrentError::MissingField(Field::Signature)
    );
    assert_eq!(
        decode(format!("d4:info{}8:url-listl3:a bee", v1())).unwrap_err(),
        ParseTorrentError::Uri { field: Field::UrlList, error: UriError::Invalid }
    );
    assert_eq!(decode(format!("d4:info{}5:zebrai1ee", v1())), Ok("one".to_string()));
    assert_eq!(
        Torrent::decode_with(format!("d4:info{}5:zebrai1ee", v1()).as_bytes(), STRICT).unwrap_err(),
        ParseTorrentError::UnknownField { within: Field::Torrent, index: 1 }
    );
    assert_eq!(default_options().strict, false);
}

#[test]
fn values_of_every_kind() {
    let text = b"d1:ai-3e1:bl4:spamlee1:cd0:0:ee";
    let value = from_bytes(text).unwrap();
    assert_eq!(
        value,
        Value::Dict(vec![
            (b"a".to_vec(), Value::Int(-3)),
            (
                b"b".to_vec(),
                Value::List(vec![Value::Bytes(b"spam".to_vec()), Value::List(vec![])])
            ),
            (b"c".to_vec(), Value::Dict(vec![(vec![], Value::Bytes(vec![]))])),
        ])
    );
    assert_eq!(to_bytes(&value), text.to_vec());
    assert_eq!(value.as_dict().unwrap().len(), 3);
    assert!(value.as_int().is_none() && value.as_bytes().is_none() && value.as_list().is_none());
    let pairs = value.as_dict().unwrap();
    assert_eq!(lookup(pairs, "b"), Some(1));
    assert_eq!(lookup(pairs, "d"), None);
    assert_eq!(pairs[0].1.as_int(), Some(-3));
    assert_eq!(pairs[1].1.as_list().unwrap()[0].as_bytes(), Some(&b"spam"[..]));

    // the order of a dictionary is kept as it was read, and so is a key twice
    let text = b"d1:bi1e1:ai2e1:bi3ee";
    let value = from_bytes(text).unwrap();
    assert_eq!(to_bytes(&value), text.to_vec());
    assert_eq!(lookup(value.as_dict().unwrap(), "b"), Some(0));

    let (value, rest) = decode_value(b"i7e4:rest", MAX_DEPTH).unwrap();
    assert_eq!((value, rest), (Value::Int(7), &b"4:rest"[..]));
}

#[test]
fn values_that_are_none() {
    let kinds = |text: &[u8]| -> Vec<BertErrorKind> {
        let trail = from_bytes(text).unwrap_err();
        (0..trail.len()).map(|i| trail.frame(i).source()).collect()
    };
    assert_eq!(kinds(b""), vec![BertErrorKind::Grammar(GrammarKind::Eof)]);
    assert_eq!(
        kinds(b"x"),
        vec![
            BertErrorKind::Grammar(GrammarKind::Alt),
            BertErrorKind::Context(ContextLabel::Value)
        ]
    );
    assert_eq!(
        kinds(b"li1e"),
        vec![
            BertErrorKind::Grammar(GrammarKind::Eof),
            BertErrorKind::Context(ContextLabel::List)
        ]
    );
    assert_eq!(
        kinds(b"di1ei2ee"),
        vec![
            BertErrorKind::Grammar(GrammarKind::Digit),
            BertErrorKind::Context(ContextLabel::BytesLength),
            BertErrorKind::Context(ContextLabel::Bytes),
            BertErrorKind::Context(ContextLabel::DictionaryKey),
            BertErrorKind::Context(ContextLabel::Dictionary),
        ]
    );
    assert_eq!(
        kinds(b"ll5:abcd"),
        vec![
            BertErrorKind::Truncated { requested: 5, available: 4 },
            BertErrorKind::Context(ContextLabel::Bytes),
            BertErrorKind::Context(ContextLabel::List),
            BertErrorKind::Context(ContextLabel::List),
        ]
    );
    assert_eq!(
        kinds(b"i1ei2e"),
        vec![
            BertErrorKind::Grammar(GrammarKind::Eof),
            BertErrorKind::Context(ContextLabel::Value)
        ]
    );
    assert_eq!(kinds(b"i9223372036854775808e").len(), 3);
}

#[test]
fn values_nested_too_deep_are_refused() {
    let deep = |depth: usize| {
        let mut text = "l".repeat(depth);
        text.push_str(&"e".repeat(depth));
        text.into_bytes()
    };
    assert!(from_bytes(&deep(MAX_DEPTH)).is_ok());
    let trail = from_bytes(&deep(MAX_DEPTH + 1)).unwrap_err();
    assert_eq!(trail.frame(0).source(), BertErrorKind::Grammar(GrammarKind::TooLarge));
    assert_eq!(trail.len(), MAX_DEPTH + 2);
    assert!(from_bytes(&deep(100_000)).is_err());
    assert!(decode_value(b"le", 0).is_err());
    assert!(decode_value(b"le", 1).is_ok());
    assert!(decode_value(b"i1e", 0).is_ok());
}

#[test]
fn fields_of_a_dictionary() {
    let value = from_bytes(b"d6:lengthi4e4:name1:n4:name1:m3:rawi1ee").unwrap();
    let pairs = value.as_dict().unwrap();
    assert_eq!(find(pairs, Field::Length), Some(0));
    assert_eq!(find(pairs, Field::Name), Some(1));
    assert_eq!(find(pairs, Field::Pieces), None);
    assert_eq!(opt_int(pairs, Field::Length), Ok(Some(4)));
    assert_eq!(opt_int(pairs, Field::Pieces), Ok(None));
    assert_eq!(
        opt_int(pairs, Field::Name),
        Err(ParseTorrentError::InvalidType { field: Field::Name, expected: ValueKind::Int })
    );
    assert_eq!(opt_text(pairs, Field::Name), Ok(Some("n".to_string())));
    let known = vec![Field::Length, Field::Name];
    assert!(is_known(&known, b"name"));
    assert!(!is_known(&known, b"raw"));
    assert_eq!(
        check_keys(pairs, &known, Field::Info, true),
        Err(ParseTorrentError::UnknownField { within: Field::Info, index: 3 })
    );
    assert_eq!(check_keys(pairs, &known, Field::Info, false), Ok(()));
    assert_eq!(key(Field::PieceLayers), "piece layers");
    assert_eq!(key(Field::CreatedBy), "created by");
    assert_eq!(key(Field::SymlinkPath), "symlink path");
    assert_eq!(key(Field::PublisherUrl), "publisher-url");
}

#[test]
fn values_say_their_kind() {
    assert_eq!(Value::Int(1).kind(), ValueKind::Int);
    assert_eq!(Value::Bytes(vec![]).kind(), ValueKind::Bytes);
    assert_eq!(Value::List(vec![]).kind(), ValueKind::List);
    assert_eq!(Value::Dict(vec![]).kind(), ValueKind::Dict);
}

#[test]
fn failure_without_a_trail() {
    let cause = BencodeErrorKind::Unicode { valid_up_to: 2 };
    let error = BencodeError::from_bytes_source(Some(b"ab\xff"), cause);
    assert_eq!(error.bytes(), Some(&b"ab\xff"[..]));
    assert_eq!(error.source(), cause);
    let error = BencodeError::from_bytes_source(None, cause);
    assert_eq!(error.bytes(), None);
}

fn same_value(mine: &Value, theirs: &serde_bencode::value::Value) -> bool {
    match (mine, theirs) {
        (Value::Int(a), serde_bencode::value::Value::Int(b)) => a == b,
        (Value::Bytes(a), serde_bencode::value::Value::Bytes(b)) => a == b,
        (Value::List(a), serde_bencode::value::Value::List(b)) => {
            a.len() == b.len() && a.iter().zip(b).all(|(x, y)| same_value(x, y))
        }
        (Value::Dict(a), serde_bencode::value::Value::Dict(b)) => {
            a.len() == b.len()
                && a.iter().all(|(key, x)| b.get(key).is_some_and(|y| same_value(x, y)))
        }
        _ => false,
    }
}

#[test]
fn codec_agrees_with_another_codec() {
    let texts = [
        full(&v1()),
        full(&v2()),
        full(&hybrid()),
        "d1:ai-3e1:bl4:spamlee1:cd0:0:ee".to_string(),
        "i0e".to_string(),
        "le".to_string(),
    ];
    for text in texts {
        let mine = from_bytes(text.as_bytes()).unwrap();
        let theirs: serde_bencode::value::Value = serde_bencode::from_bytes(text.as_bytes()).unwrap();
        assert!(same_value(&mine, &theirs), "{text}");
        assert_eq!(to_bytes(&mine), serde_bencode::to_bytes(&theirs).unwrap(), "{text}");
    }
}
