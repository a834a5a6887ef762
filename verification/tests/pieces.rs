use star_cloudburst::error::Field;
use star_cloudburst::error::ParseTorrentError;
use star_cloudburst::pieces::PieceLength;
use star_cloudburst::pieces::Pieces;
use star_cloudburst::pieces::MIN_PIECE_LENGTH;
use star_cloudburst::pieces::MIN_PIECE_LENGTH_KIB;
use star_cloudburst::pieces::SHA1_LEN;
use star_cloudburst::settings::check_settings_dirs;
use star_cloudburst::settings::is_listed;
use star_cloudburst::settings::DirEntry;
use star_cloudburst::settings::Settings;
use star_cloudburst::settings::TRANSMISSION_ENV;

#[test]
fn piece_length_is_a_power_of_two_at_least_the_bound() {
    assert_eq!(MIN_PIECE_LENGTH, 16);
    assert_eq!(MIN_PIECE_LENGTH_KIB, 16 * 1024);
    assert_eq!(PieceLength::new(16).unwrap().get(), 16);
    assert_eq!(PieceLength::new(16384).unwrap().get(), 16384);
    assert_eq!(PieceLength::new(1 << 62).unwrap().get(), 1 << 62);
    assert_eq!(PieceLength::new(8), Err(ParseTorrentError::PieceLength(8)));
    assert_eq!(PieceLength::new(0), Err(ParseTorrentError::PieceLength(0)));
    assert_eq!(PieceLength::new(24), Err(ParseTorrentError::PieceLength(24)));
    assert_eq!(PieceLength::new(1 << 63), Err(ParseTorrentError::PieceLength(1 << 63)));
    assert_eq!(PieceLength::new(u64::MAX), Err(ParseTorrentError::PieceLength(u64::MAX)));
    // the bound of BEP 52 is another one
    assert!(PieceLength::with_minimum(16384, MIN_PIECE_LENGTH_KIB).is_ok());
    assert_eq!(
        PieceLength::with_minimum(8192, MIN_PIECE_LENGTH_KIB),
        Err(ParseTorrentError::PieceLength(8192))
    );
    assert!(PieceLength::with_minimum(1, 0).is_ok());
    assert!(PieceLength::is_power_of_two(1024));
    assert!(!PieceLength::is_power_of_two(1023));
    assert!(!PieceLength::is_power_of_two(0));
    assert!(PieceLength::new(32).unwrap() < PieceLength::new(64).unwrap());
}

#[test]
fn piece_length_from_the_wire() {
    assert_eq!(PieceLength::deserialize(262144).unwrap().get(), 262144);
    assert_eq!(
        PieceLength::deserialize(0),
        Err(ParseTorrentError::InvalidValue { field: Field::PieceLength })
    );
    assert_eq!(
        PieceLength::deserialize(-16),
        Err(ParseTorrentError::InvalidValue { field: Field::PieceLength })
    );
    assert_eq!(PieceLength::deserialize(15), Err(ParseTorrentError::PieceLength(15)));
    assert_eq!(PieceLength::deserialize(48), Err(ParseTorrentError::PieceLength(48)));
}

#[test]
fn pieces_are_digests_of_twenty_bytes() {
    assert_eq!(SHA1_LEN, 20);
    let bytes: Vec<u8> = (0..60).collect();
    let pieces = Pieces::deserialize(&bytes).unwrap();
    assert_eq!(pieces.len(), 3);
    assert!(!pieces.is_empty());
    assert_eq!(pieces.as_slice(), &bytes[..]);
    assert_eq!(pieces.piece(1), &bytes[20..40]);
    let chunks = pieces.iter_pieces_bytes();
    assert_eq!(chunks, vec![&bytes[..20], &bytes[20..40], &bytes[40..]]);
    let digests = pieces.iter_sha1();
    assert_eq!(digests.len(), 3);
    assert_eq!(digests[2].as_slice(), &bytes[40..]);

    let none = Pieces::deserialize(&[]).unwrap();
    assert!(none.is_empty());
    assert_eq!(none.len(), 0);
    assert!(none.iter_sha1().is_empty());

    assert_eq!(
        Pieces::deserialize(&bytes[..59]),
        Err(ParseTorrentError::InvalidLength { field: Field::Pieces, actual: 59 })
    );
    assert_eq!(
        Pieces::deserialize(&[1]),
        Err(ParseTorrentError::InvalidLength { field: Field::Pieces, actual: 1 })
    );
}

fn entry(name: &str, is_dir: bool) -> DirEntry {
    DirEntry { name: name.to_string(), is_dir }
}

#[test]
fn settings_directories_are_picked_by_name() {
    let entries = vec![
        entry("transmission-daemon", true),
        entry("vlc", true),
        entry("transmission", false),
        entry("transmission", true),
        entry("Transmission", true),
    ];
    let names = Settings::directories();
    assert_eq!(names, vec!["transmission", "transmission-cli", "transmission-daemon"]);
    assert_eq!(
        check_settings_dirs(&entries, &names),
        Some(vec!["transmission-daemon".to_string(), "transmission".to_string()])
    );
    assert_eq!(check_settings_dirs(&entries[1..3].iter().map(|e| entry(&e.name, e.is_dir)).collect(), &names), None);
    assert_eq!(check_settings_dirs(&vec![], &names), None);
    assert!(is_listed(&names, "transmission-cli"));
    assert!(!is_listed(&names, "transmission-"));
    assert_eq!(TRANSMISSION_ENV, "TRANSMISSION_HOME");
}

#[test]
fn settings_directory_of_the_environment_comes_first() {
    let listings = vec![
        vec![entry("vlc", true)],
        vec![entry("transmission-cli", true)],
        vec![entry("transmission", true)],
    ];
    assert_eq!(
        Settings::settings_dirs(Some("/srv/tr".to_string()), true, &listings),
        Some(vec!["/srv/tr".to_string()])
    );
    // a directory that is named and not there is passed over
    assert_eq!(
        Settings::settings_dirs(Some("/srv/tr".to_string()), false, &listings),
        Some(vec!["transmission-cli".to_string()])
    );
    assert_eq!(
        Settings::settings_dirs(None, true, &listings),
        Some(vec!["transmission-cli".to_string()])
    );
    assert_eq!(Settings::settings_dirs(None, false, &vec![vec![entry("vlc", true)]]), None);
    assert_eq!(Settings::settings_dirs(None, false, &vec![]), None);
}
