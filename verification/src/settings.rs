//! Where a client keeps its settings.
//!
//! The directories of a machine are read elsewhere. What is decided here is
//! which of the entries that were found are directories of settings.

use crate::text::bytes_eq;
use vstd::prelude::*;
use vstd::string::StringSliceAdditionalSpecFns;

verus! {

/// The directory of the graphical client.
pub const TRANSMISSION_GUI: &'static str = "transmission";

/// The directory of the command line client.
pub const TRANSMISSION_CLI: &'static str = "transmission-cli";

/// The directory of the daemon.
pub const TRANSMISSION_DAEMON: &'static str = "transmission-daemon";

/// The variable of the environment that names the directory of settings.
pub const TRANSMISSION_ENV: &'static str = "TRANSMISSION_HOME";

/// An entry of a directory: its name, and whether it is a directory itself.
#[derive(Debug)]
pub struct DirEntry {
    pub name: String,
    pub is_dir: bool,
}

/// Whether `name` is one of `directories`.
pub open spec fn spec_is_listed(directories: Seq<&str>, name: Seq<char>) -> bool {
    exists|j: int| 0 <= j < directories.len() && (#[trigger] directories[j])@ == name
}

/// Whether an entry is a directory of settings: a directory whose name is
/// one of `directories`.
pub open spec fn spec_is_settings_dir(entry: DirEntry, directories: Seq<&str>) -> bool {
    entry.is_dir && spec_is_listed(directories, entry.name@)
}

/// The names of the entries from `from` on that are directories of
/// settings, in their order.
pub open spec fn spec_settings_dirs(entries: Seq<DirEntry>, directories: Seq<&str>, from: int) -> Seq<
    Seq<char>,
>
    decreases entries.len() - from,
{
    if from < 0 || from >= entries.len() {
        Seq::empty()
    } else if spec_is_settings_dir(entries[from], directories) {
        seq![entries[from].name@] + spec_settings_dirs(entries, directories, from + 1)
    } else {
        spec_settings_dirs(entries, directories, from + 1)
    }
}

/// Whether `name` is one of `directories`.
pub fn is_listed(directories: &Vec<&str>, name: &str) -> (r: bool)
    ensures
        r == spec_is_listed(directories@, name@),
{
    let mut j: usize = 0;
    while j < directories.len()
        invariant
            j <= directories@.len(),
            forall|k: int| 0 <= k < j ==> (#[trigger] directories@[k])@ != name@,
        decreases directories@.len() - j,
    {
        if bytes_eq(directories[j].as_bytes(), name.as_bytes()) {
            proof {
                vstd::utf8::encode_utf8_decode_utf8(directories@[j as int]@);
                vstd::utf8::encode_utf8_decode_utf8(name@);
            }
            return true;
        }
        proof {
            if directories@[j as int]@ == name@ {
                assert(directories@[j as int].spec_bytes() == name.spec_bytes());
            }
        }
        j += 1;
    }
    false
}

/// The texts of strings, as contracts see them.
pub open spec fn spec_names(names: Seq<String>) -> Seq<Seq<char>> {
    Seq::new(names.len(), |i: int| names[i]@)
}

/// Of the entries of a directory, the names of those that are directories
/// of settings, in their order; `None` where there is none.
pub fn check_settings_dirs(entries: &Vec<DirEntry>, directories: &Vec<&str>) -> (r: Option<
    Vec<String>,
>)
    ensures
        spec_settings_dirs(entries@, directories@, 0).len() == 0 ==> r is None,
        spec_settings_dirs(entries@, directories@, 0).len() > 0 ==> (r matches Some(found)
            && spec_names(found@) == spec_settings_dirs(entries@, directories@, 0)),
{
    let mut found: Vec<String> = Vec::new();
    let mut i: usize = 0;
    assert(spec_names(found@) + spec_settings_dirs(entries@, directories@, 0)
        =~= spec_settings_dirs(entries@, directories@, 0));
    while i < entries.len()
        invariant
            i <= entries@.len(),
            spec_names(found@) + spec_settings_dirs(entries@, directories@, i as int)
                == spec_settings_dirs(entries@, directories@, 0),
        decreases entries@.len() - i,
    {
        if entries[i].is_dir && is_listed(directories, entries[i].name.as_str()) {
            let name = entries[i].name.clone();
            proof {
                let before = spec_names(found@);
                let rest = spec_settings_dirs(entries@, directories@, i + 1);
                assert(spec_names(found@.push(name)) =~= before + seq![name@]);
                assert((before + seq![name@]) + rest =~= before + (seq![name@] + rest));
            }
            found.push(name);
        }
        i += 1;
    }
    assert(spec_names(found@) + Seq::<Seq<char>>::empty() =~= spec_names(found@));
    if found.len() == 0 {
        None
    } else {
        Some(found)
    }
}

/// The settings of a Transmission client.
#[derive(Debug, Clone, Copy, PartialEq, Eq, Default)]
pub struct Settings {}

impl Settings {
    /// The names under which Transmission keeps its settings.
    pub fn directories() -> (r: Vec<&'static str>)
        ensures
            r@ == seq![TRANSMISSION_GUI, TRANSMISSION_CLI, TRANSMISSION_DAEMON],
    {
        let mut names: Vec<&'static str> = Vec::new();
        names.push(TRANSMISSION_GUI);
        names.push(TRANSMISSION_CLI);
        names.push(TRANSMISSION_DAEMON);
        assert(names@ =~= seq![TRANSMISSION_GUI, TRANSMISSION_CLI, TRANSMISSION_DAEMON]);
        names
    }

    /// The directories of settings. Where the environment names a directory
    /// and the directory is there, that is the one. Else the directories in
    /// which the machine keeps settings are looked through in their order,
    /// and the first in which any directory of Transmission is found gives
    /// the answer.
    pub fn settings_dirs(home: Option<String>, home_exists: bool, listings: &Vec<Vec<DirEntry>>) -> (r:
        Option<Vec<String>>)
        ensures
            home is Some && home_exists ==> (r matches Some(found) && spec_names(found@) == seq![
                home->Some_0@,
            ]),
            !(home is Some && home_exists) ==> match spec_first_listing(listings@, 0) {
                Some(at) => r matches Some(found) && spec_names(found@) == spec_settings_dirs(
                    listings@[at]@,
                    seq![TRANSMISSION_GUI, TRANSMISSION_CLI, TRANSMISSION_DAEMON],
                    0,
                ),
                None => r is None,
            },
    {
        match &home {
            Some(path) => {
                if home_exists {
                    let mut found: Vec<String> = Vec::new();
                    found.push(path.clone());
                    assert(spec_names(found@) =~= seq![path@]);
                    return Some(found);
                }
            },
            None => {},
        }
        let directories = Self::directories();
        let mut i: usize = 0;
        while i < listings.len()
            invariant
                i <= listings@.len(),
                !(home is Some && home_exists),
                directories@ == seq![TRANSMISSION_GUI, TRANSMISSION_CLI, TRANSMISSION_DAEMON],
                spec_first_listing(listings@, 0) == spec_first_listing(listings@, i as int),
            decreases listings@.len() - i,
        {
            match check_settings_dirs(&listings[i], &directories) {
                Some(found) => {
                    return Some(found);
                },
                None => {},
            }
            i += 1;
        }
        None
    }
}

/// The place of the first listing from `from` on in which a directory of
/// Transmission is found.
pub open spec fn spec_first_listing(listings: Seq<Vec<DirEntry>>, from: int) -> Option<int>
    decreases listings.len() - from,
{
    if from < 0 || from >= listings.len() {
        None
    } else if spec_settings_dirs(
        listings[from]@,
        seq![TRANSMISSION_GUI, TRANSMISSION_CLI, TRANSMISSION_DAEMON],
        0,
    ).len() > 0 {
        Some(from)
    } else {
        spec_first_listing(listings, from + 1)
    }
}

} // verus!
