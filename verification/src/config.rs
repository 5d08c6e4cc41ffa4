//! Where the application keeps its data: the data directory and the files
//! in it, the storage root (which the settings may move), and the local
//! port the back end listens on.
use vstd::prelude::*;

use crate::files::{join_path, path_joined};
use crate::text::{parse_u64, parse_u64_spec, to_chars, trim, trim_str, from_char_range};

verus! {

/// The directories and files under the data directory.
#[derive(Debug, Clone)]
pub struct Paths {
    pub data_dir: String,
    pub gopeed_dir: String,
    pub db_dir: String,
    pub db_file: String,
    pub port_file: String,
}

impl Paths {
    /// The layout under `data_dir`: `gopeed/`, `data/`, `data/uc-drive.db`
    /// and `server.port`.
    pub fn new(data_dir: &str) -> (p: Paths)
        ensures
            p.data_dir@ == data_dir@,
            p.gopeed_dir@ == path_joined(data_dir@, "gopeed"@),
            p.db_dir@ == path_joined(data_dir@, "data"@),
            p.db_file@ == path_joined(path_joined(data_dir@, "data"@), "uc-drive.db"@),
            p.port_file@ == path_joined(data_dir@, "server.port"@),
    {
        let db_dir = join_path(data_dir, "data");
        let db_file = join_path(db_dir.as_str(), "uc-drive.db");
        Paths {
            data_dir: data_dir.to_owned(),
            gopeed_dir: join_path(data_dir, "gopeed"),
            db_dir,
            db_file,
            port_file: join_path(data_dir, "server.port"),
        }
    }
}

/// The storage root when the settings name none: the override, else
/// `storage/` in the data directory.
pub fn default_storage_dir(data_dir: &str, override_dir: Option<&str>) -> (d: String)
    ensures
        d@ == match override_dir {
            Some(p) => p@,
            None => path_joined(data_dir@, "storage"@),
        },
{
    match override_dir {
        Some(p) => p.to_owned(),
        None => join_path(data_dir, "storage"),
    }
}

/// The storage root in use.
#[derive(Debug, Clone)]
pub struct Storage {
    dir: String,
}

impl Storage {
    pub closed spec fn dir_view(&self) -> Seq<char> {
        self.dir@
    }

    pub fn new(dir: &str) -> (s: Storage)
        ensures
            s.dir_view() == dir@,
    {
        Storage { dir: dir.to_owned() }
    }

    /// The storage root.
    pub fn get(&self) -> (d: String)
        ensures
            d@ == self.dir_view(),
    {
        self.dir.clone()
    }

    /// Moves the storage root to `dir`.
    pub fn set(&mut self, dir: &str)
        ensures
            final(self).dir_view() == dir@,
    {
        self.dir = dir.to_owned();
    }

    /// The staging directory of offline downloads: `offline/` in the storage root.
    pub fn offline_dir(&self) -> (d: String)
        ensures
            d@ == path_joined(self.dir_view(), "offline"@),
    {
        join_path(self.dir.as_str(), "offline")
    }
}

/// The directories made sure of at start-up: the data directory, gopeed's
/// directory, the storage root, its staging directory and `tmp/`.
pub fn startup_dirs(paths: &Paths, storage: &Storage) -> (v: Vec<String>)
    ensures
        v@.map_values(|s: String| s@) == seq![
            paths.data_dir@,
            paths.gopeed_dir@,
            storage.dir_view(),
            path_joined(storage.dir_view(), "offline"@),
            path_joined(paths.data_dir@, "tmp"@),
        ],
{
    let mut v: Vec<String> = Vec::new();
    v.push(paths.data_dir.clone());
    v.push(paths.gopeed_dir.clone());
    v.push(storage.get());
    v.push(storage.offline_dir());
    v.push(join_path(paths.data_dir.as_str(), "tmp"));
    assert(v@.map_values(|s: String| s@) =~= seq![
        paths.data_dir@,
        paths.gopeed_dir@,
        storage.dir_view(),
        path_joined(storage.dir_view(), "offline"@),
        path_joined(paths.data_dir@, "tmp"@),
    ]);
    v
}

/// The directories made sure of after the storage root moved: those of
/// start-up and the database's directory.
pub fn settings_dirs(paths: &Paths, storage: &Storage) -> (v: Vec<String>)
    ensures
        v@.map_values(|s: String| s@) == seq![
            paths.data_dir@,
            paths.db_dir@,
            paths.gopeed_dir@,
            storage.dir_view(),
            path_joined(storage.dir_view(), "offline"@),
            path_joined(paths.data_dir@, "tmp"@),
        ],
{
    let mut v: Vec<String> = Vec::new();
    v.push(paths.data_dir.clone());
    v.push(paths.db_dir.clone());
    v.push(paths.gopeed_dir.clone());
    v.push(storage.get());
    v.push(storage.offline_dir());
    v.push(join_path(paths.data_dir.as_str(), "tmp"));
    assert(v@.map_values(|s: String| s@) =~= seq![
        paths.data_dir@,
        paths.db_dir@,
        paths.gopeed_dir@,
        storage.dir_view(),
        path_joined(storage.dir_view(), "offline"@),
        path_joined(paths.data_dir@, "tmp"@),
    ]);
    v
}

/// The storage root a settings request asks for: the trimmed `dir`, or
/// `None` (the default root) when it is absent or blank.
pub fn requested_storage_dir(dir: Option<&str>) -> (r: Option<String>)
    ensures
        match dir {
            None => r is None,
            Some(d) => if trim(d@).len() == 0 {
                r is None
            } else {
                r matches Some(s) && s@ == trim(d@)
            },
        },
{
    match dir {
        None => None,
        Some(d) => {
            let t = trim_str(d);
            if t.as_str().is_empty() {
                None
            } else {
                Some(t)
            }
        },
    }
}

/// A saved storage root is used when the setting is not empty.
pub fn saved_storage_dir(saved: &str) -> (r: Option<String>)
    ensures
        saved@.len() == 0 ==> r is None,
        saved@.len() > 0 ==> (r matches Some(s) && s@ == saved@),
{
    if saved.is_empty() {
        None
    } else {
        Some(saved.to_owned())
    }
}

// ---------------------------------------------------------------------------
// The local port
// ---------------------------------------------------------------------------

/// The first port tried.
pub const BASE_PORT: u16 = 17210;

/// Ports tried at most.
pub const PORT_TRIES: u16 = 20;

/// The search for a free local port: `base`, `base + 1`, … (saturating),
/// `tries` of them (at least one).  A base of 0 lets the system choose.
#[derive(Debug, Clone, Copy)]
pub struct PortSearch {
    pub base: u16,
    pub tries: u16,
    pub offset: u16,
}

/// `a + b`, or the largest `u16` when that overflows.
pub open spec fn sat_add(a: u16, b: u16) -> u16 {
    if a + b > u16::MAX {
        u16::MAX
    } else {
        (a + b) as u16
    }
}

impl PortSearch {
    pub fn new(base: u16, tries: u16) -> (s: PortSearch)
        ensures
            s.base == base,
            s.tries == (if tries == 0 {
                1
            } else {
                tries
            }),
            s.offset == 0,
    {
        PortSearch {
            base,
            tries: if tries == 0 {
                1
            } else {
                tries
            },
            offset: 0,
        }
    }

    /// The port to try now.
    pub fn port(&self) -> (p: u16)
        ensures
            p == sat_add(self.base, self.offset),
    {
        self.base.saturating_add(self.offset)
    }

    /// After the port was refused: move on when it was in use and tries are
    /// left; otherwise the search is over with that error.
    pub fn on_refused(&mut self, addr_in_use: bool) -> (go_on: bool)
        requires
            old(self).offset < old(self).tries,
        ensures
            go_on == (addr_in_use && old(self).offset + 1 < old(self).tries),
            go_on ==> final(self).offset == old(self).offset + 1,
            !go_on ==> final(self).offset == old(self).offset,
            final(self).base == old(self).base,
            final(self).tries == old(self).tries,
    {
        if addr_in_use && self.offset + 1 < self.tries {
            self.offset = self.offset + 1;
            true
        } else {
            false
        }
    }
}

/// Every port the search tries lies in the window it was given: from the
/// base up to `tries - 1` above it (where that stays within `u16`; beyond,
/// the largest port is tried).
pub proof fn law_port_in_window(s: PortSearch)
    requires
        s.offset < s.tries,
    ensures
        s.base <= sat_add(s.base, s.offset),
        s.base + s.tries <= u16::MAX + 1 ==> sat_add(s.base, s.offset) < s.base + s.tries,
{
}

/// The port written in the port file: the trimmed text as a `u16`.
pub open spec fn port_text_spec(text: Seq<char>) -> Option<u16> {
    match parse_u64_spec(trim(text)) {
        Some(v) => if v <= u16::MAX {
            Some(v as u16)
        } else {
            None
        },
        None => None,
    }
}

/// The port written in the port file, if it holds one.
pub fn parse_port(text: &str) -> (r: Option<u16>)
    ensures
        r == port_text_spec(text@),
{
    let t = trim_str(text);
    match parse_u64(t.as_str()) {
        Some(v) => if v <= 65535 {
            Some(v as u16)
        } else {
            None
        },
        None => None,
    }
}

/// The port file in the data directory.
pub fn port_file_path(data_dir: &str) -> (p: String)
    ensures
        p@ == path_joined(data_dir@, "server.port"@),
{
    join_path(data_dir, "server.port")
}

/// A Windows resource path without its `\\?\` prefix.
pub fn strip_verbatim(path: &str) -> (r: String)
    ensures
        r@ == (if "\\\\?\\"@.is_prefix_of(path@) {
            path@.skip(4)
        } else {
            path@
        }),
{
    let v = to_chars(path);
    let prefix = to_chars("\\\\?\\");
    proof {
        reveal_strlit("\\\\?\\");
    }
    if crate::text::starts_with_chars(&v, &prefix) {
        let r = from_char_range(&v, 4, v.len());
        assert(r@ =~= path@.skip(4));
        r
    } else {
        path.to_owned()
    }
}

} // verus!
