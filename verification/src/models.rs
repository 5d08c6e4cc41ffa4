//! Transfer objects of the HTTP API and the `parent` argument shared by
//! several endpoints.
use vstd::prelude::*;

use crate::text::{chars_eq_str, parse_i64, parse_i64_spec, to_chars, trim, trim_str};

verus! {

/// A file or directory as the front end sees it.
#[derive(Debug, Clone)]
pub struct FileDto {
    pub id: i64,
    pub name: String,
    pub parent_id: Option<i64>,
    pub is_dir: bool,
    pub path: String,
    pub size: i64,
    pub mime: String,
    pub created_at: String,
    pub updated_at: String,
}

/// A directory of the directory tree with its sub-directories.
#[derive(Debug)]
pub struct TreeNode {
    pub id: i64,
    pub name: String,
    pub path: String,
    pub children: Vec<TreeNode>,
}

/// One entry of a UC share listing.
#[derive(Debug, Clone)]
pub struct UcFileDto {
    pub fid: String,
    pub name: String,
    pub size: i64,
    pub file: bool,
    pub format_type: String,
    pub share_fid_token: String,
}

/// Download parameters kept in the settings table.
#[derive(Debug, Clone, Copy, PartialEq, Eq, Structural)]
pub struct DownloadConfigDto {
    pub uc_connections: i64,
    pub http_connections: i64,
    pub max_running: i64,
}

/// The `parent` of a request: the storage root, a directory id, or something
/// that names no directory.
#[derive(Debug, Clone, Copy, PartialEq, Eq, Structural)]
pub enum ParentRef {
    Root,
    Id(i64),
    Invalid,
}

/// The `parent` field of a JSON request body, as far as its parsing reads it.
#[derive(Debug, Clone)]
pub enum JsonParent {
    /// The field is absent.
    Missing,
    Null,
    Str(String),
    /// A number that is an `i64`.
    Int(i64),
    /// Any other number (fractional, or beyond `i64`).
    OtherNumber,
    /// A boolean, array or object.
    Other,
}

/// `parent == null || parent === 'root' ? root : Number(parent)`.
pub open spec fn parent_from_json_spec(v: JsonParent) -> ParentRef {
    match v {
        JsonParent::Missing | JsonParent::Null => ParentRef::Root,
        JsonParent::Str(s) => if s@ == "root"@ {
            ParentRef::Root
        } else {
            match parse_i64_spec(trim(s@)) {
                Some(n) => ParentRef::Id(n),
                None => ParentRef::Invalid,
            }
        },
        JsonParent::Int(n) => ParentRef::Id(n),
        JsonParent::OtherNumber | JsonParent::Other => ParentRef::Invalid,
    }
}

/// `parent` of a query string: absent or `root` is the root, otherwise an integer.
pub open spec fn parent_from_query_spec(v: Option<Seq<char>>) -> ParentRef {
    match v {
        None => ParentRef::Root,
        Some(s) => if s == "root"@ {
            ParentRef::Root
        } else {
            match parse_i64_spec(s) {
                Some(n) => ParentRef::Id(n),
                None => ParentRef::Invalid,
            }
        },
    }
}

/// `parent` of a multipart form: absent or `root` is the root, otherwise a trimmed integer.
pub open spec fn parent_from_form_spec(v: Option<Seq<char>>) -> ParentRef {
    match v {
        None => ParentRef::Root,
        Some(s) => if s == "root"@ {
            ParentRef::Root
        } else {
            match parse_i64_spec(trim(s)) {
                Some(n) => ParentRef::Id(n),
                None => ParentRef::Invalid,
            }
        },
    }
}

fn is_root_word(s: &str) -> (r: bool)
    ensures
        r == (s@ == "root"@),
{
    let v = to_chars(s);
    chars_eq_str(&v, "root")
}

fn id_or_invalid(n: Option<i64>) -> (r: ParentRef)
    ensures
        r == (match n {
            Some(n) => ParentRef::Id(n),
            None => ParentRef::Invalid,
        }),
{
    match n {
        Some(n) => ParentRef::Id(n),
        None => ParentRef::Invalid,
    }
}

impl ParentRef {
    /// Reads the `parent` field of a JSON body.
    pub fn parse(v: &JsonParent) -> (r: ParentRef)
        ensures
            r == parent_from_json_spec(*v),
    {
        match v {
            JsonParent::Missing | JsonParent::Null => ParentRef::Root,
            JsonParent::Str(s) => {
                if is_root_word(s.as_str()) {
                    ParentRef::Root
                } else {
                    let t = trim_str(s.as_str());
                    id_or_invalid(parse_i64(t.as_str()))
                }
            },
            JsonParent::Int(n) => ParentRef::Id(*n),
            JsonParent::OtherNumber | JsonParent::Other => ParentRef::Invalid,
        }
    }
}

/// Reads the `parent` query parameter.
pub fn parent_from_query(value: Option<&str>) -> (r: ParentRef)
    ensures
        r == parent_from_query_spec(
            match value {
                Some(s) => Some(s@),
                None => None,
            },
        ),
{
    match value {
        None => ParentRef::Root,
        Some(s) => {
            if is_root_word(s) {
                ParentRef::Root
            } else {
                id_or_invalid(parse_i64(s))
            }
        },
    }
}

/// Reads the `parent` field of a multipart upload.
pub fn parse_parent_string(raw: Option<&str>) -> (r: ParentRef)
    ensures
        r == parent_from_form_spec(
            match raw {
                Some(s) => Some(s@),
                None => None,
            },
        ),
{
    match raw {
        None => ParentRef::Root,
        Some(s) => {
            if is_root_word(s) {
                ParentRef::Root
            } else {
                let t = trim_str(s);
                id_or_invalid(parse_i64(t.as_str()))
            }
        },
    }
}

} // verus!
