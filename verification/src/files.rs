//! The file tree: the file system is the source of truth and the `files`
//! table a cache of it.  This module holds what the file operations decide:
//! whether a path lies inside the storage root, which names are free, how a
//! directory listing is folded into the cache, what a rename or a move of
//! the storage root does to the stored paths.  The caller performs the file
//! system and database work in between.
use vstd::prelude::*;

use crate::error::{is_error, ApiError, IoFailure};
use crate::models::{FileDto, ParentRef, TreeNode};
use crate::text::{
    decimal, from_char_range, lower_text, norm_seq, norm_str, opt_seq, push_all, push_decimal,
    from_chars, starts_with_chars, valid_name, valid_name_spec, str_eq, to_chars, to_lowercase, trim_end_char,
    trim_end_char_str,
};
use vstd::string::StringSliceAdditionalSpecFns;
use vstd::utf8::{decode_utf8, encode_utf8, is_char_boundary};

verus! {

// ---------------------------------------------------------------------------
// Paths inside the storage root
// ---------------------------------------------------------------------------

/// The root as compared: normalised, without trailing slashes, lower-cased.
pub open spec fn root_key(root: Seq<char>) -> Seq<char> {
    lower_text(trim_end_char(norm_seq(root), '/'))
}

/// The target as compared: normalised and lower-cased.
pub open spec fn target_key(target: Seq<char>) -> Seq<char> {
    lower_text(norm_seq(target))
}

/// The UTF-8 text of `t` begins with that of `r` followed by a `/`.
pub open spec fn under_root(r: Seq<char>, t: Seq<char>) -> bool {
    let rb = encode_utf8(r);
    let tb = encode_utf8(t);
    rb.len() < tb.len() && tb.take(rb.len() as int) == rb && tb[rb.len() as int] == 0x2fu8
}

/// Where `target` lies relative to `root`, compared without regard to case
/// and slash direction: with an empty root the whole target, the root itself
/// the empty suffix, a path below it the bytes of `target` after the root and
/// its slash, and any other path nothing.
pub open spec fn relative_suffix_spec(root: Seq<char>, target: Seq<char>) -> Option<Seq<u8>> {
    let r = root_key(root);
    let t = target_key(target);
    if r.len() == 0 {
        Some(encode_utf8(target))
    } else if t == r {
        Some(Seq::empty())
    } else if under_root(r, t) {
        Some(encode_utf8(target).skip(encode_utf8(r).len() + 1int))
    } else {
        None
    }
}

/// The suffix of a path below the root starts on a character boundary of
/// the target.  (Lower-casing may change byte lengths, and then the cut
/// could fall inside a character.)
pub open spec fn suffix_cut_ok(root: Seq<char>, target: Seq<char>) -> bool {
    let r = root_key(root);
    let t = target_key(target);
    r.len() > 0 && t != r && under_root(r, t) ==> is_char_boundary(
        encode_utf8(target),
        encode_utf8(r).len() + 1int,
    )
}

/// How a target relates to a root.
enum SuffixCut {
    Whole,
    Empty,
    At(usize),
    Outside,
}

fn bytes_prefix(hay: &[u8], prefix: &[u8]) -> (r: bool)
    requires
        prefix.len() <= hay.len(),
    ensures
        r == (hay@.take(prefix@.len() as int) == prefix@),
{
    let mut i: usize = 0;
    while i < prefix.len()
        invariant
            prefix.len() <= hay.len(),
            i <= prefix.len(),
            forall|j: int| 0 <= j < i ==> hay@[j] == prefix@[j],
        decreases prefix.len() - i,
    {
        if hay[i] != prefix[i] {
            assert(hay@.take(prefix@.len() as int)[i as int] != prefix@[i as int]);
            return false;
        }
        i = i + 1;
    }
    assert(hay@.take(prefix@.len() as int) =~= prefix@);
    true
}

fn cut_point(root: &str, target: &str) -> (c: SuffixCut)
    ensures
        ({
            let r = root_key(root@);
            let t = target_key(target@);
            match c {
                SuffixCut::Whole => r.len() == 0,
                SuffixCut::Empty => r.len() > 0 && t == r,
                SuffixCut::At(k) => r.len() > 0 && t != r && under_root(r, t) && k == encode_utf8(
                    r,
                ).len() + 1,
                SuffixCut::Outside => r.len() > 0 && t != r && !under_root(r, t),
            }
        }),
{
    let rn = norm_str(root);
    let rt = trim_end_char_str(rn.as_str(), '/');
    let r = to_lowercase(rt.as_str());
    let tn = norm_str(target);
    let t = to_lowercase(tn.as_str());
    if r.as_str().is_empty() {
        return SuffixCut::Whole;
    }
    if t == r {
        return SuffixCut::Empty;
    }
    let rb = r.as_str().as_bytes();
    let tb = t.as_str().as_bytes();
    if rb.len() < tb.len() && bytes_prefix(tb, rb) && tb[rb.len()] == 0x2fu8 {
        SuffixCut::At(rb.len() + 1)
    } else {
        SuffixCut::Outside
    }
}

/// `target` relative to `root` (see [`relative_suffix_spec`]).
pub fn relative_suffix(root: &str, target: &str) -> (r: Option<String>)
    requires
        suffix_cut_ok(root@, target@),
    ensures
        match r {
            Some(s) => relative_suffix_spec(root@, target@) == Some(encode_utf8(s@)),
            None => relative_suffix_spec(root@, target@) is None,
        },
{
    match cut_point(root, target) {
        SuffixCut::Whole => Some(target.to_owned()),
        SuffixCut::Empty => {
            assert(encode_utf8(Seq::<char>::empty()) =~= Seq::<u8>::empty());
            Some(String::new())
        },
        SuffixCut::At(k) => {
            let (_, rest) = target.split_at(k);
            let s = rest.to_owned();
            assert(encode_utf8(s@) =~= encode_utf8(target@).skip(k as int));
            Some(s)
        },
        SuffixCut::Outside => None,
    }
}

/// [`relative_suffix`] where the suffix starts on a character boundary;
/// `None` where it would not.
pub fn relative_suffix_checked(root: &str, target: &str) -> (r: Option<Option<String>>)
    ensures
        r is None <==> !suffix_cut_ok(root@, target@),
        r matches Some(inner) ==> match inner {
            Some(s) => relative_suffix_spec(root@, target@) == Some(encode_utf8(s@)),
            None => relative_suffix_spec(root@, target@) is None,
        },
{
    match cut_point(root, target) {
        SuffixCut::At(k) => {
            if !target.is_char_boundary(k) {
                return None;
            }
        },
        _ => {},
    }
    Some(relative_suffix(root, target))
}

/// Refuses a target outside the storage root with 400 `非法路径`.
pub fn assert_inside(root: &str, target: &str) -> (r: Result<(), ApiError>)
    requires
        suffix_cut_ok(root@, target@),
    ensures
        relative_suffix_spec(root@, target@) is None ==> is_error(r, 400, "非法路径"@),
        relative_suffix_spec(root@, target@) is Some ==> r is Ok,
{
    if relative_suffix(root, target).is_none() {
        return Err(ApiError::bad_request("非法路径"));
    }
    Ok(())
}

/// [`assert_inside`] where the suffix starts on a character boundary; `None`
/// where it would not.
pub fn assert_inside_checked(root: &str, target: &str) -> (r: Option<Result<(), ApiError>>)
    ensures
        r is None <==> !suffix_cut_ok(root@, target@),
        r matches Some(inner) ==> (relative_suffix_spec(root@, target@) is None ==> is_error(
            inner,
            400,
            "非法路径"@,
        )) && (relative_suffix_spec(root@, target@) is Some ==> inner is Ok),
{
    match cut_point(root, target) {
        SuffixCut::At(k) => {
            if !target.is_char_boundary(k) {
                return None;
            }
        },
        _ => {},
    }
    Some(assert_inside(root, target))
}


// ---------------------------------------------------------------------------
// Rows of the file table
// ---------------------------------------------------------------------------

/// A row of the `files` table.
#[derive(Debug, Clone)]
pub struct FileRow {
    pub id: i64,
    pub name: String,
    pub parent_id: Option<i64>,
    pub is_dir: bool,
    pub path: String,
    pub size: i64,
    pub mime: String,
    pub created_at: String,
    pub updated_at: String,
}

impl FileRow {
    /// The row as the front end sees it: the same fields.
    pub fn dto(&self) -> (d: FileDto)
        ensures
            d.id == self.id,
            d.name@ == self.name@,
            d.parent_id == self.parent_id,
            d.is_dir == self.is_dir,
            d.path@ == self.path@,
            d.size == self.size,
            d.mime@ == self.mime@,
            d.created_at@ == self.created_at@,
            d.updated_at@ == self.updated_at@,
    {
        FileDto {
            id: self.id,
            name: self.name.clone(),
            parent_id: self.parent_id,
            is_dir: self.is_dir,
            path: self.path.clone(),
            size: self.size,
            mime: self.mime.clone(),
            created_at: self.created_at.clone(),
            updated_at: self.updated_at.clone(),
        }
    }
}

/// The parent column for a `parent` argument: none for the root, the id for
/// a directory, and 404 `目录不存在` for anything else.
pub fn parent_id(parent: &ParentRef) -> (r: Result<Option<i64>, ApiError>)
    ensures
        match *parent {
            ParentRef::Root => r == Ok::<Option<i64>, ApiError>(None),
            ParentRef::Id(id) => r == Ok::<Option<i64>, ApiError>(Some(id)),
            ParentRef::Invalid => is_error(r, 404, "目录不存在"@),
        },
{
    match parent {
        ParentRef::Root => Ok(None),
        ParentRef::Id(id) => Ok(Some(*id)),
        ParentRef::Invalid => Err(ApiError::not_found("目录不存在")),
    }
}

/// The answer to a failed file system operation.
pub fn io_error(err: &IoFailure) -> (e: ApiError)
    ensures
        e.status == crate::error::io_status(err.kind, err.raw_os_error),
        e.message@ == err.message@,
        e.kind is None,
{
    ApiError::from_io(err)
}

// ---------------------------------------------------------------------------
// Joining paths
// ---------------------------------------------------------------------------

/// What `std::path::Path::join` gives for a directory and a name, as text
/// (`to_string_lossy`): the separator and the treatment of absolute names
/// are those of the target platform.
pub uninterp spec fn path_joined(dir: Seq<char>, name: Seq<char>) -> Seq<char>;

/// The stored (normalised) path of `name` inside `dir`.
pub open spec fn entry_path(dir: Seq<char>, name: Seq<char>) -> Seq<char> {
    norm_seq(path_joined(dir, name))
}

/// Stored paths use forward slashes only, whatever separators the directory
/// and the name came with.
pub proof fn law_stored_paths_use_slashes(dir: Seq<char>, name: Seq<char>)
    ensures
        forall|i: int| 0 <= i < entry_path(dir, name).len() ==> #[trigger] entry_path(dir, name)[i] != '\\',
{
}

/// `std::path::Path::join` of `dir` and `name`, as text.
#[verifier::external_body]
pub(crate) fn join_path(dir: &str, name: &str) -> (p: String)
    ensures
        p@ == path_joined(dir@, name@),
{
    std::path::Path::new(dir).join(name).to_string_lossy().into_owned()
}

/// The stored path of `name` inside `dir`.
pub fn entry_path_of(dir: &str, name: &str) -> (p: String)
    ensures
        p@ == entry_path(dir@, name@),
{
    let j = join_path(dir, name);
    norm_str(j.as_str())
}

// ---------------------------------------------------------------------------
// Folding a directory listing into the cache
// ---------------------------------------------------------------------------

/// An entry of a directory on disk.
#[derive(Debug, Clone)]
pub struct DirEntryInfo {
    pub name: String,
    pub is_dir: bool,
    pub size: u64,
}

/// The value of a [`DirEntryInfo`].
pub struct DirEntryView {
    pub name: Seq<char>,
    pub is_dir: bool,
    pub size: u64,
}

impl View for DirEntryInfo {
    type V = DirEntryView;

    open spec fn view(&self) -> DirEntryView {
        DirEntryView { name: self.name@, is_dir: self.is_dir, size: self.size }
    }
}

/// A row of the `files` table to insert, or to refresh where it changed.
#[derive(Debug, Clone)]
pub struct Upsert {
    pub name: String,
    pub is_dir: bool,
    pub path: String,
    pub size: i64,
    pub mime: String,
}

/// The value of an [`Upsert`].
pub struct UpsertView {
    pub name: Seq<char>,
    pub is_dir: bool,
    pub path: Seq<char>,
    pub size: i64,
    pub mime: Seq<char>,
}

impl View for Upsert {
    type V = UpsertView;

    open spec fn view(&self) -> UpsertView {
        UpsertView {
            name: self.name@,
            is_dir: self.is_dir,
            path: self.path@,
            size: self.size,
            mime: self.mime@,
        }
    }
}

/// What a listing does to the cache: the rows to write, and the ids of the
/// rows whose entries are gone.
#[derive(Debug, Clone)]
pub struct ListPlan {
    pub upserts: Vec<Upsert>,
    pub deletes: Vec<i64>,
}

/// The values of some entries.
pub open spec fn entry_views(es: Seq<DirEntryInfo>) -> Seq<DirEntryView> {
    es.map_values(|e: DirEntryInfo| e@)
}

/// The row written for an entry of `dir`: directories have no MIME type,
/// files the type of their name.
pub open spec fn entry_upsert(dir: Seq<char>, e: DirEntryView) -> UpsertView {
    UpsertView {
        name: e.name,
        is_dir: e.is_dir,
        path: entry_path(dir, e.name),
        size: e.size as i64,
        mime: if e.is_dir {
            Seq::empty()
        } else {
            crate::mime::mime_spec(e.name)
        },
    }
}

/// The entries of `dir` that are listed: all but the staging directory of
/// offline downloads, in their order.
pub open spec fn kept_entries(offline: Seq<char>, dir: Seq<char>, es: Seq<DirEntryView>) -> Seq<DirEntryView>
    decreases es.len(),
{
    if es.len() == 0 {
        Seq::empty()
    } else {
        let prev = kept_entries(offline, dir, es.drop_last());
        if entry_path(dir, es.last().name) != offline {
            prev.push(es.last())
        } else {
            prev
        }
    }
}

/// Some entry of `dir` is stored under `path`.
pub open spec fn entries_contain(dir: Seq<char>, es: Seq<DirEntryView>, path: Seq<char>) -> bool {
    exists|i: int| 0 <= i < es.len() && entry_path(dir, es[i].name) == path
}

/// The ids of the rows that no listed entry is stored under, in their order.
pub open spec fn stale_rows(dir: Seq<char>, kept: Seq<DirEntryView>, rows: Seq<FileRow>) -> Seq<i64>
    decreases rows.len(),
{
    if rows.len() == 0 {
        Seq::empty()
    } else {
        let prev = stale_rows(dir, kept, rows.drop_last());
        if entries_contain(dir, kept, rows.last().path@) {
            prev
        } else {
            prev.push(rows.last().id)
        }
    }
}

/// A listing keeps exactly the entries that are not the staging directory
/// of offline downloads: every such entry is kept, and every kept entry is
/// an entry of the listing stored elsewhere than the staging directory.
pub proof fn law_kept_entries_exact(offline: Seq<char>, dir: Seq<char>, es: Seq<DirEntryView>)
    ensures
        forall|i: int|
            0 <= i < es.len() && entry_path(dir, es[i].name) != offline ==> kept_entries(offline, dir, es).contains(
                #[trigger] es[i],
            ),
        forall|j: int|
            0 <= j < kept_entries(offline, dir, es).len() ==> es.contains(
                #[trigger] kept_entries(offline, dir, es)[j],
            ) && entry_path(dir, kept_entries(offline, dir, es)[j].name) != offline,
        kept_entries(offline, dir, es).len() <= es.len(),
    decreases es.len(),
{
    if es.len() > 0 {
        let pe = es.drop_last();
        law_kept_entries_exact(offline, dir, pe);
        let prev = kept_entries(offline, dir, pe);
        let k = kept_entries(offline, dir, es);
        let n = es.len() - 1;
        assert forall|i: int| 0 <= i < es.len() && entry_path(dir, es[i].name) != offline implies k.contains(
            #[trigger] es[i]) by {
            if i < n {
                assert(es[i] == pe[i]);
                let j = choose|j: int| 0 <= j < prev.len() && prev[j] == pe[i];
                assert(k[j] == prev[j]);
            } else {
                assert(k[prev.len() as int] == es[n]);
            }
        }
        assert forall|j: int| 0 <= j < k.len() implies es.contains(#[trigger] k[j]) && entry_path(
            dir,
            k[j].name,
        ) != offline by {
            if j < prev.len() {
                assert(k[j] == prev[j]);
                let i = choose|i: int| 0 <= i < pe.len() && pe[i] == prev[j];
                assert(es[i] == pe[i]);
            } else {
                assert(k[j] == es[n]);
            }
        }
    }
}

/// A listing deletes exactly the cached rows that are gone: a row's id is
/// among the deletes when no listed entry is stored under its path, whether
/// the row is a file or a directory, and every id deleted is that of such a
/// row.
pub proof fn law_stale_rows_exact(dir: Seq<char>, kept: Seq<DirEntryView>, rows: Seq<FileRow>)
    ensures
        forall|i: int|
            0 <= i < rows.len() && !entries_contain(dir, kept, #[trigger] rows[i].path@) ==> stale_rows(
                dir,
                kept,
                rows,
            ).contains(rows[i].id),
        forall|j: int|
            0 <= j < stale_rows(dir, kept, rows).len() ==> exists|i: int|
                0 <= i < rows.len() && !entries_contain(dir, kept, rows[i].path@) && rows[i].id
                    == #[trigger] stale_rows(dir, kept, rows)[j],
    decreases rows.len(),
{
    if rows.len() > 0 {
        let prev_rows = rows.drop_last();
        law_stale_rows_exact(dir, kept, prev_rows);
        let prev = stale_rows(dir, kept, prev_rows);
        let st = stale_rows(dir, kept, rows);
        let n = rows.len() - 1;
        assert forall|i: int|
            0 <= i < rows.len() && !entries_contain(dir, kept, #[trigger] rows[i].path@) implies st.contains(
            rows[i].id) by {
            if i < n {
                assert(rows[i] == prev_rows[i]);
                let k = choose|k: int| 0 <= k < prev.len() && prev[k] == prev_rows[i].id;
                assert(st[k] == prev[k]);
            } else {
                assert(st[prev.len() as int] == rows[n].id);
            }
        }
        assert forall|j: int| 0 <= j < st.len() implies exists|i: int|
            0 <= i < rows.len() && !entries_contain(dir, kept, rows[i].path@) && rows[i].id
                == #[trigger] st[j] by {
            if j < prev.len() {
                assert(st[j] == prev[j]);
                let i = choose|i: int|
                    0 <= i < prev_rows.len() && !entries_contain(dir, kept, prev_rows[i].path@)
                        && prev_rows[i].id == prev[j];
                assert(rows[i] == prev_rows[i]);
            } else {
                assert(st[j] == rows[n].id);
            }
        }
    }
}

fn entries_contain_exec(dir: &str, row_path: &str, entries: &Vec<DirEntryInfo>) -> (r: bool)
    ensures
        r == entries_contain(dir@, entry_views(entries@), row_path@),
{
    let mut i: usize = 0;
    while i < entries.len()
        invariant
            i <= entries.len(),
            forall|j: int| 0 <= j < i ==> entry_path(dir@, #[trigger] entries@[j].name@) != row_path@,
        decreases entries.len() - i,
    {
        let p = entry_path_of(dir, entries[i].name.as_str());
        if str_eq(p.as_str(), row_path) {
            proof {
                assert(entry_views(entries@)[i as int].name == entries@[i as int].name@);
            }
            return true;
        }
        i = i + 1;
    }
    proof {
        assert forall|j: int| 0 <= j < entry_views(entries@).len() implies entry_path(
            dir@,
            #[trigger] entry_views(entries@)[j].name,
        ) != row_path@ by {
            assert(entry_views(entries@)[j].name == entries@[j].name@);
        }
    }
    false
}

/// Some entry of `dir` is stored under `row_path`.
pub fn entries_path_contains(dir: &str, row_path: &str, entries: &Vec<DirEntryInfo>) -> (r: bool)
    ensures
        r == entries_contain(dir@, entry_views(entries@), row_path@),
{
    entries_contain_exec(dir, row_path, entries)
}

/// Folds a listing of `dir_path` into the cache: every entry but the
/// staging directory of offline downloads is written, and every cached row
/// whose entry is gone is deleted.
pub fn plan_list_sync(storage: &str, dir_path: &str, entries: &Vec<DirEntryInfo>, existing: &Vec<FileRow>) -> (p: ListPlan)
    ensures
        ({
            let kept = kept_entries(entry_path(storage@, "offline"@), dir_path@, entry_views(entries@));
            &&& p.upserts@.len() == kept.len()
            &&& forall|i: int| 0 <= i < kept.len() ==> #[trigger] p.upserts@[i]@ == entry_upsert(dir_path@, kept[i])
            &&& p.deletes@ == stale_rows(dir_path@, kept, existing@)
        }),
{
    let offline = entry_path_of(storage, "offline");
    let ghost off = entry_path(storage@, "offline"@);
    let mut kept: Vec<DirEntryInfo> = Vec::new();
    let mut upserts: Vec<Upsert> = Vec::new();
    let mut i: usize = 0;
    while i < entries.len()
        invariant
            i <= entries.len(),
            offline@ == off,
            entry_views(kept@) == kept_entries(off, dir_path@, entry_views(entries@.take(i as int))),
            upserts@.len() == kept@.len(),
            forall|k: int| 0 <= k < kept@.len() ==> #[trigger] upserts@[k]@ == entry_upsert(dir_path@, kept@[k]@),
        decreases entries.len() - i,
    {
        let e = &entries[i];
        let path = entry_path_of(dir_path, e.name.as_str());
        proof {
            assert(entry_views(entries@.take(i + 1)).drop_last() =~= entry_views(entries@.take(i as int)));
            assert(entry_views(entries@.take(i + 1)).last() == entries@[i as int]@);
        }
        if !str_eq(path.as_str(), offline.as_str()) {
            let mime = if e.is_dir {
                String::new()
            } else {
                crate::mime::mime_of(e.name.as_str()).to_owned()
            };
            let u = Upsert {
                name: e.name.clone(),
                is_dir: e.is_dir,
                path,
                size: #[verifier::truncate] (e.size as i64),
                mime,
            };
            let x = DirEntryInfo { name: e.name.clone(), is_dir: e.is_dir, size: e.size };
            let ghost before = kept@;
            kept.push(x);
            upserts.push(u);
            proof {
                assert(entry_views(kept@) =~= entry_views(before).push(x@));
            }
        }
        i = i + 1;
    }
    assert(entries@.take(entries.len() as int) =~= entries@);
    let mut deletes: Vec<i64> = Vec::new();
    let mut j: usize = 0;
    while j < existing.len()
        invariant
            j <= existing.len(),
            deletes@ == stale_rows(dir_path@, entry_views(kept@), existing@.take(j as int)),
        decreases existing.len() - j,
    {
        proof {
            assert(existing@.take(j + 1).drop_last() =~= existing@.take(j as int));
        }
        if !entries_contain_exec(dir_path, existing[j].path.as_str(), &kept) {
            deletes.push(existing[j].id);
        }
        j = j + 1;
    }
    assert(existing@.take(existing.len() as int) =~= existing@);
    ListPlan { upserts, deletes }
}

// ---------------------------------------------------------------------------
// Parts of a path
// ---------------------------------------------------------------------------

/// What `std::path::Path::parent` gives for a path.
pub uninterp spec fn path_parent(p: Seq<char>) -> Option<Seq<char>>;

/// What `std::path::Path::file_name` gives for a path.
pub uninterp spec fn path_file_name(p: Seq<char>) -> Option<Seq<char>>;

/// What `std::path::Path::file_stem` gives for a path.
pub uninterp spec fn path_file_stem(p: Seq<char>) -> Option<Seq<char>>;

/// What `std::path::Path::extension` gives for a path.
pub uninterp spec fn path_extension(p: Seq<char>) -> Option<Seq<char>>;

/// `std::path::Path::parent` of the path `p`.
#[verifier::external_body]
fn parent_of(p: &str) -> (r: Option<String>)
    ensures
        opt_seq(r) == path_parent(p@),
{
    match std::path::Path::new(p).parent() {
        Some(d) => Some(d.to_string_lossy().into_owned()),
        None => None,
    }
}

/// `std::path::Path::file_name` of the path `p`.
#[verifier::external_body]
fn file_name_of(p: &str) -> (r: Option<String>)
    ensures
        opt_seq(r) == path_file_name(p@),
{
    match std::path::Path::new(p).file_name() {
        Some(n) => Some(n.to_string_lossy().into_owned()),
        None => None,
    }
}

/// `std::path::Path::file_stem` of the path `p`.
#[verifier::external_body]
fn file_stem_of(p: &str) -> (r: Option<String>)
    ensures
        opt_seq(r) == path_file_stem(p@),
{
    match std::path::Path::new(p).file_stem() {
        Some(n) => Some(n.to_string_lossy().into_owned()),
        None => None,
    }
}

/// `std::path::Path::extension` of the path `p`.
#[verifier::external_body]
fn extension_of(p: &str) -> (r: Option<String>)
    ensures
        opt_seq(r) == path_extension(p@),
{
    match std::path::Path::new(p).extension() {
        Some(n) => Some(n.to_string_lossy().into_owned()),
        None => None,
    }
}

/// The directory holding `p` (`.` when it has none).
pub open spec fn dir_of(p: Seq<char>) -> Seq<char> {
    match path_parent(p) {
        Some(d) => d,
        None => "."@,
    }
}

/// The directory holding `p` (`.` when it has none).
pub fn dir_of_path(p: &str) -> (d: String)
    ensures
        d@ == dir_of(p@),
{
    match parent_of(p) {
        Some(d) => d,
        None => ".".to_owned(),
    }
}

/// The final component of `p`, empty when it has none.
pub fn file_name_or_empty(p: &str) -> (n: String)
    ensures
        n@ == or_empty(path_file_name(p@)),
{
    match file_name_of(p) {
        Some(n) => n,
        None => String::new(),
    }
}

pub open spec fn or_empty(o: Option<Seq<char>>) -> Seq<char> {
    match o {
        Some(s) => s,
        None => Seq::empty(),
    }
}

// ---------------------------------------------------------------------------
// Free names
// ---------------------------------------------------------------------------

/// The file name tried for `path` at a numbered attempt: `{stem} ({attempt}){.ext}`.
pub open spec fn unique_name(path: Seq<char>, attempt: nat) -> Seq<char> {
    let ext = match path_extension(path) {
        Some(e) => "."@ + e,
        None => Seq::empty(),
    };
    or_empty(path_file_stem(path)) + " ("@ + decimal(attempt) + ")"@ + ext
}

/// The `attempt`-th path tried for `path` when it is taken: the path itself
/// first, then the numbered name beside it.
pub open spec fn unique_candidate(path: Seq<char>, attempt: nat) -> Seq<char> {
    if attempt == 0 {
        path
    } else {
        path_joined(dir_of(path), unique_name(path, attempt))
    }
}

/// The name tried for `path` at the given attempt; the caller tries 0, 1,
/// 2, … until one is free on disk.
pub fn unique_path(path: &str, attempt: u32) -> (p: String)
    requires
        attempt <= i32::MAX,
    ensures
        p@ == unique_candidate(path@, attempt as nat),
{
    if attempt == 0 {
        return path.to_owned();
    }
    let dir = dir_of_path(path);
    let mut name = match file_stem_of(path) {
        Some(s) => s,
        None => String::new(),
    };
    push_all(&mut name, " (");
    push_decimal(&mut name, attempt as u64);
    push_all(&mut name, ")");
    match extension_of(path) {
        Some(e) => {
            push_all(&mut name, ".");
            push_all(&mut name, e.as_str());
        },
        None => {},
    }
    proof {
        reveal_strlit(".");
        assert(name@ =~= unique_name(path@, attempt as nat));
    }
    join_path(dir.as_str(), name.as_str())
}

proof fn lemma_decimal_digits(n: nat)
    ensures
        decimal(n).len() >= 1,
        forall|i: int| 0 <= i < decimal(n).len() ==> ('0' <= #[trigger] decimal(n)[i] && decimal(n)[i] <= '9'),
    decreases n,
{
    if n >= 10 {
        lemma_decimal_digits(n / 10);
    }
}

proof fn lemma_digit_char_injective(a: nat, b: nat)
    requires
        a < 10,
        b < 10,
        crate::text::digit_char(a) == crate::text::digit_char(b),
    ensures
        a == b,
{
    let x = (a + 48) as u8;
    let y = (b + 48) as u8;
    assert(x as u32 == a + 48);
    assert(y as u32 == b + 48);
    assert((x as char) as u32 == x as u32);
    assert((y as char) as u32 == y as u32);
}

proof fn lemma_decimal_injective(a: nat, b: nat)
    requires
        decimal(a) == decimal(b),
    ensures
        a == b,
    decreases a,
{
    lemma_decimal_digits(a);
    lemma_decimal_digits(b);
    if a >= 10 && b >= 10 {
        assert(decimal(a / 10) =~= decimal(a).drop_last());
        assert(decimal(b / 10) =~= decimal(b).drop_last());
        lemma_decimal_injective(a / 10, b / 10);
        assert(decimal(a).last() == decimal(b).last());
        assert(decimal(a) == decimal(a / 10).push(crate::text::digit_char(a % 10)));
        assert(decimal(b) == decimal(b / 10).push(crate::text::digit_char(b % 10)));
        assert(decimal(a).last() == crate::text::digit_char(a % 10));
        assert(decimal(b).last() == crate::text::digit_char(b % 10));
        assert(crate::text::digit_char(a % 10) == crate::text::digit_char(b % 10));
        lemma_digit_char_injective(a % 10, b % 10);
        assert(a == 10 * (a / 10) + a % 10);
        assert(b == 10 * (b / 10) + b % 10);
    } else if a < 10 && b < 10 {
        assert(decimal(a) == seq![crate::text::digit_char(a)]);
        assert(decimal(b) == seq![crate::text::digit_char(b)]);
        assert(decimal(a)[0] == decimal(b)[0]);
        assert(decimal(a)[0] == crate::text::digit_char(a));
        assert(decimal(b)[0] == crate::text::digit_char(b));
        lemma_digit_char_injective(a, b);
    } else if a >= 10 {
        lemma_decimal_digits(a / 10);
        assert(decimal(a).len() >= 2);
    } else if b >= 10 {
        lemma_decimal_digits(b / 10);
        assert(decimal(b).len() >= 2);
    }
}

/// Text with a number in it, as in `{stem} ({n}){ext}`, tells the number.
proof fn lemma_numbered_text(stem: Seq<char>, ext: Seq<char>, a: nat, b: nat)
    requires
        stem + " ("@ + decimal(a) + ")"@ + ext == stem + " ("@ + decimal(b) + ")"@ + ext,
    ensures
        a == b,
{
    reveal_strlit(" (");
    reveal_strlit(")");
    lemma_decimal_digits(a);
    lemma_decimal_digits(b);
    let x = stem + " ("@ + decimal(a) + ")"@ + ext;
    let y = stem + " ("@ + decimal(b) + ")"@ + ext;
    let k: int = stem.len() + 2int;
    let da = decimal(a);
    let db = decimal(b);
    assert(x.skip(k) =~= da + ")"@ + ext);
    assert(y.skip(k) =~= db + ")"@ + ext);
    if da.len() < db.len() {
        assert((da + ")"@ + ext)[da.len() as int] == ')');
        assert((db + ")"@ + ext)[da.len() as int] == db[da.len() as int]);
    } else if db.len() < da.len() {
        assert((db + ")"@ + ext)[db.len() as int] == ')');
        assert((da + ")"@ + ext)[db.len() as int] == da[db.len() as int]);
    } else {
        assert(da =~= (da + ")"@ + ext).take(da.len() as int));
        assert(db =~= (db + ")"@ + ext).take(db.len() as int));
        lemma_decimal_injective(a, b);
    }
}

/// The names tried for a taken path are all different: whichever numbered
/// attempts are compared, their file names differ, so the search for a free
/// name always moves on to a new name in the same directory.
pub proof fn law_unique_candidates_differ(path: Seq<char>, a: nat, b: nat)
    requires
        a >= 1,
        b >= 1,
        a != b,
    ensures
        unique_name(path, a) != unique_name(path, b),
        unique_candidate(path, a) == path_joined(dir_of(path), unique_name(path, a)),
{
    let ext = match path_extension(path) {
        Some(e) => "."@ + e,
        None => Seq::empty(),
    };
    let stem = or_empty(path_file_stem(path));
    if unique_name(path, a) == unique_name(path, b) {
        lemma_numbered_text(stem, ext, a, b);
    }
}

/// The search for a free name for `path`: the caller tries the candidate
/// it holds on disk and reports it taken, until one is free.  The first
/// free candidate is thereby the least free one: the candidates come in the
/// order of their attempt numbers, none skipped.
#[derive(Debug, Clone)]
pub struct FreeNameSearch {
    path: String,
    attempt: u32,
}

impl FreeNameSearch {
    /// The path a free name is searched for.
    pub closed spec fn path_view(&self) -> Seq<char> {
        self.path@
    }

    /// The number of candidates reported taken so far.
    pub closed spec fn attempt_view(&self) -> nat {
        self.attempt as nat
    }

    /// The candidate currently held.
    pub open spec fn candidate(&self) -> Seq<char> {
        unique_candidate(self.path_view(), self.attempt_view())
    }

    /// Starts the search; the first candidate is the path itself.
    pub fn new(path: &str) -> (r: (FreeNameSearch, String))
        ensures
            r.0.path_view() == path@,
            r.0.attempt_view() == 0,
            r.1@ == r.0.candidate(),
            r.1@ == path@,
    {
        (FreeNameSearch { path: path.to_owned(), attempt: 0 }, path.to_owned())
    }

    /// The candidate held was taken: the next one, numbered one higher.
    /// `None`, and nothing changes, once the numbering has reached
    /// `i32::MAX`, where a 32-bit counter cannot go on.
    pub fn on_taken(&mut self) -> (next: Option<String>)
        ensures
            final(self).path_view() == old(self).path_view(),
            old(self).attempt_view() < i32::MAX ==> final(self).attempt_view() == old(self).attempt_view()
                + 1 && (next matches Some(c) && c@ == final(self).candidate()),
            old(self).attempt_view() >= i32::MAX ==> next is None && final(self).attempt_view()
                == old(self).attempt_view(),
    {
        if self.attempt >= 0x7fff_ffffu32 {
            return None;
        }
        self.attempt = self.attempt + 1;
        Some(unique_path(self.path.as_str(), self.attempt))
    }
}

/// A search tries the candidates in order: after it was started and `n`
/// candidates were reported taken (with `n` at most `i32::MAX`), it holds
/// candidate number `n`, and every earlier number was tried and taken.
pub proof fn law_free_name_search_in_order(runs: Seq<FreeNameSearch>, path: Seq<char>)
    requires
        runs.len() >= 1,
        runs[0].path_view() == path,
        runs[0].attempt_view() == 0,
        runs.len() - 1 <= i32::MAX,
        forall|i: int|
            0 <= i < runs.len() - 1 ==> #[trigger] runs[i + 1].path_view() == runs[i].path_view()
                && (runs[i].attempt_view() < i32::MAX ==> runs[i + 1].attempt_view()
                == runs[i].attempt_view() + 1),
    ensures
        runs.last().candidate() == unique_candidate(path, (runs.len() - 1) as nat),
        forall|i: int| 0 <= i < runs.len() ==> #[trigger] runs[i].attempt_view() == i,
        forall|i: int| 0 <= i < runs.len() ==> #[trigger] runs[i].path_view() == path,
    decreases runs.len(),
{
    if runs.len() > 1 {
        let prev = runs.drop_last();
        assert forall|i: int| 0 <= i < prev.len() - 1 implies #[trigger] prev[i + 1].path_view()
            == prev[i].path_view() && (prev[i].attempt_view() < i32::MAX ==> prev[i + 1].attempt_view()
            == prev[i].attempt_view() + 1) by {
            assert(runs[i + 1].path_view() == runs[i].path_view());
        }
        law_free_name_search_in_order(prev, path);
        let n = runs.len() - 2;
        assert(runs[n + 1].path_view() == runs[n].path_view());
        assert(runs[n] == prev[n]);
        assert forall|i: int| 0 <= i < runs.len() implies #[trigger] runs[i].attempt_view() == i by {
            if i < runs.len() - 1 {
                assert(runs[i] == prev[i]);
            }
        }
        assert forall|i: int| 0 <= i < runs.len() implies #[trigger] runs[i].path_view() == path by {
            if i < runs.len() - 1 {
                assert(runs[i] == prev[i]);
            }
        }
    }
}

/// The `attempt`-th directory tried for a download registered under `name`
/// in the storage root: `name` first, then `{name} ({attempt})`.
pub open spec fn unique_dir_candidate(storage: Seq<char>, name: Seq<char>, attempt: nat) -> Seq<char> {
    if attempt == 0 {
        path_joined(storage, name)
    } else {
        path_joined(storage, name + " ("@ + decimal(attempt) + ")"@)
    }
}

/// The directory tried at the given attempt; the caller tries 0, 1, 2, …
/// until neither the cache nor the disk knows it.
pub fn unique_dir(storage: &str, name: &str, attempt: u32) -> (p: String)
    requires
        attempt <= i32::MAX,
    ensures
        p@ == unique_dir_candidate(storage@, name@, attempt as nat),
{
    if attempt == 0 {
        return join_path(storage, name);
    }
    let mut n = name.to_owned();
    push_all(&mut n, " (");
    push_decimal(&mut n, attempt as u64);
    push_all(&mut n, ")");
    join_path(storage, n.as_str())
}


// ---------------------------------------------------------------------------
// Renaming and moving
// ---------------------------------------------------------------------------

/// The fields a rename or move may change.
#[derive(Debug, Clone)]
pub struct RenamePatch {
    pub name: Option<String>,
    /// `None`: stay in the same directory; `Some(None)`: move to the root;
    /// `Some(Some(id))`: move into that directory.
    pub parent: Option<Option<i64>>,
}

/// `id` is among the descendants.
pub open spec fn among(descendants: Seq<(i64, String)>, id: i64) -> bool {
    exists|j: int| 0 <= j < descendants.len() && descendants[j].0 == id
}

/// A directory cannot move into itself or one of its descendants.
pub fn check_move_target(row_id: i64, row_is_dir: bool, parent: Option<Option<i64>>, descendants: &Vec<(i64, String)>) -> (r: Result<(), ApiError>)
    ensures
        (match parent {
            Some(Some(pid)) => row_is_dir && (pid == row_id || among(descendants@, pid)),
            _ => false,
        }) ==> is_error(r, 400, "不能移动到自身或其子目录"@),
        !(match parent {
            Some(Some(pid)) => row_is_dir && (pid == row_id || among(descendants@, pid)),
            _ => false,
        }) ==> r is Ok,
{
    match parent {
        Some(Some(pid)) => {
            if row_is_dir {
                if pid == row_id {
                    return Err(ApiError::bad_request("不能移动到自身或其子目录"));
                }
                let mut j: usize = 0;
                while j < descendants.len()
                    invariant
                        j <= descendants.len(),
                        parent == Some(Some(pid)),
                        row_is_dir,
                        forall|k: int| 0 <= k < j ==> descendants@[k].0 != pid,
                    decreases descendants.len() - j,
                {
                    if descendants[j].0 == pid {
                        assert(descendants@[j as int].0 == pid);
                        assert(among(descendants@, pid));
                        return Err(ApiError::bad_request("不能移动到自身或其子目录"));
                    }
                    j = j + 1;
                }
            }
            Ok(())
        },
        _ => Ok(()),
    }
}

/// The directory a move goes to, when the patch names one.
pub fn move_destination(parent: Option<Option<i64>>) -> (r: Option<ParentRef>)
    ensures
        match parent {
            None => r is None,
            Some(None) => r == Some(ParentRef::Root),
            Some(Some(id)) => r == Some(ParentRef::Id(id)),
        },
{
    match parent {
        None => None,
        Some(None) => Some(ParentRef::Root),
        Some(Some(id)) => Some(ParentRef::Id(id)),
    }
}

/// The name after a rename: the new one, else the old one; refused with 400
/// `名称不合法` when it cannot be a file name.
pub fn rename_name(name: Option<String>, row_name: &str) -> (r: Result<String, ApiError>)
    ensures
        ({
            let n = match name {
                Some(s) => s@,
                None => row_name@,
            };
            &&& valid_name_spec(n) ==> (r matches Ok(s) && s@ == n)
            &&& !valid_name_spec(n) ==> is_error(r, 400, "名称不合法"@)
        }),
{
    let n = match name {
        Some(s) => s,
        None => row_name.to_owned(),
    };
    if !valid_name(n.as_str()) {
        return Err(ApiError::bad_request("名称不合法"));
    }
    Ok(n)
}

/// The parent column after a move.
pub fn rename_new_parent(parent: Option<Option<i64>>, row_parent: Option<i64>) -> (r: Option<i64>)
    ensures
        r == match parent {
            None => row_parent,
            Some(p) => p,
        },
{
    match parent {
        None => row_parent,
        Some(p) => p,
    }
}

/// The stored paths of the descendants after their directory moved from
/// `old_path` to `new_path`: each path that begins with `old_path` gets
/// `new_path` in its place; the others are left alone.
pub open spec fn rewritten(old_path: Seq<char>, new_path: Seq<char>, descendants: Seq<(i64, String)>) -> Seq<(i64, Seq<char>)>
    decreases descendants.len(),
{
    if descendants.len() == 0 {
        Seq::empty()
    } else {
        let prev = rewritten(old_path, new_path, descendants.drop_last());
        let (id, p) = descendants.last();
        if old_path.is_prefix_of(p@) {
            prev.push((id, new_path + p@.skip(old_path.len() as int)))
        } else {
            prev
        }
    }
}

/// The rewrite of one descendant whose path lies below `old_path`.
pub open spec fn moved_below(old_path: Seq<char>, new_path: Seq<char>, d: (i64, String)) -> (i64, Seq<char>) {
    (d.0, new_path + d.1@.skip(old_path.len() as int))
}

proof fn lemma_rewritten_reaches(old_path: Seq<char>, new_path: Seq<char>, ds: Seq<(i64, String)>)
    ensures
        forall|i: int|
            0 <= i < ds.len() && old_path.is_prefix_of(#[trigger] ds[i].1@) ==> rewritten(
                old_path,
                new_path,
                ds,
            ).contains(moved_below(old_path, new_path, ds[i])),
    decreases ds.len(),
{
    if ds.len() > 0 {
        let prev_ds = ds.drop_last();
        lemma_rewritten_reaches(old_path, new_path, prev_ds);
        let prev = rewritten(old_path, new_path, prev_ds);
        let r = rewritten(old_path, new_path, ds);
        let n = ds.len() - 1;
        assert forall|i: int|
            0 <= i < ds.len() && old_path.is_prefix_of(#[trigger] ds[i].1@) implies r.contains(
            moved_below(old_path, new_path, ds[i])) by {
            if i < n {
                assert(ds[i] == prev_ds[i]);
                let j = choose|j: int| 0 <= j < prev.len() && prev[j] == moved_below(old_path, new_path, prev_ds[i]);
                assert(r[j] == prev[j]);
            } else {
                assert(r[prev.len() as int] == moved_below(old_path, new_path, ds[i]));
            }
        }
    }
}

/// `x` is the rewrite of one of the descendants below `old_path`.
pub open spec fn rewrite_of_some(old_path: Seq<char>, new_path: Seq<char>, ds: Seq<(i64, String)>, x: (i64, Seq<char>)) -> bool {
    exists|i: int|
        0 <= i < ds.len() && old_path.is_prefix_of(ds[i].1@) && x == moved_below(old_path, new_path, #[trigger] ds[i])
}

proof fn lemma_rewritten_sources(old_path: Seq<char>, new_path: Seq<char>, ds: Seq<(i64, String)>)
    ensures
        forall|j: int|
            0 <= j < rewritten(old_path, new_path, ds).len() ==> rewrite_of_some(
                old_path,
                new_path,
                ds,
                #[trigger] rewritten(old_path, new_path, ds)[j],
            ),
    decreases ds.len(),
{
    if ds.len() > 0 {
        let prev_ds = ds.drop_last();
        lemma_rewritten_sources(old_path, new_path, prev_ds);
        let prev = rewritten(old_path, new_path, prev_ds);
        let r = rewritten(old_path, new_path, ds);
        let n = ds.len() - 1;
        assert forall|j: int| 0 <= j < r.len() implies rewrite_of_some(old_path, new_path, ds, #[trigger] r[j]) by {
            if j < prev.len() {
                assert(r[j] == prev[j]);
                assert(rewrite_of_some(old_path, new_path, prev_ds, prev[j]));
                let i = choose|i: int|
                    0 <= i < prev_ds.len() && old_path.is_prefix_of(prev_ds[i].1@) && prev[j]
                        == moved_below(old_path, new_path, #[trigger] prev_ds[i]);
                assert(ds[i] == prev_ds[i]);
            } else {
                assert(r[j] == moved_below(old_path, new_path, ds[n]));
            }
        }
    }
}

proof fn lemma_rewritten_distinct(old_path: Seq<char>, new_path: Seq<char>, ds: Seq<(i64, String)>)
    requires
        forall|x: int, y: int| 0 <= x < y < ds.len() ==> ds[x].0 != ds[y].0,
    ensures
        forall|x: int, y: int|
            0 <= x < y < rewritten(old_path, new_path, ds).len() ==> rewritten(old_path, new_path, ds)[x].0
                != rewritten(old_path, new_path, ds)[y].0,
    decreases ds.len(),
{
    if ds.len() > 0 {
        let prev_ds = ds.drop_last();
        assert forall|x: int, y: int| 0 <= x < y < prev_ds.len() implies prev_ds[x].0 != prev_ds[y].0 by {
            assert(prev_ds[x] == ds[x] && prev_ds[y] == ds[y]);
        }
        lemma_rewritten_distinct(old_path, new_path, prev_ds);
        lemma_rewritten_sources(old_path, new_path, prev_ds);
        let prev = rewritten(old_path, new_path, prev_ds);
        let r = rewritten(old_path, new_path, ds);
        let n = ds.len() - 1;
        assert forall|x: int, y: int| 0 <= x < y < r.len() implies r[x].0 != r[y].0 by {
            if y >= prev.len() {
                assert(r[x] == prev[x]);
                assert(rewrite_of_some(old_path, new_path, prev_ds, prev[x]));
                let i = choose|i: int|
                    0 <= i < prev_ds.len() && old_path.is_prefix_of(prev_ds[i].1@) && prev[x]
                        == moved_below(old_path, new_path, #[trigger] prev_ds[i]);
                assert(prev_ds[i] == ds[i]);
                assert(r[y] == moved_below(old_path, new_path, ds[n]));
            } else {
                assert(r[x] == prev[x] && r[y] == prev[y]);
            }
        }
    }
}

/// A move or rename of a directory reaches every descendant, whatever its
/// depth: each descendant whose stored path begins with the old directory
/// path gets a pair with its id and the new directory path followed by the
/// rest of its old path ([`moved_below`]); every pair is such a rewrite;
/// and when the ids of the descendants differ, each occurs in one pair only.
pub proof fn law_rewrite_reaches_all_descendants(
    old_path: Seq<char>,
    new_path: Seq<char>,
    descendants: Seq<(i64, String)>,
)
    ensures
        forall|i: int|
            0 <= i < descendants.len() && old_path.is_prefix_of(#[trigger] descendants[i].1@)
                ==> rewritten(old_path, new_path, descendants).contains(
                moved_below(old_path, new_path, descendants[i]),
            ),
        forall|j: int|
            0 <= j < rewritten(old_path, new_path, descendants).len() ==> rewrite_of_some(
                old_path,
                new_path,
                descendants,
                #[trigger] rewritten(old_path, new_path, descendants)[j],
            ),
        (forall|x: int, y: int|
            0 <= x < y < descendants.len() ==> descendants[x].0 != descendants[y].0) ==> (forall|
            x: int,
            y: int,
        |
            0 <= x < y < rewritten(old_path, new_path, descendants).len() ==> rewritten(
                old_path,
                new_path,
                descendants,
            )[x].0 != rewritten(old_path, new_path, descendants)[y].0),
{
    lemma_rewritten_reaches(old_path, new_path, descendants);
    lemma_rewritten_sources(old_path, new_path, descendants);
    if forall|x: int, y: int| 0 <= x < y < descendants.len() ==> descendants[x].0 != descendants[y].0 {
        lemma_rewritten_distinct(old_path, new_path, descendants);
    }
}

pub open spec fn pair_views(v: Seq<(i64, String)>) -> Seq<(i64, Seq<char>)> {
    v.map_values(|x: (i64, String)| (x.0, x.1@))
}

/// The path updates a rename makes below a directory: none unless a
/// directory's path changed.
pub fn rewrite_descendants(
    is_dir: bool,
    old_path: &str,
    new_path: &str,
    descendants: &Vec<(i64, String)>,
) -> (r: Vec<(i64, String)>)
    ensures
        pair_views(r@) == (if is_dir && old_path@ != new_path@ {
            rewritten(old_path@, new_path@, descendants@)
        } else {
            Seq::empty()
        }),
{
    let mut out: Vec<(i64, String)> = Vec::new();
    if !is_dir || str_eq(old_path, new_path) {
        assert(pair_views(out@) =~= Seq::empty());
        return out;
    }
    let ov = to_chars(old_path);
    let mut j: usize = 0;
    while j < descendants.len()
        invariant
            j <= descendants.len(),
            ov@ == old_path@,
            pair_views(out@) == rewritten(old_path@, new_path@, descendants@.take(j as int)),
        decreases descendants.len() - j,
    {
        let id = descendants[j].0;
        let pv = to_chars(descendants[j].1.as_str());
        let ghost before = out@;
        assert(descendants@.take(j + 1).drop_last() =~= descendants@.take(j as int));
        if starts_with_chars(&pv, &ov) {
            let mut np = new_path.to_owned();
            let rest = from_char_range(&pv, ov.len(), pv.len());
            push_all(&mut np, rest.as_str());
            assert(np@ =~= new_path@ + pv@.skip(ov@.len() as int));
            out.push((id, np));
            assert(pair_views(out@) =~= pair_views(before).push((id, np@)));
        }
        j = j + 1;
    }
    assert(descendants@.take(descendants.len() as int) =~= descendants@);
    out
}

/// A new directory needs a name that can be a file name: else 400 `目录名不合法`.
pub fn check_dir_name(name: &str) -> (r: Result<(), ApiError>)
    ensures
        valid_name_spec(name@) ==> r is Ok,
        !valid_name_spec(name@) ==> is_error(r, 400, "目录名不合法"@),
{
    if !valid_name(name) {
        return Err(ApiError::bad_request("目录名不合法"));
    }
    Ok(())
}


// ---------------------------------------------------------------------------
// Moving the storage root
// ---------------------------------------------------------------------------

/// ASCII upper-case letters made lower-case; other bytes kept.
pub open spec fn ascii_lower(b: u8) -> u8 {
    if 0x41 <= b && b <= 0x5a {
        (b + 0x20) as u8
    } else {
        b
    }
}

/// The two byte strings are equal up to ASCII case (`eq_ignore_ascii_case`).
pub open spec fn eq_ignore_ascii_case(a: Seq<u8>, b: Seq<u8>) -> bool {
    a.len() == b.len() && forall|i: int| 0 <= i < a.len() ==> ascii_lower(a[i]) == ascii_lower(b[i])
}

/// The old and new storage roots name the same directory: their normalised
/// texts are equal up to ASCII case.  Moving then does nothing.
pub fn same_storage_root(a: &str, b: &str) -> (r: bool)
    ensures
        r == eq_ignore_ascii_case(encode_utf8(norm_seq(a@)), encode_utf8(norm_seq(b@))),
{
    let an = norm_str(a);
    let bn = norm_str(b);
    let ab = an.as_str().as_bytes();
    let bb = bn.as_str().as_bytes();
    if ab.len() != bb.len() {
        return false;
    }
    let mut i: usize = 0;
    while i < ab.len()
        invariant
            ab.len() == bb.len(),
            i <= ab.len(),
            ab@ == encode_utf8(norm_seq(a@)),
            bb@ == encode_utf8(norm_seq(b@)),
            forall|j: int| 0 <= j < i ==> ascii_lower(ab@[j]) == ascii_lower(bb@[j]),
        decreases ab.len() - i,
    {
        let x = ab[i];
        let y = bb[i];
        let lx = if 0x41 <= x && x <= 0x5a {
            x + 0x20
        } else {
            x
        };
        let ly = if 0x41 <= y && y <= 0x5a {
            y + 0x20
        } else {
            y
        };
        if lx != ly {
            return false;
        }
        i = i + 1;
    }
    true
}

/// Where a cached entry goes when the storage root moves to `new_root`,
/// given its path relative to the old root: the new root itself, or the
/// relative path below it.  This is also its new stored path.
pub open spec fn moved_path_spec(new_root: Seq<char>, relative: Seq<char>) -> Seq<char> {
    if relative.len() == 0 {
        norm_seq(new_root)
    } else {
        entry_path(new_root, relative)
    }
}

/// The stored path of an entry after the storage root moved (see [`moved_path_spec`]).
pub fn moved_path(new_root: &str, relative: &str) -> (p: String)
    ensures
        p@ == moved_path_spec(new_root@, relative@),
{
    if relative.is_empty() {
        norm_str(new_root)
    } else {
        entry_path_of(new_root, relative)
    }
}

/// One row of the `files` table to carry over when the storage root moves:
/// its id, whether it is a directory, its stored path and its new path.
#[derive(Debug, Clone)]
pub struct StorageMove {
    pub id: i64,
    pub is_dir: bool,
    pub from: String,
    pub to: String,
}

/// The value of a [`StorageMove`].
pub struct StorageMoveView {
    pub id: i64,
    pub is_dir: bool,
    pub from: Seq<char>,
    pub to: Seq<char>,
}

impl View for StorageMove {
    type V = StorageMoveView;

    open spec fn view(&self) -> StorageMoveView {
        StorageMoveView { id: self.id, is_dir: self.is_dir, from: self.from@, to: self.to@ }
    }
}

/// Every row's path can be cut below the old root on a character boundary.
pub open spec fn move_cuts_ok(old_root: Seq<char>, rows: Seq<FileRow>) -> bool {
    forall|i: int| 0 <= i < rows.len() ==> suffix_cut_ok(old_root, #[trigger] rows[i].path@)
}

/// What moving the storage root from `old_root` to `new_root` does to the
/// rows, in their order: each row below the old root (the root included)
/// gets the path of its suffix below the new root; the other rows stay.
pub open spec fn storage_move_spec(old_root: Seq<char>, new_root: Seq<char>, rows: Seq<FileRow>) -> Seq<StorageMoveView>
    decreases rows.len(),
{
    if rows.len() == 0 {
        Seq::empty()
    } else {
        let prev = storage_move_spec(old_root, new_root, rows.drop_last());
        let r = rows.last();
        match relative_suffix_spec(old_root, r.path@) {
            Some(rel) => prev.push(
                StorageMoveView {
                    id: r.id,
                    is_dir: r.is_dir,
                    from: r.path@,
                    to: moved_path_spec(new_root, decode_utf8(rel)),
                },
            ),
            None => prev,
        }
    }
}

/// The plan for moving the storage root: `None` when a row's path cannot be
/// cut below the old root on a character boundary.
pub fn plan_storage_move(old_root: &str, new_root: &str, rows: &Vec<FileRow>) -> (r: Option<Vec<StorageMove>>)
    ensures
        r is None <==> !move_cuts_ok(old_root@, rows@),
        r matches Some(v) ==> v@.len() == storage_move_spec(old_root@, new_root@, rows@).len() && (
        forall|i: int|
            0 <= i < v@.len() ==> #[trigger] v@[i]@ == storage_move_spec(old_root@, new_root@, rows@)[i]),
{
    let mut plan: Vec<StorageMove> = Vec::new();
    let mut i: usize = 0;
    while i < rows.len()
        invariant
            i <= rows.len(),
            move_cuts_ok(old_root@, rows@.take(i as int)),
            plan@.len() == storage_move_spec(old_root@, new_root@, rows@.take(i as int)).len(),
            forall|k: int|
                0 <= k < plan@.len() ==> #[trigger] plan@[k]@ == storage_move_spec(
                    old_root@,
                    new_root@,
                    rows@.take(i as int),
                )[k],
        decreases rows.len() - i,
    {
        let row = &rows[i];
        proof {
            assert(rows@.take(i + 1).drop_last() =~= rows@.take(i as int));
            assert(rows@.take(i + 1).last() == rows@[i as int]);
        }
        match relative_suffix_checked(old_root, row.path.as_str()) {
            None => {
                proof {
                    assert(!suffix_cut_ok(old_root@, rows@[i as int].path@));
                }
                return None;
            },
            Some(None) => {},
            Some(Some(rel)) => {
                let to = moved_path(new_root, rel.as_str());
                proof {
                    vstd::utf8::encode_utf8_decode_utf8(rel@);
                }
                plan.push(StorageMove { id: row.id, is_dir: row.is_dir, from: row.path.clone(), to });
            },
        }
        i = i + 1;
        proof {
            assert forall|j: int| 0 <= j < rows@.take(i as int).len() implies suffix_cut_ok(
                old_root@,
                #[trigger] rows@.take(i as int)[j].path@,
            ) by {
                if j < i - 1 {
                    assert(rows@.take(i as int)[j] == rows@.take(i - 1)[j]);
                }
            }
        }
    }
    assert(rows@.take(rows.len() as int) =~= rows@);
    Some(plan)
}

// ---------------------------------------------------------------------------
// Registering a finished download
// ---------------------------------------------------------------------------

/// The non-empty pieces of `s` between slashes, after `cur` (the piece
/// being read).
pub open spec fn segments_from(s: Seq<char>, cur: Seq<char>) -> Seq<Seq<char>>
    decreases s.len(),
{
    if s.len() == 0 {
        if cur.len() > 0 {
            seq![cur]
        } else {
            Seq::empty()
        }
    } else if s[0] == '/' {
        (if cur.len() > 0 {
            seq![cur]
        } else {
            Seq::empty()
        }) + segments_from(s.drop_first(), Seq::empty())
    } else {
        segments_from(s.drop_first(), cur.push(s[0]))
    }
}

/// The non-empty pieces of `s` between slashes, in order.
pub open spec fn segments(s: Seq<char>) -> Seq<Seq<char>> {
    segments_from(s, Seq::empty())
}

/// The directories to make sure of, from `base` down: each piece with the
/// stored path of the directory it names.
pub open spec fn chain(base: Seq<char>, segs: Seq<Seq<char>>) -> Seq<(Seq<char>, Seq<char>)>
    decreases segs.len(),
{
    if segs.len() == 0 {
        Seq::empty()
    } else {
        let next = path_joined(base, segs[0]);
        seq![(segs[0], norm_seq(next))] + chain(next, segs.drop_first())
    }
}

fn split_segments(s: &str) -> (r: Vec<String>)
    ensures
        r@.map_values(|x: String| x@) == segments(s@),
{
    let v = to_chars(s);
    let mut out: Vec<String> = Vec::new();
    let mut cur: Vec<char> = Vec::new();
    let mut i: usize = 0;
    assert(v@.skip(0) =~= v@);
    assert(out@.map_values(|x: String| x@) =~= Seq::<Seq<char>>::empty());
    assert(Seq::<Seq<char>>::empty() + segments_from(v@, cur@) =~= segments_from(v@, cur@));
    assert(cur@ =~= Seq::<char>::empty());
    while i < v.len()
        invariant
            i <= v.len(),
            v@ == s@,
            out@.map_values(|x: String| x@) + segments_from(v@.skip(i as int), cur@) == segments(s@),
        decreases v.len() - i,
    {
        let ghost rest = v@.skip(i as int);
        assert(rest.drop_first() =~= v@.skip(i + 1));
        assert(rest[0] == v@[i as int]);
        if v[i] == '/' {
            if cur.len() > 0 {
                let ghost before = out@;
                let piece = from_chars(&cur);
                out.push(piece);
                assert(out@.map_values(|x: String| x@) =~= before.map_values(|x: String| x@).push(cur@));
            }
            cur = Vec::new();
        } else {
            cur.push(v[i]);
        }
        i = i + 1;
    }
    if cur.len() > 0 {
        let ghost before = out@;
        let piece = from_chars(&cur);
        out.push(piece);
        assert(out@.map_values(|x: String| x@) =~= before.map_values(|x: String| x@).push(cur@));
    }
    assert(out@.map_values(|x: String| x@) =~= segments(s@));
    out
}

/// The directories between the storage root and a finished file, given the
/// file's directory relative to the root: for each non-empty piece of the
/// relative path, its name and stored path.
pub fn parent_chain(storage: &str, relative: &str) -> (r: Vec<(String, String)>)
    ensures
        r@.map_values(|x: (String, String)| (x.0@, x.1@)) == chain(storage@, segments(relative@)),
{
    let segs = split_segments(relative);
    let ghost sv = segs@.map_values(|x: String| x@);
    let mut out: Vec<(String, String)> = Vec::new();
    let mut current = storage.to_owned();
    let mut i: usize = 0;
    assert(sv.skip(0) =~= sv);
    assert(out@.map_values(|x: (String, String)| (x.0@, x.1@)) =~= Seq::<(Seq<char>, Seq<char>)>::empty());
    assert(Seq::<(Seq<char>, Seq<char>)>::empty() + chain(current@, sv) =~= chain(current@, sv));
    while i < segs.len()
        invariant
            i <= segs.len(),
            sv == segs@.map_values(|x: String| x@),
            out@.map_values(|x: (String, String)| (x.0@, x.1@)) + chain(current@, sv.skip(i as int))
                == chain(storage@, sv),
        decreases segs.len() - i,
    {
        let ghost rest = sv.skip(i as int);
        assert(rest[0] == segs@[i as int]@);
        assert(rest.drop_first() =~= sv.skip(i + 1));
        let next = join_path(current.as_str(), segs[i].as_str());
        let stored = norm_str(next.as_str());
        let ghost before = out@;
        out.push((segs[i].clone(), stored));
        assert(out@.map_values(|x: (String, String)| (x.0@, x.1@)) =~= before.map_values(
            |x: (String, String)| (x.0@, x.1@),
        ).push((rest[0], norm_seq(next@))));
        current = next;
        i = i + 1;
    }
    assert(sv.skip(segs.len() as int) =~= Seq::<Seq<char>>::empty());
    assert(out@.map_values(|x: (String, String)| (x.0@, x.1@)) =~= chain(storage@, sv));
    out
}

/// The cached row of a finished file or directory at `abs_path`:
/// directories have no size and no MIME type.
pub fn finished_row(abs_path: &str, is_dir: bool, len: u64) -> (u: Upsert)
    ensures
        u@ == (UpsertView {
            name: or_empty(path_file_name(abs_path@)),
            is_dir: is_dir,
            path: norm_seq(abs_path@),
            size: if is_dir {
                0
            } else {
                len as i64
            },
            mime: if is_dir {
                Seq::empty()
            } else {
                crate::mime::mime_spec(norm_seq(abs_path@))
            },
        }),
{
    let path = norm_str(abs_path);
    let mime = if is_dir {
        String::new()
    } else {
        crate::mime::mime_of(path.as_str()).to_owned()
    };
    Upsert {
        name: file_name_or_empty(abs_path),
        is_dir,
        path,
        size: if is_dir {
            0
        } else {
            #[verifier::truncate]
            (len as i64)
        },
        mime,
    }
}


// ---------------------------------------------------------------------------
// The directory tree
// ---------------------------------------------------------------------------

/// A cached directory as the tree reads it.
#[derive(Debug, Clone)]
pub struct DirRow {
    pub id: i64,
    pub name: String,
    pub path: String,
    pub parent_id: Option<i64>,
}

/// The directories directly under `parent` (the root when `None`), in order.
pub open spec fn children_of(rows: Seq<DirRow>, parent: Option<i64>) -> Seq<DirRow>
    decreases rows.len(),
{
    if rows.len() == 0 {
        Seq::empty()
    } else {
        let c = children_of(rows.drop_last(), parent);
        if rows.last().parent_id == parent {
            c.push(rows.last())
        } else {
            c
        }
    }
}

/// `nodes` is the tree of the directories under `parent` down to `depth`
/// levels: one node per child, in order, each with its own sub-tree.
pub open spec fn forest_ok(nodes: Seq<TreeNode>, rows: Seq<DirRow>, parent: Option<i64>, depth: nat) -> bool
    decreases depth,
{
    if depth == 0 {
        nodes.len() == 0
    } else {
        let kids = children_of(rows, parent);
        &&& nodes.len() == kids.len()
        &&& forall|i: int|
            #![trigger nodes[i]]
            0 <= i < nodes.len() ==> {
                &&& nodes[i].id == kids[i].id
                &&& nodes[i].name@ == kids[i].name@
                &&& nodes[i].path@ == kids[i].path@
                &&& forest_ok(nodes[i].children@, rows, Some(kids[i].id), (depth - 1) as nat)
            }
    }
}

fn build_forest(rows: &Vec<DirRow>, parent: Option<i64>, depth: usize) -> (nodes: Vec<TreeNode>)
    ensures
        forest_ok(nodes@, rows@, parent, depth as nat),
    decreases depth,
{
    let mut nodes: Vec<TreeNode> = Vec::new();
    if depth == 0 {
        return nodes;
    }
    let mut j: usize = 0;
    while j < rows.len()
        invariant
            j <= rows.len(),
            depth > 0,
            nodes@.len() == children_of(rows@.take(j as int), parent).len(),
            forall|i: int|
                #![trigger nodes@[i]]
                0 <= i < nodes@.len() ==> {
                    let k = children_of(rows@.take(j as int), parent)[i];
                    &&& nodes@[i].id == k.id
                    &&& nodes@[i].name@ == k.name@
                    &&& nodes@[i].path@ == k.path@
                    &&& forest_ok(nodes@[i].children@, rows@, Some(k.id), (depth - 1) as nat)
                },
        decreases rows.len() - j,
    {
        let ghost before = children_of(rows@.take(j as int), parent);
        assert(rows@.take(j + 1).drop_last() =~= rows@.take(j as int));
        assert(rows@.take(j + 1).last() == rows@[j as int]);
        let r = &rows[j];
        if r.parent_id == parent {
            let children = build_forest(rows, Some(r.id), depth - 1);
            let node = TreeNode { id: r.id, name: r.name.clone(), path: r.path.clone(), children };
            nodes.push(node);
            assert(children_of(rows@.take(j + 1), parent) == before.push(rows@[j as int]));
        } else {
            assert(children_of(rows@.take(j + 1), parent) == before);
        }
        j = j + 1;
    }
    assert(rows@.take(rows.len() as int) =~= rows@);
    nodes
}

/// The directory tree of the cache: the directories under the root, each
/// with its sub-directories, in the order of `rows`.  The tree goes at most
/// as many levels deep as there are rows, which holds all of it unless the
/// parent links run in a circle.
pub fn build_tree(rows: &Vec<DirRow>) -> (nodes: Vec<TreeNode>)
    ensures
        forest_ok(nodes@, rows@, None, rows@.len()),
{
    build_forest(rows, None, rows.len())
}


// ---------------------------------------------------------------------------
// Where a finished download goes
// ---------------------------------------------------------------------------

/// How the files of a finished download are registered.
#[derive(Debug, Clone, Copy, PartialEq, Eq, Structural)]
pub enum DownloadLayout {
    /// No file came down: nothing to register.
    Nothing,
    /// One file right in the task's directory: it moves to the storage root.
    Single,
    /// Anything else: the files move, keeping their layout, into a new
    /// directory of the storage root named after the task.
    Multi,
}

/// The layout of the downloaded `files` (full paths) of a task whose
/// directory is stored as `target_dir`.
pub open spec fn layout_spec(files: Seq<String>, target_dir: Seq<char>) -> DownloadLayout {
    if files.len() == 0 {
        DownloadLayout::Nothing
    } else if files.len() == 1 && norm_seq(dir_of(files[0]@)) == target_dir {
        DownloadLayout::Single
    } else {
        DownloadLayout::Multi
    }
}

/// The layout of a finished download (see [`layout_spec`]).
pub fn download_layout(files: &Vec<String>, target_dir: &str) -> (l: DownloadLayout)
    ensures
        l == layout_spec(files@, target_dir@),
{
    if files.len() == 0 {
        return DownloadLayout::Nothing;
    }
    if files.len() == 1 {
        let d = dir_of_path(files[0].as_str());
        let dn = norm_str(d.as_str());
        if str_eq(dn.as_str(), target_dir) {
            return DownloadLayout::Single;
        }
    }
    DownloadLayout::Multi
}

/// The first place tried for a single downloaded file: its name in the storage root.
pub fn single_destination(storage: &str, file: &str) -> (p: String)
    ensures
        p@ == path_joined(storage@, or_empty(path_file_name(file@))),
{
    let name = file_name_or_empty(file);
    join_path(storage, name.as_str())
}

/// Where a file of a multi-file download goes: its path relative to the
/// task's directory, below the new directory.
pub fn multi_destination(final_dir: &str, relative: &str) -> (p: String)
    ensures
        p@ == path_joined(final_dir@, relative@),
{
    join_path(final_dir, relative)
}

// ---------------------------------------------------------------------------
// Deleting
// ---------------------------------------------------------------------------

/// What follows a failed permanent delete (the recycle bin having failed first).
#[derive(Debug, Clone)]
pub enum RemoveStep {
    /// Wait this many milliseconds and delete once more.
    RetryAfter(u64),
    /// Give up with this answer.
    Fail(ApiError),
}

/// Milliseconds to wait before deleting a busy file once more.
pub const BUSY_RETRY_MS: u64 = 300;

/// After a permanent delete failed: a busy file is tried once more after
/// 300 ms and then refused with 400; any other failure is answered as an I/O error.
pub fn after_delete_failure(first_attempt: bool, err: &IoFailure) -> (s: RemoveStep)
    ensures
        crate::error::busy_spec(*err) && first_attempt ==> s == RemoveStep::RetryAfter(BUSY_RETRY_MS),
        crate::error::busy_spec(*err) && !first_attempt ==> match s {
            RemoveStep::Fail(e) => e.status == 400 && e.message@ == "文件正被占用（可能正在预览或下载中），请稍后重试"@
                && e.kind is None,
            _ => false,
        },
        !crate::error::busy_spec(*err) ==> match s {
            RemoveStep::Fail(e) => e.status == crate::error::io_status(err.kind, err.raw_os_error)
                && e.message@ == err.message@ && e.kind is None,
            _ => false,
        },
{
    if crate::error::busy_io(err) {
        if first_attempt {
            RemoveStep::RetryAfter(BUSY_RETRY_MS)
        } else {
            RemoveStep::Fail(ApiError::bad_request("文件正被占用（可能正在预览或下载中），请稍后重试"))
        }
    } else {
        RemoveStep::Fail(io_error(err))
    }
}


// ---------------------------------------------------------------------------
// Order of a directory listing
// ---------------------------------------------------------------------------

/// Names starting with a dot are hidden.
pub open spec fn hidden(name: Seq<char>) -> bool {
    name.len() > 0 && name[0] == '.'
}

/// `a` comes strictly before `b` in the order of `String` (character by
/// character, by code point, a prefix first).
pub open spec fn name_before(a: Seq<char>, b: Seq<char>) -> bool
    decreases a.len(),
{
    if a.len() == 0 {
        b.len() > 0
    } else if b.len() == 0 {
        false
    } else if a[0] != b[0] {
        (a[0] as u32) < (b[0] as u32)
    } else {
        name_before(a.drop_first(), b.drop_first())
    }
}

/// `a` is listed strictly before `b`: directories first, then by name.
pub open spec fn entry_before(a: DirEntryInfo, b: DirEntryInfo) -> bool {
    (a.is_dir && !b.is_dir) || (a.is_dir == b.is_dir && name_before(a.name@, b.name@))
}

/// The entries that are shown, in the order they were given.
pub open spec fn shown(es: Seq<DirEntryInfo>) -> Seq<DirEntryInfo>
    decreases es.len(),
{
    if es.len() == 0 {
        Seq::empty()
    } else {
        let s = shown(es.drop_last());
        if hidden(es.last().name@) {
            s
        } else {
            s.push(es.last())
        }
    }
}

/// No entry is listed strictly before the one in front of it.
pub open spec fn listing_ordered(es: Seq<DirEntryInfo>) -> bool {
    forall|i: int| 0 <= i < es.len() - 1 ==> !entry_before(#[trigger] es[i + 1], es[i])
}

fn name_before_exec(a: &[char], b: &[char]) -> (r: bool)
    ensures
        r == name_before(a@, b@),
{
    let mut i: usize = 0;
    assert(a@.skip(0) =~= a@);
    assert(b@.skip(0) =~= b@);
    while i < a.len() && i < b.len() && a[i] == b[i]
        invariant
            i <= a.len(),
            i <= b.len(),
            name_before(a@, b@) == name_before(a@.skip(i as int), b@.skip(i as int)),
        decreases a.len() - i,
    {
        assert(a@.skip(i as int).drop_first() =~= a@.skip(i + 1));
        assert(b@.skip(i as int).drop_first() =~= b@.skip(i + 1));
        assert(a@.skip(i as int)[0] == a@[i as int]);
        assert(b@.skip(i as int)[0] == b@[i as int]);
        i = i + 1;
    }
    if i == a.len() {
        i < b.len()
    } else if i == b.len() {
        false
    } else {
        assert(a@.skip(i as int)[0] == a@[i as int]);
        assert(b@.skip(i as int)[0] == b@[i as int]);
        (a[i] as u32) < (b[i] as u32)
    }
}

fn entry_before_exec(a: &DirEntryInfo, b: &DirEntryInfo) -> (r: bool)
    ensures
        r == entry_before(*a, *b),
{
    if a.is_dir && !b.is_dir {
        return true;
    }
    if a.is_dir != b.is_dir {
        return false;
    }
    let av = to_chars(a.name.as_str());
    let bv = to_chars(b.name.as_str());
    name_before_exec(&av, &bv)
}

proof fn lemma_name_before_asym(a: Seq<char>, b: Seq<char>)
    ensures
        name_before(a, b) ==> !name_before(b, a),
    decreases a.len(),
{
    if a.len() > 0 && b.len() > 0 && a[0] == b[0] {
        lemma_name_before_asym(a.drop_first(), b.drop_first());
    }
}

/// The entries of a directory as listed: hidden ones dropped, directories
/// first, then by name.
pub fn scan_order(entries: &Vec<DirEntryInfo>) -> (out: Vec<DirEntryInfo>)
    ensures
        out@.to_multiset() == shown(entries@).to_multiset(),
        listing_ordered(out@),
{
    broadcast use vstd::seq_lib::group_to_multiset_ensures;

    let mut out: Vec<DirEntryInfo> = Vec::new();
    let mut i: usize = 0;
    while i < entries.len()
        invariant
            i <= entries.len(),
            out@.to_multiset() == shown(entries@.take(i as int)).to_multiset(),
            listing_ordered(out@),
        decreases entries.len() - i,
    {
        assert(entries@.take(i + 1).drop_last() =~= entries@.take(i as int));
        assert(entries@.take(i + 1).last() == entries@[i as int]);
        let e = &entries[i];
        let first = if e.name.as_str().is_empty() {
            None
        } else {
            let v = to_chars(e.name.as_str());
            Some(v[0])
        };
        if first != Some('.') {
            let x = DirEntryInfo { name: e.name.clone(), is_dir: e.is_dir, size: e.size };
            assert(x == entries@[i as int]);
            let mut k: usize = 0;
            while k < out.len() && !entry_before_exec(&x, &out[k])
                invariant
                    k <= out.len(),
                    forall|j: int| 0 <= j < k ==> !entry_before(x, #[trigger] out@[j]),
                decreases out.len() - k,
            {
                k = k + 1;
            }
            let ghost before = out@;
            assert(k == out@.len() || entry_before(x, out@[k as int]));
            proof {
                if k < out@.len() {
                    lemma_name_before_asym(x.name@, out@[k as int].name@);
                }
            }
            out.insert(k, x);
            proof {
                vstd::seq_lib::to_multiset_insert(before, k as int, x);
                assert(shown(entries@.take(i + 1)) == shown(entries@.take(i as int)).push(x));
                vstd::seq_lib::to_multiset_build(shown(entries@.take(i as int)), x);
                assert forall|j: int| 0 <= j < out@.len() - 1 implies !entry_before(
                    #[trigger] out@[j + 1],
                    out@[j],
                ) by {
                    if j + 1 < k {
                        assert(out@[j] == before[j] && out@[j + 1] == before[j + 1]);
                        assert(!entry_before(before[j + 1], before[j]));
                    } else if j + 1 == k {
                        assert(out@[j] == before[j]);
                        assert(out@[j + 1] == x);
                        assert(!entry_before(x, before[j]));
                    } else if j == k {
                        assert(out@[j] == x);
                        assert(out@[j + 1] == before[j]);
                        assert(entry_before(x, before[j]));
                    } else {
                        assert(out@[j] == before[j - 1] && out@[j + 1] == before[j]);
                        assert(!entry_before(before[(j - 1) + 1], before[j - 1]));
                    }
                }
            }
        } else {
            assert(hidden(entries@[i as int].name@));
            assert(shown(entries@.take(i + 1)) == shown(entries@.take(i as int)));
        }
        i = i + 1;
    }
    assert(entries@.take(entries.len() as int) =~= entries@);
    out
}

} // verus!
