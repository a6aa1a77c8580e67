//! Scanning of workspace metadata: each document yields a folder path, which
//! is turned into a project with a full path, a short display name and a
//! dense identifier; duplicate full paths keep their first occurrence.

use vstd::assert_sets_equal;
use vstd::prelude::*;
use vstd::string::StrSliceExecFns;
use vstd::string::StringExecFns;

use crate::text::last_segment;
use crate::text::last_segment_str;
use crate::text::starts_with_seq;
use crate::text::starts_with_str;

verus! {

/// A previously opened workspace found during the scan.
pub struct Project {
    /// Identifier, dense in list order within one scan.
    pub id: u64,
    /// Absolute path of the workspace folder.
    pub full_path: String,
    /// The final path segment, used for display and matching.
    pub short_name: String,
}

/// The ghost value of a `Project`.
pub struct ProjectV {
    pub id: u64,
    pub full_path: Seq<char>,
    pub short_name: Seq<char>,
}

impl View for Project {
    type V = ProjectV;

    open spec fn view(&self) -> ProjectV {
        ProjectV { id: self.id, full_path: self.full_path@, short_name: self.short_name@ }
    }
}

/// The ghost values of a project list.
pub open spec fn views_of(ps: Seq<Project>) -> Seq<ProjectV> {
    ps.map_values(|p: Project| p@)
}

/// The ghost values of a document list.
pub open spec fn texts_of(ds: Seq<String>) -> Seq<Seq<char>> {
    ds.map_values(|d: String| d@)
}

/// Why a metadata document contributed no project; such documents are
/// skipped, never fatal for the scan.
pub enum ScanError {
    /// The metadata file was missing or unreadable.
    Io,
    /// The document was not valid JSON or had no usable folder field.
    Json,
}

impl ScanError {
    /// A short label for diagnostics.
    pub fn label(&self) -> (r: &'static str)
        ensures
            self is Io ==> r@ == "could not read the metadata file"@,
            self is Json ==> r@ == "could not parse the metadata document"@,
    {
        match self {
            ScanError::Io => "could not read the metadata file",
            ScanError::Json => "could not parse the metadata document",
        }
    }
}

/// What parsing `doc` as a JSON document and reading its top-level field
/// `key` as a string yields; `None` for anything but an object whose field
/// `key` holds a string.
pub uninterp spec fn json_string_field_of(doc: Seq<char>, key: Seq<char>) -> Option<Seq<char>>;

/// Relies on serde_json::from_str, serde_json::Value::get and
/// serde_json::Value::as_str: parses `doc` and reads its top-level field
/// `key` as a string; the result depends on the two arguments alone.
#[verifier::external_body]
fn json_string_field(doc: &str, key: &str) -> (r: Option<String>)
    ensures
        match r {
            Some(v) => json_string_field_of(doc@, key@) == Some(v@),
            None => json_string_field_of(doc@, key@) is None,
        },
{
    match serde_json::from_str::<serde_json::Value>(doc) {
        Ok(value) => match value.get(key) {
            Some(field) => field.as_str().map(|s| s.to_string()),
            None => None,
        },
        Err(_) => None,
    }
}

/// The scheme prefix carried by folder entries.
pub open spec fn scheme_prefix() -> Seq<char> {
    "file://"@
}

/// The full path and short name a folder entry yields: a leading scheme
/// prefix is dropped, the short name is the final path segment; `None` when
/// that segment is empty.
pub open spec fn spec_project_parts(folder: Seq<char>) -> Option<(Seq<char>, Seq<char>)> {
    let full = if starts_with_seq(folder, scheme_prefix()) {
        folder.subrange(scheme_prefix().len() as int, folder.len() as int)
    } else {
        folder
    };
    let short = last_segment(full);
    if short.len() == 0 {
        None
    } else {
        Some((full, short))
    }
}

/// What one metadata document contributes: `None` when it is not valid JSON
/// with a string field `folder`, or when that folder has no final segment.
pub open spec fn spec_entry(doc: Seq<char>) -> Option<(Seq<char>, Seq<char>)> {
    match json_string_field_of(doc, "folder"@) {
        Some(folder) => spec_project_parts(folder),
        None => None,
    }
}

/// Turns one folder entry into a project carrying the given identifier.
pub fn project_from_folder(folder: &str, id: u64) -> (r: Option<Project>)
    ensures
        match r {
            Some(p) => spec_project_parts(folder@) == Some((p.full_path@, p.short_name@))
                && p.id == id,
            None => spec_project_parts(folder@) is None,
        },
{
    proof {
        reveal_strlit("file://");
    }
    let full: String = if starts_with_str(folder, "file://") {
        let n: usize = folder.unicode_len();
        folder.substring_char(7, n).to_owned()
    } else {
        folder.to_owned()
    };
    let short: String = last_segment_str(full.as_str());
    if short.unicode_len() == 0 {
        None
    } else {
        Some(Project { id, full_path: full, short_name: short })
    }
}

/// Holds when some project in `ps` carries the full path `full`.
pub open spec fn has_full_path(ps: Seq<ProjectV>, full: Seq<char>) -> bool {
    exists|k: int| 0 <= k < ps.len() && ps[k].full_path == full
}

/// The projects a sequence of metadata documents yields: invalid documents
/// are skipped, duplicate full paths keep their first occurrence, and
/// identifiers are assigned densely in list order.
pub open spec fn spec_scan(docs: Seq<Seq<char>>) -> Seq<ProjectV>
    decreases docs.len(),
{
    if docs.len() == 0 {
        Seq::empty()
    } else {
        let prev = spec_scan(docs.drop_last());
        match spec_entry(docs.last()) {
            Some(pp) => if has_full_path(prev, pp.0) {
                prev
            } else {
                prev.push(ProjectV { id: prev.len() as u64, full_path: pp.0, short_name: pp.1 })
            },
            None => prev,
        }
    }
}

/// Scans a list of metadata documents into the deduplicated project list.
pub fn scan_projects(docs: &Vec<String>) -> (r: Vec<Project>)
    ensures
        views_of(r@) == spec_scan(texts_of(docs@)),
{
    let ghost cd = texts_of(docs@);
    let mut out: Vec<Project> = Vec::new();
    let mut i: usize = 0;
    while i < docs.len()
        invariant
            cd == texts_of(docs@),
            cd.len() == docs@.len(),
            i <= docs.len(),
            views_of(out@) == spec_scan(cd.take(i as int)),
        decreases docs.len() - i,
    {
        proof {
            assert(cd.take(i + 1int).drop_last() =~= cd.take(i as int));
            assert(cd.take(i + 1int).last() == docs@[i as int]@);
        }
        let id: u64 = out.len() as u64;
        match scan_entry(docs[i].as_str(), id) {
            Some(p) => {
                let mut found = false;
                let mut k: usize = 0;
                while k < out.len()
                    invariant
                        k <= out.len(),
                        found ==> has_full_path(views_of(out@), p.full_path@),
                        !found ==> forall|t: int|
                            0 <= t < k ==> views_of(out@)[t].full_path != p.full_path@,
                    decreases out.len() - k,
                {
                    if out[k].full_path == p.full_path {
                        proof {
                            assert(views_of(out@)[k as int].full_path == p.full_path@);
                        }
                        found = true;
                    }
                    k += 1;
                }
                if !found {
                    proof {
                        assert(!has_full_path(views_of(out@), p.full_path@));
                        assert(views_of(out@.push(p)) =~= views_of(out@).push(p@));
                        assert(views_of(out@).len() == out@.len());
                    }
                    out.push(p);
                }
            },
            None => {},
        }
        i += 1;
    }
    proof {
        assert(cd.take(docs@.len() as int) =~= cd);
    }
    out
}

/// Identifiers are dense: the project at position `i` of a scan carries
/// identifier `i`.
pub proof fn lemma_scan_ids_dense(docs: Seq<Seq<char>>)
    ensures
        forall|i: int|
            0 <= i < spec_scan(docs).len() ==> (#[trigger] spec_scan(docs)[i]).id == i as u64,
    decreases docs.len(),
{
    if docs.len() == 0 {
    } else {
        lemma_scan_ids_dense(docs.drop_last());
        let prev = spec_scan(docs.drop_last());
        let ps = spec_scan(docs);
        assert forall|i: int| 0 <= i < ps.len() implies (#[trigger] ps[i]).id == i as u64 by {
            if i < prev.len() {
                assert(ps[i] == prev[i]);
            }
        }
    }
}

/// Full paths are unique across one scan: deduplication keeps only the first
/// occurrence of each.
pub proof fn lemma_scan_full_paths_unique(docs: Seq<Seq<char>>)
    ensures
        forall|i: int, j: int|
            0 <= i < j < spec_scan(docs).len() ==> (#[trigger] spec_scan(docs)[i]).full_path != (
            #[trigger] spec_scan(docs)[j]).full_path,
    decreases docs.len(),
{
    if docs.len() == 0 {
    } else {
        lemma_scan_full_paths_unique(docs.drop_last());
        let prev = spec_scan(docs.drop_last());
        let ps = spec_scan(docs);
        if ps.len() == prev.len() + 1 {
            assert forall|i: int, j: int| 0 <= i < j < ps.len() implies (#[trigger] ps[i]).full_path
                != (#[trigger] ps[j]).full_path by {
                if j == prev.len() {
                    assert(!has_full_path(prev, ps[j].full_path));
                    assert(prev[i].full_path != ps[j].full_path);
                }
            }
        }
    }
}

/// The full paths of the projects of a scan, in list order.
pub open spec fn scan_paths(docs: Seq<Seq<char>>) -> Seq<Seq<char>> {
    spec_scan(docs).map_values(|p: ProjectV| p.full_path)
}

/// The full paths the valid documents mention, in list order, duplicates
/// kept.
pub open spec fn entry_paths(docs: Seq<Seq<char>>) -> Seq<Seq<char>>
    decreases docs.len(),
{
    if docs.len() == 0 {
        Seq::empty()
    } else {
        let prev = entry_paths(docs.drop_last());
        match spec_entry(docs.last()) {
            Some(pp) => prev.push(pp.0),
            None => prev,
        }
    }
}

proof fn lemma_scan_paths_set(docs: Seq<Seq<char>>)
    ensures
        scan_paths(docs).to_set() == entry_paths(docs).to_set(),
    decreases docs.len(),
{
    broadcast use vstd::set::group_set_axioms;

    if docs.len() == 0 {
        assert(scan_paths(docs).to_set() =~= entry_paths(docs).to_set());
    } else {
        lemma_scan_paths_set(docs.drop_last());
        let prev = spec_scan(docs.drop_last());
        let prevp = scan_paths(docs.drop_last());
        let preve = entry_paths(docs.drop_last());
        match spec_entry(docs.last()) {
            Some(pp) => {
                assert(forall|x: Seq<char>| #[trigger] preve.push(pp.0).contains(x) <==> (
                preve.contains(x) || x == pp.0)) by {
                    assert forall|x: Seq<char>| #[trigger] preve.push(pp.0).contains(x) implies (
                    preve.contains(x) || x == pp.0) by {
                        let k = choose|k: int|
                            0 <= k < preve.push(pp.0).len() && preve.push(pp.0)[k] == x;
                        if k < preve.len() {
                            assert(preve[k] == x);
                        }
                    }
                    assert forall|x: Seq<char>| preve.contains(x) || x == pp.0 implies #[trigger]
                    preve.push(pp.0).contains(x) by {
                        if preve.contains(x) {
                            let k = choose|k: int| 0 <= k < preve.len() && preve[k] == x;
                            assert(preve.push(pp.0)[k] == x);
                        } else {
                            assert(preve.push(pp.0)[preve.len() as int] == x);
                        }
                    }
                }
                if has_full_path(prev, pp.0) {
                    let k = choose|k: int| 0 <= k < prev.len() && prev[k].full_path == pp.0;
                    assert(prevp[k] == pp.0);
                    assert(prevp.contains(pp.0));
                    assert(scan_paths(docs) == prevp);
                    assert(entry_paths(docs) == preve.push(pp.0));
                    assert_sets_equal!(
                        scan_paths(docs).to_set() == entry_paths(docs).to_set(),
                        x => {
                            assert(prevp.to_set().contains(x) == prevp.contains(x));
                            assert(preve.push(pp.0).to_set().contains(x)
                                == preve.push(pp.0).contains(x));
                            assert(preve.to_set().contains(x) == preve.contains(x));
                            assert(prevp.to_set().contains(x) == preve.to_set().contains(x));
                        }
                    );
                } else {
                    assert(scan_paths(docs) =~= prevp.push(pp.0));
                    assert(forall|x: Seq<char>| #[trigger] prevp.push(pp.0).contains(x) <==> (
                    prevp.contains(x) || x == pp.0)) by {
                        assert forall|x: Seq<char>| #[trigger] prevp.push(pp.0).contains(x) implies
                        (prevp.contains(x) || x == pp.0) by {
                            let k = choose|k: int|
                                0 <= k < prevp.push(pp.0).len() && prevp.push(pp.0)[k] == x;
                            if k < prevp.len() {
                                assert(prevp[k] == x);
                            }
                        }
                        assert forall|x: Seq<char>| prevp.contains(x) || x == pp.0 implies
                        #[trigger] prevp.push(pp.0).contains(x) by {
                            if prevp.contains(x) {
                                let k = choose|k: int| 0 <= k < prevp.len() && prevp[k] == x;
                                assert(prevp.push(pp.0)[k] == x);
                            } else {
                                assert(prevp.push(pp.0)[prevp.len() as int] == x);
                            }
                        }
                    }
                    assert_sets_equal!(
                        scan_paths(docs).to_set() == entry_paths(docs).to_set(),
                        x => {
                            assert(prevp.push(pp.0).to_set().contains(x)
                                == prevp.push(pp.0).contains(x));
                            assert(preve.push(pp.0).to_set().contains(x)
                                == preve.push(pp.0).contains(x));
                            assert(prevp.to_set().contains(x) == prevp.contains(x));
                            assert(preve.to_set().contains(x) == preve.contains(x));
                            assert(prevp.to_set().contains(x) == preve.to_set().contains(x));
                            assert(scan_paths(docs).to_set().contains(x)
                                == prevp.push(pp.0).contains(x));
                        }
                    );
                }
            },
            None => {
                assert(scan_paths(docs) == prevp);
                assert(entry_paths(docs) == preve);
                assert_sets_equal!(
                    scan_paths(docs).to_set() == entry_paths(docs).to_set(),
                    x => {
                        assert(prevp.to_set().contains(x) == preve.to_set().contains(x));
                    }
                );
            },
        }
    }
}

/// One project per distinct full path: a scan yields exactly as many
/// projects as there are distinct full paths among its valid documents.
pub proof fn lemma_scan_count(docs: Seq<Seq<char>>)
    ensures
        spec_scan(docs).len() == entry_paths(docs).to_set().len(),
{
    lemma_scan_full_paths_unique(docs);
    let ps = spec_scan(docs);
    let paths = scan_paths(docs);
    assert forall|i: int, j: int|
        0 <= i < paths.len() && 0 <= j < paths.len() && i != j implies #[trigger] paths[i] != (
    #[trigger] paths[j]) by {
        if i < j {
            assert(ps[i].full_path != ps[j].full_path);
        } else {
            assert(ps[j].full_path != ps[i].full_path);
        }
    }
    assert(paths.no_duplicates());
    paths.unique_seq_to_set();
    lemma_scan_paths_set(docs);
}

/// With `N` documents that are all valid and `K` duplicate full paths among
/// them, the scan yields exactly `N - K` projects: as many as there are
/// distinct full paths.
pub proof fn lemma_scan_count_all_valid(docs: Seq<Seq<char>>)
    requires
        forall|i: int| 0 <= i < docs.len() ==> (#[trigger] spec_entry(docs[i])) is Some,
    ensures
        entry_paths(docs).len() == docs.len(),
        spec_scan(docs).len() == entry_paths(docs).to_set().len(),
    decreases docs.len(),
{
    lemma_scan_count(docs);
    if docs.len() == 0 {
    } else {
        assert(spec_entry(docs[docs.len() - 1]) is Some);
        assert forall|i: int| 0 <= i < docs.drop_last().len() implies (#[trigger] spec_entry(
            docs.drop_last()[i],
        )) is Some by {
            assert(docs.drop_last()[i] == docs[i]);
        }
        lemma_scan_count_all_valid(docs.drop_last());
    }
}

/// A document that contributes no project leaves the scan of its siblings
/// untouched: removing it from the list does not change the result.
pub proof fn lemma_scan_skips_invalid(docs: Seq<Seq<char>>, i: int)
    requires
        0 <= i < docs.len(),
        spec_entry(docs[i]) is None,
    ensures
        spec_scan(docs) == spec_scan(docs.remove(i)),
    decreases docs.len(),
{
    if i == docs.len() - 1 {
        assert(docs.remove(i) =~= docs.drop_last());
    } else {
        lemma_scan_skips_invalid(docs.drop_last(), i);
        assert(docs.remove(i).drop_last() =~= docs.drop_last().remove(i));
        assert(docs.remove(i).last() == docs.last());
        assert(docs.remove(i).len() != 0);
    }
}

/// Turns one metadata document into a project carrying the given identifier.
pub fn scan_entry(doc: &str, id: u64) -> (r: Option<Project>)
    ensures
        match r {
            Some(p) => spec_entry(doc@) == Some((p.full_path@, p.short_name@)) && p.id == id,
            None => spec_entry(doc@) is None,
        },
{
    match json_string_field(doc, "folder") {
        Some(folder) => project_from_folder(folder.as_str(), id),
        None => None,
    }
}

} // verus!
