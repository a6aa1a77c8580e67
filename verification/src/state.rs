//! The per-process snapshot built at startup: the loaded configuration plus
//! the scanned project list, read-only thereafter.

use vstd::prelude::*;
use vstd::string::StringExecFns;

use crate::config::Config;
use crate::scan::lemma_scan_full_paths_unique;
use crate::scan::lemma_scan_ids_dense;
use crate::scan::scan_projects;
use crate::scan::spec_scan;
use crate::scan::texts_of;
use crate::scan::views_of;
use crate::scan::Project;
use crate::scan::ProjectV;

verus! {

/// Well-formedness of a scanned project list: identifiers are dense in list
/// order and full paths are unique.
pub open spec fn wf_projects(ps: Seq<ProjectV>) -> bool {
    &&& forall|i: int| 0 <= i < ps.len() ==> (#[trigger] ps[i]).id == i as u64
    &&& forall|i: int, j: int|
        0 <= i < j < ps.len() ==> (#[trigger] ps[i]).full_path != (#[trigger] ps[j]).full_path
}

/// The startup snapshot: configuration and scanned projects, owned by one
/// process-wide context and only read afterwards.
pub struct State {
    /// The loaded settings.
    pub config: Config,
    /// The scanned projects, deduplicated and densely identified.
    pub results: Vec<Project>,
}

impl State {
    /// Builds the snapshot from the loaded configuration and the metadata
    /// documents found under the workspace-storage root, one per
    /// subdirectory, in directory order.
    pub fn new(config: Config, docs: &Vec<String>) -> (r: State)
        ensures
            r.config == config,
            views_of(r.results@) == spec_scan(texts_of(docs@)),
            wf_projects(views_of(r.results@)),
    {
        let results = scan_projects(docs);
        proof {
            lemma_scan_ids_dense(texts_of(docs@));
            lemma_scan_full_paths_unique(texts_of(docs@));
        }
        State { config, results }
    }
}

/// The static identity of the plugin, shown by the host's main surface.
pub struct PluginIdentity {
    pub name: String,
    pub icon: String,
}

/// Reports the plugin's display name and icon.
pub fn identity() -> (r: PluginIdentity)
    ensures
        r.name@ == "VSCode Recents"@,
        r.icon@ == "com.visualstudio.code"@,
{
    PluginIdentity { name: "VSCode Recents".to_owned(), icon: "com.visualstudio.code".to_owned() }
}

} // verus!
