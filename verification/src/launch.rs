//! Selection handling: a selection identifier is resolved back to the stored
//! full path, and the launch command is built as one shell-interpreted
//! string. An unknown identifier aborts only the launch, never the process.

use vstd::prelude::*;
use vstd::string::StringExecFns;

use crate::config::ConfigV;
use crate::matcher::spec_matches;
use crate::scan::views_of;
use crate::scan::ProjectV;
use crate::state::wf_projects;
use crate::state::State;
use crate::text::join_with_space;

verus! {

/// The full path a selection identifier resolves to: that of the first
/// project carrying it, `None` when no project does.
pub open spec fn spec_resolve(ps: Seq<ProjectV>, id: u64) -> Option<Seq<char>>
    decreases ps.len(),
{
    if ps.len() == 0 {
        None
    } else if ps.first().id == id {
        Some(ps.first().full_path)
    } else {
        spec_resolve(ps.drop_first(), id)
    }
}

proof fn lemma_resolve_at(ps: Seq<ProjectV>, id: u64, i: int)
    requires
        0 <= i < ps.len(),
        ps[i].id == id,
        forall|k: int| 0 <= k < i ==> (#[trigger] ps[k]).id != id,
    ensures
        spec_resolve(ps, id) == Some(ps[i].full_path),
    decreases i,
{
    if i == 0 {
    } else {
        assert(ps.first().id != id);
        lemma_resolve_at(ps.drop_first(), id, i - 1);
        assert(ps.drop_first()[i - 1] == ps[i]);
    }
}

proof fn lemma_resolve_none(ps: Seq<ProjectV>, id: u64)
    requires
        forall|k: int| 0 <= k < ps.len() ==> (#[trigger] ps[k]).id != id,
    ensures
        spec_resolve(ps, id) is None,
    decreases ps.len(),
{
    if ps.len() == 0 {
    } else {
        assert(ps[0].id != id);
        assert forall|k: int| 0 <= k < ps.drop_first().len() implies (#[trigger] ps.drop_first()[k]).id
            != id by {
            assert(ps.drop_first()[k] == ps[k + 1]);
        }
        lemma_resolve_none(ps.drop_first(), id);
    }
}

/// Looks up the full path stored for a selection identifier.
pub fn resolve_path(state: &State, id: u64) -> (r: Option<String>)
    ensures
        match r {
            Some(s) => spec_resolve(views_of(state.results@), id) == Some(s@),
            None => spec_resolve(views_of(state.results@), id) is None,
        },
{
    let ghost psv = views_of(state.results@);
    let mut i: usize = 0;
    while i < state.results.len()
        invariant
            psv == views_of(state.results@),
            psv.len() == state.results@.len(),
            i <= state.results.len(),
            forall|k: int| 0 <= k < i ==> (#[trigger] psv[k]).id != id,
        decreases state.results.len() - i,
    {
        proof {
            assert(psv[i as int] == state.results@[i as int]@);
        }
        let p = &state.results[i];
        if p.id == id {
            proof {
                lemma_resolve_at(psv, id, i as int);
            }
            return Some(p.full_path.clone());
        }
        i += 1;
    }
    proof {
        lemma_resolve_none(psv, id);
    }
    None
}

/// Builds the launch command for a selection: the configured editor command
/// and the resolved full path, joined by one space and meant to be handed to
/// a shell as a single string. The path is not quoted, so a path holding
/// shell metacharacters is passed as it stands: a known limitation, kept
/// because quoting would change the observed launch behavior. Returns `None`
/// when no project carries the identifier.
pub fn launch_command(state: &State, id: u64) -> (r: Option<String>)
    ensures
        match r {
            Some(c) => spec_resolve(views_of(state.results@), id) matches Some(path) && c@
                == state.config@.command + " "@ + path,
            None => spec_resolve(views_of(state.results@), id) is None,
        },
{
    match resolve_path(state, id) {
        Some(path) => Some(join_with_space(state.config.command.as_str(), path.as_str())),
        None => None,
    }
}

proof fn lemma_hits_member(ps: Seq<ProjectV>, q: Seq<char>, t: int)
    requires
        0 <= t < crate::matcher::spec_hits(ps, q).len(),
    ensures
        exists|j: int| 0 <= j < ps.len() && crate::matcher::spec_hits(ps, q)[t] == ps[j],
    decreases ps.len(),
{
    if ps.len() == 0 {
    } else {
        let prev = crate::matcher::spec_hits(ps.drop_last(), q);
        if t < prev.len() {
            lemma_hits_member(ps.drop_last(), q, t);
            let j = choose|j: int| 0 <= j < ps.drop_last().len() && prev[t] == ps.drop_last()[j];
            assert(ps.drop_last()[j] == ps[j]);
            assert(crate::matcher::spec_hits(ps, q)[t] == ps[j]);
        } else {
            assert(crate::matcher::spec_hits(ps, q)[t] == ps[ps.len() - 1]);
        }
    }
}

/// Round trip: the identifier carried by any returned match resolves to
/// exactly the full path shown as that match's description.
pub proof fn lemma_selection_round_trip(
    cfg: ConfigV,
    ps: Seq<ProjectV>,
    input: Seq<char>,
    k: int,
)
    requires
        wf_projects(ps),
        ps.len() <= u64::MAX,
        0 <= k < spec_matches(cfg, ps, input).len(),
    ensures
        spec_resolve(ps, spec_matches(cfg, ps, input)[k].id) == Some(
            spec_matches(cfg, ps, input)[k].description,
        ),
{
    let q = crate::matcher::spec_query(cfg, input).unwrap();
    let hits = crate::matcher::spec_hits(ps, q);
    let capped = crate::matcher::cap(hits, crate::matcher::MAX_MATCHES as int);
    let m = spec_matches(cfg, ps, input)[k];
    assert(m == crate::matcher::match_of(cfg, capped[k]));
    assert(capped[k] == hits[k]);
    lemma_hits_member(ps, q, k);
    let j = choose|j: int| 0 <= j < ps.len() && hits[k] == ps[j];
    assert(m.id == j as u64);
    assert(m.description == ps[j].full_path);
    assert forall|t: int| 0 <= t < j implies (#[trigger] ps[t]).id != j as u64 by {
        assert(ps[t].id == t as u64);
    }
    lemma_resolve_at(ps, j as u64, j);
}

} // verus!
