//! Query matching: returns up to five projects whose short name contains the
//! query, in scan order. A configured prefix gates the input and its first
//! occurrence is removed before matching. Matching is pure substring
//! containment, the documented strategy of this plugin.

use vstd::prelude::*;
use vstd::string::StrSliceExecFns;
use vstd::string::StringExecFns;

use crate::config::ConfigV;
use crate::scan::views_of;
use crate::scan::ProjectV;
use crate::state::State;
use crate::text::find_first;
use crate::text::occurs_in;
use crate::text::remove_first;
use crate::text::starts_with_seq;
use crate::text::starts_with_str;
use crate::text::strip_first;

verus! {

/// The largest number of matches ever returned.
pub const MAX_MATCHES: usize = 5;

/// One candidate result surfaced to the user.
pub struct MatchItem {
    /// Display title: the editor label followed by the short name.
    pub title: String,
    /// Icon identifier, taken verbatim from the configuration.
    pub icon: String,
    /// The matched project's full path.
    pub description: String,
    /// Selection token handed back for a launch.
    pub id: u64,
}

/// The ghost value of a `MatchItem`.
pub struct MatchItemV {
    pub title: Seq<char>,
    pub icon: Seq<char>,
    pub description: Seq<char>,
    pub id: u64,
}

impl View for MatchItem {
    type V = MatchItemV;

    open spec fn view(&self) -> MatchItemV {
        MatchItemV {
            title: self.title@,
            icon: self.icon@,
            description: self.description@,
            id: self.id,
        }
    }
}

/// The ghost values of a match list.
pub open spec fn match_views(ms: Seq<MatchItem>) -> Seq<MatchItemV> {
    ms.map_values(|m: MatchItem| m@)
}

/// The label prepended to every match title.
pub open spec fn title_label() -> Seq<char> {
    "VSCode: "@
}

/// The match a project yields under a configuration.
pub open spec fn match_of(cfg: ConfigV, p: ProjectV) -> MatchItemV {
    MatchItemV {
        title: title_label() + p.short_name,
        icon: cfg.icon,
        description: p.full_path,
        id: p.id,
    }
}

/// The query an input yields: `None` when the input is empty, or when a
/// configured prefix does not start it; otherwise the input with the first
/// occurrence of the prefix removed.
pub open spec fn spec_query(cfg: ConfigV, input: Seq<char>) -> Option<Seq<char>> {
    if input.len() == 0 {
        None
    } else {
        match cfg.prefix {
            Some(p) => if starts_with_seq(input, p) {
                Some(strip_first(input, p))
            } else {
                None
            },
            None => Some(input),
        }
    }
}

/// The projects whose short name contains the query, in list order.
pub open spec fn spec_hits(ps: Seq<ProjectV>, q: Seq<char>) -> Seq<ProjectV>
    decreases ps.len(),
{
    if ps.len() == 0 {
        Seq::empty()
    } else {
        let prev = spec_hits(ps.drop_last(), q);
        if occurs_in(ps.last().short_name, q) {
            prev.push(ps.last())
        } else {
            prev
        }
    }
}

/// The first `k` elements of `s`, or all of them when it is shorter.
pub open spec fn cap<A>(s: Seq<A>, k: int) -> Seq<A> {
    if s.len() <= k {
        s
    } else {
        s.take(k)
    }
}

/// All matches an input yields: up to `MAX_MATCHES` of the projects whose
/// short name contains the query, in scan order.
pub open spec fn spec_matches(cfg: ConfigV, ps: Seq<ProjectV>, input: Seq<char>) -> Seq<
    MatchItemV,
> {
    match spec_query(cfg, input) {
        None => Seq::empty(),
        Some(q) => cap(spec_hits(ps, q), MAX_MATCHES as int).map_values(
            |p: ProjectV| match_of(cfg, p),
        ),
    }
}

/// No input ever yields more than `MAX_MATCHES` matches, however many
/// projects match.
pub proof fn lemma_match_cap(cfg: ConfigV, ps: Seq<ProjectV>, input: Seq<char>)
    ensures
        spec_matches(cfg, ps, input).len() <= MAX_MATCHES,
{
}

/// With a configured prefix: an input that does not start with it yields no
/// matches, and one that does is matched with the prefix's first occurrence
/// removed from it.
pub proof fn lemma_prefix_gate(cfg: ConfigV, ps: Seq<ProjectV>, input: Seq<char>, p: Seq<char>)
    requires
        cfg.prefix == Some(p),
    ensures
        !starts_with_seq(input, p) ==> spec_matches(cfg, ps, input) == Seq::<MatchItemV>::empty(),
        input.len() > 0 && starts_with_seq(input, p) ==> spec_matches(cfg, ps, input) == cap(
            spec_hits(ps, strip_first(input, p)),
            MAX_MATCHES as int,
        ).map_values(|q: ProjectV| match_of(cfg, q)),
{
}

/// Returns the matches for `input` against the scanned projects, in scan
/// order and capped at `MAX_MATCHES`.
pub fn get_matches(input: &str, state: &State) -> (r: Vec<MatchItem>)
    ensures
        match_views(r@) == spec_matches(state.config@, views_of(state.results@), input@),
        r@.len() <= MAX_MATCHES,
{
    let ghost cfg = state.config@;
    let ghost psv = views_of(state.results@);
    if input.unicode_len() == 0 {
        let r: Vec<MatchItem> = Vec::new();
        proof {
            assert(match_views(r@) =~= spec_matches(cfg, psv, input@));
        }
        return r;
    }
    let query: String = match &state.config.prefix {
        Some(p) => {
            if !starts_with_str(input, p.as_str()) {
                let r: Vec<MatchItem> = Vec::new();
                proof {
                    assert(match_views(r@) =~= spec_matches(cfg, psv, input@));
                }
                return r;
            }
            remove_first(input, p.as_str())
        },
        None => input.to_owned(),
    };
    proof {
        assert(spec_query(cfg, input@) == Some(query@));
    }
    let ghost q = query@;
    let mut out: Vec<MatchItem> = Vec::new();
    proof {
        assert(psv.take(0) =~= Seq::<ProjectV>::empty());
        assert(match_views(out@) =~= cap(spec_hits(psv.take(0), q), MAX_MATCHES as int).map_values(
            |p: ProjectV| match_of(cfg, p),
        ));
    }
    let mut i: usize = 0;
    while i < state.results.len()
        invariant
            cfg == state.config@,
            psv == views_of(state.results@),
            psv.len() == state.results@.len(),
            spec_query(cfg, input@) == Some(q),
            q == query@,
            i <= state.results.len(),
            out@.len() <= MAX_MATCHES,
            match_views(out@) == cap(spec_hits(psv.take(i as int), q), MAX_MATCHES as int)
                .map_values(|p: ProjectV| match_of(cfg, p)),
        decreases state.results.len() - i,
    {
        let ghost hits = spec_hits(psv.take(i as int), q);
        proof {
            assert(psv.take(i + 1int).drop_last() =~= psv.take(i as int));
            assert(psv.take(i + 1int).last() == psv[i as int]);
            assert(psv[i as int] == state.results@[i as int]@);
            assert(match_views(out@).len() == out@.len());
        }
        let p = &state.results[i];
        if out.len() < MAX_MATCHES {
            proof {
                assert(hits.len() < MAX_MATCHES);
            }
            if find_first(p.short_name.as_str(), query.as_str()).is_some() {
                let mut title = "VSCode: ".to_owned();
                title.append(p.short_name.as_str());
                let m = MatchItem {
                    title,
                    icon: state.config.icon.clone(),
                    description: p.full_path.clone(),
                    id: p.id,
                };
                proof {
                    assert(m@ == match_of(cfg, psv[i as int]));
                    assert(spec_hits(psv.take(i + 1int), q) == hits.push(psv[i as int]));
                    assert(cap(hits.push(psv[i as int]), MAX_MATCHES as int) == hits.push(
                        psv[i as int],
                    ));
                    assert(cap(hits, MAX_MATCHES as int) == hits);
                    assert(match_views(out@.push(m)) =~= match_views(out@).push(m@));
                    assert(hits.push(psv[i as int]).map_values(|pv: ProjectV| match_of(cfg, pv))
                        =~= hits.map_values(|pv: ProjectV| match_of(cfg, pv)).push(
                        match_of(cfg, psv[i as int]),
                    ));
                }
                out.push(m);
            } else {
                proof {
                    assert(spec_hits(psv.take(i + 1int), q) == hits);
                }
            }
        } else {
            proof {
                assert(out@.len() == MAX_MATCHES);
                assert(cap(hits, MAX_MATCHES as int).len() == MAX_MATCHES);
                assert(hits.len() >= MAX_MATCHES);
                if occurs_in(psv[i as int].short_name, q) {
                    assert(spec_hits(psv.take(i + 1int), q) == hits.push(psv[i as int]));
                    assert(cap(hits.push(psv[i as int]), MAX_MATCHES as int) =~= cap(
                        hits,
                        MAX_MATCHES as int,
                    ));
                } else {
                    assert(spec_hits(psv.take(i + 1int), q) == hits);
                }
            }
        }
        i += 1;
    }
    proof {
        assert(psv.take(state.results@.len() as int) =~= psv);
    }
    out
}

} // verus!
