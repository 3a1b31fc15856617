//! The title-completeness check: per series, the seasons that hold at
//! least one episode file without an episode title. A season directory
//! is scanned up to its first untitled episode; the flag is recorded
//! under the owning series — the series directory being scanned —
//! whatever series name the episode file itself carries. The flagged
//! season number is the one the file carries.

use vstd::prelude::*;

use crate::episode::ep_epnum_val;
use crate::episode::ep_has_title;
use crate::episode::ep_matches;
use crate::episode::ep_snum_val;
use crate::episode::match_episode;
use crate::gaps::sorted_dedup;
use crate::gaps::strictly_ascending;
use crate::gaps::GapReport;
use crate::season::season_is_match;
use crate::season::season_matches;

verus! {

/// An episode file name whose numbers fit the capture type.
pub open spec fn ep_ok(f: Seq<char>) -> bool {
    ep_matches(f) && ep_snum_val(f) <= u32::MAX && ep_epnum_val(f) <= u32::MAX
}

/// An episode file name that classifies but carries no episode title.
pub open spec fn untitled_episode(f: Seq<char>) -> bool {
    ep_ok(f) && !ep_has_title(f)
}

/// The flag a season directory raises: the season number carried by its
/// first untitled episode file. Scanning stops at the first hit.
pub open spec fn untitled_flag(files: Seq<String>) -> Option<u32>
    decreases files.len(),
{
    if files.len() == 0 {
        None
    } else if untitled_episode(files.first()@) {
        Some(ep_snum_val(files.first()@) as u32)
    } else {
        untitled_flag(files.drop_first())
    }
}

/// The season numbers one series directory is flagged for: one per
/// season-directory child with an untitled episode, in listing order.
pub open spec fn series_flags(children: Seq<(String, Vec<String>)>) -> Seq<u32>
    decreases children.len(),
{
    if children.len() == 0 {
        Seq::empty()
    } else {
        series_flags(children.drop_last()) + if season_matches(children.last().0@) {
            match untitled_flag(children.last().1@) {
                Some(num) => seq![num],
                None => Seq::empty(),
            }
        } else {
            Seq::empty()
        }
    }
}

/// The report of the whole listing: for each series in order, its name
/// and the set of season numbers it is flagged for, kept only where
/// something is flagged.
pub open spec fn titles_report(series: Seq<(String, Vec<(String, Vec<String>)>)>) -> Seq<
    (Seq<char>, Set<u32>),
>
    decreases series.len(),
{
    if series.len() == 0 {
        Seq::empty()
    } else {
        let flags = series_flags(series.last().1@);
        titles_report(series.drop_last()) + if flags.len() > 0 {
            seq![(series.last().0@, flags.to_set())]
        } else {
            Seq::empty()
        }
    }
}

/// Scans a season directory's files for the first untitled episode.
fn first_untitled(files: &Vec<String>) -> (r: Option<u32>)
    ensures
        r == untitled_flag(files@),
{
    let n = files.len();
    let mut j: usize = 0;
    assert(files@.subrange(0, n as int) =~= files@);
    while j < n
        invariant
            j <= n == files@.len(),
            untitled_flag(files@) == untitled_flag(files@.subrange(j as int, n as int)),
        decreases n - j,
    {
        proof {
            let t = files@.subrange(j as int, n as int);
            assert(t.first() == files@[j as int]);
            assert(t.drop_first() =~= files@.subrange(j + 1, n as int));
        }
        match match_episode(files[j].as_str()) {
            Some(c) => {
                if c.episode_title.is_none() {
                    return Some(c.season_number);
                }
            },
            None => {},
        }
        j += 1;
    }
    assert(files@.subrange(n as int, n as int) =~= Seq::<String>::empty());
    None
}

/// The flags one series directory raises, in listing order.
fn collect_series_flags(children: &Vec<(String, Vec<String>)>) -> (r: Vec<u32>)
    ensures
        r@ == series_flags(children@),
{
    let m = children.len();
    let mut r: Vec<u32> = Vec::new();
    let mut c: usize = 0;
    assert(children@.subrange(0, 0) =~= Seq::<(String, Vec<String>)>::empty());
    assert(r@ =~= series_flags(children@.subrange(0, 0)));
    while c < m
        invariant
            c <= m == children@.len(),
            r@ == series_flags(children@.subrange(0, c as int)),
        decreases m - c,
    {
        proof {
            let t = children@.subrange(0, c + 1);
            assert(t.drop_last() =~= children@.subrange(0, c as int));
            assert(t.last() == children@[c as int]);
        }
        if season_is_match(children[c].0.as_str()) {
            match first_untitled(&children[c].1) {
                Some(num) => {
                    r.push(num);
                },
                None => {},
            }
        }
        c += 1;
    }
    assert(children@.subrange(0, m as int) =~= children@);
    r
}

/// Checks each series of the listing for untitled episodes. Returns, in
/// listing order, one report per series with a flagged season: the
/// series' own name and the ascending, deduplicated season numbers its
/// season directories were flagged for.
pub fn check_series_titles(series: &Vec<(String, Vec<(String, Vec<String>)>)>) -> (r: Vec<
    GapReport,
>)
    ensures
        r@.map_values(|g: GapReport| (g.key@, g.missing@.to_set())) == titles_report(series@),
        forall|k: int| 0 <= k < r@.len() ==> strictly_ascending(#[trigger] r@[k].missing@),
{
    let n = series.len();
    let mut r: Vec<GapReport> = Vec::new();
    let mut i: usize = 0;
    assert(series@.subrange(0, 0) =~= Seq::<(String, Vec<(String, Vec<String>)>)>::empty());
    assert(r@.map_values(|g: GapReport| (g.key@, g.missing@.to_set())) =~= titles_report(
        series@.subrange(0, 0),
    ));
    while i < n
        invariant
            i <= n == series@.len(),
            r@.map_values(|g: GapReport| (g.key@, g.missing@.to_set())) == titles_report(
                series@.subrange(0, i as int),
            ),
            forall|k: int| 0 <= k < r@.len() ==> strictly_ascending(#[trigger] r@[k].missing@),
        decreases n - i,
    {
        proof {
            let t = series@.subrange(0, i + 1);
            assert(t.drop_last() =~= series@.subrange(0, i as int));
            assert(t.last() == series@[i as int]);
        }
        let nums = collect_series_flags(&series[i].1);
        let missing = sorted_dedup(&nums);
        let ghost before = r@;
        let ghost flags = series_flags(series@[i as int].1@);
        proof {
            assert forall|v: u32| #[trigger] missing@.contains(v) == flags.contains(v) by {}
            if flags.len() > 0 {
                assert(flags.contains(flags[0]));
                assert(missing@.contains(flags[0]));
                assert(missing@.len() > 0);
            }
            if missing@.len() > 0 {
                assert(missing@.contains(missing@[0]));
                assert(flags.contains(missing@[0]));
                assert(flags.len() > 0);
            }
        }
        if missing.len() > 0 {
            let report = GapReport { key: series[i].0.clone(), missing };
            r.push(report);
            proof {
                assert(r@.last().missing@.to_set() =~= flags.to_set()) by {
                    assert forall|v: u32|
                        r@.last().missing@.to_set().contains(v)
                            == flags.to_set().contains(v) by {
                        assert(r@.last().missing@.to_set().contains(v) == r@.last().missing@
                            .contains(v));
                        assert(flags.to_set().contains(v) == flags.contains(v));
                    }
                }
                assert(r@.map_values(|g: GapReport| (g.key@, g.missing@.to_set()))
                    =~= before.map_values(|g: GapReport| (g.key@, g.missing@.to_set())).push(
                    (series@[i as int].0@, flags.to_set()),
                ));
            }
        }
        i += 1;
    }
    assert(series@.subrange(0, n as int) =~= series@);
    r
}

} // verus!
