//! The season-consecutiveness check: per series, the season numbers its
//! directory holds, and the numbers missing from `1..=max`. A series
//! with no recognizable season directory is reported apart, as an empty
//! group.

use vstd::prelude::*;

use crate::gaps::gap_seq;
use crate::gaps::missing_from_range;
use crate::gaps::GapReport;
use crate::season::match_season;
use crate::season::season_matches;
use crate::season::season_number_val;

verus! {

/// A season directory name whose number also fits the capture type.
pub open spec fn season_ok(nm: Seq<char>) -> bool {
    season_matches(nm) && season_number_val(nm) <= u32::MAX
}

/// The season numbers captured from a series' child names, in listing
/// order.
pub open spec fn matched_season_numbers(children: Seq<String>) -> Seq<u32>
    decreases children.len(),
{
    if children.len() == 0 {
        Seq::empty()
    } else {
        matched_season_numbers(children.drop_last()) + if season_ok(children.last()@) {
            seq![season_number_val(children.last()@) as u32]
        } else {
            Seq::empty()
        }
    }
}

/// The gap entries of the whole listing: for each series in order, its
/// name and its missing season numbers, kept only where something is
/// missing.
pub open spec fn season_gap_entries(series: Seq<(String, Vec<String>)>) -> Seq<(Seq<char>, Seq<u32>)>
    decreases series.len(),
{
    if series.len() == 0 {
        Seq::empty()
    } else {
        let nums = matched_season_numbers(series.last().1@);
        season_gap_entries(series.drop_last()) + if nums.len() > 0 && gap_seq(nums).len() > 0 {
            seq![(series.last().0@, gap_seq(nums))]
        } else {
            Seq::empty()
        }
    }
}

/// The series of the listing with no recognizable season directory, in
/// listing order.
pub open spec fn empty_season_series(series: Seq<(String, Vec<String>)>) -> Seq<Seq<char>>
    decreases series.len(),
{
    if series.len() == 0 {
        Seq::empty()
    } else {
        empty_season_series(series.drop_last()) + if matched_season_numbers(series.last().1@).len()
            == 0 {
            seq![series.last().0@]
        } else {
            Seq::empty()
        }
    }
}

/// Collects the season numbers captured from a series' child names.
pub fn collect_season_numbers(children: &Vec<String>) -> (r: Vec<u32>)
    ensures
        r@ == matched_season_numbers(children@),
{
    let n = children.len();
    let mut r: Vec<u32> = Vec::new();
    let mut i: usize = 0;
    assert(children@.subrange(0, 0) =~= Seq::<String>::empty());
    assert(r@ =~= matched_season_numbers(children@.subrange(0, 0)));
    while i < n
        invariant
            i <= n == children@.len(),
            r@ == matched_season_numbers(children@.subrange(0, i as int)),
        decreases n - i,
    {
        proof {
            let t = children@.subrange(0, i + 1);
            assert(t.drop_last() =~= children@.subrange(0, i as int));
            assert(t.last() == children@[i as int]);
        }
        match match_season(children[i].as_str()) {
            Some(c) => {
                r.push(c.number);
            },
            None => {},
        }
        i += 1;
    }
    assert(children@.subrange(0, n as int) =~= children@);
    r
}

/// Checks each series of the listing for consecutive seasons. Returns
/// the gap reports of the series that miss a season, in listing order,
/// and the names of the series with no recognizable season directory at
/// all.
pub fn check_consecutive_seasons(series: &Vec<(String, Vec<String>)>) -> (r: (
    Vec<GapReport>,
    Vec<String>,
))
    ensures
        r.0@.map_values(|g: GapReport| (g.key@, g.missing@)) == season_gap_entries(series@),
        r.1@.map_values(|s: String| s@) == empty_season_series(series@),
{
    let n = series.len();
    let mut gap_reports: Vec<GapReport> = Vec::new();
    let mut empties: Vec<String> = Vec::new();
    let mut i: usize = 0;
    assert(series@.subrange(0, 0) =~= Seq::<(String, Vec<String>)>::empty());
    assert(gap_reports@.map_values(|g: GapReport| (g.key@, g.missing@)) =~= season_gap_entries(
        series@.subrange(0, 0),
    ));
    assert(empties@.map_values(|s: String| s@) =~= empty_season_series(series@.subrange(0, 0)));
    while i < n
        invariant
            i <= n == series@.len(),
            gap_reports@.map_values(|g: GapReport| (g.key@, g.missing@)) == season_gap_entries(
                series@.subrange(0, i as int),
            ),
            empties@.map_values(|s: String| s@) == empty_season_series(
                series@.subrange(0, i as int),
            ),
        decreases n - i,
    {
        proof {
            let t = series@.subrange(0, i + 1);
            assert(t.drop_last() =~= series@.subrange(0, i as int));
            assert(t.last() == series@[i as int]);
        }
        let ghost gaps_before = gap_reports@;
        let ghost empties_before = empties@;
        let nums = collect_season_numbers(&series[i].1);
        match missing_from_range(&nums) {
            Err(_) => {
                empties.push(series[i].0.clone());
                proof {
                    assert(empties@.map_values(|s: String| s@) =~= empties_before.map_values(
                        |s: String| s@,
                    ).push(series@[i as int].0@));
                }
            },
            Ok(missing) => {
                if missing.len() > 0 {
                    let report = GapReport { key: series[i].0.clone(), missing };
                    gap_reports.push(report);
                    proof {
                        assert(gap_reports@.map_values(|g: GapReport| (g.key@, g.missing@))
                            =~= gaps_before.map_values(|g: GapReport| (g.key@, g.missing@)).push(
                            (series@[i as int].0@, gap_seq(matched_season_numbers(
                                series@[i as int].1@,
                            ))),
                        ));
                    }
                }
            },
        }
        i += 1;
    }
    assert(series@.subrange(0, n as int) =~= series@);
    (gap_reports, empties)
}

} // verus!
