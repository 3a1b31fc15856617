//! The episode-completeness check: within one season directory, the
//! episode numbers its files carry, and the numbers missing from
//! `1..=max`.

use vstd::prelude::*;

use crate::episode::ep_epnum_val;
use crate::episode::match_episode;
use crate::gaps::gap_seq;
use crate::gaps::missing_from_range;
use crate::gaps::seq_max;
use crate::gaps::strictly_ascending;
use crate::gaps::GapError;
use crate::titles::ep_ok;

verus! {

/// The episode numbers captured from a season directory's file names,
/// in listing order.
pub open spec fn matched_episode_numbers(files: Seq<String>) -> Seq<u32>
    decreases files.len(),
{
    if files.len() == 0 {
        Seq::empty()
    } else {
        matched_episode_numbers(files.drop_last()) + if ep_ok(files.last()@) {
            seq![ep_epnum_val(files.last()@) as u32]
        } else {
            Seq::empty()
        }
    }
}

/// Collects the episode numbers captured from a season directory's file
/// names.
pub fn collect_episode_numbers(files: &Vec<String>) -> (r: Vec<u32>)
    ensures
        r@ == matched_episode_numbers(files@),
{
    let n = files.len();
    let mut r: Vec<u32> = Vec::new();
    let mut i: usize = 0;
    assert(files@.subrange(0, 0) =~= Seq::<String>::empty());
    assert(r@ =~= matched_episode_numbers(files@.subrange(0, 0)));
    while i < n
        invariant
            i <= n == files@.len(),
            r@ == matched_episode_numbers(files@.subrange(0, i as int)),
        decreases n - i,
    {
        proof {
            let t = files@.subrange(0, i + 1);
            assert(t.drop_last() =~= files@.subrange(0, i as int));
            assert(t.last() == files@[i as int]);
        }
        match match_episode(files[i].as_str()) {
            Some(c) => {
                r.push(c.episode_number);
            },
            None => {},
        }
        i += 1;
    }
    assert(files@.subrange(0, n as int) =~= files@);
    r
}

/// Checks one season directory for consecutive episode numbers: the
/// ascending list of numbers missing from `1..=max`, or `EmptyGroup`
/// where no file classifies as an episode.
pub fn check_complete_episodes(files: &Vec<String>) -> (r: Result<Vec<u32>, GapError>)
    ensures
        r is Err <==> matched_episode_numbers(files@).len() == 0,
        r matches Err(e) ==> e == GapError::EmptyGroup,
        r matches Ok(m) ==> {
            &&& m@ == gap_seq(matched_episode_numbers(files@))
            &&& strictly_ascending(m@)
            &&& forall|v: u32|
                #[trigger] m@.contains(v) <==> 1 <= v <= seq_max(matched_episode_numbers(files@))
                    && !matched_episode_numbers(files@).contains(v)
        },
{
    let nums = collect_episode_numbers(files);
    missing_from_range(&nums)
}

} // verus!
