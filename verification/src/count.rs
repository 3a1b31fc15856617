//! Counting media: how many entries of a listing are media files, and
//! how many candidate directories look like a television series (hold at
//! least one season directory).

use vstd::prelude::*;

use crate::path::has_media_ext;
use crate::path::name_has_media_ext;
use crate::season::season_is_match;
use crate::season::season_matches;

verus! {

/// How many names of the listing carry a media container extension.
pub open spec fn media_file_count(names: Seq<String>) -> int
    decreases names.len(),
{
    if names.len() == 0 {
        0
    } else {
        media_file_count(names.drop_last()) + if has_media_ext(names.last()@) {
            1int
        } else {
            0int
        }
    }
}

/// Counts the names that carry a media container extension.
pub fn count_media_files(names: &Vec<String>) -> (r: usize)
    ensures
        r as int == media_file_count(names@),
{
    let n = names.len();
    let mut cnt: usize = 0;
    let mut i: usize = 0;
    assert(names@.subrange(0, 0) =~= Seq::<String>::empty());
    while i < n
        invariant
            i <= n == names@.len(),
            cnt <= i,
            cnt as int == media_file_count(names@.subrange(0, i as int)),
        decreases n - i,
    {
        proof {
            let t = names@.subrange(0, i + 1);
            assert(t.drop_last() =~= names@.subrange(0, i as int));
            assert(t.last() == names@[i as int]);
        }
        if name_has_media_ext(names[i].as_str()) {
            cnt += 1;
        }
        i += 1;
    }
    assert(names@.subrange(0, n as int) =~= names@);
    cnt
}

/// Whether at least one child name matches the Season pattern.
pub open spec fn has_season_child(children: Seq<String>) -> bool {
    exists|k: int| 0 <= k < children.len() && season_matches(children[k]@)
}

/// Whether the directory listing holds at least one season directory.
pub fn any_season_child(children: &Vec<String>) -> (r: bool)
    ensures
        r == has_season_child(children@),
{
    let n = children.len();
    let mut i: usize = 0;
    while i < n
        invariant
            i <= n == children@.len(),
            forall|k: int| 0 <= k < i ==> !season_matches(children@[k]@),
        decreases n - i,
    {
        if season_is_match(children[i].as_str()) {
            return true;
        }
        i += 1;
    }
    false
}

/// How many of the directory listings hold a season directory.
pub open spec fn series_count(dirs: Seq<Vec<String>>) -> int
    decreases dirs.len(),
{
    if dirs.len() == 0 {
        0
    } else {
        series_count(dirs.drop_last()) + if has_season_child(dirs.last()@) {
            1int
        } else {
            0int
        }
    }
}

/// Counts the directories, each given by its child-name listing, that
/// look like a television series.
pub fn count_series(dirs: &Vec<Vec<String>>) -> (r: usize)
    ensures
        r as int == series_count(dirs@),
{
    let n = dirs.len();
    let mut cnt: usize = 0;
    let mut i: usize = 0;
    assert(dirs@.subrange(0, 0) =~= Seq::<Vec<String>>::empty());
    while i < n
        invariant
            i <= n == dirs@.len(),
            cnt <= i,
            cnt as int == series_count(dirs@.subrange(0, i as int)),
        decreases n - i,
    {
        proof {
            let t = dirs@.subrange(0, i + 1);
            assert(t.drop_last() =~= dirs@.subrange(0, i as int));
            assert(t.last() == dirs@[i as int]);
        }
        if any_season_child(&dirs[i]) {
            cnt += 1;
        }
        i += 1;
    }
    assert(dirs@.subrange(0, n as int) =~= dirs@);
    cnt
}

} // verus!
