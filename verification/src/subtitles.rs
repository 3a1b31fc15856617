//! The subtitle-format check: among the names that carry a subtitle
//! extension, find those that do not classify against the Subtitle
//! pattern.

use vstd::prelude::*;

use crate::path::has_subtitle_ext;
use crate::path::name_has_subtitle_ext;
use crate::subtitle::match_subtitle;
use crate::subtitle::sub_matches;

verus! {

/// A name that looks like a subtitle file by its extension but does not
/// parse as `<base>.<locale>.<ext>`.
pub open spec fn erroneous_subtitle(nm: Seq<char>) -> bool {
    has_subtitle_ext(nm) && !sub_matches(nm)
}

/// The erroneous subtitle names of a listing, in listing order.
pub open spec fn erroneous_subtitles_of(names: Seq<String>) -> Seq<Seq<char>>
    decreases names.len(),
{
    if names.len() == 0 {
        Seq::empty()
    } else {
        erroneous_subtitles_of(names.drop_last()) + if erroneous_subtitle(names.last()@) {
            seq![names.last()@]
        } else {
            Seq::empty()
        }
    }
}

/// Lists the names of a directory scope that carry a subtitle extension
/// yet fail the Subtitle pattern, in listing order.
pub fn list_erroneous_subtitles(names: &Vec<String>) -> (r: Vec<String>)
    ensures
        r@.map_values(|s: String| s@) == erroneous_subtitles_of(names@),
{
    let n = names.len();
    let mut r: Vec<String> = Vec::new();
    let mut i: usize = 0;
    assert(names@.subrange(0, 0) =~= Seq::<String>::empty());
    assert(r@.map_values(|s: String| s@) =~= erroneous_subtitles_of(names@.subrange(0, 0)));
    while i < n
        invariant
            i <= n == names@.len(),
            r@.map_values(|s: String| s@) == erroneous_subtitles_of(names@.subrange(0, i as int)),
        decreases n - i,
    {
        proof {
            let t = names@.subrange(0, i + 1);
            assert(t.drop_last() =~= names@.subrange(0, i as int));
            assert(t.last() == names@[i as int]);
        }
        let ghost before = r@;
        if name_has_subtitle_ext(names[i].as_str()) && match_subtitle(names[i].as_str()).is_none() {
            r.push(names[i].clone());
            proof {
                assert(r@.map_values(|s: String| s@) =~= before.map_values(|s: String| s@).push(
                    names@[i as int]@,
                ));
            }
        }
        i += 1;
    }
    assert(names@.subrange(0, n as int) =~= names@);
    r
}

} // verus!
