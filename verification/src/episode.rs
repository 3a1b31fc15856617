//! The Episode naming pattern:
//! `<series> - S<snum>E<epnum>[ - <epname>].<ext>`, anchored to the
//! whole name. The series name is the longest prefix that leaves a valid
//! remainder; the season number takes at least one digit, the episode
//! number at least two; the episode name is optional, and its separator
//! may appear without it; the extension is the word-character run after
//! the last dot.

use vstd::prelude::*;

use crate::chars::digit_run_end;
use crate::chars::digit_run_end_exec;
use crate::chars::digits_val;
use crate::chars::is_space_char;
use crate::chars::last_dot;
use crate::chars::last_dot_exec;
use crate::chars::lemma_digit_run_end_props;
use crate::chars::parse_digits_u32;
use crate::chars::space_at;
use crate::chars::str_len;
use crate::chars::text_between;
use crate::chars::text_range;
use crate::chars::word_range;
use crate::chars::words_between;

verus! {

/// A name classified as an episode file: the series name, season and
/// episode numbers, the optional episode title, and the extension.
pub struct EpisodeCapture {
    pub series_name: String,
    pub season_number: u32,
    pub episode_number: u32,
    pub episode_title: Option<String>,
    pub extension: String,
}

/// The name ends in a dot followed by a non-empty word-character
/// extension.
pub open spec fn ep_ext_ok(s: Seq<char>) -> bool {
    let p = last_dot(s);
    &&& p >= 0
    &&& p + 1 < s.len()
    &&& words_between(s, p + 1, s.len() as int)
}

/// A whitespace-dash-whitespace separator sits at `b`.
pub open spec fn ep_sep3_at(s: Seq<char>, b: int) -> bool {
    is_space_char(s[b]) && s[b + 1] == '-' && is_space_char(s[b + 2])
}

/// The stretch `s[b..p]` between the episode number and the extension
/// dot is a valid remainder: an optional separator, then an optional
/// line-feed-free episode name. A separator is consumed whenever its
/// three characters fit, as the greedy option takes it first.
pub open spec fn ep_body_ok(s: Seq<char>, b: int, p: int) -> bool {
    if p - b >= 3 && ep_sep3_at(s, b) {
        text_between(s, b + 3, p)
    } else {
        text_between(s, b, p)
    }
}

/// Whether the remainder `s[b..p]` carries an episode name.
pub open spec fn ep_name_present(s: Seq<char>, b: int, p: int) -> bool {
    if p - b >= 3 && ep_sep3_at(s, b) {
        p > b + 3
    } else {
        p > b
    }
}

/// The episode name the remainder `s[b..p]` carries.
pub open spec fn ep_name_at(s: Seq<char>, b: int, p: int) -> Seq<char> {
    if p - b >= 3 && ep_sep3_at(s, b) {
        s.subrange(b + 3, p)
    } else {
        s.subrange(b, p)
    }
}

/// The digit runs after the marker at `i` parse as episode coordinates:
/// at least one season digit, an `E`, at least two episode digits, and a
/// valid remainder up to the extension dot at `p`.
pub open spec fn ep_digits_ok(s: Seq<char>, i: int, p: int) -> bool {
    let de = digit_run_end(s, i + 4);
    &&& de > i + 4
    &&& de < p
    &&& s[de] == 'E'
    &&& {
        let ee = digit_run_end(s, de + 1);
        &&& ee - (de + 1) >= 2
        &&& ee <= p
        &&& ep_body_ok(s, ee, p)
    }
}

/// The name splits as an episode at `i`: a non-empty line-feed-free
/// series name `s[..i]`, a whitespace-dash-whitespace separator, the
/// literal `S`, and valid episode coordinates from there to the
/// extension dot.
pub open spec fn ep_marker_at(s: Seq<char>, i: int) -> bool {
    let p = last_dot(s);
    &&& 1 <= i
    &&& i + 4 < p
    &&& p < s.len()
    &&& text_between(s, 0, i)
    &&& is_space_char(s[i])
    &&& s[i + 1] == '-'
    &&& is_space_char(s[i + 2])
    &&& s[i + 3] == 'S'
    &&& ep_digits_ok(s, i, p)
}

/// The name matches the Episode pattern.
pub open spec fn ep_matches(s: Seq<char>) -> bool {
    ep_ext_ok(s) && exists|i: int| ep_marker_at(s, i)
}

/// The split that captures the series name: the largest valid one.
pub open spec fn ep_is_max_marker(s: Seq<char>, i: int) -> bool {
    ep_marker_at(s, i) && forall|j: int| j > i ==> !ep_marker_at(s, j)
}

/// The captured split of an episode name.
pub open spec fn ep_split(s: Seq<char>) -> int {
    choose|i: int| ep_is_max_marker(s, i)
}

/// At most one split is the largest.
pub proof fn lemma_ep_max_marker_unique(s: Seq<char>, i1: int, i2: int)
    requires
        ep_is_max_marker(s, i1),
        ep_is_max_marker(s, i2),
    ensures
        i1 == i2,
{
}

/// The captured series name of an episode file name.
pub open spec fn ep_series_name(s: Seq<char>) -> Seq<char> {
    s.subrange(0, ep_split(s))
}

/// Where the season number's digit run ends.
pub open spec fn ep_snum_end(s: Seq<char>) -> int {
    digit_run_end(s, ep_split(s) + 4)
}

/// Where the episode number's digit run ends.
pub open spec fn ep_epnum_end(s: Seq<char>) -> int {
    digit_run_end(s, ep_snum_end(s) + 1)
}

/// The captured season number of an episode file name.
pub open spec fn ep_snum_val(s: Seq<char>) -> int {
    digits_val(s.subrange(ep_split(s) + 4, ep_snum_end(s)))
}

/// The captured episode number of an episode file name.
pub open spec fn ep_epnum_val(s: Seq<char>) -> int {
    digits_val(s.subrange(ep_snum_end(s) + 1, ep_epnum_end(s)))
}

/// Whether the episode file name carries an episode title.
pub open spec fn ep_has_title(s: Seq<char>) -> bool {
    ep_name_present(s, ep_epnum_end(s), last_dot(s))
}

/// The captured episode title of an episode file name.
pub open spec fn ep_title(s: Seq<char>) -> Seq<char> {
    ep_name_at(s, ep_epnum_end(s), last_dot(s))
}

/// The captured extension of an episode file name.
pub open spec fn ep_extension(s: Seq<char>) -> Seq<char> {
    s.subrange(last_dot(s) + 1, s.len() as int)
}

/// Whether the episode split conditions hold at `i`.
fn ep_marker_exec(name: &str, i: usize, p: usize) -> (r: bool)
    requires
        p as int == last_dot(name@),
        p < name@.len(),
        1 <= i < p,
    ensures
        r == ep_marker_at(name@, i as int),
{
    if p - i <= 4 {
        return false;
    }
    if !space_at(name, i) || name.get_char(i + 1) != '-' || !space_at(name, i + 2)
        || name.get_char(i + 3) != 'S' {
        return false;
    }
    let de = digit_run_end_exec(name, i + 4);
    if de <= i + 4 || de >= p || name.get_char(de) != 'E' {
        return false;
    }
    let ee = digit_run_end_exec(name, de + 1);
    if ee - de < 3 || ee > p {
        return false;
    }
    let body_ok = if p - ee >= 3 && space_at(name, ee) && name.get_char(ee + 1) == '-'
        && space_at(name, ee + 2) {
        text_range(name, ee + 3, p)
    } else {
        text_range(name, ee, p)
    };
    if !body_ok {
        return false;
    }
    text_range(name, 0, i)
}

/// Classifies `name` against the Episode pattern: the capture record on
/// a full match whose numbers fit the result type, nothing otherwise.
/// The grammar itself puts no bound on the digit runs; numbers too large
/// for the capture type are declined as non-matches, a machine limit.
pub fn match_episode(name: &str) -> (r: Option<EpisodeCapture>)
    ensures
        r is Some <==> ep_matches(name@) && ep_snum_val(name@) <= u32::MAX
            && ep_epnum_val(name@) <= u32::MAX,
        r matches Some(c) ==> {
            &&& c.series_name@ == ep_series_name(name@)
            &&& c.season_number == ep_snum_val(name@)
            &&& c.episode_number == ep_epnum_val(name@)
            &&& (c.episode_title is Some <==> ep_has_title(name@))
            &&& (c.episode_title matches Some(t) ==> t@ == ep_title(name@))
            &&& c.extension@ == ep_extension(name@)
        },
{
    let n = str_len(name);
    let p = match last_dot_exec(name) {
        Some(p) => p,
        None => {
            return None;
        },
    };
    if p + 1 >= n {
        return None;
    }
    if !word_range(name, p + 1, n) {
        return None;
    }
    if p < 6 {
        assert(forall|j: int| !ep_marker_at(name@, j));
        return None;
    }
    let mut i: usize = p - 4;
    while i > 1
        invariant
            n == name@.len(),
            p as int == last_dot(name@),
            6 <= p < n,
            ep_ext_ok(name@),
            1 <= i <= p - 4,
            forall|j: int| j >= i ==> !ep_marker_at(name@, j),
        decreases i,
    {
        i -= 1;
        if ep_marker_exec(name, i, p) {
            proof {
                assert(ep_is_max_marker(name@, i as int));
                lemma_ep_max_marker_unique(name@, ep_split(name@), i as int);
                lemma_digit_run_end_props(name@, i as int + 4);
            }
            let de = digit_run_end_exec(name, i + 4);
            proof {
                lemma_digit_run_end_props(name@, de as int + 1);
            }
            let ee = digit_run_end_exec(name, de + 1);
            let season_number = match parse_digits_u32(name, i + 4, de) {
                Some(v) => v,
                None => {
                    return None;
                },
            };
            let episode_number = match parse_digits_u32(name, de + 1, ee) {
                Some(v) => v,
                None => {
                    return None;
                },
            };
            let series_name = name.substring_char(0, i).to_owned();
            let extension = name.substring_char(p + 1, n).to_owned();
            let episode_title = if p - ee >= 3 && space_at(name, ee)
                && name.get_char(ee + 1) == '-' && space_at(name, ee + 2) {
                if ee + 3 < p {
                    Some(name.substring_char(ee + 3, p).to_owned())
                } else {
                    None
                }
            } else {
                if ee < p {
                    Some(name.substring_char(ee, p).to_owned())
                } else {
                    None
                }
            };
            return Some(EpisodeCapture {
                series_name,
                season_number,
                episode_number,
                episode_title,
                extension,
            });
        }
    }
    assert(forall|j: int| !ep_marker_at(name@, j));
    None
}

} // verus!
