//! The Season naming pattern: `Season <NN>[ - <name>]`, anchored to the
//! whole name. The number takes at least two digits and runs as far as
//! the digits do; the display name, when present, follows a
//! whitespace-dash-whitespace separator and is non-empty.

use vstd::prelude::*;

use crate::chars::digit_run_end;
use crate::chars::digit_run_end_exec;
use crate::chars::digits_val;
use crate::chars::is_space_char;
use crate::chars::lemma_digit_run_end_props;
use crate::chars::parse_digits_u32;
use crate::chars::space_at;
use crate::chars::str_len;
use crate::chars::text_between;
use crate::chars::text_range;

verus! {

/// A name classified as a season directory: the season number and the
/// optional display name.
pub struct SeasonCapture {
    pub number: u32,
    pub display_name: Option<String>,
}

/// The name opens with the literal word `Season` and one whitespace
/// character.
pub open spec fn season_word(s: Seq<char>) -> bool {
    &&& s.len() >= 7
    &&& s[0] == 'S'
    &&& s[1] == 'e'
    &&& s[2] == 'a'
    &&& s[3] == 's'
    &&& s[4] == 'o'
    &&& s[5] == 'n'
    &&& is_space_char(s[6])
}

/// Where the season number's digit run ends.
pub open spec fn season_num_end(s: Seq<char>) -> int {
    digit_run_end(s, 7)
}

/// The name matches the Season pattern: the `Season ` opening, at least
/// two digits, and then either nothing or a whitespace-dash-whitespace
/// separator with a non-empty display name free of line feeds.
pub open spec fn season_matches(s: Seq<char>) -> bool {
    let e = season_num_end(s);
    &&& season_word(s)
    &&& e - 7 >= 2
    &&& (e == s.len() || {
        &&& s.len() >= e + 4
        &&& is_space_char(s[e])
        &&& s[e + 1] == '-'
        &&& is_space_char(s[e + 2])
        &&& text_between(s, e + 3, s.len() as int)
    })
}

/// The captured season number of a season directory name.
pub open spec fn season_number_val(s: Seq<char>) -> int {
    digits_val(s.subrange(7, season_num_end(s)))
}

/// Whether the season directory name carries a display name.
pub open spec fn season_has_name(s: Seq<char>) -> bool {
    season_num_end(s) < s.len()
}

/// The captured display name of a season directory name.
pub open spec fn season_name(s: Seq<char>) -> Seq<char> {
    s.subrange(season_num_end(s) + 3, s.len() as int)
}

/// Whether `name` matches the Season pattern, whatever its number's
/// size.
pub fn season_is_match(name: &str) -> (r: bool)
    ensures
        r == season_matches(name@),
{
    let n = str_len(name);
    if n < 9 {
        proof {
            if n >= 7 {
                lemma_digit_run_end_props(name@, 7);
            }
        }
        return false;
    }
    if name.get_char(0) != 'S' || name.get_char(1) != 'e' || name.get_char(2) != 'a'
        || name.get_char(3) != 's' || name.get_char(4) != 'o' || name.get_char(5) != 'n'
        || !space_at(name, 6) {
        return false;
    }
    let e = digit_run_end_exec(name, 7);
    if e < 9 {
        return false;
    }
    if e == n {
        return true;
    }
    if n - e < 4 || !space_at(name, e) || name.get_char(e + 1) != '-' || !space_at(name, e + 2) {
        return false;
    }
    text_range(name, e + 3, n)
}

/// Classifies `name` against the Season pattern: the capture record on a
/// full match whose number fits the result type, nothing otherwise. The
/// grammar itself puts no bound on the digit run; a number too large for
/// the capture type is declined as a non-match, a machine limit.
pub fn match_season(name: &str) -> (r: Option<SeasonCapture>)
    ensures
        r is Some <==> season_matches(name@) && season_number_val(name@) <= u32::MAX,
        r matches Some(c) ==> {
            &&& c.number == season_number_val(name@)
            &&& (c.display_name is Some <==> season_has_name(name@))
            &&& (c.display_name matches Some(d) ==> d@ == season_name(name@))
        },
{
    if !season_is_match(name) {
        return None;
    }
    let n = str_len(name);
    let e = digit_run_end_exec(name, 7);
    proof {
        lemma_digit_run_end_props(name@, 7);
    }
    let number = match parse_digits_u32(name, 7, e) {
        Some(v) => v,
        None => {
            return None;
        },
    };
    let display_name = if e < n {
        Some(name.substring_char(e + 3, n).to_owned())
    } else {
        None
    };
    Some(SeasonCapture { number, display_name })
}

} // verus!
