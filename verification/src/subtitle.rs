//! The Subtitle naming pattern: `<base>.<locale>.<ext>`, anchored to the
//! whole name, where `ext` is one of the fixed subtitle extensions and
//! `locale` is a two-letter, two-letter-dash-two-letter, or three-letter
//! word-character code. The base is the longest prefix that leaves a
//! valid locale, so the shortest locale form that fits wins.

use vstd::prelude::*;

use crate::chars::is_word_char;
use crate::chars::str_len;
use crate::chars::text_between;
use crate::chars::text_range;
use crate::chars::word_at;
use crate::constants::is_subtitle_ext;
use crate::constants::subtitle_ext_range;

verus! {

/// A name classified as a subtitle sidecar file: the base name, the
/// locale code, and the subtitle extension.
pub struct SubtitleCapture {
    pub base_name: String,
    pub locale: String,
    pub extension: String,
}

/// The span `[a, b)` of `s` has one of the three locale shapes: `ww`,
/// `www`, or `ww-ww` (word characters with a dash).
pub open spec fn locale_shape(s: Seq<char>, a: int, b: int) -> bool {
    ||| (b - a == 2 && is_word_char(s[a]) && is_word_char(s[a + 1]))
    ||| (b - a == 3 && is_word_char(s[a]) && is_word_char(s[a + 1]) && is_word_char(s[a + 2]))
    ||| (b - a == 5 && is_word_char(s[a]) && is_word_char(s[a + 1]) && s[a + 2] == '-'
        && is_word_char(s[a + 3]) && is_word_char(s[a + 4]))
}

/// The name splits as a subtitle with the locale's opening dot at `d`: a
/// non-empty line-feed-free base `s[..d]`, a locale shape up to the
/// extension's dot, and a subtitle extension at the end.
pub open spec fn sub_shape_at(s: Seq<char>, d: int) -> bool {
    let n = s.len() as int;
    &&& n >= 8
    &&& s[n - 4] == '.'
    &&& is_subtitle_ext(s.subrange(n - 3, n))
    &&& 1 <= d
    &&& s[d] == '.'
    &&& locale_shape(s, d + 1, n - 4)
    &&& text_between(s, 0, d)
}

/// The name matches the Subtitle pattern with one of the three locale
/// lengths.
pub open spec fn sub_matches(s: Seq<char>) -> bool {
    ||| sub_shape_at(s, s.len() - 7)
    ||| sub_shape_at(s, s.len() - 8)
    ||| sub_shape_at(s, s.len() - 10)
}

/// The locale dot that captures the split: the rightmost that fits, so
/// the shortest locale wins.
pub open spec fn sub_d(s: Seq<char>) -> int {
    if sub_shape_at(s, s.len() - 7) {
        s.len() - 7
    } else if sub_shape_at(s, s.len() - 8) {
        s.len() - 8
    } else {
        s.len() - 10
    }
}

/// The captured base name of a subtitle file name.
pub open spec fn sub_base(s: Seq<char>) -> Seq<char> {
    s.subrange(0, sub_d(s))
}

/// The captured locale code of a subtitle file name.
pub open spec fn sub_locale(s: Seq<char>) -> Seq<char> {
    s.subrange(sub_d(s) + 1, s.len() - 4)
}

/// The captured extension of a subtitle file name.
pub open spec fn sub_extension(s: Seq<char>) -> Seq<char> {
    s.subrange(s.len() - 3, s.len() as int)
}

/// Classifies `name` against the Subtitle pattern: the capture record on
/// a full match, nothing on a non-match.
pub fn match_subtitle(name: &str) -> (r: Option<SubtitleCapture>)
    ensures
        r is Some <==> sub_matches(name@),
        r matches Some(c) ==> {
            &&& c.base_name@ == sub_base(name@)
            &&& c.locale@ == sub_locale(name@)
            &&& c.extension@ == sub_extension(name@)
        },
{
    let n = str_len(name);
    if n < 8 {
        return None;
    }
    if name.get_char(n - 4) != '.' {
        return None;
    }
    if !subtitle_ext_range(name, n - 3, n) {
        return None;
    }
    // Locale of two characters: dot at n - 7.
    if name.get_char(n - 7) == '.' && word_at(name, n - 6) && word_at(name, n - 5)
        && text_range(name, 0, n - 7) && n >= 8 {
        let d = n - 7;
        assert(sub_shape_at(name@, d as int));
        let base_name = name.substring_char(0, d).to_owned();
        let locale = name.substring_char(d + 1, n - 4).to_owned();
        let extension = name.substring_char(n - 3, n).to_owned();
        return Some(SubtitleCapture { base_name, locale, extension });
    }
    // Locale of three characters: dot at n - 8.
    if n >= 9 && name.get_char(n - 8) == '.' && word_at(name, n - 7) && word_at(name, n - 6)
        && word_at(name, n - 5) && text_range(name, 0, n - 8) {
        let d = n - 8;
        assert(sub_shape_at(name@, d as int));
        let base_name = name.substring_char(0, d).to_owned();
        let locale = name.substring_char(d + 1, n - 4).to_owned();
        let extension = name.substring_char(n - 3, n).to_owned();
        return Some(SubtitleCapture { base_name, locale, extension });
    }
    // Locale of the dashed form `ww-ww`: dot at n - 10.
    if n >= 11 && name.get_char(n - 10) == '.' && word_at(name, n - 9) && word_at(name, n - 8)
        && name.get_char(n - 7) == '-' && word_at(name, n - 6) && word_at(name, n - 5)
        && text_range(name, 0, n - 10) {
        let d = n - 10;
        assert(sub_shape_at(name@, d as int));
        let base_name = name.substring_char(0, d).to_owned();
        let locale = name.substring_char(d + 1, n - 4).to_owned();
        let extension = name.substring_char(n - 3, n).to_owned();
        return Some(SubtitleCapture { base_name, locale, extension });
    }
    proof {
        assert(!sub_shape_at(name@, n - 7));
        assert(!sub_shape_at(name@, n - 8));
        assert(!sub_shape_at(name@, n - 10));
    }
    None
}

} // verus!
