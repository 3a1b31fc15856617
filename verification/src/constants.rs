//! The fixed vocabularies the naming grammar depends on: the recognized
//! media container extensions and the recognized subtitle extensions.

use vstd::prelude::*;

use crate::chars::is_word_char;

verus! {

/// Whether `e` is one of the recognized media container extensions:
/// `mkv, avi, mp4, webm, mpg, mp2, mpeg, mpe, mpv, ogg, m4p, m4v, wmv,
/// mov, qt, flv, swf, avdchd`.
pub open spec fn is_media_ext(e: Seq<char>) -> bool {
    ||| (e.len() == 2 && e[0] == 'q' && e[1] == 't')
    ||| (e.len() == 3 && {
        ||| (e[0] == 'm' && e[1] == 'k' && e[2] == 'v')
        ||| (e[0] == 'a' && e[1] == 'v' && e[2] == 'i')
        ||| (e[0] == 'm' && e[1] == 'p' && e[2] == '4')
        ||| (e[0] == 'm' && e[1] == 'p' && e[2] == 'g')
        ||| (e[0] == 'm' && e[1] == 'p' && e[2] == '2')
        ||| (e[0] == 'm' && e[1] == 'p' && e[2] == 'e')
        ||| (e[0] == 'm' && e[1] == 'p' && e[2] == 'v')
        ||| (e[0] == 'o' && e[1] == 'g' && e[2] == 'g')
        ||| (e[0] == 'm' && e[1] == '4' && e[2] == 'p')
        ||| (e[0] == 'm' && e[1] == '4' && e[2] == 'v')
        ||| (e[0] == 'w' && e[1] == 'm' && e[2] == 'v')
        ||| (e[0] == 'm' && e[1] == 'o' && e[2] == 'v')
        ||| (e[0] == 'f' && e[1] == 'l' && e[2] == 'v')
        ||| (e[0] == 's' && e[1] == 'w' && e[2] == 'f')
    })
    ||| (e.len() == 4 && {
        ||| (e[0] == 'w' && e[1] == 'e' && e[2] == 'b' && e[3] == 'm')
        ||| (e[0] == 'm' && e[1] == 'p' && e[2] == 'e' && e[3] == 'g')
    })
    ||| (e.len() == 6 && e[0] == 'a' && e[1] == 'v' && e[2] == 'd' && e[3] == 'c' && e[4] == 'h'
        && e[5] == 'd')
}

/// Whether `e` is one of the recognized subtitle extensions:
/// `srt, smi, ssa, ass, vtt`.
pub open spec fn is_subtitle_ext(e: Seq<char>) -> bool {
    e.len() == 3 && {
        ||| (e[0] == 's' && e[1] == 'r' && e[2] == 't')
        ||| (e[0] == 's' && e[1] == 'm' && e[2] == 'i')
        ||| (e[0] == 's' && e[1] == 's' && e[2] == 'a')
        ||| (e[0] == 'a' && e[1] == 's' && e[2] == 's')
        ||| (e[0] == 'v' && e[1] == 't' && e[2] == 't')
    }
}

/// Whether the span `[from, to)` of `s` is a media container extension.
pub fn media_ext_range(s: &str, from: usize, to: usize) -> (r: bool)
    requires
        from <= to <= s@.len(),
    ensures
        r == is_media_ext(s@.subrange(from as int, to as int)),
{
    let l = to - from;
    if l == 2 {
        let c0 = s.get_char(from);
        let c1 = s.get_char(from + 1);
        c0 == 'q' && c1 == 't'
    } else if l == 3 {
        let c0 = s.get_char(from);
        let c1 = s.get_char(from + 1);
        let c2 = s.get_char(from + 2);
        (c0 == 'm' && c1 == 'k' && c2 == 'v') || (c0 == 'a' && c1 == 'v' && c2 == 'i')
            || (c0 == 'm' && c1 == 'p' && c2 == '4') || (c0 == 'm' && c1 == 'p' && c2 == 'g')
            || (c0 == 'm' && c1 == 'p' && c2 == '2') || (c0 == 'm' && c1 == 'p' && c2 == 'e')
            || (c0 == 'm' && c1 == 'p' && c2 == 'v') || (c0 == 'o' && c1 == 'g' && c2 == 'g')
            || (c0 == 'm' && c1 == '4' && c2 == 'p') || (c0 == 'm' && c1 == '4' && c2 == 'v')
            || (c0 == 'w' && c1 == 'm' && c2 == 'v') || (c0 == 'm' && c1 == 'o' && c2 == 'v')
            || (c0 == 'f' && c1 == 'l' && c2 == 'v') || (c0 == 's' && c1 == 'w' && c2 == 'f')
    } else if l == 4 {
        let c0 = s.get_char(from);
        let c1 = s.get_char(from + 1);
        let c2 = s.get_char(from + 2);
        let c3 = s.get_char(from + 3);
        (c0 == 'w' && c1 == 'e' && c2 == 'b' && c3 == 'm')
            || (c0 == 'm' && c1 == 'p' && c2 == 'e' && c3 == 'g')
    } else if l == 6 {
        let c0 = s.get_char(from);
        let c1 = s.get_char(from + 1);
        let c2 = s.get_char(from + 2);
        let c3 = s.get_char(from + 3);
        let c4 = s.get_char(from + 4);
        let c5 = s.get_char(from + 5);
        c0 == 'a' && c1 == 'v' && c2 == 'd' && c3 == 'c' && c4 == 'h' && c5 == 'd'
    } else {
        false
    }
}

/// Whether the span `[from, to)` of `s` is a subtitle extension.
pub fn subtitle_ext_range(s: &str, from: usize, to: usize) -> (r: bool)
    requires
        from <= to <= s@.len(),
    ensures
        r == is_subtitle_ext(s@.subrange(from as int, to as int)),
{
    let l = to - from;
    if l == 3 {
        let c0 = s.get_char(from);
        let c1 = s.get_char(from + 1);
        let c2 = s.get_char(from + 2);
        (c0 == 's' && c1 == 'r' && c2 == 't') || (c0 == 's' && c1 == 'm' && c2 == 'i')
            || (c0 == 's' && c1 == 's' && c2 == 'a') || (c0 == 'a' && c1 == 's' && c2 == 's')
            || (c0 == 'v' && c1 == 't' && c2 == 't')
    } else {
        false
    }
}

} // verus!
