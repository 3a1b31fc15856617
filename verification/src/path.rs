//! Extension lookup on raw entry names: the text after the last dot,
//! with a leading dot (a hidden file) not counting as one.

use vstd::prelude::*;

use crate::chars::last_dot;
use crate::chars::last_dot_exec;
use crate::chars::str_len;
use crate::constants::is_media_ext;
use crate::constants::is_subtitle_ext;
use crate::constants::media_ext_range;
use crate::constants::subtitle_ext_range;

verus! {

/// Whether the name has an extension: a dot that neither leads the name
/// nor is missing.
pub open spec fn has_extension(s: Seq<char>) -> bool {
    last_dot(s) >= 1
}

/// The extension: what follows the last dot.
pub open spec fn extension_of(s: Seq<char>) -> Seq<char> {
    s.subrange(last_dot(s) + 1, s.len() as int)
}

/// Whether the name's extension is a recognized media container
/// extension.
pub open spec fn has_media_ext(s: Seq<char>) -> bool {
    has_extension(s) && is_media_ext(extension_of(s))
}

/// Whether the name's extension is a recognized subtitle extension.
pub open spec fn has_subtitle_ext(s: Seq<char>) -> bool {
    has_extension(s) && is_subtitle_ext(extension_of(s))
}

/// The extension of `filename`, if it has one.
pub fn get_extension_from_filename<'a>(filename: &'a str) -> (r: Option<&'a str>)
    ensures
        r is Some <==> has_extension(filename@),
        r matches Some(e) ==> e@ == extension_of(filename@),
{
    let n = str_len(filename);
    match last_dot_exec(filename) {
        Some(p) => {
            if p >= 1 {
                Some(filename.substring_char(p + 1, n))
            } else {
                None
            }
        },
        None => None,
    }
}

/// Whether `name` carries a recognized media container extension.
pub fn name_has_media_ext(name: &str) -> (r: bool)
    ensures
        r == has_media_ext(name@),
{
    let n = str_len(name);
    match last_dot_exec(name) {
        Some(p) => {
            if p >= 1 {
                media_ext_range(name, p + 1, n)
            } else {
                false
            }
        },
        None => false,
    }
}

/// Whether `name` carries a recognized subtitle extension.
pub fn name_has_subtitle_ext(name: &str) -> (r: bool)
    ensures
        r == has_subtitle_ext(name@),
{
    let n = str_len(name);
    match last_dot_exec(name) {
        Some(p) => {
            if p >= 1 {
                subtitle_ext_range(name, p + 1, n)
            } else {
                false
            }
        },
        None => false,
    }
}

} // verus!
