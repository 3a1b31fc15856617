//! The media kinds held under the library root, and the default root path.

use vstd::prelude::*;

verus! {

/// The kind of media a command operates on. `Film` and `Series` name the
/// two top-level directories partitioning the library; `Unknown` stands
/// for "no kind requested" and `Impossible` for contradictory requests.
#[derive(Clone, Copy, PartialEq, Eq, Structural, Debug)]
pub enum MediaType {
    Film,
    Series,
    Unknown,
    Impossible,
}

impl MediaType {
    /// The directory name (or placeholder text) for this media kind.
    pub open spec fn dir_name(self) -> Seq<char> {
        match self {
            MediaType::Film => "Films"@,
            MediaType::Series => "Series"@,
            MediaType::Unknown => "<Unknown>"@,
            MediaType::Impossible => "<Impossible>"@,
        }
    }

    /// The directory name under the media root that holds this media kind,
    /// or a bracketed placeholder for the two kinds that name no directory.
    pub fn as_str(&self) -> (r: &'static str)
        ensures
            r@ == self.dir_name(),
    {
        match self {
            MediaType::Film => "Films",
            MediaType::Series => "Series",
            MediaType::Unknown => "<Unknown>",
            MediaType::Impossible => "<Impossible>",
        }
    }
}

/// The default media root used when the caller names no directory.
pub fn get_media_dir() -> (r: String)
    ensures
        r@ == "/mnt/Primary/Media/"@,
{
    String::from_str("/mnt/Primary/Media/")
}

} // verus!
