//! Audits a locally stored media library (films and television series)
//! against a fixed set of filesystem naming conventions, reporting
//! violations: malformed titles, non-consecutive seasons, episodes missing
//! display titles, and malformed subtitle sidecar files.
//!
//! The library itself never touches the filesystem: callers hand it the
//! raw directory-entry names, and it hands back typed capture records and
//! gap reports.

pub mod chars;
pub mod constants;
pub mod count;
pub mod dir;
pub mod episode;
pub mod episodes;
pub mod film;
pub mod films;
pub mod gaps;
pub mod path;
pub mod season;
pub mod seasons;
pub mod subtitle;
pub mod subtitles;
pub mod titles;

pub use count::any_season_child;
pub use count::count_media_files;
pub use count::count_series;
pub use dir::get_media_dir;
pub use dir::MediaType;
pub use episode::match_episode;
pub use episode::EpisodeCapture;
pub use episodes::check_complete_episodes;
pub use episodes::collect_episode_numbers;
pub use film::match_film;
pub use film::FilmCapture;
pub use films::list_films;
pub use films::FilmEntry;
pub use gaps::missing_from_range;
pub use gaps::sorted_dedup;
pub use gaps::GapError;
pub use gaps::GapReport;
pub use path::get_extension_from_filename;
pub use path::name_has_media_ext;
pub use path::name_has_subtitle_ext;
pub use season::match_season;
pub use season::season_is_match;
pub use season::SeasonCapture;
pub use seasons::check_consecutive_seasons;
pub use seasons::collect_season_numbers;
pub use subtitle::match_subtitle;
pub use subtitle::SubtitleCapture;
pub use subtitles::list_erroneous_subtitles;
pub use titles::check_series_titles;
