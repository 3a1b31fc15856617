//! Classification tests for the four naming patterns.

use media_audit::get_extension_from_filename;
use media_audit::match_episode;
use media_audit::match_film;
use media_audit::match_season;
use media_audit::match_subtitle;
use media_audit::name_has_media_ext;
use media_audit::name_has_subtitle_ext;
use media_audit::season_is_match;

#[test]
fn film_basic_capture() {
    let c = match_film("The Matrix (1999)").expect("should classify");
    assert_eq!(c.title, "The Matrix");
    assert_eq!(c.year, 1999);
}

#[test]
fn film_title_with_parenthesis() {
    let c = match_film("A (2000) (2010)").expect("should classify");
    assert_eq!(c.title, "A (2000)");
    assert_eq!(c.year, 2010);
}

#[test]
fn film_extra_whitespace_joins_title() {
    // The title is greedy: only one whitespace character separates it
    // from the parenthesis, the rest stays in the title.
    let c = match_film("A  (2000)").expect("should classify");
    assert_eq!(c.title, "A ");
    assert_eq!(c.year, 2000);
}

#[test]
fn film_non_ascii_separator() {
    // The no-break space has Unicode's White_Space property, so it
    // separates a title from its year.
    let c = match_film("Matrix\u{a0}(1999)").expect("should classify");
    assert_eq!(c.title, "Matrix");
    assert_eq!(c.year, 1999);
}

#[test]
fn film_rejects_malformed_names() {
    assert!(match_film("The Matrix").is_none());
    assert!(match_film("Matrix (199)").is_none());
    assert!(match_film("Matrix (19991)").is_none());
    assert!(match_film("Matrix (19x9)").is_none());
    assert!(match_film("Matrix(1999)").is_none());
    assert!(match_film(" (1999)").is_none());
    assert!(match_film("Matrix (1999) extra").is_none());
    assert!(match_film("").is_none());
}

#[test]
fn season_plain_number() {
    let c = match_season("Season 01").expect("should classify");
    assert_eq!(c.number, 1);
    assert!(c.display_name.is_none());
}

#[test]
fn season_with_display_name() {
    let c = match_season("Season 10 - The Final Chapter").expect("should classify");
    assert_eq!(c.number, 10);
    assert_eq!(c.display_name.as_deref(), Some("The Final Chapter"));
}

#[test]
fn season_long_number() {
    let c = match_season("Season 2024").expect("should classify");
    assert_eq!(c.number, 2024);
}

#[test]
fn season_rejects_malformed_names() {
    assert!(match_season("Season 1").is_none());
    assert!(match_season("season 01").is_none());
    assert!(match_season("Season01").is_none());
    assert!(match_season("Season 01 -").is_none());
    assert!(match_season("Season 01 - ").is_none());
    assert!(match_season("Seasons 01").is_none());
    assert!(match_season("Season 01x").is_none());
}

#[test]
fn season_is_match_agrees() {
    assert!(season_is_match("Season 02"));
    assert!(season_is_match("Season 02 - Shadows"));
    assert!(!season_is_match("Episode 02"));
}

#[test]
fn episode_without_title() {
    let c = match_episode("Show - S01E02.mkv").expect("should classify");
    assert_eq!(c.series_name, "Show");
    assert_eq!(c.season_number, 1);
    assert_eq!(c.episode_number, 2);
    assert!(c.episode_title.is_none());
    assert_eq!(c.extension, "mkv");
}

#[test]
fn episode_with_title() {
    let c = match_episode("Show - S01E02 - Pilot.mkv").expect("should classify");
    assert_eq!(c.series_name, "Show");
    assert_eq!(c.season_number, 1);
    assert_eq!(c.episode_number, 2);
    assert_eq!(c.episode_title.as_deref(), Some("Pilot"));
    assert_eq!(c.extension, "mkv");
}

#[test]
fn episode_one_digit_season() {
    let c = match_episode("Show - S1E02.mkv").expect("should classify");
    assert_eq!(c.season_number, 1);
    assert_eq!(c.episode_number, 2);
}

#[test]
fn episode_separator_without_title() {
    let c = match_episode("Show - S01E02 - .mkv").expect("should classify");
    assert!(c.episode_title.is_none());
}

#[test]
fn episode_title_with_dots() {
    let c = match_episode("Show - S01E02 - A.Big.Day.mkv").expect("should classify");
    assert_eq!(c.episode_title.as_deref(), Some("A.Big.Day"));
    assert_eq!(c.extension, "mkv");
}

#[test]
fn episode_series_name_is_greedy() {
    let c = match_episode("A - S1E02 - B - S2E03.mkv").expect("should classify");
    assert_eq!(c.series_name, "A - S1E02 - B");
    assert_eq!(c.season_number, 2);
    assert_eq!(c.episode_number, 3);
    assert!(c.episode_title.is_none());
}

#[test]
fn episode_rejects_malformed_names() {
    assert!(match_episode("Show - S01E2.mkv").is_none());
    assert!(match_episode("Show S01E02.mkv").is_none());
    assert!(match_episode("Show - S01E02").is_none());
    assert!(match_episode("Show - E02.mkv").is_none());
    assert!(match_episode("Show.mkv").is_none());
}

#[test]
fn subtitle_two_letter_locale() {
    let c = match_subtitle("Movie.en.srt").expect("should classify");
    assert_eq!(c.base_name, "Movie");
    assert_eq!(c.locale, "en");
    assert_eq!(c.extension, "srt");
}

#[test]
fn subtitle_dashed_locale() {
    let c = match_subtitle("Movie.en-us.srt").expect("should classify");
    assert_eq!(c.base_name, "Movie");
    assert_eq!(c.locale, "en-us");
    assert_eq!(c.extension, "srt");
}

#[test]
fn subtitle_three_letter_locale() {
    let c = match_subtitle("Movie.eng.ass").expect("should classify");
    assert_eq!(c.base_name, "Movie");
    assert_eq!(c.locale, "eng");
    assert_eq!(c.extension, "ass");
}

#[test]
fn subtitle_non_ascii_locale() {
    let c = match_subtitle("Film.\u{e9}\u{e9}.srt").expect("should classify");
    assert_eq!(c.base_name, "Film");
    assert_eq!(c.locale, "\u{e9}\u{e9}");
    assert_eq!(c.extension, "srt");
}

#[test]
fn subtitle_rejects_malformed_names() {
    assert!(match_subtitle("Movie.srt").is_none());
    assert!(match_subtitle("Movie.xx-yy-zz.srt").is_none());
    assert!(match_subtitle("Movie.e.srt").is_none());
    assert!(match_subtitle("Movie.en.mkv").is_none());
    assert!(match_subtitle(".en.srt").is_none());
}

#[test]
fn extension_lookup() {
    assert_eq!(get_extension_from_filename("a.mkv"), Some("mkv"));
    assert_eq!(get_extension_from_filename("a.b.c"), Some("c"));
    assert_eq!(get_extension_from_filename("archive"), None);
    assert_eq!(get_extension_from_filename(".hidden"), None);
}

#[test]
fn extension_vocabularies() {
    assert!(name_has_media_ext("film.mkv"));
    assert!(name_has_media_ext("film.webm"));
    assert!(name_has_media_ext("clip.qt"));
    assert!(name_has_media_ext("clip.avdchd"));
    assert!(!name_has_media_ext("film.srt"));
    assert!(!name_has_media_ext("film.txt"));
    assert!(!name_has_media_ext("mkv"));
    assert!(name_has_subtitle_ext("film.srt"));
    assert!(name_has_subtitle_ext("film.vtt"));
    assert!(name_has_subtitle_ext("film.smi"));
    assert!(!name_has_subtitle_ext("film.mkv"));
}
