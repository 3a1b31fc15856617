//! Tests for the gap analyzer and the three consistency checks.

use media_audit::check_complete_episodes;
use media_audit::check_consecutive_seasons;
use media_audit::check_series_titles;
use media_audit::count_media_files;
use media_audit::count_series;
use media_audit::get_media_dir;
use media_audit::list_erroneous_subtitles;
use media_audit::list_films;
use media_audit::missing_from_range;
use media_audit::GapError;
use media_audit::MediaType;

fn strings(names: &[&str]) -> Vec<String> {
    names.iter().map(|s| s.to_string()).collect()
}

#[test]
fn missing_from_range_reports_gaps() {
    assert_eq!(missing_from_range(&vec![1, 2, 4]), Ok(vec![3]));
    assert_eq!(missing_from_range(&vec![1, 2, 3]), Ok(vec![]));
    assert_eq!(missing_from_range(&vec![5, 2]), Ok(vec![1, 3, 4]));
    assert_eq!(missing_from_range(&vec![3]), Ok(vec![1, 2]));
    assert_eq!(missing_from_range(&vec![1]), Ok(vec![]));
    assert_eq!(missing_from_range(&vec![7, 7, 1]), Ok(vec![2, 3, 4, 5, 6]));
}

#[test]
fn missing_from_range_empty_group() {
    assert_eq!(missing_from_range(&vec![]), Err(GapError::EmptyGroup));
}

#[test]
fn missing_from_range_is_idempotent() {
    let present = vec![2, 5, 9];
    let missing = missing_from_range(&present).unwrap();
    let mut union = present.clone();
    union.extend(missing);
    assert_eq!(union.iter().max(), present.iter().max());
    assert_eq!(missing_from_range(&union), Ok(vec![]));
}

#[test]
fn consecutive_seasons_reports_gap() {
    let series = vec![(
        "X".to_string(),
        strings(&["Season 01", "Season 02", "Season 04"]),
    )];
    let (gaps, empties) = check_consecutive_seasons(&series);
    assert_eq!(gaps.len(), 1);
    assert_eq!(gaps[0].key, "X");
    assert_eq!(gaps[0].missing, vec![3]);
    assert!(empties.is_empty());
}

#[test]
fn consecutive_seasons_silent_when_complete() {
    let series = vec![(
        "X".to_string(),
        strings(&["Season 01", "Season 02", "Season 03"]),
    )];
    let (gaps, empties) = check_consecutive_seasons(&series);
    assert!(gaps.is_empty());
    assert!(empties.is_empty());
}

#[test]
fn consecutive_seasons_flags_empty_series() {
    let series = vec![
        ("X".to_string(), strings(&["extras", "artwork.png"])),
        ("Y".to_string(), strings(&["Season 02"])),
    ];
    let (gaps, empties) = check_consecutive_seasons(&series);
    assert_eq!(empties, vec!["X".to_string()]);
    assert_eq!(gaps.len(), 1);
    assert_eq!(gaps[0].key, "Y");
    assert_eq!(gaps[0].missing, vec![1]);
}

#[test]
fn consecutive_seasons_ignores_unrecognized_children() {
    let series = vec![(
        "X".to_string(),
        strings(&["Season 01", ".DS_Store", "Season 03", "notes.txt"]),
    )];
    let (gaps, _) = check_consecutive_seasons(&series);
    assert_eq!(gaps.len(), 1);
    assert_eq!(gaps[0].missing, vec![2]);
}

#[test]
fn titles_flags_untitled_episode() {
    let series = vec![(
        "Show".to_string(),
        vec![("Season 01".to_string(), strings(&["Show - S01E02.mkv"]))],
    )];
    let reports = check_series_titles(&series);
    assert_eq!(reports.len(), 1);
    assert_eq!(reports[0].key, "Show");
    assert_eq!(reports[0].missing, vec![1]);
}

#[test]
fn titles_passes_titled_episode() {
    let series = vec![(
        "Show".to_string(),
        vec![(
            "Season 01".to_string(),
            strings(&["Show - S01E02 - Pilot.mkv"]),
        )],
    )];
    let reports = check_series_titles(&series);
    assert!(reports.is_empty());
}

#[test]
fn titles_sorts_and_dedups_seasons() {
    let series = vec![(
        "Show".to_string(),
        vec![
            ("Season 02".to_string(), strings(&["Show - S02E01.mkv"])),
            ("Season 01".to_string(), strings(&["Show - S01E01.mkv"])),
            ("Season 001".to_string(), strings(&["Show - S01E02.mkv"])),
        ],
    )];
    let reports = check_series_titles(&series);
    assert_eq!(reports.len(), 1);
    assert_eq!(reports[0].missing, vec![1, 2]);
}

#[test]
fn titles_records_under_the_owning_series() {
    // The flag goes to the series directory being scanned, whatever
    // series name the episode file itself carries.
    let series = vec![
        (
            "Show".to_string(),
            vec![("Season 01".to_string(), strings(&["Other - S01E01.mkv"]))],
        ),
        ("Other".to_string(), vec![]),
    ];
    let reports = check_series_titles(&series);
    assert_eq!(reports.len(), 1);
    assert_eq!(reports[0].key, "Show");
    assert_eq!(reports[0].missing, vec![1]);
}

#[test]
fn titles_flags_unknown_file_series_names_too() {
    let series = vec![(
        "Show".to_string(),
        vec![("Season 01".to_string(), strings(&["Stranger - S01E01.mkv"]))],
    )];
    let reports = check_series_titles(&series);
    assert_eq!(reports.len(), 1);
    assert_eq!(reports[0].key, "Show");
    assert_eq!(reports[0].missing, vec![1]);
}

#[test]
fn titles_stops_at_first_untitled_per_season() {
    let series = vec![(
        "Show".to_string(),
        vec![(
            "Season 01".to_string(),
            strings(&["Show - S01E01.mkv", "Show - S01E02.mkv"]),
        )],
    )];
    let reports = check_series_titles(&series);
    assert_eq!(reports.len(), 1);
    assert_eq!(reports[0].missing, vec![1]);
}

#[test]
fn subtitles_reports_malformed_names() {
    let names = strings(&["Movie.en.srt", "Movie.srt", "Movie.xx-yy-zz.srt", "notes.txt"]);
    let bad = list_erroneous_subtitles(&names);
    assert_eq!(bad, strings(&["Movie.srt", "Movie.xx-yy-zz.srt"]));
}

#[test]
fn subtitles_passes_well_formed_names() {
    let names = strings(&["Movie.en.srt", "Movie.en-us.vtt", "Movie.eng.smi"]);
    assert!(list_erroneous_subtitles(&names).is_empty());
}

#[test]
fn films_listed_by_year_descending() {
    let names = strings(&["B (2000)", "A (2021)", "C (2010)"]);
    let (films, unmatched) = list_films(&names);
    let order: Vec<&str> = films.iter().map(|f| f.raw_name.as_str()).collect();
    assert_eq!(order, vec!["A (2021)", "C (2010)", "B (2000)"]);
    assert!(unmatched.is_empty());
}

#[test]
fn films_order_ignores_listing_order() {
    let shuffled = strings(&["C (2010)", "A (2021)", "B (2000)"]);
    let (films, _) = list_films(&shuffled);
    let order: Vec<&str> = films.iter().map(|f| f.raw_name.as_str()).collect();
    assert_eq!(order, vec!["A (2021)", "C (2010)", "B (2000)"]);
}

#[test]
fn films_equal_years_ordered_by_name() {
    let one = strings(&["B (2000)", "A (2000)", "C (1999)"]);
    let other = strings(&["A (2000)", "C (1999)", "B (2000)"]);
    let expect = vec!["A (2000)", "B (2000)", "C (1999)"];
    let (films, _) = list_films(&one);
    let order: Vec<&str> = films.iter().map(|f| f.raw_name.as_str()).collect();
    assert_eq!(order, expect);
    let (films, _) = list_films(&other);
    let order: Vec<&str> = films.iter().map(|f| f.raw_name.as_str()).collect();
    assert_eq!(order, expect);
}

#[test]
fn films_reports_unmatched_names() {
    let names = strings(&["A (2021)", "misc folder", "B (2000)"]);
    let (films, unmatched) = list_films(&names);
    assert_eq!(films.len(), 2);
    assert_eq!(films[0].title, "A");
    assert_eq!(films[0].year, 2021);
    assert_eq!(unmatched, strings(&["misc folder"]));
}

#[test]
fn media_file_counting() {
    let names = strings(&["a.mkv", "b.txt", "c.avi", "d.srt", "e.mov"]);
    assert_eq!(count_media_files(&names), 3);
    assert_eq!(count_media_files(&strings(&[])), 0);
}

#[test]
fn series_counting() {
    let dirs = vec![
        strings(&["Season 01", "extras"]),
        strings(&["random", "stuff"]),
        strings(&["Season 10 - Finale"]),
    ];
    assert_eq!(count_series(&dirs), 2);
}

#[test]
fn complete_episodes_reports_gaps() {
    let files = strings(&["S - S01E01.mkv", "S - S01E03.mkv"]);
    assert_eq!(check_complete_episodes(&files), Ok(vec![2]));
    let full = strings(&["S - S01E01.mkv", "S - S01E02.mkv"]);
    assert_eq!(check_complete_episodes(&full), Ok(vec![]));
}

#[test]
fn complete_episodes_empty_group() {
    let files = strings(&["notes.txt"]);
    assert_eq!(check_complete_episodes(&files), Err(GapError::EmptyGroup));
}

#[test]
fn media_type_directory_names() {
    assert_eq!(MediaType::Film.as_str(), "Films");
    assert_eq!(MediaType::Series.as_str(), "Series");
    assert_eq!(MediaType::Unknown.as_str(), "<Unknown>");
    assert_eq!(MediaType::Impossible.as_str(), "<Impossible>");
}

#[test]
fn default_media_dir() {
    assert_eq!(get_media_dir(), "/mnt/Primary/Media/");
}
