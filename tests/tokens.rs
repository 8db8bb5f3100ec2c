use musicabgleich::{Chart, SortBy, SubtitleFormat};

#[test]
fn chart_tokens_are_the_short_codes() {
    assert_eq!(Chart::TopEditorialChart.as_str(), "top");
    assert_eq!(Chart::HotMostViewedLyricsLast2Hours.as_str(), "hot");
    assert_eq!(Chart::MxmWeeklyMostViewedLyricsLast7Days.as_str(), "mxmweekly");
    assert_eq!(
        Chart::MxmWeeklyNewMostViewedLyricsLast7DaysNewReleasesOnly.as_str(),
        "mxmweekly_new"
    );
}

#[test]
fn subtitle_format_tokens() {
    assert_eq!(SubtitleFormat::Lrc.as_str(), "lrc");
    assert_eq!(SubtitleFormat::Dfxp.as_str(), "dfxp");
    assert_eq!(SubtitleFormat::Stledu.as_str(), "stledu");
}

#[test]
fn sort_tokens() {
    assert_eq!(SortBy::Ascending.as_str(), "asc");
    assert_eq!(SortBy::Desecending.as_str(), "desc");
}

#[test]
fn to_string_matches_as_str() {
    assert_eq!(Chart::HotMostViewedLyricsLast2Hours.to_string(), "hot".to_string());
    assert_eq!(SubtitleFormat::Stledu.to_string(), "stledu".to_string());
    assert_eq!(SortBy::Desecending.to_string(), "desc".to_string());
}

#[test]
fn distinct_variants_have_distinct_tokens() {
    let charts = [
        Chart::TopEditorialChart,
        Chart::HotMostViewedLyricsLast2Hours,
        Chart::MxmWeeklyMostViewedLyricsLast7Days,
        Chart::MxmWeeklyNewMostViewedLyricsLast7DaysNewReleasesOnly,
    ];
    for (i, a) in charts.iter().enumerate() {
        for (j, b) in charts.iter().enumerate() {
            assert_eq!(i == j, a.as_str() == b.as_str());
        }
    }
    let formats = [SubtitleFormat::Lrc, SubtitleFormat::Dfxp, SubtitleFormat::Stledu];
    for (i, a) in formats.iter().enumerate() {
        for (j, b) in formats.iter().enumerate() {
            assert_eq!(i == j, a.as_str() == b.as_str());
        }
    }
    assert_ne!(SortBy::Ascending.as_str(), SortBy::Desecending.as_str());
}

#[test]
fn tokens_are_stable_across_calls() {
    assert_eq!(Chart::TopEditorialChart.as_str(), Chart::TopEditorialChart.as_str());
    assert_eq!(SortBy::Ascending.to_string(), SortBy::Ascending.to_string());
}
