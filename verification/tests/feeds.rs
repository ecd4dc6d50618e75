//! Behaviour of the feed extractors: the date cleanup, the table walks,
//! the tag joining, and the RSS title stream.
use ctfterm::dates::clean_date;
use ctfterm::dates::find_char_pos;
use ctfterm::dates::find_dash_pos;
use ctfterm::extract::contains_double_newline;
use ctfterm::extract::first_texts;
use ctfterm::extract::join_tags;
use ctfterm::extract::leaderboard_entries;
use ctfterm::extract::leaderboard_from_html;
use ctfterm::extract::past_events_from_html;
use ctfterm::extract::writeup_entries;
use ctfterm::extract::writeups_from_html;
use ctfterm::extract::ExtractError;
use ctfterm::rss::entry_marker_count;
use ctfterm::rss::running_events_from_rss;
use ctfterm::rss::running_events_list;
use ctfterm::rss::titles_of_events;
use ctfterm::rss::xml_events;

fn s(x: &str) -> String {
    x.to_owned()
}

#[test]
fn clean_date_two_pass_scenario() {
    let raw = "May 12, 2023 \u{2014} May 14, 2023, CTF, Jeopardy";
    assert_eq!(clean_date(raw), Some(s("May 12 \u{2014} May 14, Jeopardy")));
}

#[test]
fn clean_date_removes_both_spans() {
    let raw = "May 12, 2023 \u{2014} May 14, 2023, CTF, Jeopardy";
    let cleaned = clean_date(raw).unwrap();
    assert!(!cleaned.contains(", 2023 "));
    assert!(!cleaned.contains(", 2023, CTF"));
}

#[test]
fn clean_date_rejects_missing_comma() {
    assert_eq!(clean_date("no separators here"), None);
}

#[test]
fn clean_date_rejects_missing_dash() {
    assert_eq!(clean_date("May 12, 2023"), None);
}

#[test]
fn clean_date_rejects_dash_before_comma() {
    assert_eq!(clean_date("a \u{2014} b, c"), None);
}

#[test]
fn clean_date_rejects_short_tail() {
    assert_eq!(clean_date("a, b \u{2014} c, d"), None);
}

#[test]
fn double_newline_detection() {
    assert!(contains_double_newline("a\n\nb"));
    assert!(!contains_double_newline("a\nb\nc"));
    assert!(!contains_double_newline(""));
}

#[test]
fn join_tags_replaces_fragments_with_double_newlines() {
    let joined = join_tags(&vec![s("web"), s("\n\n    "), s("pwn")]);
    assert_eq!(joined, s("web pwn"));
    assert!(!joined.contains("\n\n"));
}

#[test]
fn join_tags_keeps_plain_fragments() {
    assert_eq!(join_tags(&vec![s("a"), s("b")]), s("ab"));
    assert_eq!(join_tags(&vec![]), s(""));
}

#[test]
fn first_texts_skips_textless_cells() {
    let row = vec![vec![s("a"), s("extra")], vec![], vec![s("b")]];
    assert_eq!(first_texts(&row), vec![s("a"), s("b")]);
}

#[test]
fn leaderboard_entry_swaps_points_and_country() {
    let rows = vec![vec![s("1"), s("TeamX"), s("1500"), s("USA")]];
    let entries = leaderboard_entries(&rows);
    assert_eq!(entries, vec![(s("1"), s("TeamX"), s("USA"), s("1500"))]);
}

#[test]
fn leaderboard_entries_drop_short_rows() {
    let rows = vec![vec![s("1"), s("TeamX"), s("1500")]];
    assert_eq!(leaderboard_entries(&rows), vec![]);
}

#[test]
fn writeup_entries_take_five_fields() {
    let rows = vec![
        vec![s("a"), s("b"), s("c"), s("d"), s("e"), s("f")],
        vec![s("short")],
    ];
    assert_eq!(writeup_entries(&rows), vec![(s("a"), s("b"), s("c"), s("d"), s("e"))]);
}

#[test]
fn past_events_from_html_cleans_dates() {
    let html = "<table>\
        <tr><th>Name</th><th>Date</th></tr>\
        <tr><td>Event One</td><td>May 12, 2023 \u{2014} May 14, 2023, CTF, Jeopardy</td></tr>\
        </table>";
    let events = past_events_from_html(html);
    assert_eq!(events, vec![(s("Event One"), s("May 12 \u{2014} May 14, Jeopardy"))]);
}

#[test]
fn past_events_drop_rows_with_malformed_dates() {
    let html = "<table>\
        <tr><td>Broken</td><td>no date here</td></tr>\
        <tr><td>Good</td><td>Jun 1, 2023 \u{2014} Jun 2, 2023, CTF, Attack</td></tr>\
        </table>";
    let events = past_events_from_html(html);
    assert_eq!(events, vec![(s("Good"), s("Jun 1 \u{2014} Jun 2, Attack"))]);
}

#[test]
fn leaderboard_from_html_reorders_columns() {
    let html = "<table>\
        <tr><td>1</td><td>TeamX</td><td>1500</td><td>USA</td></tr>\
        <tr><td>2</td><td>TeamY</td><td>1400</td><td>DEU</td></tr>\
        </table>";
    let entries = leaderboard_from_html(html);
    assert_eq!(
        entries,
        vec![
            (s("1"), s("TeamX"), s("USA"), s("1500")),
            (s("2"), s("TeamY"), s("DEU"), s("1400")),
        ]
    );
}

#[test]
fn writeups_from_html_joins_the_tag_cell() {
    let html = "<table><tr>\
        <td>Title</td>\
        <td>EventName</td>\
        <td>web<span>\n\nnoise</span>pwn</td>\
        <td>link</td>\
        <td>extra</td>\
        </tr></table>";
    let entries = writeups_from_html(html);
    assert_eq!(
        entries,
        vec![(s("Title"), s("EventName"), s("web pwn"), s("link"), s("extra"))]
    );
}

#[test]
fn writeups_from_html_drops_empty_rows() {
    let html = "<table><tr><th>Header</th></tr>\
        <tr><td>t</td><td>e</td><td>g</td><td>l</td><td>x</td></tr></table>";
    let entries = writeups_from_html(html);
    assert_eq!(entries, vec![(s("t"), s("e"), s("g"), s("l"), s("x"))]);
}

#[test]
fn rss_titles_skip_the_feed_title() {
    let xml = "<rss><channel>\
        <title>Feed Title</title>\
        <item><title>Event A</title></item>\
        <item><title>Event B</title></item>\
        </channel></rss>";
    let listed = running_events_from_rss(xml).unwrap();
    assert_eq!(listed, vec![s("Event A"), s("Event B")]);
}

#[test]
fn rss_without_running_events_shows_placeholder() {
    let xml = "<rss><channel><title>Feed Title</title></channel></rss>";
    let listed = running_events_from_rss(xml).unwrap();
    assert_eq!(listed, vec![s("None")]);
}

#[test]
fn rss_parse_failure_is_reported() {
    let xml = "<rss><channel><title>Feed</wrong></channel></rss>";
    assert_eq!(running_events_from_rss(xml), Err(ExtractError::Parse));
}

#[test]
fn running_events_list_from_titles() {
    let titles = vec![s("Feed Title"), s("Event A"), s("Event B")];
    assert_eq!(running_events_list(&titles), vec![s("Event A"), s("Event B")]);
    assert_eq!(running_events_list(&vec![s("Feed Title")]), vec![s("None")]);
    assert_eq!(running_events_list(&vec![]), vec![s("None")]);
}

#[test]
fn titles_collect_text_between_tags() {
    let events = xml_events("<a><title>One</title><b/><title>Two</title></a>");
    assert_eq!(titles_of_events(&events), vec![s("One"), s("Two")]);
}

#[test]
fn find_positions_locate_first_occurrences() {
    assert_eq!(find_char_pos("ab,cd,e", ','), Some(2));
    assert_eq!(find_char_pos("abcd", ','), None);
    assert_eq!(find_dash_pos("a \u{2014} b \u{2014} c"), Some(1));
    assert_eq!(find_dash_pos("a - b"), None);
}

#[test]
fn past_events_ignore_cells_beyond_the_second() {
    let html = "<table><tr>\
        <td>Event One</td>\
        <td>May 12, 2023 \u{2014} May 14, 2023, CTF, Jeopardy</td>\
        <td>ignored</td><td>also ignored</td>\
        </tr></table>";
    let events = past_events_from_html(html);
    assert_eq!(events, vec![(s("Event One"), s("May 12 \u{2014} May 14, Jeopardy"))]);
}

#[test]
fn marker_elements_are_counted() {
    let events = xml_events(
        "<a><tag2>x</tag2><title>T</title><tag2>y</tag2></a>",
    );
    assert_eq!(entry_marker_count(&events), 2);
}
