//! The journal and the search over it.
use pro_logue::journal::{DataFile, Journal, JournalEntry};
use pro_logue::search::{
    collect_hits, copy_hits, drop_empty, entry_matches, parse_terms, rank, some_term_found, Hit,
};

fn entry(time: &str, text: &str, tags: &[&str]) -> JournalEntry {
    JournalEntry {
        time: time.to_string(),
        text: text.to_string(),
        tags: tags.iter().map(|t| t.to_string()).collect(),
    }
}

fn keys(journal: &Journal) -> Vec<&str> {
    journal.days.iter().map(|d| d.key.as_str()).collect()
}

fn texts_of(hits: &[Hit]) -> Vec<&str> {
    hits.iter().map(|h| h.entry.text.as_str()).collect()
}

fn sample() -> Journal {
    let mut j = Journal::new();
    j.push("2025_12_18".to_string(), entry("09:00", "Clock-in: 09:00, Clock-out: 17:00", &["EAWAG"]));
    j.push("2025_12_18".to_string(), entry("10:45", "Met with team...", &[]));
    j.push("2025_12_17".to_string(), entry("08:30", "Calibrated the pH meter", &["Lab 2"]));
    j.push("2025_12_17".to_string(), entry("16:00", "Wrote the TEAM report", &["Home"]));
    j
}

#[test]
fn data_starts_empty() {
    let d = DataFile::default();
    assert!(d.journal.days.is_empty());
    assert!(d.tasks.is_empty());
}

#[test]
fn days_stand_in_order() {
    let mut j = Journal::new();
    for key in ["2025_12_18", "2025_01_01", "2026_01_01", "2025_12_17", "2025_12_18"] {
        j.push(key.to_string(), entry("09:00", key, &[]));
    }
    assert_eq!(keys(&j), ["2025_01_01", "2025_12_17", "2025_12_18", "2026_01_01"]);
}

#[test]
fn an_entry_is_read_back() {
    let mut j = sample();
    j.push("2025_12_18".to_string(), entry("11:00", "new", &["x"]));
    let list = j.entries("2025_12_18").unwrap();
    assert_eq!(list.len(), 3);
    assert_eq!(list[2].time, "11:00");
    assert_eq!(list[2].text, "new");
    assert_eq!(list[2].tags, ["x"]);
    assert_eq!(list[1].text, "Met with team...");
}

#[test]
fn other_days_are_kept() {
    let mut j = sample();
    j.push("2025_12_16".to_string(), entry("11:00", "new", &[]));
    assert_eq!(j.entries("2025_12_17").unwrap().len(), 2);
    assert_eq!(j.entries("2025_12_18").unwrap().len(), 2);
    assert!(j.entries("2025_12_15").is_none());
}

#[test]
fn a_day_is_replaced() {
    let mut j = sample();
    j.insert("2025_12_17".to_string(), vec![entry("01:00", "only", &[])]);
    assert_eq!(keys(&j), ["2025_12_17", "2025_12_18"]);
    assert_eq!(j.entries("2025_12_17").unwrap()[0].text, "only");
    j.insert("2024_01_01".to_string(), vec![]);
    assert_eq!(keys(&j), ["2024_01_01", "2025_12_17", "2025_12_18"]);
    assert_eq!(j.entries("2024_01_01").unwrap().len(), 0);
}

#[test]
fn clones_of_entries_are_equal() {
    let e = entry("09:00", "text", &["a", "b"]);
    let c = e.clone();
    assert_eq!((c.time, c.text, c.tags), (e.time, e.text, e.tags));
}

#[test]
fn terms_are_trimmed_and_in_lower_case() {
    assert_eq!(parse_terms(" Team , pH,, ÄRGER ,"), vec!["team", "ph", "ärger"]);
    assert!(parse_terms("").is_empty());
    assert!(parse_terms(" , ,").is_empty());
    assert_eq!(parse_terms("2025_12_18"), vec!["2025_12_18"]);
    assert_eq!(parse_terms("two words"), vec!["two words"]);
}

#[test]
fn lower_case_is_unicode() {
    assert_eq!(parse_terms("ΟΔΟΣ"), vec!["οδος"]);
    assert_eq!(parse_terms("İ"), vec!["i\u{307}"]);
}

#[test]
fn matches_in_date_text_and_tags() {
    let e = entry("09:00", "Calibrated the pH Meter", &["Lab 2"]);
    let yes = |t: &str| entry_matches("2025_12_17", &e, &vec![t.to_string()]);
    assert!(yes("2025_12_17"));
    assert!(yes("_12_"));
    assert!(yes("ph meter"));
    assert!(yes("lab 2"));
    assert!(!yes("team"));
    assert!(!yes("Lab"));
    assert!(!yes("09:00"));
    assert!(!entry_matches("2025_12_17", &e, &vec![]));
    assert!(entry_matches("2025_12_17", &e, &vec!["team".to_string(), "meter".to_string()]));
}

#[test]
fn hits_come_day_by_day() {
    let hits = collect_hits(&sample(), &parse_terms("team"));
    assert_eq!(texts_of(&hits), ["Wrote the TEAM report", "Met with team..."]);
    assert_eq!(hits[0].date, "2025_12_17");
    assert_eq!(hits[1].date, "2025_12_18");
}

#[test]
fn a_day_is_found_by_its_date() {
    let hits = collect_hits(&sample(), &parse_terms("2025_12_18"));
    assert_eq!(hits.len(), 2);
    assert!(hits.iter().all(|h| h.date == "2025_12_18"));
}

#[test]
fn a_location_is_found() {
    let hits = collect_hits(&sample(), &parse_terms("EAWAG"));
    assert_eq!(texts_of(&hits), ["Clock-in: 09:00, Clock-out: 17:00"]);
    let hits = collect_hits(&sample(), &parse_terms("Lab 2"));
    assert_eq!(texts_of(&hits), ["Calibrated the pH meter"]);
}

#[test]
fn search_finds_what_matches_and_nothing_else() {
    let hits = collect_hits(&sample(), &parse_terms("home, ph"));
    assert_eq!(texts_of(&hits), ["Calibrated the pH meter", "Wrote the TEAM report"]);
    assert!(collect_hits(&sample(), &parse_terms("nothing like it")).is_empty());
    assert!(collect_hits(&sample(), &vec![]).is_empty());
}

#[test]
fn newest_comes_first() {
    let all = rank(collect_hits(&sample(), &parse_terms("2025")));
    assert_eq!(
        texts_of(&all),
        [
            "Met with team...",
            "Clock-in: 09:00, Clock-out: 17:00",
            "Wrote the TEAM report",
            "Calibrated the pH meter",
        ]
    );
}

#[test]
fn ranking_is_stable() {
    let hit = |date: &str, time: &str, text: &str| Hit {
        date: date.to_string(),
        entry: entry(time, text, &[]),
    };
    let ranked = rank(vec![
        hit("d", "10:00", "first"),
        hit("d", "09:00", "early"),
        hit("d", "10:00", "second"),
        hit("c", "23:00", "before"),
        hit("d", "10:00", "third"),
    ]);
    assert_eq!(texts_of(&ranked), ["first", "second", "third", "early", "before"]);
}

#[test]
fn copies_of_hits_are_equal() {
    let hits = collect_hits(&sample(), &parse_terms("2025"));
    let copy = copy_hits(&hits);
    assert_eq!(texts_of(&copy), texts_of(&hits));
    assert_eq!(copy[0].date, hits[0].date);
}

#[test]
fn empty_terms_are_dropped() {
    let list: Vec<String> = ["", "a", "", "b", ""].iter().map(|t| t.to_string()).collect();
    assert_eq!(drop_empty(list), vec!["a", "b"]);
    assert!(drop_empty(vec![]).is_empty());
}

#[test]
fn terms_are_looked_for_as_they_are() {
    let tags = vec!["lab".to_string(), "HOME".to_string()];
    let found = |t: &str| some_term_found("2025_12_17", "a text", &tags, &vec![t.to_string()]);
    assert!(found("12_17"));
    assert!(found("tex"));
    assert!(found("OM"));
    assert!(!found("home"));
    assert!(!found("x y"));
    assert!(!some_term_found("d", "t", &tags, &vec![]));
}

#[test]
fn order_of_terms_does_not_matter() {
    let a = rank(collect_hits(&sample(), &parse_terms("home, ph, home")));
    let b = rank(collect_hits(&sample(), &parse_terms("ph, home")));
    assert_eq!(texts_of(&a), texts_of(&b));
    assert_eq!(a.len(), 2);
}

#[test]
fn long_lists_are_ranked_like_a_stable_sort() {
    let mut hits = vec![];
    let mut n: u32 = 7;
    for i in 0..500 {
        n = n.wrapping_mul(1664525).wrapping_add(1013904223);
        hits.push(Hit {
            date: format!("d{}", n >> 28),
            entry: entry(&format!("{:02}", (n >> 20) % 5), &i.to_string(), &[]),
        });
    }
    let mut expected: Vec<(String, String, String)> = hits
        .iter()
        .map(|h| (h.date.clone(), h.entry.time.clone(), h.entry.text.clone()))
        .collect();
    expected.sort_by(|x, y| (&y.0, &y.1).cmp(&(&x.0, &x.1)));
    let ranked: Vec<(String, String, String)> = rank(hits)
        .into_iter()
        .map(|h| (h.date, h.entry.time, h.entry.text))
        .collect();
    assert_eq!(ranked, expected);
}
