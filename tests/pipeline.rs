use video_search::classify::{classify, classify_folded, contains_text, Category};
use video_search::extract::{extract, search_page};
use video_search::pipeline::{assemble, build_response, classify_records, correlate, dedupe};
use video_search::record::{ClassifiedVideo, Video, VideoResponse};

fn s(x: &str) -> String {
    x.to_string()
}

fn strings(xs: &[&str]) -> Vec<String> {
    xs.iter().map(|x| x.to_string()).collect()
}

fn video(id: &str, img: &str, title: &str) -> Video {
    Video::new(s(id), s(img), s(title))
}

fn triple(id: &str, title: &str) -> String {
    format!(
        "{{\"videoId\":\"{id}\",\"thumbnail\":{{\"thumbnails\":[{{\"url\":\"https://i.ytimg.com/vi/{id}/hqdefault.jpg\"}}]}},\"title\":{{\"runs\":[{{\"text\":\"{title}\"}}]}}}}"
    )
}

fn thumb(id: &str) -> String {
    format!("https://i.ytimg.com/vi/{id}/hqdefault.jpg")
}

const LONG_TITLE: &str = "Official Music Video - Full Performance Live";

#[test]
fn empty_document_gives_empty_result() {
    let r = search_page("<html><body>no results</body></html>").unwrap();
    assert_eq!(r, VideoResponse { videos: vec![], shorts: vec![] });
    let r = search_page("").unwrap();
    assert!(r.videos.is_empty() && r.shorts.is_empty());
}

#[test]
fn one_triple_with_long_title_is_a_video() {
    let doc = triple("abc123", LONG_TITLE);
    let r = search_page(&doc).unwrap();
    assert_eq!(r.videos, vec![video("abc123", &thumb("abc123"), LONG_TITLE)]);
    assert!(r.shorts.is_empty());
}

#[test]
fn official_music_video_title_has_twenty_characters_and_is_a_short() {
    let doc = triple("abc123", "Official Music Video");
    let r = search_page(&doc).unwrap();
    assert!(r.videos.is_empty());
    assert_eq!(r.shorts, vec![video("abc123", &thumb("abc123"), "Official Music Video")]);
}

#[test]
fn one_triple_with_quick_clip_title_is_a_short() {
    let doc = triple("xyz789", "Quick clip");
    let r = search_page(&doc).unwrap();
    assert!(r.videos.is_empty());
    assert_eq!(r.shorts, vec![video("xyz789", &thumb("xyz789"), "Quick clip")]);
}

#[test]
fn repeated_identifier_keeps_first_record() {
    let first = triple("dup", LONG_TITLE);
    let second = format!(
        "{{\"videoId\":\"dup\",\"url\":\"https://i.ytimg.com/vi/other/mqdefault.jpg\",\"title\":{{\"runs\":[{{\"text\":\"A completely different and rather long title\"}}]}}}}"
    );
    let doc = format!("{first},{second}");
    let r = search_page(&doc).unwrap();
    assert_eq!(r.videos, vec![video("dup", &thumb("dup"), LONG_TITLE)]);
    assert!(r.shorts.is_empty());
}

#[test]
fn three_ids_two_thumbs_five_titles_give_two_records() {
    let mut doc = String::new();
    for id in ["a1", "b2", "c3"] {
        doc.push_str(&format!("\"videoId\":\"{id}\" "));
    }
    for id in ["a1", "b2"] {
        doc.push_str(&format!("\"{}\" ", thumb(id)));
    }
    let titles = [
        "First title that is long enough to be a video",
        "Second",
        "Third",
        "Fourth",
        "Fifth",
    ];
    for t in titles {
        doc.push_str(&format!("\"title\":{{\"runs\":[{{\"text\":\"{t}\"}}]}} "));
    }
    let m = extract(&doc).unwrap();
    assert_eq!(m.ids, strings(&["a1", "b2", "c3"]));
    assert_eq!(m.thumbs, vec![thumb("a1"), thumb("b2")]);
    assert_eq!(m.titles.len(), 5);
    let recs = correlate(&m.ids, &m.thumbs, &m.titles);
    assert_eq!(
        recs,
        vec![video("a1", &thumb("a1"), titles[0]), video("b2", &thumb("b2"), titles[1])]
    );
    let r = search_page(&doc).unwrap();
    assert_eq!(r.videos, vec![video("a1", &thumb("a1"), titles[0])]);
    assert_eq!(r.shorts, vec![video("b2", &thumb("b2"), "Second")]);
}

#[test]
fn extract_keeps_captured_values_in_document_order() {
    let doc = format!("{} {}", triple("one", "Title one"), triple("two", "Title two"));
    let m = extract(&doc).unwrap();
    assert_eq!(m.ids, strings(&["one", "two"]));
    assert_eq!(m.thumbs, vec![thumb("one"), thumb("two")]);
    assert_eq!(m.titles, strings(&["Title one", "Title two"]));
}

#[test]
fn extract_ignores_empty_values_and_other_hosts() {
    let doc = "\"videoId\":\"\" \"http://i.ytimg.com/vi/x.jpg\" \"https://i.ytimg.com/vi/y.png\" \"title\":{\"runs\":[{\"text\":\"\"";
    let m = extract(doc).unwrap();
    assert!(m.ids.is_empty());
    assert!(m.thumbs.is_empty());
    assert!(m.titles.is_empty());
}

#[test]
fn correlate_truncates_to_shortest() {
    let ids = strings(&["i0", "i1", "i2"]);
    let thumbs = strings(&["t0", "t1"]);
    let titles = strings(&["n0", "n1", "n2", "n3", "n4"]);
    let r = correlate(&ids, &thumbs, &titles);
    assert_eq!(r, vec![video("i0", "t0", "n0"), video("i1", "t1", "n1")]);
    assert!(correlate(&vec![], &thumbs, &titles).is_empty());
}

#[test]
fn dedupe_keeps_first_of_each_identifier_in_order() {
    let input = vec![
        video("a", "ta", "first a"),
        video("b", "tb", "first b"),
        video("a", "ta2", "second a"),
        video("c", "tc", "first c"),
        video("b", "tb2", "second b"),
    ];
    let r = dedupe(input);
    assert_eq!(
        r,
        vec![video("a", "ta", "first a"), video("b", "tb", "first b"), video("c", "tc", "first c")]
    );
    assert!(dedupe(vec![]).is_empty());
}

#[test]
fn classify_follows_length_and_marker_rule() {
    assert_eq!(classify(""), Category::Short);
    assert_eq!(classify("Quick clip"), Category::Short);
    assert_eq!(classify("abcdefghijklmnopqrstuvwxyzabc"), Category::Short);
    assert_eq!(classify("abcdefghijklmnopqrstuvwxyzabcd"), Category::Video);
    assert_eq!(classify("a long title about #shorts and other things"), Category::Short);
}

#[test]
fn classify_lowercases_before_looking_for_marker() {
    assert_eq!(classify("My best SHORTS compilation of the whole year"), Category::Short);
    assert_eq!(classify("My best ShOrTs compilation of the whole year"), Category::Short);
    assert_eq!(classify("My best SHORT compilation of the whole year!"), Category::Video);
}

#[test]
fn classify_counts_characters_not_bytes() {
    let title: String = std::iter::repeat('é').take(29).collect();
    assert_eq!(classify(&title), Category::Short);
    let title: String = std::iter::repeat('é').take(30).collect();
    assert_eq!(classify(&title), Category::Video);
}

#[test]
fn classify_folded_uses_given_lowercase_form() {
    let long = "A title that has well over thirty characters";
    assert_eq!(classify_folded(long, "no marker here"), Category::Video);
    assert_eq!(classify_folded(long, "this one has shorts in it"), Category::Short);
    assert_eq!(classify_folded("short", "no marker here"), Category::Short);
}

#[test]
fn contains_text_finds_substrings() {
    assert!(contains_text("hello shorts world", "shorts"));
    assert!(contains_text("shorts", "shorts"));
    assert!(contains_text("anything", ""));
    assert!(contains_text("", ""));
    assert!(!contains_text("short", "shorts"));
    assert!(!contains_text("", "x"));
    assert!(contains_text("ééshortsé", "shorts"));
    assert!(!contains_text("s h o r t s", "shorts"));
}

#[test]
fn assemble_files_by_category_in_order() {
    let input = vec![
        ClassifiedVideo { video: video("a", "ta", "A"), category: Category::Video },
        ClassifiedVideo { video: video("b", "tb", "B"), category: Category::Short },
        ClassifiedVideo { video: video("c", "tc", "C"), category: Category::Video },
    ];
    let r = assemble(input);
    assert_eq!(r.videos, vec![video("a", "ta", "A"), video("c", "tc", "C")]);
    assert_eq!(r.shorts, vec![video("b", "tb", "B")]);
    let empty = assemble(vec![]);
    assert!(empty.videos.is_empty() && empty.shorts.is_empty());
}

#[test]
fn classify_records_pairs_each_record_with_category() {
    let r = classify_records(vec![video("a", "ta", "tiny"), video("b", "tb", LONG_TITLE)]);
    assert_eq!(r.len(), 2);
    assert_eq!(r[0].category, Category::Short);
    assert_eq!(r[1].category, Category::Video);
    assert_eq!(r[1].video, video("b", "tb", LONG_TITLE));
}

#[test]
fn build_response_runs_every_stage() {
    let ids = strings(&["a", "b", "a", "c"]);
    let thumbs = strings(&["ta", "tb", "ta2", "tc"]);
    let titles = strings(&[LONG_TITLE, "tiny", "dropped duplicate title, long enough", "Shorts!"]);
    let r = build_response(&ids, &thumbs, &titles);
    assert_eq!(r.videos, vec![video("a", "ta", LONG_TITLE)]);
    assert_eq!(r.shorts, vec![video("b", "tb", "tiny"), video("c", "tc", "Shorts!")]);
}

#[test]
fn same_document_gives_same_result() {
    let doc = format!("{}{}{}", triple("p", LONG_TITLE), triple("q", "clip"), triple("p", "again"));
    assert_eq!(search_page(&doc).unwrap(), search_page(&doc).unwrap());
}

#[test]
fn identifiers_are_unique_and_records_partitioned() {
    let mut doc = String::new();
    let ids = ["a", "b", "a", "c", "b", "d"];
    let titles = [LONG_TITLE, "x", "y", "Another title that is quite long indeed", "z", "shorts of the day, a long title here"];
    for (id, t) in ids.iter().zip(titles.iter()) {
        doc.push_str(&triple(id, t));
    }
    let r = search_page(&doc).unwrap();
    let mut all: Vec<String> = r.videos.iter().chain(r.shorts.iter()).map(|v| v.video_id.clone()).collect();
    assert_eq!(all.len(), 4);
    all.sort();
    all.dedup();
    assert_eq!(all, strings(&["a", "b", "c", "d"]));
    for v in &r.videos {
        assert!(!r.shorts.contains(v));
    }
    assert_eq!(r.videos.len() + r.shorts.len(), 4);
}
