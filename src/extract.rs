use vstd::prelude::*;
use crate::pipeline::{build_response, response_of, texts_view};
use crate::record::{VideoResponse, VideoView, videos_view};

verus! {

/// A quoted `videoId` key; group 1 is its value, a run of non-quote characters.
pub const ID_PATTERN: &'static str = r#""videoId":"([^"]+)""#;

/// A thumbnail URL under `https://i.ytimg.com/vi/` ending in `.jpg`; the whole match is kept.
pub const THUMB_PATTERN: &'static str = r#"https://i\.ytimg\.com/vi/[^"]+\.jpg"#;

/// The first run of a title; group 1 is its text.
pub const TITLE_PATTERN: &'static str = r#""title":\{"runs":\[\{"text":"([^"]+)""#;

#[verifier::external_type_specification]
#[verifier::external_body]
pub struct ExRegexError(regex::Error);

/// Whether `regex::Regex::new` accepts this pattern.
pub uninterp spec fn regex_accepts(pattern: Seq<char>) -> bool;

/// The texts of capture group `group` over the successive matches that
/// `regex::Regex::captures_iter` finds for `pattern` in `doc`.
pub uninterp spec fn regex_group_texts(pattern: Seq<char>, doc: Seq<char>, group: nat) -> Seq<
    Seq<char>,
>;

/// Relies on `regex::Regex::new`, which compiles the pattern or reports why it
/// cannot, and on `Regex::captures_iter`, which yields the non-overlapping
/// matches from left to right; of each the text of group `group` is kept, or
/// the empty text where that group took no part.
#[verifier::external_body]
fn capture_texts(pattern: &str, doc: &str, group: usize) -> (r: Result<Vec<String>, regex::Error>)
    ensures
        r is Ok <==> regex_accepts(pattern@),
        r matches Ok(v) ==> texts_view(v@) == regex_group_texts(pattern@, doc@, group as nat),
{
    let re = regex::Regex::new(pattern)?;
    Ok(re.captures_iter(doc).map(|c| c.get(group).map_or("", |m| m.as_str()).to_string()).collect())
}

/// Why a page could not be scanned.
#[derive(Clone, Copy, Debug, PartialEq, Eq, Structural)]
pub enum ExtractError {
    /// One of the three patterns was refused by the regular-expression engine.
    InvalidPattern,
}

/// The three match sequences found in one page.
#[derive(Clone, Debug, PartialEq, Eq)]
pub struct Matches {
    pub ids: Vec<String>,
    pub thumbs: Vec<String>,
    pub titles: Vec<String>,
}

/// Whether the engine accepts all three patterns.
pub open spec fn patterns_accepted() -> bool {
    regex_accepts(ID_PATTERN@) && regex_accepts(THUMB_PATTERN@) && regex_accepts(TITLE_PATTERN@)
}

/// The identifiers found in a page.
pub open spec fn page_ids(doc: Seq<char>) -> Seq<Seq<char>> {
    regex_group_texts(ID_PATTERN@, doc, 1)
}

/// The thumbnail URLs found in a page.
pub open spec fn page_thumbs(doc: Seq<char>) -> Seq<Seq<char>> {
    regex_group_texts(THUMB_PATTERN@, doc, 0)
}

/// The titles found in a page.
pub open spec fn page_titles(doc: Seq<char>) -> Seq<Seq<char>> {
    regex_group_texts(TITLE_PATTERN@, doc, 1)
}

/// The videos and shorts that a page gives.
pub open spec fn page_response(doc: Seq<char>) -> (Seq<VideoView>, Seq<VideoView>) {
    response_of(page_ids(doc), page_thumbs(doc), page_titles(doc))
}

fn scan(pattern: &str, doc: &str, group: usize) -> (r: Result<Vec<String>, ExtractError>)
    ensures
        r is Ok <==> regex_accepts(pattern@),
        r matches Ok(v) ==> texts_view(v@) == regex_group_texts(pattern@, doc@, group as nat),
{
    match capture_texts(pattern, doc, group) {
        Ok(v) => Ok(v),
        Err(_) => Err(ExtractError::InvalidPattern),
    }
}

/// Scans a page for identifiers, thumbnail URLs and titles, each in the order
/// in which they occur; the three scans are independent of one another.
pub fn extract(doc: &str) -> (r: Result<Matches, ExtractError>)
    ensures
        r is Ok <==> patterns_accepted(),
        r matches Ok(m) ==> {
            &&& texts_view(m.ids@) == page_ids(doc@)
            &&& texts_view(m.thumbs@) == page_thumbs(doc@)
            &&& texts_view(m.titles@) == page_titles(doc@)
        },
        r matches Err(e) ==> e == ExtractError::InvalidPattern,
{
    let ids = scan(ID_PATTERN, doc, 1)?;
    let thumbs = scan(THUMB_PATTERN, doc, 0)?;
    let titles = scan(TITLE_PATTERN, doc, 1)?;
    Ok(Matches { ids, thumbs, titles })
}

/// Extracts, correlates, deduplicates and classifies the videos of a page.
pub fn search_page(doc: &str) -> (r: Result<VideoResponse, ExtractError>)
    ensures
        r is Ok <==> patterns_accepted(),
        r matches Ok(resp) ==> (videos_view(resp.videos@), videos_view(resp.shorts@))
            == page_response(doc@),
        r matches Err(e) ==> e == ExtractError::InvalidPattern,
{
    let m = extract(doc)?;
    Ok(build_response(&m.ids, &m.thumbs, &m.titles))
}

} // verus!
