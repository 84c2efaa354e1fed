use vstd::prelude::*;

verus! {

/// The category a record is filed under.
#[derive(Clone, Copy, Debug, PartialEq, Eq, Structural)]
pub enum Category {
    Video,
    Short,
}

/// Titles with fewer characters than this are taken for shorts.
pub const SHORT_TITLE_LEN: usize = 30;

/// A lower-cased title holding this text is taken for a short.
pub const SHORTS_MARKER: &'static str = "shorts";

/// The lower-case form of a text, as `str::to_lowercase` gives it.
pub uninterp spec fn lower_of(s: Seq<char>) -> Seq<char>;

/// Relies on `str::to_lowercase`: the result depends on the characters alone.
#[verifier::external_body]
fn lowercase(s: &str) -> (r: String)
    ensures
        r@ == lower_of(s@),
{
    s.to_lowercase()
}

/// Whether `needle` occurs in `hay` starting at position `i`.
pub open spec fn occurs_at(hay: Seq<char>, needle: Seq<char>, i: int) -> bool {
    0 <= i && i + needle.len() <= hay.len() && hay.subrange(i, i + needle.len()) == needle
}

/// Whether `needle` occurs somewhere in `hay`.
pub open spec fn has_substring(hay: Seq<char>, needle: Seq<char>) -> bool {
    exists|i: int| occurs_at(hay, needle, i)
}

/// Whether a record with this title, whose lower-case form is `lowered`, is a short.
pub open spec fn is_short(title: Seq<char>, lowered: Seq<char>) -> bool {
    has_substring(lowered, SHORTS_MARKER@) || title.len() < SHORT_TITLE_LEN
}

/// The category of a record with this title, whose lower-case form is `lowered`.
pub open spec fn category_for(title: Seq<char>, lowered: Seq<char>) -> Category {
    if is_short(title, lowered) {
        Category::Short
    } else {
        Category::Video
    }
}

/// The category of a record with this title.
pub open spec fn category_of(title: Seq<char>) -> Category {
    category_for(title, lower_of(title))
}

/// Whether `needle` occurs in `hay` at position `i`, checked character by character.
fn matches_at(hay: &str, needle: &str, i: usize, hay_len: usize, needle_len: usize) -> (r: bool)
    requires
        hay_len == hay@.len(),
        needle_len == needle@.len(),
        i + needle_len <= hay_len,
    ensures
        r == occurs_at(hay@, needle@, i as int),
{
    let mut j: usize = 0;
    while j < needle_len
        invariant
            hay_len == hay@.len(),
            needle_len == needle@.len(),
            i + needle_len <= hay_len,
            j <= needle_len,
            forall|k: int| 0 <= k < j ==> hay@[i + k] == needle@[k],
        decreases needle_len - j,
    {
        if hay.get_char(i + j) != needle.get_char(j) {
            proof {
                assert(hay@.subrange(i as int, i + needle_len)[j as int] == hay@[i + j]);
            }
            return false;
        }
        j = j + 1;
    }
    assert(hay@.subrange(i as int, i + needle_len) =~= needle@);
    true
}

/// Whether `needle` occurs somewhere in `hay`.
pub fn contains_text(hay: &str, needle: &str) -> (r: bool)
    ensures
        r == has_substring(hay@, needle@),
{
    let hay_len = hay.unicode_len();
    let needle_len = needle.unicode_len();
    if needle_len > hay_len {
        return false;
    }
    let last = hay_len - needle_len;
    let mut i: usize = 0;
    loop
        invariant
            hay_len == hay@.len(),
            needle_len == needle@.len(),
            last == hay_len - needle_len,
            i <= last,
            forall|k: int| 0 <= k < i ==> !occurs_at(hay@, needle@, k),
        decreases last - i,
    {
        if matches_at(hay, needle, i, hay_len, needle_len) {
            return true;
        }
        if i == last {
            return false;
        }
        i = i + 1;
    }
}

/// Files a title given with its lower-case form: a short when the lower-case
/// form holds "shorts" or the title has fewer than thirty characters, else a video.
pub fn classify_folded(title: &str, lowered: &str) -> (r: Category)
    ensures
        r == category_for(title@, lowered@),
{
    if contains_text(lowered, SHORTS_MARKER) || title.unicode_len() < SHORT_TITLE_LEN {
        Category::Short
    } else {
        Category::Video
    }
}

/// Files a title as a video or a short.
pub fn classify(title: &str) -> (r: Category)
    ensures
        r == category_of(title@),
{
    let lowered = lowercase(title);
    classify_folded(title, lowered.as_str())
}

} // verus!
