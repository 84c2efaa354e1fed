use vstd::prelude::*;
use crate::classify::{Category, category_of, is_short, lower_of};
use crate::extract::page_response;
use crate::pipeline::{classified, correlated, first_seen, has_id, lemma_first_seen_has_id, min3, of_category, response_of};
use crate::record::VideoView;

verus! {

/// No two records of `s` share an identifier.
pub open spec fn ids_distinct(s: Seq<VideoView>) -> bool {
    forall|i: int, j: int| 0 <= i < j < s.len() ==> s[i].video_id != s[j].video_id
}

/// The records of a classified sequence, without their categories.
pub open spec fn records_of(c: Seq<(VideoView, Category)>) -> Seq<VideoView> {
    c.map_values(|p: (VideoView, Category)| p.0)
}

/// The records kept by deduplication carry pairwise distinct identifiers.
pub proof fn lemma_first_seen_distinct(s: Seq<VideoView>)
    ensures
        ids_distinct(first_seen(s)),
    decreases s.len(),
{
    if s.len() > 0 {
        let p = s.drop_last();
        lemma_first_seen_distinct(p);
        lemma_first_seen_has_id(p, s.last().video_id);
        let k = first_seen(p);
        if !has_id(p, s.last().video_id) {
            assert forall|i: int, j: int| 0 <= i < j < k.len() + 1 implies
                k.push(s.last())[i].video_id != k.push(s.last())[j].video_id by {
                if j == k.len() {
                    assert(k[i] == k.push(s.last())[i]);
                }
            }
        }
    }
}

/// An identifier among the records filed under one category is an identifier
/// of some classified record.
pub proof fn lemma_of_category_has_id(c: Seq<(VideoView, Category)>, cat: Category, id: Seq<char>)
    ensures
        has_id(of_category(c, cat), id) ==> has_id(records_of(c), id),
    decreases c.len(),
{
    if c.len() > 0 {
        let p = c.drop_last();
        lemma_of_category_has_id(p, cat, id);
        let o = of_category(c, cat);
        if has_id(o, id) {
            let j = choose|j: int| 0 <= j < o.len() && (#[trigger] o[j]).video_id == id;
            if j < of_category(p, cat).len() {
                assert(o[j] == of_category(p, cat)[j]);
                assert(has_id(of_category(p, cat), id));
                let q = choose|q: int| 0 <= q < records_of(p).len() && (#[trigger] records_of(p)[q]).video_id == id;
                assert(records_of(c)[q] == records_of(p)[q]);
            } else {
                assert(records_of(c)[c.len() - 1] == c.last().0);
            }
        }
    }
}

/// A record appears under a category exactly when some classified entry pairs
/// it with that category.
pub proof fn lemma_of_category_contains(c: Seq<(VideoView, Category)>, cat: Category, x: VideoView)
    ensures
        of_category(c, cat).contains(x) <==> exists|k: int| 0 <= k < c.len() && #[trigger] c[k] == (x, cat),
    decreases c.len(),
{
    if c.len() > 0 {
        let p = c.drop_last();
        lemma_of_category_contains(p, cat, x);
        let o = of_category(c, cat);
        let op = of_category(p, cat);
        if op.contains(x) {
            let j = choose|j: int| 0 <= j < op.len() && op[j] == x;
            assert(o[j] == op[j]);
            let k = choose|k: int| 0 <= k < p.len() && #[trigger] p[k] == (x, cat);
            assert(c[k] == p[k]);
        }
        if exists|k: int| 0 <= k < c.len() && #[trigger] c[k] == (x, cat) {
            let k = choose|k: int| 0 <= k < c.len() && #[trigger] c[k] == (x, cat);
            if k < p.len() {
                assert(p[k] == c[k]);
            } else {
                assert(o.last() == x);
            }
        }
        if o.contains(x) && !op.contains(x) {
            let j = choose|j: int| 0 <= j < o.len() && o[j] == x;
            if j < op.len() {
                assert(op[j] == o[j]);
            }
            assert(c[c.len() - 1] == (x, cat));
        }
    }
}

/// The two categories together hold as many records as were classified.
pub proof fn lemma_of_category_len(c: Seq<(VideoView, Category)>)
    ensures
        of_category(c, Category::Video).len() + of_category(c, Category::Short).len() == c.len(),
    decreases c.len(),
{
    if c.len() > 0 {
        lemma_of_category_len(c.drop_last());
    }
}

/// Filing records with distinct identifiers under two categories gives two
/// sequences whose concatenation still has distinct identifiers.
pub proof fn lemma_of_category_distinct(c: Seq<(VideoView, Category)>)
    requires
        ids_distinct(records_of(c)),
    ensures
        ids_distinct(of_category(c, Category::Video) + of_category(c, Category::Short)),
    decreases c.len(),
{
    let v = of_category(c, Category::Video);
    let s = of_category(c, Category::Short);
    if c.len() > 0 {
        let p = c.drop_last();
        let x = c.last().0;
        assert forall|i: int, j: int| 0 <= i < j < records_of(p).len() implies
            records_of(p)[i].video_id != records_of(p)[j].video_id by {
            assert(records_of(p)[i] == records_of(c)[i]);
            assert(records_of(p)[j] == records_of(c)[j]);
        }
        lemma_of_category_distinct(p);
        let vp = of_category(p, Category::Video);
        let sp = of_category(p, Category::Short);
        lemma_of_category_has_id(p, Category::Video, x.video_id);
        lemma_of_category_has_id(p, Category::Short, x.video_id);
        assert(!has_id(records_of(p), x.video_id)) by {
            if has_id(records_of(p), x.video_id) {
                let q = choose|q: int| 0 <= q < records_of(p).len() && (#[trigger] records_of(p)[q]).video_id == x.video_id;
                assert(records_of(c)[q] == records_of(p)[q]);
                assert(records_of(c)[c.len() - 1] == x);
            }
        }
        assert forall|i: int, j: int| 0 <= i < j < (vp + sp).len() implies
            (vp + sp)[i].video_id != (vp + sp)[j].video_id by {}
        assert forall|i: int, j: int| 0 <= i < j < (v + s).len() implies
            (v + s)[i].video_id != (v + s)[j].video_id by {
            if c.last().1 == Category::Video {
                assert(v == vp.push(x));
                assert(s == sp);
                if i < vp.len() && j < vp.len() {
                    assert((vp + sp)[i] == vp[i]);
                    assert((vp + sp)[j] == vp[j]);
                } else if i < vp.len() && j > vp.len() {
                    assert((vp + sp)[i] == vp[i]);
                    assert((vp + sp)[j - 1] == sp[j - vp.len() - 1]);
                } else if i > vp.len() {
                    assert((vp + sp)[i - 1] == sp[i - vp.len() - 1]);
                    assert((vp + sp)[j - 1] == sp[j - vp.len() - 1]);
                } else if i < vp.len() {
                    assert(!has_id(vp, x.video_id));
                    assert(vp[i].video_id != x.video_id);
                } else {
                    assert(!has_id(sp, x.video_id));
                    assert(sp[j - vp.len() - 1].video_id != x.video_id);
                }
            } else {
                assert(v == vp);
                assert(s == sp.push(x));
                if j < (vp + sp).len() {
                    assert((v + s)[i] == (vp + sp)[i]);
                    assert((v + s)[j] == (vp + sp)[j]);
                } else if i < vp.len() {
                    assert(vp[i].video_id != x.video_id);
                } else {
                    assert(sp[i - vp.len()].video_id != x.video_id);
                }
            }
        }
    }
}

/// Determinism: the videos and shorts that a page gives depend on its text alone.
pub proof fn lemma_page_response_deterministic(a: Seq<char>, b: Seq<char>)
    requires
        a == b,
    ensures
        page_response(a) == page_response(b),
{
}

/// Uniqueness: across the videos and the shorts of one result, no identifier
/// occurs twice.
pub proof fn lemma_response_ids_unique(ids: Seq<Seq<char>>, thumbs: Seq<Seq<char>>, titles: Seq<Seq<char>>)
    ensures
        ids_distinct(response_of(ids, thumbs, titles).0 + response_of(ids, thumbs, titles).1),
{
    let u = first_seen(correlated(ids, thumbs, titles));
    lemma_first_seen_distinct(correlated(ids, thumbs, titles));
    let c = classified(u);
    assert(records_of(c) =~= u);
    lemma_of_category_distinct(c);
}

/// Conservation: correlation forms exactly as many records as the shortest of
/// the three match sequences has entries.
pub proof fn lemma_correlated_len(ids: Seq<Seq<char>>, thumbs: Seq<Seq<char>>, titles: Seq<Seq<char>>)
    ensures
        correlated(ids, thumbs, titles).len() == min3(ids.len(), thumbs.len(), titles.len()),
        correlated(ids, thumbs, titles).len() <= ids.len(),
        correlated(ids, thumbs, titles).len() <= thumbs.len(),
        correlated(ids, thumbs, titles).len() <= titles.len(),
{
}

/// Totality: every title, the empty one included, falls in exactly one
/// category, the short one exactly when the short rule holds.
pub proof fn lemma_classification_total(title: Seq<char>)
    ensures
        (category_of(title) == Category::Video) != (category_of(title) == Category::Short),
        category_of(title) == Category::Short <==> is_short(title, lower_of(title)),
        title.len() == 0 ==> category_of(title) == Category::Short,
{
}

/// Partition: every record kept by deduplication appears in exactly one of
/// the videos and the shorts, and the two hold nothing else.
pub proof fn lemma_response_partition(ids: Seq<Seq<char>>, thumbs: Seq<Seq<char>>, titles: Seq<Seq<char>>)
    ensures
        ({
            let u = first_seen(correlated(ids, thumbs, titles));
            let (v, s) = response_of(ids, thumbs, titles);
            &&& forall|i: int| 0 <= i < u.len() ==> v.contains(#[trigger] u[i]) != s.contains(u[i])
            &&& forall|x: VideoView| v.contains(x) ==> u.contains(x)
            &&& forall|x: VideoView| s.contains(x) ==> u.contains(x)
            &&& v.len() + s.len() == u.len()
        }),
{
    let u = first_seen(correlated(ids, thumbs, titles));
    let c = classified(u);
    lemma_of_category_len(c);
    assert forall|x: VideoView| #![auto] of_category(c, Category::Video).contains(x) || of_category(c, Category::Short).contains(x)
        implies u.contains(x) by {
        lemma_of_category_contains(c, Category::Video, x);
        lemma_of_category_contains(c, Category::Short, x);
        if of_category(c, Category::Video).contains(x) {
            let k = choose|k: int| 0 <= k < c.len() && #[trigger] c[k] == (x, Category::Video);
            assert(u[k] == x);
        } else {
            let k = choose|k: int| 0 <= k < c.len() && #[trigger] c[k] == (x, Category::Short);
            assert(u[k] == x);
        }
    }
    assert forall|i: int| 0 <= i < u.len() implies of_category(c, Category::Video).contains(#[trigger] u[i])
        != of_category(c, Category::Short).contains(u[i]) by {
        let x = u[i];
        lemma_of_category_contains(c, Category::Video, x);
        lemma_of_category_contains(c, Category::Short, x);
        assert(c[i] == (x, category_of(x.title)));
        if of_category(c, Category::Video).contains(x) && of_category(c, Category::Short).contains(x) {
            let k1 = choose|k: int| 0 <= k < c.len() && #[trigger] c[k] == (x, Category::Video);
            let k2 = choose|k: int| 0 <= k < c.len() && #[trigger] c[k] == (x, Category::Short);
            assert(c[k1].1 == category_of(u[k1].title));
            assert(c[k2].1 == category_of(u[k2].title));
        }
    }
}

} // verus!
