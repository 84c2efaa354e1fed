use vstd::prelude::*;
use crate::classify::{Category, category_of, classify};
use crate::record::{
    ClassifiedVideo, Video, VideoResponse, VideoView, classified_view, videos_view,
};

verus! {

/// The smallest of three lengths.
pub open spec fn min3(a: nat, b: nat, c: nat) -> nat {
    if a <= b && a <= c {
        a
    } else if b <= c {
        b
    } else {
        c
    }
}

/// Records formed by taking the i-th identifier, thumbnail and title together,
/// for every index present in all three sequences.
pub open spec fn correlated(
    ids: Seq<Seq<char>>,
    thumbs: Seq<Seq<char>>,
    titles: Seq<Seq<char>>,
) -> Seq<VideoView> {
    Seq::new(
        min3(ids.len(), thumbs.len(), titles.len()),
        |i: int| VideoView { video_id: ids[i], img: thumbs[i], title: titles[i] },
    )
}

/// The views of a sequence of strings.
pub open spec fn texts_view(v: Seq<String>) -> Seq<Seq<char>> {
    v.map_values(|s: String| s@)
}

/// Aligns the three match sequences by position into candidate records;
/// matches beyond the shortest sequence are dropped.
pub fn correlate(ids: &Vec<String>, thumbs: &Vec<String>, titles: &Vec<String>) -> (r: Vec<Video>)
    ensures
        r.len() == min3(ids.len() as nat, thumbs.len() as nat, titles.len() as nat),
        videos_view(r@) == correlated(texts_view(ids@), texts_view(thumbs@), texts_view(titles@)),
{
    let mut n: usize = ids.len();
    if thumbs.len() < n {
        n = thumbs.len();
    }
    if titles.len() < n {
        n = titles.len();
    }
    let mut out: Vec<Video> = Vec::new();
    let mut i: usize = 0;
    while i < n
        invariant
            n == min3(ids.len() as nat, thumbs.len() as nat, titles.len() as nat),
            n <= ids.len() && n <= thumbs.len() && n <= titles.len(),
            i <= n,
            out.len() == i,
            forall|k: int|
                0 <= k < i ==> (#[trigger] out@[k])@ == (VideoView {
                    video_id: ids@[k]@,
                    img: thumbs@[k]@,
                    title: titles@[k]@,
                }),
        decreases n - i,
    {
        out.push(Video { video_id: ids[i].clone(), img: thumbs[i].clone(), title: titles[i].clone() });
        i = i + 1;
    }
    assert(videos_view(out@) =~= correlated(texts_view(ids@), texts_view(thumbs@), texts_view(titles@)));
    out
}

/// Whether some record of `s` carries the identifier `id`.
pub open spec fn has_id(s: Seq<VideoView>, id: Seq<char>) -> bool {
    exists|j: int| 0 <= j < s.len() && (#[trigger] s[j]).video_id == id
}

/// The records of `s` whose identifier has not appeared earlier in `s`,
/// in their order in `s`.
pub open spec fn first_seen(s: Seq<VideoView>) -> Seq<VideoView>
    decreases s.len(),
{
    if s.len() == 0 {
        Seq::empty()
    } else {
        let kept = first_seen(s.drop_last());
        if has_id(s.drop_last(), s.last().video_id) {
            kept
        } else {
            kept.push(s.last())
        }
    }
}

/// An identifier occurs among the kept records exactly when it occurs in the input.
pub proof fn lemma_first_seen_has_id(s: Seq<VideoView>, id: Seq<char>)
    ensures
        has_id(first_seen(s), id) == has_id(s, id),
    decreases s.len(),
{
    if s.len() > 0 {
        let p = s.drop_last();
        lemma_first_seen_has_id(p, id);
        if has_id(s, id) && !has_id(p, id) {
            assert(s.last().video_id == id) by {
                let j = choose|j: int| 0 <= j < s.len() && (#[trigger] s[j]).video_id == id;
                if j < p.len() {
                    assert(p[j] == s[j]);
                }
            }
            if has_id(p, s.last().video_id) {
            } else {
                assert(first_seen(s).last() == s.last());
            }
        }
        if has_id(first_seen(s), id) && !has_id(first_seen(p), id) {
            let t = first_seen(s);
            let j = choose|j: int| 0 <= j < t.len() && (#[trigger] t[j]).video_id == id;
            assert(s[s.len() - 1].video_id == id);
        }
        if has_id(p, id) {
            let j = choose|j: int| 0 <= j < p.len() && (#[trigger] p[j]).video_id == id;
            assert(s[j] == p[j]);
        }
        if has_id(first_seen(p), id) {
            let t = first_seen(p);
            let j = choose|j: int| 0 <= j < t.len() && (#[trigger] t[j]).video_id == id;
            assert(first_seen(s)[j] == t[j]);
        }
    }
}

/// Keeps the first record seen for each identifier, in their original order;
/// later records with an identifier already seen are dropped.
pub fn dedupe(records: Vec<Video>) -> (r: Vec<Video>)
    ensures
        videos_view(r@) == first_seen(videos_view(records@)),
{
    let ghost all = videos_view(records@);
    let mut kept: Vec<Video> = Vec::new();
    let mut i: usize = 0;
    while i < records.len()
        invariant
            all == videos_view(records@),
            i <= records.len(),
            videos_view(kept@) == first_seen(all.take(i as int)),
        decreases records.len() - i,
    {
        let rec = &records[i];
        let mut seen = false;
        let mut k: usize = 0;
        while k < kept.len()
            invariant
                k <= kept.len(),
                seen == has_id(videos_view(kept@).take(k as int), rec.video_id@),
            decreases kept.len() - k,
        {
            if kept[k].video_id == rec.video_id {
                seen = true;
            }
            proof {
                let t = videos_view(kept@);
                assert(t.take(k as int) =~= t.take(k + 1).drop_last());
                assert(t.take(k + 1)[k as int] == t[k as int]);
                if has_id(t.take(k + 1), rec.video_id@) && !has_id(t.take(k as int), rec.video_id@) {
                    let j = choose|j: int| 0 <= j < k + 1 && (#[trigger] t.take(k + 1)[j]).video_id == rec.video_id@;
                    if j < k {
                        assert(t.take(k as int)[j] == t.take(k + 1)[j]);
                    }
                }
                if has_id(t.take(k as int), rec.video_id@) {
                    let j = choose|j: int| 0 <= j < k && (#[trigger] t.take(k as int)[j]).video_id == rec.video_id@;
                    assert(t.take(k + 1)[j] == t.take(k as int)[j]);
                }
            }
            k = k + 1;
        }
        proof {
            assert(videos_view(kept@).take(kept.len() as int) =~= videos_view(kept@));
            lemma_first_seen_has_id(all.take(i as int), rec.video_id@);
            assert(all.take(i + 1).drop_last() =~= all.take(i as int));
            assert(all.take(i + 1).last() == rec@);
        }
        if !seen {
            kept.push(records[i].copy());
            proof {
                assert(videos_view(kept@) =~= videos_view(kept@).drop_last().push(rec@));
            }
        }
        i = i + 1;
    }
    proof {
        assert(all.take(records.len() as int) =~= all);
    }
    kept
}

/// Each record paired with the category of its title.
pub open spec fn classified(s: Seq<VideoView>) -> Seq<(VideoView, Category)> {
    s.map_values(|v: VideoView| (v, category_of(v.title)))
}

/// The records of `c` filed under `cat`, in their order in `c`.
pub open spec fn of_category(c: Seq<(VideoView, Category)>, cat: Category) -> Seq<VideoView>
    decreases c.len(),
{
    if c.len() == 0 {
        Seq::empty()
    } else {
        let front = of_category(c.drop_last(), cat);
        if c.last().1 == cat {
            front.push(c.last().0)
        } else {
            front
        }
    }
}

/// Pairs each record with the category of its title.
pub fn classify_records(records: Vec<Video>) -> (r: Vec<ClassifiedVideo>)
    ensures
        classified_view(r@) == classified(videos_view(records@)),
{
    let mut out: Vec<ClassifiedVideo> = Vec::new();
    let mut i: usize = 0;
    while i < records.len()
        invariant
            i <= records.len(),
            out.len() == i,
            forall|k: int|
                0 <= k < i ==> (#[trigger] out@[k])@ == (records@[k]@, category_of(records@[k].title@)),
        decreases records.len() - i,
    {
        let category = classify(records[i].title.as_str());
        out.push(ClassifiedVideo { video: records[i].copy(), category });
        i = i + 1;
    }
    assert(classified_view(out@) =~= classified(videos_view(records@)));
    out
}

/// Files each classified record under `videos` or `shorts` by its category,
/// keeping the input order within each.
pub fn assemble(records: Vec<ClassifiedVideo>) -> (r: VideoResponse)
    ensures
        videos_view(r.videos@) == of_category(classified_view(records@), Category::Video),
        videos_view(r.shorts@) == of_category(classified_view(records@), Category::Short),
{
    let ghost all = classified_view(records@);
    let mut videos: Vec<Video> = Vec::new();
    let mut shorts: Vec<Video> = Vec::new();
    let mut i: usize = 0;
    while i < records.len()
        invariant
            all == classified_view(records@),
            i <= records.len(),
            videos_view(videos@) == of_category(all.take(i as int), Category::Video),
            videos_view(shorts@) == of_category(all.take(i as int), Category::Short),
        decreases records.len() - i,
    {
        proof {
            assert(all.take(i + 1).drop_last() =~= all.take(i as int));
            assert(all.take(i + 1).last() == records@[i as int]@);
        }
        let video = records[i].video.copy();
        match records[i].category {
            Category::Video => {
                videos.push(video);
                proof {
                    assert(videos_view(videos@) =~= videos_view(videos@).drop_last().push(video@));
                }
            },
            Category::Short => {
                shorts.push(video);
                proof {
                    assert(videos_view(shorts@) =~= videos_view(shorts@).drop_last().push(video@));
                }
            },
        }
        i = i + 1;
    }
    proof {
        assert(all.take(records.len() as int) =~= all);
    }
    VideoResponse { videos, shorts }
}

/// The videos and the shorts that the three match sequences give.
pub open spec fn response_of(
    ids: Seq<Seq<char>>,
    thumbs: Seq<Seq<char>>,
    titles: Seq<Seq<char>>,
) -> (Seq<VideoView>, Seq<VideoView>) {
    let c = classified(first_seen(correlated(ids, thumbs, titles)));
    (of_category(c, Category::Video), of_category(c, Category::Short))
}

/// Runs the whole pipeline on the three match sequences: correlation,
/// deduplication by identifier, classification and assembly.
pub fn build_response(ids: &Vec<String>, thumbs: &Vec<String>, titles: &Vec<String>) -> (r: VideoResponse)
    ensures
        (videos_view(r.videos@), videos_view(r.shorts@)) == response_of(
            texts_view(ids@),
            texts_view(thumbs@),
            texts_view(titles@),
        ),
{
    let candidates = correlate(ids, thumbs, titles);
    let unique = dedupe(candidates);
    let labelled = classify_records(unique);
    assemble(labelled)
}

} // verus!
