use vstd::prelude::*;
use crate::classify::Category;

verus! {

/// One video as read from the page: its identifier, thumbnail URL and title.
#[derive(Clone, Debug, PartialEq, Eq)]
pub struct Video {
    pub video_id: String,
    pub img: String,
    pub title: String,
}

/// The mathematical value of a [`Video`]: its three texts.
pub struct VideoView {
    pub video_id: Seq<char>,
    pub img: Seq<char>,
    pub title: Seq<char>,
}

impl View for Video {
    type V = VideoView;

    open spec fn view(&self) -> VideoView {
        VideoView { video_id: self.video_id@, img: self.img@, title: self.title@ }
    }
}

impl Video {
    /// A video with the given identifier, thumbnail URL and title.
    pub fn new(video_id: String, img: String, title: String) -> (r: Video)
        ensures
            r.video_id == video_id,
            r.img == img,
            r.title == title,
    {
        Video { video_id, img, title }
    }

    /// A copy of this video, field by field.
    pub fn copy(&self) -> (r: Video)
        ensures
            r@ == self@,
    {
        Video { video_id: self.video_id.clone(), img: self.img.clone(), title: self.title.clone() }
    }
}

/// The views of a sequence of videos.
pub open spec fn videos_view(v: Seq<Video>) -> Seq<VideoView> {
    v.map_values(|x: Video| x@)
}

/// A video together with the category it was filed under.
#[derive(Clone, Debug, PartialEq, Eq)]
pub struct ClassifiedVideo {
    pub video: Video,
    pub category: Category,
}

impl View for ClassifiedVideo {
    type V = (VideoView, Category);

    open spec fn view(&self) -> (VideoView, Category) {
        (self.video@, self.category)
    }
}

/// The views of a sequence of classified videos.
pub open spec fn classified_view(v: Seq<ClassifiedVideo>) -> Seq<(VideoView, Category)> {
    v.map_values(|x: ClassifiedVideo| x@)
}

/// The result of one search: regular videos and shorts, each in the order
/// in which their identifiers were first seen.
#[derive(Clone, Debug, PartialEq, Eq)]
pub struct VideoResponse {
    pub videos: Vec<Video>,
    pub shorts: Vec<Video>,
}

} // verus!
