use vstd::prelude::*;

verus! {

/// Where a stream can be played from.
#[derive(Debug)]
pub enum StreamSource {
    Url { url: String },
    Torrent { info_hash: String, file_idx: Option<u16> },
    External { external_url: String },
    YouTube { yt_id: String },
    PlayerFrame { player_frame_url: String },
}

/// A stream source as text.
pub enum SourceView {
    Url(Seq<char>),
    Torrent(Seq<char>, Option<u16>),
    External(Seq<char>),
    YouTube(Seq<char>),
    PlayerFrame(Seq<char>),
}

/// One playable stream of a video.
#[derive(Debug)]
pub struct Stream {
    pub source: StreamSource,
    pub name: Option<String>,
}

pub open spec fn opt_text(s: Option<String>) -> Option<Seq<char>> {
    match s {
        Some(t) => Some(t@),
        None => None,
    }
}

impl View for StreamSource {
    type V = SourceView;

    open spec fn view(&self) -> SourceView {
        match self {
            StreamSource::Url { url } => SourceView::Url(url@),
            StreamSource::Torrent { info_hash, file_idx } => SourceView::Torrent(
                info_hash@,
                *file_idx,
            ),
            StreamSource::External { external_url } => SourceView::External(external_url@),
            StreamSource::YouTube { yt_id } => SourceView::YouTube(yt_id@),
            StreamSource::PlayerFrame { player_frame_url } => SourceView::PlayerFrame(
                player_frame_url@,
            ),
        }
    }
}

impl View for Stream {
    type V = (SourceView, Option<Seq<char>>);

    open spec fn view(&self) -> (SourceView, Option<Seq<char>>) {
        (self.source@, opt_text(self.name))
    }
}

pub open spec fn streams_view(s: Seq<Stream>) -> Seq<(SourceView, Option<Seq<char>>)> {
    s.map_values(|x: Stream| x@)
}

/// A copy of an optional text.
pub fn clone_opt(s: &Option<String>) -> (r: Option<String>)
    ensures
        opt_text(r) == opt_text(*s),
{
    match s {
        Some(t) => Some(t.clone()),
        None => None,
    }
}

/// A copy of a list of texts.
pub fn clone_strings(ids: &Vec<String>) -> (r: Vec<String>)
    ensures
        r@ == ids@,
{
    let mut r: Vec<String> = Vec::new();
    let mut i: usize = 0;
    while i < ids.len()
        invariant
            i <= ids.len(),
            r@ == ids@.subrange(0, i as int),
        decreases ids.len() - i,
    {
        r.push(ids[i].clone());
        assert(r@ =~= ids@.subrange(0, i + 1));
        i = i + 1;
    }
    assert(ids@.subrange(0, ids.len() as int) =~= ids@);
    r
}

/// Whether two optional texts are equal.
pub fn same_opt(a: &Option<String>, b: &Option<String>) -> (r: bool)
    ensures
        r == (opt_text(*a) == opt_text(*b)),
{
    match (a, b) {
        (Some(x), Some(y)) => *x == *y,
        (None, None) => true,
        _ => false,
    }
}

impl Clone for StreamSource {
    fn clone(&self) -> (r: Self)
        ensures
            r@ == self@,
    {
        match self {
            StreamSource::Url { url } => StreamSource::Url { url: url.clone() },
            StreamSource::Torrent { info_hash, file_idx } => StreamSource::Torrent {
                info_hash: info_hash.clone(),
                file_idx: *file_idx,
            },
            StreamSource::External { external_url } => StreamSource::External {
                external_url: external_url.clone(),
            },
            StreamSource::YouTube { yt_id } => StreamSource::YouTube { yt_id: yt_id.clone() },
            StreamSource::PlayerFrame { player_frame_url } => StreamSource::PlayerFrame {
                player_frame_url: player_frame_url.clone(),
            },
        }
    }
}

impl Clone for Stream {
    fn clone(&self) -> (r: Self)
        ensures
            r@ == self@,
    {
        Stream { source: self.source.clone(), name: clone_opt(&self.name) }
    }
}

impl PartialEq for StreamSource {
    fn eq(&self, o: &StreamSource) -> (r: bool) {
        match (self, o) {
            (StreamSource::Url { url: a }, StreamSource::Url { url: b }) => *a == *b,
            (
                StreamSource::Torrent { info_hash: a, file_idx: x },
                StreamSource::Torrent { info_hash: b, file_idx: y },
            ) => *a == *b && match (x, y) {
                (Some(i), Some(j)) => *i == *j,
                (None, None) => true,
                _ => false,
            },
            (
                StreamSource::External { external_url: a },
                StreamSource::External { external_url: b },
            ) => *a == *b,
            (StreamSource::YouTube { yt_id: a }, StreamSource::YouTube { yt_id: b }) => *a == *b,
            (
                StreamSource::PlayerFrame { player_frame_url: a },
                StreamSource::PlayerFrame { player_frame_url: b },
            ) => *a == *b,
            _ => false,
        }
    }
}

impl vstd::std_specs::cmp::PartialEqSpecImpl for StreamSource {
    open spec fn obeys_eq_spec() -> bool {
        true
    }

    open spec fn eq_spec(&self, o: &StreamSource) -> bool {
        self@ == o@
    }
}

impl PartialEq for Stream {
    fn eq(&self, o: &Stream) -> (r: bool) {
        self.source == o.source && same_opt(&self.name, &o.name)
    }
}

impl vstd::std_specs::cmp::PartialEqSpecImpl for Stream {
    open spec fn obeys_eq_spec() -> bool {
        true
    }

    open spec fn eq_spec(&self, o: &Stream) -> bool {
        self@ == o@
    }
}

/// A copy of a list of streams.
pub fn clone_streams(s: &Vec<Stream>) -> (r: Vec<Stream>)
    ensures
        streams_view(r@) == streams_view(s@),
{
    let mut r: Vec<Stream> = Vec::new();
    let mut i: usize = 0;
    while i < s.len()
        invariant
            i <= s.len(),
            r.len() == i,
            forall|k: int| 0 <= k < i ==> #[trigger] r@[k]@ == s@[k]@,
        decreases s.len() - i,
    {
        let x = s[i].clone();
        r.push(x);
        i = i + 1;
    }
    assert(streams_view(r@) =~= streams_view(s@));
    r
}

/// Whether two lists of streams are equal, stream by stream.
pub fn same_streams(a: &Vec<Stream>, b: &Vec<Stream>) -> (r: bool)
    ensures
        r == (streams_view(a@) == streams_view(b@)),
{
    if a.len() != b.len() {
        assert(streams_view(a@).len() != streams_view(b@).len());
        return false;
    }
    let mut i: usize = 0;
    while i < a.len()
        invariant
            a.len() == b.len(),
            i <= a.len(),
            forall|k: int| 0 <= k < i ==> #[trigger] a@[k]@ == b@[k]@,
        decreases a.len() - i,
    {
        if !(a[i] == b[i]) {
            assert(streams_view(a@)[i as int] != streams_view(b@)[i as int]);
            return false;
        }
        i = i + 1;
    }
    assert(streams_view(a@) =~= streams_view(b@));
    true
}

/// Season and episode of a video that belongs to a series.
#[derive(Debug, Clone, Copy, PartialEq, Eq)]
pub struct SeriesInfo {
    pub season: u32,
    pub episode: u32,
}

/// One video of a title; `released` is a time in milliseconds since the epoch.
#[derive(Debug)]
pub struct Video {
    pub id: String,
    pub title: String,
    pub released: Option<i64>,
    pub series_info: Option<SeriesInfo>,
    pub streams: Vec<Stream>,
}

/// Presentation hints of a title: the video to open directly, the video to
/// feature, and whether videos are scheduled to come out.
#[derive(Debug)]
pub struct MetaItemBehaviorHints {
    pub default_video_id: Option<String>,
    pub featured_video_id: Option<String>,
    pub has_scheduled_videos: bool,
}

/// Presentation hints as values.
pub struct HintsView {
    pub default_video_id: Option<Seq<char>>,
    pub featured_video_id: Option<Seq<char>>,
    pub has_scheduled_videos: bool,
}

impl View for MetaItemBehaviorHints {
    type V = HintsView;

    open spec fn view(&self) -> HintsView {
        HintsView {
            default_video_id: opt_text(self.default_video_id),
            featured_video_id: opt_text(self.featured_video_id),
            has_scheduled_videos: self.has_scheduled_videos,
        }
    }
}

/// How a title's poster is shaped.
#[derive(Debug, Clone, Copy, PartialEq, Eq, Structural)]
pub enum PosterShape {
    Poster,
    Square,
    Landscape,
}

/// What a catalog lists about a title.
#[derive(Debug)]
pub struct MetaItemPreview {
    pub id: String,
    pub content_type: String,
    pub name: String,
    pub poster: Option<String>,
    pub poster_shape: PosterShape,
    pub behavior_hints: MetaItemBehaviorHints,
}

/// The full metadata of a title, with its videos.
#[derive(Debug)]
pub struct MetaItem {
    pub preview: MetaItemPreview,
    pub videos: Vec<Video>,
}

/// What a provider answered.
#[derive(Debug)]
pub enum ResourceResponse {
    Metas { metas: Vec<MetaItemPreview> },
    Meta { meta: MetaItem },
    Streams { streams: Vec<Stream> },
}

/// A video as values.
pub struct VideoView {
    pub id: Seq<char>,
    pub title: Seq<char>,
    pub released: Option<i64>,
    pub series_info: Option<SeriesInfo>,
    pub streams: Seq<(SourceView, Option<Seq<char>>)>,
}

/// A title's metadata as values.
pub struct MetaView {
    pub id: Seq<char>,
    pub content_type: Seq<char>,
    pub name: Seq<char>,
    pub poster: Option<Seq<char>>,
    pub poster_shape: PosterShape,
    pub behavior_hints: HintsView,
    pub videos: Seq<VideoView>,
}

impl View for Video {
    type V = VideoView;

    open spec fn view(&self) -> VideoView {
        VideoView {
            id: self.id@,
            title: self.title@,
            released: self.released,
            series_info: self.series_info,
            streams: streams_view(self.streams@),
        }
    }
}

pub open spec fn videos_view(v: Seq<Video>) -> Seq<VideoView> {
    v.map_values(|x: Video| x@)
}

impl View for MetaItem {
    type V = MetaView;

    open spec fn view(&self) -> MetaView {
        MetaView {
            id: self.preview.id@,
            content_type: self.preview.content_type@,
            name: self.preview.name@,
            poster: opt_text(self.preview.poster),
            poster_shape: self.preview.poster_shape,
            behavior_hints: self.preview.behavior_hints@,
            videos: videos_view(self.videos@),
        }
    }
}

impl Clone for Video {
    fn clone(&self) -> (r: Self)
        ensures
            r@ == self@,
    {
        Video {
            id: self.id.clone(),
            title: self.title.clone(),
            released: self.released,
            series_info: self.series_info,
            streams: clone_streams(&self.streams),
        }
    }
}

impl Clone for MetaItemBehaviorHints {
    fn clone(&self) -> (r: Self)
        ensures
            r@ == self@,
    {
        MetaItemBehaviorHints {
            default_video_id: clone_opt(&self.default_video_id),
            featured_video_id: clone_opt(&self.featured_video_id),
            has_scheduled_videos: self.has_scheduled_videos,
        }
    }
}

impl Clone for MetaItemPreview {
    fn clone(&self) -> (r: Self)
        ensures
            r.id@ == self.id@,
            r.content_type@ == self.content_type@,
            r.name@ == self.name@,
            opt_text(r.poster) == opt_text(self.poster),
            r.poster_shape == self.poster_shape,
            r.behavior_hints@ == self.behavior_hints@,
    {
        MetaItemPreview {
            id: self.id.clone(),
            content_type: self.content_type.clone(),
            name: self.name.clone(),
            poster: clone_opt(&self.poster),
            poster_shape: self.poster_shape,
            behavior_hints: self.behavior_hints.clone(),
        }
    }
}

impl Clone for MetaItem {
    fn clone(&self) -> (r: Self)
        ensures
            r@ == self@,
    {
        let mut videos: Vec<Video> = Vec::new();
        let mut i: usize = 0;
        while i < self.videos.len()
            invariant
                i <= self.videos.len(),
                videos.len() == i,
                forall|k: int| 0 <= k < i ==> #[trigger] videos@[k]@ == self.videos@[k]@,
            decreases self.videos.len() - i,
        {
            videos.push(self.videos[i].clone());
            i = i + 1;
        }
        let r = MetaItem {
            preview: MetaItemPreview {
                id: self.preview.id.clone(),
                content_type: self.preview.content_type.clone(),
                name: self.preview.name.clone(),
                poster: clone_opt(&self.preview.poster),
                poster_shape: self.preview.poster_shape,
                behavior_hints: self.preview.behavior_hints.clone(),
            },
            videos,
        };
        assert(videos_view(r.videos@) =~= videos_view(self.videos@));
        r
    }
}

/// A catalog entry as values: id, type, name, poster, poster shape, hints.
pub type PreviewView = (Seq<char>, Seq<char>, Seq<char>, Option<Seq<char>>, PosterShape, HintsView);

impl View for MetaItemPreview {
    type V = PreviewView;

    open spec fn view(&self) -> PreviewView {
        (
            self.id@,
            self.content_type@,
            self.name@,
            opt_text(self.poster),
            self.poster_shape,
            self.behavior_hints@,
        )
    }
}

pub open spec fn previews_view(s: Seq<MetaItemPreview>) -> Seq<PreviewView> {
    s.map_values(|x: MetaItemPreview| x@)
}

/// A copy of the first `n` (or all, when fewer) catalog entries.
pub fn clone_previews(s: &Vec<MetaItemPreview>, n: usize) -> (r: Vec<MetaItemPreview>)
    ensures
        previews_view(r@) == previews_view(s@).take(if n < s@.len() { n as int } else { s@.len() as int }),
{
    let m = if n < s.len() { n } else { s.len() };
    let mut r: Vec<MetaItemPreview> = Vec::new();
    let mut i: usize = 0;
    while i < m
        invariant
            m <= s.len(),
            i <= m,
            r.len() == i,
            forall|k: int| 0 <= k < i ==> #[trigger] r@[k]@ == s@[k]@,
        decreases m - i,
    {
        r.push(s[i].clone());
        i = i + 1;
    }
    assert(previews_view(r@) =~= previews_view(s@).take(m as int));
    r
}

} // verus!
