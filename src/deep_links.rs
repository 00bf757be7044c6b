use crate::addon::ResourceRequest;
use crate::bitfield8::{base64_encode, base64_of};
use crate::library::LibraryItem;
use crate::resource::{MetaItemPreview, Stream, StreamSource, Video};
use vstd::prelude::*;

verus! {

/// An upper-case hexadecimal digit.
pub open spec fn hex_digit(d: u8) -> char {
    if d < 10 {
        (48 + d) as char
    } else {
        (55 + d) as char
    }
}

/// An ASCII letter or digit.
pub open spec fn alphanumeric(b: u8) -> bool {
    (48 <= b && b <= 57) || (65 <= b && b <= 90) || (97 <= b && b <= 122)
}

/// One byte of a URI component: itself when a letter or digit, else `%XX`.
pub open spec fn byte_component(b: u8) -> Seq<char> {
    if alphanumeric(b) {
        seq![b as char]
    } else {
        seq!['%', hex_digit(b / 16), hex_digit(b % 16)]
    }
}

pub open spec fn bytes_component(bs: Seq<u8>) -> Seq<char>
    decreases bs.len(),
{
    if bs.len() == 0 {
        seq![]
    } else {
        bytes_component(bs.drop_last()) + byte_component(bs.last())
    }
}

/// The text of `s` as a URI component: every byte of its UTF-8 form that is
/// not an ASCII letter or digit becomes `%XX`.
pub open spec fn uri_component_of(s: Seq<char>) -> Seq<char> {
    bytes_component(vstd::utf8::encode_utf8(s))
}

/// The scheme of URL `s`, lower-cased, if `s` parses as a URL.
pub uninterp spec fn scheme_of(s: Seq<char>) -> Option<Seq<char>>;

/// The decimal digits of `n`, without leading zeros.
pub open spec fn decimal_of(n: nat) -> Seq<char>
    decreases n,
{
    if n < 10 {
        seq![(48 + n) as char]
    } else {
        decimal_of(n / 10) + seq![(48 + n % 10) as char]
    }
}

/// Relies on percent_encoding::utf8_percent_encode with the NON_ALPHANUMERIC set:
/// upper-case `%XX` for every byte that is not an ASCII letter or digit.
#[verifier::external_body]
fn encode_component(s: &str) -> (r: String)
    ensures
        r@ == uri_component_of(s@),
{
    percent_encoding::utf8_percent_encode(s, percent_encoding::NON_ALPHANUMERIC).to_string()
}

/// Relies on url::Url::parse and Url::scheme.
#[verifier::external_body]
fn url_scheme(s: &str) -> (r: Option<String>)
    ensures
        match r {
            Some(x) => scheme_of(s@) == Some(x@),
            None => scheme_of(s@) is None,
        },
{
    match url::Url::parse(s) {
        Ok(u) => Some(u.scheme().to_string()),
        Err(_) => None,
    }
}

/// Relies on std's `Display` for `u32`: its decimal digits.
#[verifier::external_body]
fn decimal(n: u32) -> (r: String)
    ensures
        r@ == decimal_of(n as nat),
{
    n.to_string()
}

fn push(out: &mut String, s: &str)
    ensures
        final(out)@ == old(out)@ + s@,
{
    out.append(s);
}

fn push_component(out: &mut String, s: &str)
    ensures
        final(out)@ == old(out)@ + uri_component_of(s@),
{
    let e = encode_component(s);
    out.append(e.as_str());
}

/// `k=v` pairs, each side as a URI component, joined by `&`.
pub open spec fn query_of(pairs: Seq<(Seq<char>, Seq<char>)>) -> Seq<char>
    decreases pairs.len(),
{
    if pairs.len() == 0 {
        seq![]
    } else {
        let last = pairs.last();
        let tail = uri_component_of(last.0) + "="@ + uri_component_of(last.1);
        if pairs.len() == 1 {
            tail
        } else {
            query_of(pairs.drop_last()) + "&"@ + tail
        }
    }
}

/// Encodes query parameters.
pub fn query_params_encode(pairs: &Vec<(String, String)>) -> (r: String)
    ensures
        r@ == query_of(pairs@.map_values(|p: (String, String)| (p.0@, p.1@))),
{
    let ghost pv = pairs@.map_values(|p: (String, String)| (p.0@, p.1@));
    let mut out = String::new();
    let mut i: usize = 0;
    while i < pairs.len()
        invariant
            i <= pairs.len(),
            pv == pairs@.map_values(|p: (String, String)| (p.0@, p.1@)),
            out@ == query_of(pv.subrange(0, i as int)),
        decreases pairs.len() - i,
    {
        proof {
            reveal_strlit("&");
            reveal_strlit("=");
        }
        let ghost before = out@;
        if i > 0 {
            push(&mut out, "&");
        }
        push_component(&mut out, pairs[i].0.as_str());
        push(&mut out, "=");
        push_component(&mut out, pairs[i].1.as_str());
        proof {
            let sub = pv.subrange(0, i + 1);
            assert(sub.drop_last() =~= pv.subrange(0, i as int));
            assert(sub.last() == (pairs@[i as int].0@, pairs@[i as int].1@));
            if i > 0 {
                assert(out@ =~= before + "&"@ + (uri_component_of(pairs@[i as int].0@) + "="@
                    + uri_component_of(pairs@[i as int].1@)));
            } else {
                assert(before =~= Seq::<char>::empty());
                assert(out@ =~= uri_component_of(pairs@[i as int].0@) + "="@ + uri_component_of(
                    pairs@[i as int].1@,
                ));
            }
        }
        i = i + 1;
    }
    assert(pv.subrange(0, pairs.len() as int) =~= pv);
    out
}

/// A link that shows an error message.
#[derive(Debug, PartialEq)]
pub struct ErrorLink(pub String);

pub open spec fn error_link_of(message: Seq<char>) -> Seq<char> {
    "stremio:///error?"@ + query_of(seq![("message"@, message)])
}

impl ErrorLink {
    /// The error link for `message`.
    pub fn from_message(message: &str) -> (r: ErrorLink)
        ensures
            r.0@ == error_link_of(message@),
    {
        let mut pairs: Vec<(String, String)> = Vec::new();
        pairs.push((String::from_str("message"), message.to_owned()));
        let q = query_params_encode(&pairs);
        let mut out = String::from_str("stremio:///error?");
        push(&mut out, q.as_str());
        proof {
            let pv = pairs@.map_values(|p: (String, String)| (p.0@, p.1@));
            assert(pv =~= seq![("message"@, message@)]);
        }
        ErrorLink(out)
    }

    /// The link's text.
    pub fn into_string(self) -> (r: String)
        ensures
            r@ == self.0@,
    {
        self.0
    }
}

/// How an outside player opens a stream: a link, and a file name when the
/// link is a playlist to download.
#[derive(Debug, PartialEq)]
pub struct ExternalPlayerLink {
    pub href: String,
    pub download: Option<String>,
}

pub open spec fn playlist_prefix() -> Seq<char> {
    "data:application/octet-stream;charset=utf-8;base64,"@
}

pub open spec fn playlist_of(url: Seq<char>) -> Seq<char> {
    "#EXTM3U\n#EXTINF:0\n"@ + url
}

/// The outside-player link of a stream source.
pub open spec fn external_href(source: StreamSource) -> Seq<char> {
    match source {
        StreamSource::Url { url } => if scheme_of(url@) == Some("magnet"@) {
            url@
        } else {
            playlist_prefix() + base64_of(vstd::utf8::encode_utf8(playlist_of(url@)))
        },
        StreamSource::Torrent { info_hash, .. } => "magnet:?xt=urn:btih:"@ + info_hash@,
        StreamSource::External { external_url } => external_url@,
        StreamSource::YouTube { yt_id } => "https://www.youtube.com/watch?v="@ + uri_component_of(yt_id@),
        StreamSource::PlayerFrame { player_frame_url } => player_frame_url@,
    }
}

/// Only a plain (non-magnet) URL is handed over as a playlist file.
pub open spec fn external_download(source: StreamSource) -> Option<Seq<char>> {
    match source {
        StreamSource::Url { url } => if scheme_of(url@) == Some("magnet"@) {
            None
        } else {
            Some("playlist.m3u"@)
        },
        _ => None,
    }
}

fn is_magnet(url: &String) -> (r: bool)
    ensures
        r == (scheme_of(url@) == Some("magnet"@)),
{
    match url_scheme(url.as_str()) {
        Some(s) => {
            let magnet = String::from_str("magnet");
            s == magnet
        },
        None => false,
    }
}

impl ExternalPlayerLink {
    /// The outside-player link of `stream`.
    pub fn from_stream(stream: &Stream) -> (r: ExternalPlayerLink)
        ensures
            r.href@ == external_href(stream.source),
            crate::resource::opt_text(r.download) == external_download(stream.source),
    {
        match &stream.source {
            StreamSource::Url { url } => {
                if is_magnet(url) {
                    ExternalPlayerLink { href: url.clone(), download: None }
                } else {
                    let mut playlist = String::from_str("#EXTM3U\n#EXTINF:0\n");
                    push(&mut playlist, url.as_str());
                    let encoded = base64_encode(playlist.as_str().as_bytes());
                    let mut href = String::from_str(
                        "data:application/octet-stream;charset=utf-8;base64,",
                    );
                    push(&mut href, encoded.as_str());
                    ExternalPlayerLink {
                        href,
                        download: Some(String::from_str("playlist.m3u")),
                    }
                }
            },
            StreamSource::Torrent { info_hash, .. } => {
                let mut href = String::from_str("magnet:?xt=urn:btih:");
                push(&mut href, info_hash.as_str());
                ExternalPlayerLink { href, download: None }
            },
            StreamSource::External { external_url } => ExternalPlayerLink {
                href: external_url.clone(),
                download: None,
            },
            StreamSource::YouTube { yt_id } => {
                let mut href = String::from_str("https://www.youtube.com/watch?v=");
                push_component(&mut href, yt_id.as_str());
                ExternalPlayerLink { href, download: None }
            },
            StreamSource::PlayerFrame { player_frame_url } => ExternalPlayerLink {
                href: player_frame_url.clone(),
                download: None,
            },
        }
    }
}

pub open spec fn detail_of(content_type: Seq<char>, id: Seq<char>) -> Seq<char> {
    "stremio:///detail/"@ + uri_component_of(content_type) + "/"@ + uri_component_of(id)
}

pub open spec fn detail_video_of(content_type: Seq<char>, id: Seq<char>, video_id: Seq<char>) -> Seq<
    char,
> {
    detail_of(content_type, id) + "/"@ + uri_component_of(video_id)
}

/// A player link: the encoded stream, the stream's and the title's provider,
/// the title's type and id, and the video id.
pub open spec fn player_of(
    stream: Seq<char>,
    stream_base: Seq<char>,
    meta_base: Seq<char>,
    content_type: Seq<char>,
    id: Seq<char>,
    video_id: Seq<char>,
) -> Seq<char> {
    "stremio:///player/"@ + uri_component_of(stream) + "/"@ + uri_component_of(stream_base) + "/"@
        + uri_component_of(meta_base) + "/"@ + uri_component_of(content_type) + "/"@
        + uri_component_of(id) + "/"@ + uri_component_of(video_id)
}

/// The player link for an encoded stream, or the error link for the reason
/// it could not be encoded.
pub open spec fn player_or_error(
    encoded: Result<String, String>,
    stream_base: Seq<char>,
    meta_base: Seq<char>,
    content_type: Seq<char>,
    id: Seq<char>,
    video_id: Seq<char>,
) -> Seq<char> {
    match encoded {
        Ok(e) => player_of(e@, stream_base, meta_base, content_type, id, video_id),
        Err(m) => error_link_of(m@),
    }
}

fn detail_link(content_type: &str, id: &str) -> (r: String)
    ensures
        r@ == detail_of(content_type@, id@),
{
    let mut out = String::from_str("stremio:///detail/");
    push_component(&mut out, content_type);
    push(&mut out, "/");
    push_component(&mut out, id);
    out
}

fn detail_video_link(content_type: &str, id: &str, video_id: &str) -> (r: String)
    ensures
        r@ == detail_video_of(content_type@, id@, video_id@),
{
    let mut out = detail_link(content_type, id);
    push(&mut out, "/");
    push_component(&mut out, video_id);
    out
}

fn player_link(
    stream: &str,
    stream_base: &str,
    meta_base: &str,
    content_type: &str,
    id: &str,
    video_id: &str,
) -> (r: String)
    ensures
        r@ == player_of(stream@, stream_base@, meta_base@, content_type@, id@, video_id@),
{
    let mut out = String::from_str("stremio:///player/");
    push_component(&mut out, stream);
    push(&mut out, "/");
    push_component(&mut out, stream_base);
    push(&mut out, "/");
    push_component(&mut out, meta_base);
    push(&mut out, "/");
    push_component(&mut out, content_type);
    push(&mut out, "/");
    push_component(&mut out, id);
    push(&mut out, "/");
    push_component(&mut out, video_id);
    out
}

fn player_or_error_link(
    encoded: &Result<String, String>,
    stream_base: &str,
    meta_base: &str,
    content_type: &str,
    id: &str,
    video_id: &str,
) -> (r: String)
    ensures
        r@ == player_or_error(*encoded, stream_base@, meta_base@, content_type@, id@, video_id@),
{
    match encoded {
        Ok(e) => player_link(e.as_str(), stream_base, meta_base, content_type, id, video_id),
        Err(m) => ErrorLink::from_message(m.as_str()).into_string(),
    }
}

pub open spec fn text_or_none(s: Option<String>) -> Option<Seq<char>> {
    crate::resource::opt_text(s)
}

/// Links from a library item.
#[derive(Debug)]
pub struct LibraryItemDeepLinks {
    pub meta_details_videos: Option<String>,
    pub meta_details_streams: Option<String>,
    pub player: Option<String>,
    pub external_player: Option<ExternalPlayerLink>,
}

impl LibraryItemDeepLinks {
    /// The video list of the title unless it goes straight to a default
    /// video; the streams of the last (else the default) video.
    pub fn from_item(item: &LibraryItem) -> (r: LibraryItemDeepLinks)
        ensures
            text_or_none(r.meta_details_videos) == match item.behavior_hints.default_video_id {
                Some(_) => None,
                None => Some(detail_of(item.content_type@, item.id@)),
            },
            text_or_none(r.meta_details_streams) == match item.state.video_id {
                Some(v) => Some(detail_video_of(item.content_type@, item.id@, v@)),
                None => match item.behavior_hints.default_video_id {
                    Some(v) => Some(detail_video_of(item.content_type@, item.id@, v@)),
                    None => None,
                },
            },
            r.player is None,
            r.external_player is None,
    {
        let meta_details_videos = match &item.behavior_hints.default_video_id {
            Some(_) => None,
            None => Some(detail_link(item.content_type.as_str(), item.id.as_str())),
        };
        let video = match &item.state.video_id {
            Some(v) => Some(v),
            None => match &item.behavior_hints.default_video_id {
                Some(v) => Some(v),
                None => None,
            },
        };
        let meta_details_streams = match video {
            Some(v) => Some(detail_video_link(item.content_type.as_str(), item.id.as_str(), v.as_str())),
            None => None,
        };
        LibraryItemDeepLinks { meta_details_videos, meta_details_streams, player: None, external_player: None }
    }
}

/// Links from a catalog entry.
#[derive(Debug, PartialEq)]
pub struct MetaItemDeepLinks {
    pub meta_details_videos: Option<String>,
    pub meta_details_streams: Option<String>,
    pub player: Option<String>,
}

impl MetaItemDeepLinks {
    /// Links for `item` as served at `request`. `default_stream` is the
    /// encoded stream of the default video, when it can be played directly
    /// (or why it could not be encoded).
    pub fn from_preview(
        item: &MetaItemPreview,
        request: &ResourceRequest,
        default_stream: &Option<Result<String, String>>,
    ) -> (r: MetaItemDeepLinks)
        ensures
            text_or_none(r.meta_details_videos) == match item.behavior_hints.default_video_id {
                Some(_) => None,
                None => Some(detail_of(item.content_type@, item.id@)),
            },
            text_or_none(r.meta_details_streams) == match item.behavior_hints.default_video_id {
                Some(v) => Some(detail_video_of(item.content_type@, item.id@, v@)),
                None => None,
            },
            text_or_none(r.player) == match (item.behavior_hints.default_video_id, *default_stream) {
                (Some(v), Some(e)) => Some(player_or_error(e, request.base@, request.base@, item.content_type@, item.id@, v@)),
                _ => None,
            },
    {
        let meta_details_videos = match &item.behavior_hints.default_video_id {
            Some(_) => None,
            None => Some(detail_link(item.content_type.as_str(), item.id.as_str())),
        };
        let meta_details_streams = match &item.behavior_hints.default_video_id {
            Some(v) => Some(detail_video_link(item.content_type.as_str(), item.id.as_str(), v.as_str())),
            None => None,
        };
        let player = match (&item.behavior_hints.default_video_id, default_stream) {
            (Some(v), Some(e)) => Some(player_or_error_link(
                e,
                request.base.as_str(),
                request.base.as_str(),
                item.content_type.as_str(),
                item.id.as_str(),
                v.as_str(),
            )),
            _ => None,
        };
        MetaItemDeepLinks { meta_details_videos, meta_details_streams, player }
    }
}

/// Links from a video of a title.
#[derive(Debug)]
pub struct VideoDeepLinks {
    pub meta_details_streams: String,
    pub player: Option<String>,
    pub external_player: Option<ExternalPlayerLink>,
}

impl VideoDeepLinks {
    /// Links for `video` of the title requested at `request`. `stream` is the
    /// video's directly playable stream, if it has one, with its encoding (or
    /// why it could not be encoded).
    pub fn from_video(
        video: &Video,
        request: &ResourceRequest,
        stream: &Option<(Stream, Result<String, String>)>,
    ) -> (r: VideoDeepLinks)
        ensures
            r.meta_details_streams@ == detail_video_of(request.path.content_type@, request.path.id@, video.id@),
            text_or_none(r.player) == match *stream {
                Some((_, e)) => Some(player_or_error(e, request.base@, request.base@, request.path.content_type@, request.path.id@, video.id@)),
                None => None,
            },
            match (r.external_player, *stream) {
                (Some(l), Some((s, _))) => l.href@ == external_href(s.source)
                    && crate::resource::opt_text(l.download) == external_download(s.source),
                (None, None) => true,
                _ => false,
            },
    {
        let meta_details_streams = detail_video_link(
            request.path.content_type.as_str(),
            request.path.id.as_str(),
            video.id.as_str(),
        );
        match stream {
            Some((s, e)) => VideoDeepLinks {
                meta_details_streams,
                player: Some(player_or_error_link(
                    e,
                    request.base.as_str(),
                    request.base.as_str(),
                    request.path.content_type.as_str(),
                    request.path.id.as_str(),
                    video.id.as_str(),
                )),
                external_player: Some(ExternalPlayerLink::from_stream(s)),
            },
            None => VideoDeepLinks { meta_details_streams, player: None, external_player: None },
        }
    }
}

/// Links from a stream.
#[derive(Debug)]
pub struct StreamDeepLinks {
    pub player: String,
    pub external_player: ExternalPlayerLink,
}

impl StreamDeepLinks {
    /// Links for `stream`, given its encoding (or why it could not be encoded).
    pub fn from_stream(stream: &Stream, encoded: &Result<String, String>) -> (r: StreamDeepLinks)
        ensures
            r.player@ == match *encoded {
                Ok(e) => "stremio:///player/"@ + uri_component_of(e@),
                Err(m) => error_link_of(m@),
            },
            r.external_player.href@ == external_href(stream.source),
            crate::resource::opt_text(r.external_player.download) == external_download(stream.source),
    {
        let player = match encoded {
            Ok(e) => {
                let mut out = String::from_str("stremio:///player/");
                push_component(&mut out, e.as_str());
                out
            },
            Err(m) => ErrorLink::from_message(m.as_str()).into_string(),
        };
        StreamDeepLinks { player, external_player: ExternalPlayerLink::from_stream(stream) }
    }

    /// Links for `stream` as served at `stream_request` for the title
    /// requested at `meta_request`.
    pub fn from_stream_requests(
        stream: &Stream,
        encoded: &Result<String, String>,
        stream_request: &ResourceRequest,
        meta_request: &ResourceRequest,
    ) -> (r: StreamDeepLinks)
        ensures
            r.player@ == player_or_error(
                *encoded,
                stream_request.base@,
                meta_request.base@,
                meta_request.path.content_type@,
                meta_request.path.id@,
                stream_request.path.id@,
            ),
            r.external_player.href@ == external_href(stream.source),
            crate::resource::opt_text(r.external_player.download) == external_download(stream.source),
    {
        let player = player_or_error_link(
            encoded,
            stream_request.base.as_str(),
            meta_request.base.as_str(),
            meta_request.path.content_type.as_str(),
            meta_request.path.id.as_str(),
            stream_request.path.id.as_str(),
        );
        StreamDeepLinks { player, external_player: ExternalPlayerLink::from_stream(stream) }
    }
}

/// The discover link of a catalog request.
#[derive(Debug)]
pub struct DiscoverDeepLinks {
    pub discover: String,
}

impl DiscoverDeepLinks {
    pub fn from_request(request: &ResourceRequest) -> (r: DiscoverDeepLinks)
        ensures
            r.discover@ == "stremio:///discover/"@ + uri_component_of(request.base@) + "/"@
                + uri_component_of(request.path.content_type@) + "/"@ + uri_component_of(
                request.path.id@,
            ) + "?"@ + query_of(request.path@.extra),
    {
        let mut pairs: Vec<(String, String)> = Vec::new();
        let mut i: usize = 0;
        while i < request.path.extra.len()
            invariant
                i <= request.path.extra.len(),
                pairs.len() == i,
                forall|k: int| 0 <= k < i ==> #[trigger] pairs@[k].0@ == request.path.extra@[k].name@
                    && pairs@[k].1@ == request.path.extra@[k].value@,
            decreases request.path.extra.len() - i,
        {
            pairs.push((request.path.extra[i].name.clone(), request.path.extra[i].value.clone()));
            i = i + 1;
        }
        assert(pairs@.map_values(|p: (String, String)| (p.0@, p.1@)) =~= request.path@.extra);
        let q = query_params_encode(&pairs);
        let mut out = String::from_str("stremio:///discover/");
        push_component(&mut out, request.base.as_str());
        push(&mut out, "/");
        push_component(&mut out, request.path.content_type.as_str());
        push(&mut out, "/");
        push_component(&mut out, request.path.id.as_str());
        push(&mut out, "?");
        push(&mut out, q.as_str());
        DiscoverDeepLinks { discover: out }
    }
}

/// What the installed-addons view shows: addons of one type, or all.
#[derive(Debug)]
pub struct InstalledAddonsRequest {
    pub content_type: Option<String>,
}

/// The addons link.
#[derive(Debug)]
pub struct AddonsDeepLinks {
    pub addons: String,
}

impl AddonsDeepLinks {
    /// The link to a provider's catalog of addons.
    pub fn from_request(request: &ResourceRequest) -> (r: AddonsDeepLinks)
        ensures
            r.addons@ == "stremio:///addons/"@ + uri_component_of(request.path.content_type@) + "/"@
                + uri_component_of(request.base@) + "/"@ + uri_component_of(request.path.id@),
    {
        let mut out = String::from_str("stremio:///addons/");
        push_component(&mut out, request.path.content_type.as_str());
        push(&mut out, "/");
        push_component(&mut out, request.base.as_str());
        push(&mut out, "/");
        push_component(&mut out, request.path.id.as_str());
        AddonsDeepLinks { addons: out }
    }

    /// The link to the installed addons, of one type or all.
    pub fn from_installed(request: &InstalledAddonsRequest) -> (r: AddonsDeepLinks)
        ensures
            r.addons@ == match request.content_type {
                Some(t) => "stremio:///addons/"@ + uri_component_of(t@),
                None => "stremio:///addons"@,
            },
    {
        match &request.content_type {
            Some(t) => {
                let mut out = String::from_str("stremio:///addons/");
                push_component(&mut out, t.as_str());
                AddonsDeepLinks { addons: out }
            },
            None => AddonsDeepLinks { addons: String::from_str("stremio:///addons") },
        }
    }
}

/// What the library view shows: a type (or all), an order and a page.
#[derive(Debug)]
pub struct LibraryRequest {
    pub content_type: Option<String>,
    /// The order's name, such as `lastwatched` or `name`.
    pub sort: String,
    pub page: u32,
}

/// The library link.
#[derive(Debug)]
pub struct LibraryDeepLinks {
    pub library: String,
}

pub open spec fn library_query(request: LibraryRequest) -> Seq<char> {
    query_of(seq![("sort"@, request.sort@), ("page"@, decimal_of(request.page as nat))])
}

impl LibraryDeepLinks {
    /// The link to a library root, such as `library` or `continuewatching`.
    pub fn from_root(root: &String) -> (r: LibraryDeepLinks)
        ensures
            r.library@ == "stremio:///"@ + root@,
    {
        let mut out = String::from_str("stremio:///");
        push(&mut out, root.as_str());
        LibraryDeepLinks { library: out }
    }

    /// The link to a library root with a type, an order and a page.
    pub fn from_request(root: &String, request: &LibraryRequest) -> (r: LibraryDeepLinks)
        ensures
            r.library@ == match request.content_type {
                Some(t) => "stremio:///"@ + root@ + "/"@ + uri_component_of(t@) + "?"@ + library_query(*request),
                None => "stremio:///"@ + root@ + "?"@ + library_query(*request),
            },
    {
        let mut pairs: Vec<(String, String)> = Vec::new();
        pairs.push((String::from_str("sort"), request.sort.clone()));
        pairs.push((String::from_str("page"), decimal(request.page)));
        assert(pairs@.map_values(|p: (String, String)| (p.0@, p.1@)) =~= seq![
            ("sort"@, request.sort@),
            ("page"@, decimal_of(request.page as nat)),
        ]);
        let q = query_params_encode(&pairs);
        let mut out = String::from_str("stremio:///");
        push(&mut out, root.as_str());
        match &request.content_type {
            Some(t) => {
                push(&mut out, "/");
                push_component(&mut out, t.as_str());
            },
            None => {},
        }
        push(&mut out, "?");
        push(&mut out, q.as_str());
        LibraryDeepLinks { library: out }
    }
}

impl<'a> From<&'a Stream> for ExternalPlayerLink {
    /// See `from_stream`.
    fn from(v: &'a Stream) -> (r: ExternalPlayerLink)
        ensures
            r.href@ == external_href(v.source),
            crate::resource::opt_text(r.download) == external_download(v.source),
    {
        ExternalPlayerLink::from_stream(v)
    }
}

impl<'a> vstd::std_specs::convert::FromSpecImpl<&'a Stream> for ExternalPlayerLink {
    open spec fn obeys_from_spec() -> bool {
        false
    }

    open spec fn from_spec(v: &'a Stream) -> ExternalPlayerLink {
        arbitrary()
    }
}

impl<'a> From<&'a LibraryItem> for LibraryItemDeepLinks {
    /// See `from_item`.
    fn from(v: &'a LibraryItem) -> (r: LibraryItemDeepLinks)
        ensures
            text_or_none(r.meta_details_videos) == match v.behavior_hints.default_video_id {
                Some(_) => None,
                None => Some(detail_of(v.content_type@, v.id@)),
            },
            text_or_none(r.meta_details_streams) == match v.state.video_id {
                Some(x) => Some(detail_video_of(v.content_type@, v.id@, x@)),
                None => match v.behavior_hints.default_video_id {
                    Some(x) => Some(detail_video_of(v.content_type@, v.id@, x@)),
                    None => None,
                },
            },
            r.player is None,
            r.external_player is None,
    {
        LibraryItemDeepLinks::from_item(v)
    }
}

impl<'a> vstd::std_specs::convert::FromSpecImpl<&'a LibraryItem> for LibraryItemDeepLinks {
    open spec fn obeys_from_spec() -> bool {
        false
    }

    open spec fn from_spec(v: &'a LibraryItem) -> LibraryItemDeepLinks {
        arbitrary()
    }
}

impl<'a> From<&'a ResourceRequest> for DiscoverDeepLinks {
    /// See `from_request`.
    fn from(v: &'a ResourceRequest) -> (r: DiscoverDeepLinks)
        ensures
            r.discover@ == "stremio:///discover/"@ + uri_component_of(v.base@) + "/"@
                + uri_component_of(v.path.content_type@) + "/"@ + uri_component_of(v.path.id@)
                + "?"@ + query_of(v.path@.extra),
    {
        DiscoverDeepLinks::from_request(v)
    }
}

impl<'a> vstd::std_specs::convert::FromSpecImpl<&'a ResourceRequest> for DiscoverDeepLinks {
    open spec fn obeys_from_spec() -> bool {
        false
    }

    open spec fn from_spec(v: &'a ResourceRequest) -> DiscoverDeepLinks {
        arbitrary()
    }
}

impl<'a> From<&'a ResourceRequest> for AddonsDeepLinks {
    /// See `from_request`.
    fn from(v: &'a ResourceRequest) -> (r: AddonsDeepLinks)
        ensures
            r.addons@ == "stremio:///addons/"@ + uri_component_of(v.path.content_type@) + "/"@
                + uri_component_of(v.base@) + "/"@ + uri_component_of(v.path.id@),
    {
        AddonsDeepLinks::from_request(v)
    }
}

impl<'a> vstd::std_specs::convert::FromSpecImpl<&'a ResourceRequest> for AddonsDeepLinks {
    open spec fn obeys_from_spec() -> bool {
        false
    }

    open spec fn from_spec(v: &'a ResourceRequest) -> AddonsDeepLinks {
        arbitrary()
    }
}

impl<'a> From<&'a InstalledAddonsRequest> for AddonsDeepLinks {
    /// See `from_installed`.
    fn from(v: &'a InstalledAddonsRequest) -> (r: AddonsDeepLinks)
        ensures
            r.addons@ == match v.content_type {
                Some(t) => "stremio:///addons/"@ + uri_component_of(t@),
                None => "stremio:///addons"@,
            },
    {
        AddonsDeepLinks::from_installed(v)
    }
}

impl<'a> vstd::std_specs::convert::FromSpecImpl<&'a InstalledAddonsRequest> for AddonsDeepLinks {
    open spec fn obeys_from_spec() -> bool {
        false
    }

    open spec fn from_spec(v: &'a InstalledAddonsRequest) -> AddonsDeepLinks {
        arbitrary()
    }
}

impl<'a> From<&'a String> for LibraryDeepLinks {
    /// See `from_root`.
    fn from(v: &'a String) -> (r: LibraryDeepLinks)
        ensures
            r.library@ == "stremio:///"@ + v@,
    {
        LibraryDeepLinks::from_root(v)
    }
}

impl<'a> vstd::std_specs::convert::FromSpecImpl<&'a String> for LibraryDeepLinks {
    open spec fn obeys_from_spec() -> bool {
        false
    }

    open spec fn from_spec(v: &'a String) -> LibraryDeepLinks {
        arbitrary()
    }
}

impl<'a> From<(&'a String, &'a LibraryRequest)> for LibraryDeepLinks {
    /// See `from_request`.
    fn from(v: (&'a String, &'a LibraryRequest)) -> (r: LibraryDeepLinks)
        ensures
            r.library@ == match v.1.content_type {
                Some(t) => "stremio:///"@ + v.0@ + "/"@ + uri_component_of(t@) + "?"@ + library_query(*v.1),
                None => "stremio:///"@ + v.0@ + "?"@ + library_query(*v.1),
            },
    {
        LibraryDeepLinks::from_request(v.0, v.1)
    }
}

impl<'a> vstd::std_specs::convert::FromSpecImpl<(&'a String, &'a LibraryRequest)> for LibraryDeepLinks {
    open spec fn obeys_from_spec() -> bool {
        false
    }

    open spec fn from_spec(v: (&'a String, &'a LibraryRequest)) -> LibraryDeepLinks {
        arbitrary()
    }
}

impl From<ErrorLink> for String {
    /// The link's text.
    fn from(v: ErrorLink) -> (r: String)
        ensures
            r@ == v.0@,
    {
        v.into_string()
    }
}

impl vstd::std_specs::convert::FromSpecImpl<ErrorLink> for String {
    open spec fn obeys_from_spec() -> bool {
        false
    }

    open spec fn from_spec(v: ErrorLink) -> String {
        arbitrary()
    }
}

} // verus!
