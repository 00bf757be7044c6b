use crate::bitfield8::{bits_of, encoded_of};
use crate::resource::{
    clone_opt, opt_text, same_opt, HintsView, MetaItemBehaviorHints, MetaItemPreview, PosterShape,
    Video,
};
use crate::watched_bitfield::WatchedBitField;
use crate::resource::clone_strings;
use itertools::Itertools;
use vstd::prelude::*;
use vstd::relations::{sorted_by, total_ordering};

verus! {

/// What the library remembers of the viewing of a title. Times are in
/// milliseconds since the epoch; `watched` holds a textual watched bitfield.
#[derive(Debug, Default)]
pub struct LibraryItemState {
    pub last_watched: Option<i64>,
    pub time_watched: u64,
    pub time_offset: u64,
    pub overall_time_watched: u64,
    pub times_watched: u32,
    pub flagged_watched: u32,
    pub duration: u64,
    pub video_id: Option<String>,
    pub watched: Option<String>,
    pub last_vid_released: Option<i64>,
    pub no_notif: bool,
}

/// A title in the user's library. It is never deleted: `removed` marks it
/// removed, and `temp` marks one that was only looked at.
#[derive(Debug)]
pub struct LibraryItem {
    pub id: String,
    pub name: String,
    pub content_type: String,
    pub poster: Option<String>,
    pub poster_shape: PosterShape,
    pub removed: bool,
    pub temp: bool,
    pub ctime: Option<i64>,
    pub mtime: i64,
    pub state: LibraryItemState,
    pub behavior_hints: MetaItemBehaviorHints,
}

/// A library item's state as values.
pub struct StateView {
    pub last_watched: Option<i64>,
    pub time_watched: u64,
    pub time_offset: u64,
    pub overall_time_watched: u64,
    pub times_watched: u32,
    pub flagged_watched: u32,
    pub duration: u64,
    pub video_id: Option<Seq<char>>,
    pub watched: Option<Seq<char>>,
    pub last_vid_released: Option<i64>,
    pub no_notif: bool,
}

/// A library item as values.
pub struct ItemView {
    pub id: Seq<char>,
    pub name: Seq<char>,
    pub content_type: Seq<char>,
    pub poster: Option<Seq<char>>,
    pub removed: bool,
    pub temp: bool,
    pub ctime: Option<i64>,
    pub mtime: i64,
    pub state: StateView,
    pub poster_shape: PosterShape,
    pub behavior_hints: HintsView,
}

impl View for LibraryItemState {
    type V = StateView;

    open spec fn view(&self) -> StateView {
        StateView {
            last_watched: self.last_watched,
            time_watched: self.time_watched,
            time_offset: self.time_offset,
            overall_time_watched: self.overall_time_watched,
            times_watched: self.times_watched,
            flagged_watched: self.flagged_watched,
            duration: self.duration,
            video_id: opt_text(self.video_id),
            watched: opt_text(self.watched),
            last_vid_released: self.last_vid_released,
            no_notif: self.no_notif,
        }
    }
}

impl View for LibraryItem {
    type V = ItemView;

    open spec fn view(&self) -> ItemView {
        ItemView {
            id: self.id@,
            name: self.name@,
            content_type: self.content_type@,
            poster: opt_text(self.poster),
            removed: self.removed,
            temp: self.temp,
            ctime: self.ctime,
            mtime: self.mtime,
            state: self.state@,
            poster_shape: self.poster_shape,
            behavior_hints: self.behavior_hints@,
        }
    }
}

fn same_i64(a: &Option<i64>, b: &Option<i64>) -> (r: bool)
    ensures
        r == (*a == *b),
{
    match (a, b) {
        (Some(x), Some(y)) => *x == *y,
        (None, None) => true,
        _ => false,
    }
}

impl Clone for LibraryItemState {
    fn clone(&self) -> (r: Self)
        ensures
            r@ == self@,
    {
        LibraryItemState {
            last_watched: self.last_watched,
            time_watched: self.time_watched,
            time_offset: self.time_offset,
            overall_time_watched: self.overall_time_watched,
            times_watched: self.times_watched,
            flagged_watched: self.flagged_watched,
            duration: self.duration,
            video_id: clone_opt(&self.video_id),
            watched: clone_opt(&self.watched),
            last_vid_released: self.last_vid_released,
            no_notif: self.no_notif,
        }
    }
}

impl Clone for LibraryItem {
    fn clone(&self) -> (r: Self)
        ensures
            r@ == self@,
    {
        LibraryItem {
            id: self.id.clone(),
            name: self.name.clone(),
            content_type: self.content_type.clone(),
            poster: clone_opt(&self.poster),
            removed: self.removed,
            temp: self.temp,
            ctime: self.ctime,
            mtime: self.mtime,
            state: self.state.clone(),
            poster_shape: self.poster_shape,
            behavior_hints: self.behavior_hints.clone(),
        }
    }
}

impl PartialEq for LibraryItemState {
    fn eq(&self, o: &LibraryItemState) -> (r: bool) {
        same_i64(&self.last_watched, &o.last_watched) && self.time_watched == o.time_watched
            && self.time_offset == o.time_offset && self.overall_time_watched
            == o.overall_time_watched && self.times_watched == o.times_watched
            && self.flagged_watched == o.flagged_watched && self.duration == o.duration
            && same_opt(&self.video_id, &o.video_id) && same_opt(&self.watched, &o.watched)
            && same_i64(&self.last_vid_released, &o.last_vid_released) && self.no_notif
            == o.no_notif
    }
}

impl vstd::std_specs::cmp::PartialEqSpecImpl for LibraryItemState {
    open spec fn obeys_eq_spec() -> bool {
        true
    }

    open spec fn eq_spec(&self, o: &LibraryItemState) -> bool {
        self@ == o@
    }
}

impl PartialEq for LibraryItem {
    fn eq(&self, o: &LibraryItem) -> (r: bool) {
        self.id == o.id && self.name == o.name && self.content_type == o.content_type
            && same_opt(&self.poster, &o.poster) && self.removed == o.removed && self.temp
            == o.temp && same_i64(&self.ctime, &o.ctime) && self.mtime == o.mtime && self.state
            == o.state && self.poster_shape == o.poster_shape && same_opt(
            &self.behavior_hints.default_video_id,
            &o.behavior_hints.default_video_id,
        ) && same_opt(&self.behavior_hints.featured_video_id, &o.behavior_hints.featured_video_id)
            && self.behavior_hints.has_scheduled_videos == o.behavior_hints.has_scheduled_videos
    }
}

impl vstd::std_specs::cmp::PartialEqSpecImpl for LibraryItem {
    open spec fn obeys_eq_spec() -> bool {
        true
    }

    open spec fn eq_spec(&self, o: &LibraryItem) -> bool {
        self@ == o@
    }
}

/// Milliseconds in the grace window during which a removed item still syncs.
pub const SYNC_GRACE_MS: i64 = 31536000000;

impl LibraryItem {
    /// Whether the item takes part in syncing at time `now`: not of type
    /// "other", and not removed or removed within the grace window.
    pub fn should_sync(&self, now: i64) -> (r: bool)
        ensures
            r == (self.content_type@ != other_type() && (!self.removed || self.mtime > now
                - SYNC_GRACE_MS)),
    {
        let other = String::from_str("other");
        proof {
            reveal_strlit("other");
            assert(other@ =~= other_type());
        }
        let recently_removed = self.removed && (now < i64::MIN + SYNC_GRACE_MS || self.mtime
            > now - SYNC_GRACE_MS);
        !(self.content_type == other) && (!self.removed || recently_removed)
    }

    /// Whether the item belongs in "continue watching": not of type "other",
    /// present (or only looked at), and partly watched.
    pub fn is_in_continue_watching(&self) -> (r: bool)
        ensures
            r == (self.content_type@ != other_type() && (!self.removed || self.temp)
                && self.state.time_offset > 0),
    {
        let other = String::from_str("other");
        proof {
            reveal_strlit("other");
            assert(other@ =~= other_type());
        }
        !(self.content_type == other) && (!self.removed || self.temp) && self.state.time_offset
            > 0
    }

    /// A new item for a title first seen at time `now`: only looked at, so
    /// removed and temporary, with a fresh state.
    pub fn from_meta_preview(meta_item: &MetaItemPreview, now: i64) -> (r: LibraryItem)
        ensures
            r.id@ == meta_item.id@,
            r.name@ == meta_item.name@,
            r.content_type@ == meta_item.content_type@,
            opt_text(r.poster) == opt_text(meta_item.poster),
            r.poster_shape == meta_item.poster_shape,
            r.behavior_hints@ == meta_item.behavior_hints@,
            r.removed,
            r.temp,
            r.ctime == Some(now),
            r.mtime == now,
            r.state@ == fresh_state(),
    {
        LibraryItem {
            id: meta_item.id.clone(),
            name: meta_item.name.clone(),
            content_type: meta_item.content_type.clone(),
            poster: clone_opt(&meta_item.poster),
            removed: true,
            temp: true,
            ctime: Some(now),
            mtime: now,
            state: LibraryItemState::new(),
            poster_shape: meta_item.poster_shape,
            behavior_hints: meta_item.behavior_hints.clone(),
        }
    }

    /// The title's fresh description with this item's library fields.
    pub fn from_meta_preview_and_item(meta_item: &MetaItemPreview, library_item: &LibraryItem) -> (r:
        LibraryItem)
        ensures
            r.id@ == meta_item.id@,
            r.name@ == meta_item.name@,
            r.content_type@ == meta_item.content_type@,
            opt_text(r.poster) == opt_text(meta_item.poster),
            r.poster_shape == meta_item.poster_shape,
            r.behavior_hints@ == meta_item.behavior_hints@,
            r.removed == library_item.removed,
            r.temp == library_item.temp,
            r.ctime == library_item.ctime,
            r.mtime == library_item.mtime,
            r.state@ == library_item.state@,
    {
        LibraryItem {
            id: meta_item.id.clone(),
            name: meta_item.name.clone(),
            content_type: meta_item.content_type.clone(),
            poster: clone_opt(&meta_item.poster),
            removed: library_item.removed,
            temp: library_item.temp,
            ctime: library_item.ctime,
            mtime: library_item.mtime,
            state: library_item.state.clone(),
            poster_shape: meta_item.poster_shape,
            behavior_hints: meta_item.behavior_hints.clone(),
        }
    }
}

pub open spec fn other_type() -> Seq<char> {
    seq!['o', 't', 'h', 'e', 'r']
}

/// The state of an item nobody has watched.
pub open spec fn fresh_state() -> StateView {
    StateView {
        last_watched: None,
        time_watched: 0,
        time_offset: 0,
        overall_time_watched: 0,
        times_watched: 0,
        flagged_watched: 0,
        duration: 0,
        video_id: None,
        watched: None,
        last_vid_released: None,
        no_notif: false,
    }
}

/// The sort key of video `j`: season, episode, release time (a missing one is
/// the least possible value), then its position.
pub open spec fn key_of(v: Video, j: int) -> (i64, i64, i64, usize) {
    (
        match v.series_info {
            Some(s) => s.season as i64,
            None => i64::MIN,
        },
        match v.series_info {
            Some(s) => s.episode as i64,
            None => i64::MIN,
        },
        match v.released {
            Some(t) => t,
            None => i64::MIN,
        },
        j as usize,
    )
}

/// The sort keys of the videos, in their own order.
pub open spec fn video_keys(videos: Seq<Video>) -> Seq<(i64, i64, i64, usize)> {
    Seq::new(videos.len(), |j: int| key_of(videos[j], j))
}

/// Lexicographic order of keys, as Rust orders tuples.
pub open spec fn key_leq(a: (i64, i64, i64, usize), b: (i64, i64, i64, usize)) -> bool {
    a.0 < b.0 || (a.0 == b.0 && (a.1 < b.1 || (a.1 == b.1 && (a.2 < b.2 || (a.2 == b.2 && a.3
        <= b.3)))))
}

/// The video ids in sort order: by season, episode and release time, and by
/// position among equal ones. A video's bit position is its place here.
pub open spec fn ordered_ids(videos: Seq<Video>) -> Seq<Seq<char>> {
    video_keys(videos).sort_by(|a: (i64, i64, i64, usize), b: (i64, i64, i64, usize)| key_leq(a, b)).map_values(
        |k: (i64, i64, i64, usize)| videos[k.3 as int].id@,
    )
}

proof fn lemma_key_order()
    ensures
        total_ordering(|a: (i64, i64, i64, usize), b: (i64, i64, i64, usize)| key_leq(a, b)),
{
}

/// Relies on itertools' `sorted`: the same items in ascending order, tuples
/// compared lexicographically.
#[verifier::external_body]
fn sorted_keys(keys: Vec<(i64, i64, i64, usize)>) -> (r: Vec<(i64, i64, i64, usize)>)
    ensures
        r@.to_multiset() == keys@.to_multiset(),
        sorted_by(r@, |a: (i64, i64, i64, usize), b: (i64, i64, i64, usize)| key_leq(a, b)),
{
    keys.into_iter().sorted().collect()
}

/// The video ids in sort order (see `ordered_ids`).
pub fn ordered_video_ids(videos: &Vec<Video>) -> (r: Vec<String>)
    ensures
        crate::watched_bitfield::ids_view(r@) == ordered_ids(videos@),
{
    let n = videos.len();
    let mut keys: Vec<(i64, i64, i64, usize)> = Vec::new();
    let mut j: usize = 0;
    while j < n
        invariant
            n == videos.len(),
            j <= n,
            keys@ == video_keys(videos@).subrange(0, j as int),
        decreases n - j,
    {
        let v = &videos[j];
        let season: i64 = match v.series_info {
            Some(s) => s.season as i64,
            None => i64::MIN,
        };
        let episode: i64 = match v.series_info {
            Some(s) => s.episode as i64,
            None => i64::MIN,
        };
        let released: i64 = match v.released {
            Some(t) => t,
            None => i64::MIN,
        };
        keys.push((season, episode, released, j));
        assert(keys@ =~= video_keys(videos@).subrange(0, j + 1));
        j = j + 1;
    }
    assert(keys@ =~= video_keys(videos@));
    let sorted = sorted_keys(keys);
    let ghost leq = |a: (i64, i64, i64, usize), b: (i64, i64, i64, usize)| key_leq(a, b);
    let ghost expected = video_keys(videos@).sort_by(leq);
    proof {
        lemma_key_order();
        video_keys(videos@).lemma_sort_by_ensures(leq);
        vstd::seq_lib::lemma_sorted_unique(sorted@, expected, leq);
        assert forall|p: int| 0 <= p < sorted@.len() implies (#[trigger] sorted@[p]).3 < n by {
            broadcast use vstd::seq_lib::group_to_multiset_ensures;
            assert(expected.contains(sorted@[p]));
            assert(video_keys(videos@).contains(sorted@[p]));
        }
    }
    let mut r: Vec<String> = Vec::new();
    let mut p: usize = 0;
    while p < sorted.len()
        invariant
            n == videos.len(),
            p <= sorted.len(),
            sorted@ == expected,
            forall|q: int| 0 <= q < sorted@.len() ==> (#[trigger] sorted@[q]).3 < n,
            r.len() == p,
            forall|q: int| 0 <= q < p ==> #[trigger] r@[q]@ == videos@[sorted@[q].3 as int].id@,
        decreases sorted.len() - p,
    {
        let k = sorted[p].3;
        r.push(videos[k].id.clone());
        p = p + 1;
    }
    assert(crate::watched_bitfield::ids_view(r@) =~= ordered_ids(videos@));
    r
}

impl LibraryItemState {
    /// A state nobody has watched.
    pub fn new() -> (r: LibraryItemState)
        ensures
            r@ == fresh_state(),
    {
        LibraryItemState {
            last_watched: None,
            time_watched: 0,
            time_offset: 0,
            overall_time_watched: 0,
            times_watched: 0,
            flagged_watched: 0,
            duration: 0,
            video_id: None,
            watched: None,
            last_vid_released: None,
            no_notif: false,
        }
    }

    /// The watched bitfield over `videos` in sort order, read from the stored
    /// text; with no text, or one that cannot be read, nothing is watched.
    pub fn watched_bitfield(&self, videos: &Vec<Video>) -> (r: WatchedBitField)
        ensures
            ranked_watched(r, videos@, opt_text(self.watched)),
    {
        let video_ids = ordered_video_ids(videos);
        let ghost n = video_ids@.len();
        match &self.watched {
            Some(watched) => {
                let copy = clone_strings(&video_ids);
                let decoded = WatchedBitField::construct_and_resize(watched.as_str(), video_ids);
                let r = WatchedBitField::unwatched_on_error(decoded, copy);
                proof {
                    if crate::bitfield8::not_base64(watched@) {
                        assert(decoded is Err);
                    }
                }
                r
            },
            None => {
                let r = WatchedBitField::construct_from_array(Vec::new(), video_ids);
                assert(r.bits() =~= Seq::new(n, |i: int| false));
                r
            },
        }
    }
}

/// `w` is the watched bitfield of `videos` given the stored text: one bit
/// per video, in sort order (`ordered_ids`); nothing watched without a text or with one
/// that cannot be read (one that is not base64, say); else the bits of the
/// bytes behind the text.
pub open spec fn ranked_watched(w: WatchedBitField, videos: Seq<Video>, stored: Option<Seq<char>>) -> bool {
    let unwatched = Seq::new(ordered_ids(videos).len(), |i: int| false);
    &&& w.wf()
    &&& w.ids() == ordered_ids(videos)
    &&& match stored {
        None => w.bits() == unwatched,
        Some(s) => {
            &&& match crate::bitfield8::decoded_text(s) {
                Some(b) => w.bits() == bits_of(b, ordered_ids(videos).len()),
                None => w.bits() == unwatched,
            }
            &&& forall|b: Seq<u8>| #[trigger] encoded_of(b) == s ==> w.bits() == bits_of(b, ordered_ids(videos).len())
            &&& crate::bitfield8::not_base64(s) ==> w.bits() == unwatched
        },
    }
}

/// The user's library.
#[derive(Debug)]
pub struct LibraryBucket {
    pub uid: Option<String>,
    pub items: Vec<LibraryItem>,
}

/// `p` is the first position of an item with id `id`.
pub open spec fn first_item(items: Seq<LibraryItem>, id: Seq<char>, p: int) -> bool {
    0 <= p < items.len() && items[p].id@ == id && forall|q: int| 0 <= q < p ==> items[q].id@ != id
}

/// The item with id `id`, if the library holds one.
pub open spec fn lookup(items: Seq<LibraryItem>, id: Seq<char>) -> Option<ItemView> {
    if exists|p: int| first_item(items, id, p) {
        Some(items[choose|p: int| first_item(items, id, p)]@)
    } else {
        None
    }
}

proof fn lemma_first_item_unique(items: Seq<LibraryItem>, id: Seq<char>, p: int, q: int)
    requires
        first_item(items, id, p),
        first_item(items, id, q),
    ensures
        p == q,
{
    if p < q {
        assert(items[p].id@ == id);
    } else if q < p {
        assert(items[q].id@ == id);
    }
}

/// Two libraries that agree on every position but those that hold `id` in
/// both agree on the item of every other id.
proof fn lemma_lookup_other(a: Seq<LibraryItem>, b: Seq<LibraryItem>, id: Seq<char>, other: Seq<char>)
    requires
        id != other,
        a.len() <= b.len(),
        forall|k: int| 0 <= k < a.len() ==> (a[k] == b[k] || (a[k].id@ == id && b[k].id@ == id)),
        forall|k: int| a.len() <= k < b.len() ==> b[k].id@ == id,
    ensures
        lookup(b, other) == lookup(a, other),
{
    if exists|p: int| first_item(a, other, p) {
        let p = choose|p: int| first_item(a, other, p);
        assert(first_item(b, other, p)) by {
            assert forall|q: int| 0 <= q < p implies b[q].id@ != other by {
                assert(a[q].id@ != other);
            }
        }
        let pb = choose|x: int| first_item(b, other, x);
        lemma_first_item_unique(b, other, p, pb);
    } else if exists|p: int| first_item(b, other, p) {
        let p = choose|p: int| first_item(b, other, p);
        assert(p < a.len());
        assert(first_item(a, other, p)) by {
            assert forall|q: int| 0 <= q < p implies a[q].id@ != other by {
                assert(b[q].id@ != other);
            }
        }
    }
}

impl LibraryBucket {
    /// No two items share an id: the bucket is keyed by id.
    pub open spec fn wf(&self) -> bool {
        forall|i: int, j: int|
            0 <= i < j < self.items@.len() ==> #[trigger] self.items@[i].id@ != #[trigger] self.items@[j].id@
    }

    /// An empty library.
    pub fn new(uid: Option<String>) -> (r: LibraryBucket)
        ensures
            r.wf(),
            r.uid == uid,
            r.items@.len() == 0,
    {
        LibraryBucket { uid, items: Vec::new() }
    }

    /// A copy of the item with id `id`.
    pub fn get(&self, id: &String) -> (r: Option<LibraryItem>)
        ensures
            match r {
                Some(item) => lookup(self.items@, id@) == Some(item@),
                None => lookup(self.items@, id@) is None,
            },
    {
        let mut i: usize = 0;
        while i < self.items.len()
            invariant
                i <= self.items.len(),
                forall|q: int| 0 <= q < i ==> self.items@[q].id@ != id@,
            decreases self.items.len() - i,
        {
            if self.items[i].id == *id {
                assert(first_item(self.items@, id@, i as int));
                assert forall|p: int| first_item(self.items@, id@, p) implies p == i by {
                    if p < i {
                    } else if p > i {
                        assert(self.items@[i as int].id@ == id@);
                    }
                }
                return Some(self.items[i].clone());
            }
            i = i + 1;
        }
        None
    }

    /// Stores `item`, in place of the one with its id if there is one, else at the end.
    pub fn insert(&mut self, item: LibraryItem)
        ensures
            lookup(final(self).items@, item@.id) == Some(item@),
            forall|other: Seq<char>|
                other != item@.id ==> #[trigger] lookup(final(self).items@, other) == lookup(
                    old(self).items@,
                    other,
                ),
            final(self).uid == old(self).uid,
            old(self).wf() ==> final(self).wf(),
    {
        let mut i: usize = 0;
        while i < self.items.len()
            invariant
                i <= self.items.len(),
                self.uid == old(self).uid,
                self.items@ == old(self).items@,
                forall|q: int| 0 <= q < i ==> self.items@[q].id@ != item.id@,
            decreases self.items.len() - i,
        {
            if self.items[i].id == item.id {
                let ghost id = item.id@;
                let ghost before = self.items@;
                self.items.set(i, item);
                proof {
                    if old(self).wf() {
                        assert forall|a: int, b: int| 0 <= a < b < self.items@.len() implies #[trigger] self.items@[a].id@
                            != #[trigger] self.items@[b].id@ by {
                            assert(before[a].id@ != before[b].id@);
                        }
                    }
                }
                assert forall|other: Seq<char>| other != id implies #[trigger] lookup(self.items@, other)
                    == lookup(before, other) by {
                    lemma_lookup_other(before, self.items@, id, other);
                }
                assert(first_item(self.items@, id, i as int));
                assert forall|p: int| first_item(self.items@, id, p) implies p == i by {
                    if p > i {
                        assert(self.items@[i as int].id@ == id);
                    }
                }
                return;
            }
            i = i + 1;
        }
        let ghost id = item.id@;
        let ghost n = self.items.len() as int;
        let ghost before = self.items@;
        self.items.push(item);
        proof {
            if old(self).wf() {
                assert forall|a: int, b: int| 0 <= a < b < self.items@.len() implies #[trigger] self.items@[a].id@
                    != #[trigger] self.items@[b].id@ by {
                    if b < n {
                        assert(before[a].id@ != before[b].id@);
                    } else {
                        assert(before[a].id@ != id);
                    }
                }
            }
        }
        assert forall|other: Seq<char>| other != id implies #[trigger] lookup(self.items@, other)
            == lookup(before, other) by {
            lemma_lookup_other(before, self.items@, id, other);
        }
        assert(first_item(self.items@, id, n));
        assert forall|p: int| first_item(self.items@, id, p) implies p == n by {
            if p < n {
            }
        }
    }
}

} // verus!
