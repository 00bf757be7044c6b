use crate::bitfield8::{bits_of, encoded_of, BitField8, Error};
use vstd::prelude::*;

verus! {

/// Which videos of an ordered list have been watched: bit `i` belongs to the
/// video at position `i`.
#[derive(Debug, Clone)]
pub struct WatchedBitField {
    pub bitfield: BitField8,
    pub video_ids: Vec<String>,
}

/// The ids as text.
pub open spec fn ids_view(ids: Seq<String>) -> Seq<Seq<char>> {
    ids.map_values(|s: String| s@)
}

/// `p` is the first position of `id` in `ids`.
pub open spec fn first_position(ids: Seq<Seq<char>>, id: Seq<char>, p: int) -> bool {
    0 <= p < ids.len() && ids[p] == id && forall|q: int| 0 <= q < p ==> ids[q] != id
}

/// Whether `id` is among `ids`.
pub open spec fn listed(ids: Seq<Seq<char>>, id: Seq<char>) -> bool {
    exists|p: int| 0 <= p < ids.len() && ids[p] == id
}

proof fn lemma_first_position_unique(ids: Seq<Seq<char>>, id: Seq<char>, p: int, q: int)
    requires
        first_position(ids, id, p),
        first_position(ids, id, q),
    ensures
        p == q,
{
    if q < p {
        assert(ids[q] != id);
    } else if q > p {
        assert(ids[p] != id);
    }
}

/// What `construct_and_resize` gives for `text` and the videos `ids`: on
/// success a well-formed bitfield over `ids`; the bits of any bytes whose
/// textual form `text` is, read at the new length; otherwise a decode error.
pub open spec fn resized(text: Seq<char>, ids: Seq<Seq<char>>, r: Result<WatchedBitField, Error>) -> bool {
    &&& r is Ok ==> r->Ok_0.wf() && r->Ok_0.ids() == ids
    &&& forall|b: Seq<u8>| #[trigger] encoded_of(b) == text ==> (r is Ok && r->Ok_0.bits() == bits_of(b, ids.len()))
    &&& crate::bitfield8::not_base64(text) ==> r is Err
    &&& match crate::bitfield8::decoded_text(text) {
        None => r is Err,
        Some(b) => r is Ok && r->Ok_0.bits() == bits_of(b, ids.len()),
    }
    &&& r is Err ==> r == Err::<WatchedBitField, Error>(Error::Decode)
}

/// Resize: re-reading the textual form of a clean bitfield over `n` videos
/// against a longer list that starts with the same videos keeps every bit at
/// its position and leaves every new position unwatched.
pub proof fn lemma_resize(
    w: WatchedBitField,
    ids: Seq<Seq<char>>,
    back: Result<WatchedBitField, Error>,
)
    requires
        w.wf(),
        w.bitfield.clean(),
        ids.len() >= w.ids().len(),
        ids.subrange(0, w.ids().len() as int) == w.ids(),
        resized(encoded_of(w.bitfield.values@), ids, back),
    ensures
        back is Ok,
        back->Ok_0.ids() == ids,
        forall|i: int| 0 <= i < w.ids().len() ==> #[trigger] back->Ok_0.bits()[i] == w.bits()[i],
        forall|i: int| w.ids().len() <= i < ids.len() ==> !#[trigger] back->Ok_0.bits()[i],
{
    crate::bitfield8::lemma_resize(w.bitfield, ids.len());
    let m = ids.len();
    assert forall|i: int| 0 <= i < w.ids().len() implies #[trigger] back->Ok_0.bits()[i] == w.bits()[i] by {
        assert(bits_of(w.bitfield.values@, m).subrange(0, w.bitfield.length as int)[i] == bits_of(w.bitfield.values@, m)[i]);
    }
}

impl WatchedBitField {
    pub open spec fn ids(&self) -> Seq<Seq<char>> {
        ids_view(self.video_ids@)
    }

    pub open spec fn bits(&self) -> Seq<bool> {
        self.bitfield@
    }

    /// One bit per video.
    pub open spec fn wf(&self) -> bool {
        self.bitfield.wf() && self.bitfield.length == self.video_ids.len()
    }

    /// Whether the video `id` is marked watched (its first position when it repeats).
    pub open spec fn watched_spec(&self, id: Seq<char>) -> bool {
        exists|p: int| first_position(self.ids(), id, p) && self.bits()[p]
    }

    /// A bitfield over `video_ids` in which exactly the videos listed in
    /// `watched_ids` are set.
    pub fn construct_from_array(watched_ids: Vec<String>, video_ids: Vec<String>) -> (r:
        WatchedBitField)
        ensures
            r.wf(),
            r.bitfield.clean(),
            r.ids() == ids_view(video_ids@),
            r.bits() == Seq::new(
                video_ids.len() as nat,
                |i: int| listed(ids_view(watched_ids@), ids_view(video_ids@)[i]),
            ),
    {
        let n = video_ids.len();
        let mut bitfield = BitField8::new(n);
        let ghost wanted = ids_view(watched_ids@);
        let ghost ids = ids_view(video_ids@);
        let mut i: usize = 0;
        while i < n
            invariant
                n == video_ids.len(),
                i <= n,
                bitfield.wf(),
                bitfield.clean(),
                bitfield.length == n,
                wanted == ids_view(watched_ids@),
                ids == ids_view(video_ids@),
                forall|j: int| 0 <= j < i ==> #[trigger] bitfield@[j] == listed(wanted, ids[j]),
                forall|j: int| i <= j < n ==> !#[trigger] bitfield@[j],
            decreases n - i,
        {
            let found = contains_id(&watched_ids, &video_ids[i]);
            proof {
                bitfield.lemma_view();
                let ghost len = n as int;
                assert(i / 8 < crate::bitfield8::bytes_for(len as nat)) by (nonlinear_arith)
                    requires
                        i < len,
                ;
            }
            let ghost before = bitfield;
            bitfield.set(i, found);
            proof {
                bitfield.lemma_view();
                assert forall|j: int| 0 <= j < n && j != i implies #[trigger] bitfield@[j]
                    == before@[j] by {
                    assert(crate::bitfield8::bit_at(bitfield.values@, j as nat)
                        == crate::bitfield8::bit_at(before.values@, j as nat));
                }
                assert(bitfield@[i as int] == found);
            }
            i = i + 1;
        }
        proof {
            bitfield.lemma_view();
        }
        let r = WatchedBitField { bitfield, video_ids };
        assert(r.bits() =~= Seq::new(n as nat, |i: int| listed(wanted, ids[i])));
        r
    }

    /// Reads a textual bitfield (see `BitField8::encode`) against a new list of
    /// videos: its bits keep their positions, and positions past its bytes read
    /// as unset.
    pub fn construct_and_resize(encoded: &str, video_ids: Vec<String>) -> (r: Result<
        WatchedBitField,
        Error,
    >)
        ensures
            resized(encoded@, ids_view(video_ids@), r),
    {
        match BitField8::from_encoded(encoded, Some(video_ids.len())) {
            Ok(bitfield) => Ok(WatchedBitField { bitfield, video_ids }),
            Err(e) => Err(e),
        }
    }

    /// What was read, or, when reading failed, a bitfield over `video_ids` in
    /// which nothing is watched.
    pub fn unwatched_on_error(decoded: Result<WatchedBitField, Error>, video_ids: Vec<String>) -> (r:
        WatchedBitField)
        requires
            decoded is Ok ==> decoded->Ok_0.wf(),
        ensures
            r.wf(),
            decoded is Ok ==> r == decoded->Ok_0,
            decoded is Err ==> r.ids() == ids_view(video_ids@) && r.bits() == Seq::new(
                video_ids@.len(),
                |i: int| false,
            ),
    {
        match decoded {
            Ok(w) => w,
            Err(_) => {
                let n = video_ids.len();
                let r = WatchedBitField::construct_from_array(Vec::new(), video_ids);
                assert(r.bits() =~= Seq::new(n as nat, |i: int| false));
                r
            },
        }
    }

    /// The textual form of the bits; it carries no length.
    pub fn encode(&self) -> (r: String)
        ensures
            r@ == encoded_of(self.bitfield.values@),
    {
        self.bitfield.encode()
    }

    /// Whether the video at position `i` is marked watched.
    pub fn get(&self, i: usize) -> (r: bool)
        requires
            self.wf(),
            i < self.video_ids.len(),
        ensures
            r == self.bits()[i as int],
    {
        self.bitfield.get(i)
    }

    /// Whether the video `video_id` is marked watched; an unknown video is not.
    pub fn get_video(&self, video_id: &str) -> (r: bool)
        requires
            self.wf(),
        ensures
            r == self.watched_spec(video_id@),
    {
        match position_of(&self.video_ids, video_id) {
            Some(p) => {
                let r = self.bitfield.get(p);
                assert(first_position(self.ids(), video_id@, p as int));
                assert forall|q: int| #[trigger]
                    first_position(self.ids(), video_id@, q) implies q == p by {
                    lemma_first_position_unique(self.ids(), video_id@, p as int, q);
                }
                assert(r == self.bits()[p as int]);
                r
            },
            None => {
                assert forall|q: int| #[trigger]
                    first_position(self.ids(), video_id@, q) implies false by {
                    assert(self.ids()[q] == video_id@);
                }
                false
            },
        }
    }

    /// Marks the video `video_id` watched or not; an unknown video changes nothing.
    pub fn set_video(&mut self, video_id: &str, is_watched: bool)
        requires
            old(self).wf(),
        ensures
            final(self).wf(),
            final(self).ids() == old(self).ids(),
            forall|p: int| #[trigger]
                first_position(old(self).ids(), video_id@, p) ==> final(self).bits() == old(
                    self,
                ).bits().update(p, is_watched),
            !listed(old(self).ids(), video_id@) ==> final(self).bits() == old(self).bits(),
            old(self).bitfield.clean() ==> final(self).bitfield.clean(),
    {
        match position_of(&self.video_ids, video_id) {
            Some(p) => {
                proof {
                    self.bitfield.lemma_view();
                }
                let ghost len = self.bitfield.length as int;
                assert(p / 8 < crate::bitfield8::bytes_for(len as nat)) by (nonlinear_arith)
                    requires
                        p < len,
                ;
                self.bitfield.set(p, is_watched);
                proof {
                    self.bitfield.lemma_view();
                    assert(self.bits() =~= old(self).bits().update(p as int, is_watched)) by {
                        assert forall|j: int| 0 <= j < self.bits().len() implies self.bits()[j]
                            == old(self).bits().update(p as int, is_watched)[j] by {
                            assert(crate::bitfield8::bit_at(self.bitfield.values@, j as nat)
                                == if j == p {
                                is_watched
                            } else {
                                crate::bitfield8::bit_at(old(self).bitfield.values@, j as nat)
                            });
                        }
                    }
                    assert forall|q: int| #[trigger]
                        first_position(old(self).ids(), video_id@, q) implies q == p by {
                        lemma_first_position_unique(old(self).ids(), video_id@, p as int, q);
                    }
                }
            },
            None => {},
        }
    }
}

/// Whether `id` is among `ids`.
fn contains_id(ids: &Vec<String>, id: &String) -> (r: bool)
    ensures
        r == listed(ids_view(ids@), id@),
{
    let mut i: usize = 0;
    while i < ids.len()
        invariant
            i <= ids.len(),
            forall|j: int| 0 <= j < i ==> ids_view(ids@)[j] != id@,
        decreases ids.len() - i,
    {
        if ids[i] == *id {
            assert(ids_view(ids@)[i as int] == id@);
            return true;
        }
        i = i + 1;
    }
    false
}

/// The first position of `id` among `ids`.
fn position_of(ids: &Vec<String>, id: &str) -> (r: Option<usize>)
    ensures
        match r {
            Some(p) => first_position(ids_view(ids@), id@, p as int),
            None => !listed(ids_view(ids@), id@),
        },
{
    let target = id.to_owned();
    let mut i: usize = 0;
    while i < ids.len()
        invariant
            i <= ids.len(),
            target@ == id@,
            forall|j: int| 0 <= j < i ==> ids_view(ids@)[j] != id@,
        decreases ids.len() - i,
    {
        if ids[i] == target {
            return Some(i);
        }
        i = i + 1;
    }
    None
}

} // verus!
