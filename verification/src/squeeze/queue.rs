// Per-player playback queue with repeat/shuffle support.

use vstd::prelude::*;
use rand::seq::SliceRandom;

verus! {

/// Track info needed for Squeeze streaming.
///
/// The duration (seconds) is kept as the bit pattern of an IEEE-754 double
/// (`f64::to_bits`), so it travels through the queue unchanged.
#[derive(Debug, Clone)]
pub struct QueueTrack {
    pub id: i64,
    pub title: String,
    pub artist: String,
    pub album: String,
    /// local file path
    pub path: String,
    pub duration_bits: u64,
    /// "flac", "mp3", etc.
    pub format: String,
}

impl QueueTrack {
    /// A field-by-field copy.
    pub fn duplicate(&self) -> (r: QueueTrack)
        ensures
            r == *self,
    {
        QueueTrack {
            id: self.id,
            title: self.title.clone(),
            artist: self.artist.clone(),
            album: self.album.clone(),
            path: self.path.clone(),
            duration_bits: self.duration_bits,
            format: self.format.clone(),
        }
    }
}

#[derive(Debug, Clone, Copy, PartialEq, Eq, Structural)]
pub enum RepeatMode {
    Off,
    One,
    All,
}

// ── Randomness (rand) ───────────────────────────────────────────────────────

#[verifier::external_type_specification]
#[verifier::external_body]
pub struct ExThreadRng(rand::rngs::ThreadRng);

/// The thread-local generator (`rand::rng`). Nothing is claimed of it.
#[verifier::external_body]
fn thread_rng() -> rand::rngs::ThreadRng {
    rand::rng()
}

/// Shuffles a vector in place (`SliceRandom::shuffle`, a Fisher-Yates shuffle
/// made of swaps). Claimed: the result holds the same elements, each as often
/// as before. Which order comes out depends on chance and is not stated.
#[verifier::external_body]
fn shuffle_indices(v: &mut Vec<usize>, rng: &mut rand::rngs::ThreadRng)
    ensures
        final(v)@.to_multiset() == old(v)@.to_multiset(),
{
    v.as_mut_slice().shuffle(rng);
}

// ── Model ───────────────────────────────────────────────────────────────────

/// One step back from a position in an order of `len` entries: the position
/// before it; at the start, the last one under repeat-all and the start
/// itself otherwise; nothing when there is no position.
pub open spec fn step_back(pos: Option<usize>, len: nat, repeat: RepeatMode) -> Option<usize> {
    match pos {
        None => None,
        Some(p) => if p == 0 {
            match repeat {
                RepeatMode::All => Some((if len == 0 { 0 } else { len - 1 }) as usize),
                _ => Some(0usize),
            }
        } else {
            Some((p - 1) as usize)
        },
    }
}

/// `order` lists each index of `0..n` exactly once.
pub open spec fn is_index_permutation(order: Seq<usize>, n: nat) -> bool {
    &&& order.len() == n
    &&& forall|i: int| 0 <= i < order.len() ==> #[trigger] order[i] < n
    &&& order.no_duplicates()
}

/// `order` is `0, 1, ..., n - 1`.
pub open spec fn is_natural_order(order: Seq<usize>, n: nat) -> bool {
    &&& order.len() == n
    &&& forall|i: int| 0 <= i < order.len() ==> #[trigger] order[i] == i
}

/// Index of the first track with the given id.
pub open spec fn first_index_of_id(tracks: Seq<QueueTrack>, id: i64) -> Option<int>
    decreases tracks.len(),
{
    if tracks.len() == 0 {
        None
    } else {
        match first_index_of_id(tracks.drop_last(), id) {
            Some(k) => Some(k),
            None => if tracks.last().id == id {
                Some(tracks.len() - 1)
            } else {
                None
            },
        }
    }
}

/// `first_index_of_id` finds the first match, and only a match.
pub proof fn lemma_first_index_of_id(tracks: Seq<QueueTrack>, id: i64)
    ensures
        match first_index_of_id(tracks, id) {
            Some(k) => 0 <= k < tracks.len() && tracks[k].id == id && forall|j: int|
                0 <= j < k ==> #[trigger] tracks[j].id != id,
            None => forall|j: int| 0 <= j < tracks.len() ==> #[trigger] tracks[j].id != id,
        },
    decreases tracks.len(),
{
    if tracks.len() > 0 {
        lemma_first_index_of_id(tracks.drop_last(), id);
        assert forall|j: int| 0 <= j < tracks.len() - 1 implies #[trigger] tracks[j]
            == tracks.drop_last()[j] by {}
    }
}

/// Playback queue for a single Squeeze player.
#[derive(Debug, Clone)]
pub struct PlayQueue {
    tracks: Vec<QueueTrack>,
    /// Indices into `tracks` defining play order.
    order: Vec<usize>,
    /// Current position within `order`.
    position: Option<usize>,
    repeat: RepeatMode,
    shuffle: bool,
}

impl PlayQueue {
    /// The tracks, in insertion order.
    pub closed spec fn tracks(&self) -> Seq<QueueTrack> {
        self.tracks@
    }

    /// The play order: indices into `tracks()`.
    pub closed spec fn order(&self) -> Seq<usize> {
        self.order@
    }

    pub closed spec fn repeat_mode(&self) -> RepeatMode {
        self.repeat
    }

    pub closed spec fn shuffled(&self) -> bool {
        self.shuffle
    }

    /// The current position within `order()`.
    pub closed spec fn position(&self) -> Option<usize> {
        self.position
    }

    /// Queue invariant: the order is a permutation of the track indices and
    /// the position, if any, lies within it.
    pub open spec fn wf(&self) -> bool {
        &&& is_index_permutation(self.order(), self.tracks().len())
        &&& (self.position() matches Some(p) ==> p < self.order().len())
    }

    /// The track at a position of the play order.
    pub open spec fn track_at(&self, pos: int) -> QueueTrack {
        self.tracks()[self.order()[pos] as int]
    }

    /// The currently playing track.
    pub open spec fn current_track(&self) -> Option<QueueTrack> {
        match self.position() {
            Some(p) => Some(self.track_at(p as int)),
            None => None,
        }
    }

    /// The position that `next` moves to (and that `peek_next` looks at).
    pub open spec fn next_position(&self) -> Option<usize> {
        match self.position() {
            None => None,
            Some(p) => match self.repeat_mode() {
                RepeatMode::One => Some(p),
                RepeatMode::All => if p + 1 >= self.order().len() {
                    Some(0usize)
                } else {
                    Some((p + 1) as usize)
                },
                RepeatMode::Off => if p + 1 >= self.order().len() {
                    None
                } else {
                    Some((p + 1) as usize)
                },
            },
        }
    }

    /// The position that `previous` moves to.
    pub open spec fn previous_position(&self) -> Option<usize> {
        step_back(self.position(), self.order().len(), self.repeat_mode())
    }

    /// The storage index of the current track: `order()[position()]`.
    pub open spec fn current_index(&self) -> Option<usize> {
        match self.position() {
            Some(p) => Some(self.order()[p as int]),
            None => None,
        }
    }

    /// Whether `next` reshuffles: repeat-all with shuffle at the end of the order.
    pub open spec fn next_reshuffles(&self) -> bool {
        self.position() matches Some(p) && self.repeat_mode() == RepeatMode::All && self.shuffled()
            && p + 1 >= self.order().len()
    }

    pub fn new() -> (q: PlayQueue)
        ensures
            q.wf(),
            q.tracks() == Seq::<QueueTrack>::empty(),
            q.position() is None,
            q.repeat_mode() == RepeatMode::Off,
            !q.shuffled(),
    {
        let q = PlayQueue {
            tracks: Vec::new(),
            order: Vec::new(),
            position: None,
            repeat: RepeatMode::Off,
            shuffle: false,
        };
        assert(q.order@.no_duplicates());
        q
    }

    /// Replace the entire queue and start at the given index.
    pub fn set_tracks(&mut self, tracks: Vec<QueueTrack>, start_index: usize)
        ensures
            final(self).wf(),
            final(self).tracks() == tracks@,
            final(self).repeat_mode() == old(self).repeat_mode(),
            final(self).shuffled() == old(self).shuffled(),
            tracks@.len() == 0 ==> final(self).position() is None,
            tracks@.len() > 0 && !(old(self).shuffled() && tracks@.len() > 1) ==> {
                &&& is_natural_order(final(self).order(), tracks@.len())
                &&& final(self).position() == Some(
                    if start_index < tracks@.len() {
                        start_index
                    } else {
                        (tracks@.len() - 1) as usize
                    },
                )
            },
            old(self).shuffled() && tracks@.len() > 1 ==> {
                &&& final(self).position() == Some(0usize)
                &&& start_index < tracks@.len() ==> final(self).order()[0] == start_index
            },
    {
        let len = tracks.len();
        self.tracks = tracks;
        self.order = natural_order(len);
        if self.shuffle && len > 1 {
            self.reshuffle_around(start_index);
        }
        self.position = if len > 0 {
            if self.shuffle {
                Some(0)
            } else {
                Some(if start_index < len - 1 {
                    start_index
                } else {
                    len - 1
                })
            }
        } else {
            None
        };
    }

    /// Insert tracks at a specific position in the queue without changing the current track.
    /// In the play order, indices at or past the insert point move up by the
    /// number of new tracks, and the new tracks' indices follow the current
    /// position (or go at the end when nothing is current).
    pub fn insert_tracks(&mut self, tracks: Vec<QueueTrack>, position: usize)
        requires
            old(self).wf(),
            old(self).tracks().len() + tracks@.len() <= usize::MAX,
        ensures
            final(self).wf(),
            ({
                let at = if position < old(self).tracks().len() {
                    position as int
                } else {
                    old(self).tracks().len() as int
                };
                final(self).tracks() == old(self).tracks().take(at) + tracks@ + old(self).tracks().skip(at)
            }),
            ({
                let at = if position < old(self).tracks().len() {
                    position
                } else {
                    old(self).tracks().len() as usize
                };
                let after = match old(self).position() {
                    Some(p) => p + 1,
                    None => old(self).order().len() as int,
                };
                let shifted = old(self).order().map_values(
                    |x: usize| shift_index(x, at, tracks@.len() as usize),
                );
                final(self).order() == shifted.take(after) + new_index_block(at, tracks@.len() as usize)
                    + shifted.skip(after)
            }),
            final(self).position() == old(self).position(),
            final(self).current_track() == old(self).current_track(),
            final(self).repeat_mode() == old(self).repeat_mode(),
            final(self).shuffled() == old(self).shuffled(),
    {
        let ghost old_tracks = self.tracks@;
        let ghost old_order = self.order@;
        let ghost old_pos = self.position;
        let ghost old_repeat = self.repeat;
        let ghost old_shuffle = self.shuffle;
        let n = self.tracks.len();
        let insert_at = if position < n {
            position
        } else {
            n
        };
        let count = tracks.len();
        // Insert the new tracks into the tracks vec
        let mut i: usize = 0;
        while i < count
            invariant
                n == old_tracks.len(),
                insert_at <= n,
                count == tracks@.len(),
                n + count <= usize::MAX,
                i <= count,
                self.tracks@ == old_tracks.take(insert_at as int) + tracks@.take(i as int)
                    + old_tracks.skip(insert_at as int),
                self.order@ == old_order,
                self.position == old_pos,
                self.repeat == old_repeat,
                self.shuffle == old_shuffle,
            decreases count - i,
        {
            let t = tracks[i].duplicate();
            self.tracks.insert(insert_at + i, t);
            i = i + 1;
            assert(self.tracks@ =~= old_tracks.take(insert_at as int) + tracks@.take(i as int)
                + old_tracks.skip(insert_at as int));
        }
        assert(tracks@.take(count as int) =~= tracks@);
        let ghost new_tracks = self.tracks@;
        // Shift order indices at or after the insertion point by count.
        let olen = self.order.len();
        let mut k: usize = 0;
        while k < olen
            invariant
                olen == old_order.len(),
                olen == n,
                n + count <= usize::MAX,
                insert_at <= n,
                k <= olen,
                is_index_permutation(old_order, n as nat),
                self.order@.len() == olen,
                forall|j: int| 0 <= j < k ==> #[trigger] self.order@[j] == shift_index(old_order[j], insert_at, count),
                forall|j: int| k <= j < olen ==> #[trigger] self.order@[j] == old_order[j],
                self.tracks@ == new_tracks,
                self.position == old_pos,
                self.repeat == old_repeat,
                self.shuffle == old_shuffle,
            decreases olen - k,
        {
            let v = self.order[k];
            if v >= insert_at {
                self.order.set(k, v + count);
            }
            k = k + 1;
        }
        let ghost shifted = self.order@;
        assert(shifted =~= old_order.map_values(|x: usize| shift_index(x, insert_at, count)));
        // Add the new track indices right after the current position.
        let p: usize = match self.position {
            Some(pos) => pos + 1,
            None => self.order.len(),
        };
        let mut j: usize = 0;
        while j < count
            invariant
                p <= shifted.len(),
                shifted.len() == n,
                n + count <= usize::MAX,
                insert_at <= n,
                j <= count,
                self.order@ == shifted.take(p as int) + new_index_block(insert_at, j) + shifted.skip(
                    p as int,
                ),
                self.tracks@ == new_tracks,
                self.position == old_pos,
                self.repeat == old_repeat,
                self.shuffle == old_shuffle,
            decreases count - j,
        {
            self.order.insert(p + j, insert_at + j);
            j = j + 1;
            assert(self.order@ =~= shifted.take(p as int) + new_index_block(insert_at, j)
                + shifted.skip(p as int));
        }
        proof {
            lemma_insert_keeps_permutation(old_order, n as nat, insert_at, count, p as int);
            if let Some(pos) = self.position {
                assert(self.order@[pos as int] == shifted[pos as int]);
                lemma_shifted_track(old_tracks, tracks@, old_order, insert_at, pos as int);
            }
        }
    }

    /// Replace the queue tracks and order without changing the current playback position.
    /// Used when the frontend reorders the queue.
    pub fn replace_queue_keep_current(&mut self, tracks: Vec<QueueTrack>, current_track_id: i64)
        ensures
            final(self).wf(),
            final(self).tracks() == tracks@,
            final(self).repeat_mode() == old(self).repeat_mode(),
            final(self).shuffled() == old(self).shuffled(),
            match first_index_of_id(tracks@, current_track_id) {
                None => final(self).position() is None && is_natural_order(
                    final(self).order(),
                    tracks@.len(),
                ),
                Some(k) => {
                    &&& final(self).current_track() == Some(tracks@[k])
                    &&& if old(self).shuffled() && tracks@.len() > 1 {
                        final(self).position() == Some(0usize)
                    } else {
                        final(self).position() == Some(k as usize) && is_natural_order(
                            final(self).order(),
                            tracks@.len(),
                        )
                    }
                },
            },
    {
        proof {
            lemma_first_index_of_id(tracks@, current_track_id);
        }
        let len = tracks.len();
        self.tracks = tracks;
        self.order = natural_order(len);
        self.position = position_of_id(&self.tracks, current_track_id);
        if self.shuffle && len > 1 {
            if let Some(pos) = self.position {
                let current_idx = self.order[pos];
                self.reshuffle_around(current_idx);
                self.position = Some(0);
            }
        }
    }

    /// Get the currently playing track.
    pub fn current(&self) -> (r: Option<&QueueTrack>)
        requires
            self.wf(),
        ensures
            match r {
                Some(t) => self.current_track() == Some(*t),
                None => self.current_track() is None,
            },
    {
        match self.position {
            Some(pos) => {
                let idx = self.order[pos];
                Some(&self.tracks[idx])
            },
            None => None,
        }
    }

    pub fn repeat_setting(&self) -> (r: RepeatMode)
        ensures
            r == self.repeat_mode(),
    {
        self.repeat
    }

    pub fn shuffle_enabled(&self) -> (b: bool)
        ensures
            b == self.shuffled(),
    {
        self.shuffle
    }

    /// Sets the repeat mode; nothing else changes.
    pub fn set_repeat(&mut self, mode: RepeatMode)
        ensures
            final(self).repeat_mode() == mode,
            final(self).tracks() == old(self).tracks(),
            final(self).order() == old(self).order(),
            final(self).position() == old(self).position(),
            final(self).shuffled() == old(self).shuffled(),
    {
        self.repeat = mode;
    }

    /// Get the current position index in the order.
    pub fn current_position(&self) -> (r: Option<usize>)
        ensures
            r == self.position(),
    {
        self.position
    }

    /// Peek at the next track without advancing.
    pub fn peek_next(&self) -> (r: Option<&QueueTrack>)
        requires
            self.wf(),
        ensures
            match self.next_position() {
                Some(np) => r matches Some(t) && *t == self.track_at(np as int),
                None => r is None,
            },
    {
        let pos = match self.position {
            Some(p) => p,
            None => return None,
        };
        let olen = self.order.len();
        assert(pos < olen);
        let next_pos = match self.repeat {
            RepeatMode::One => pos,
            RepeatMode::All => {
                if pos + 1 >= olen {
                    0
                } else {
                    pos + 1
                }
            },
            RepeatMode::Off => {
                if pos + 1 >= olen {
                    return None;
                }
                pos + 1
            },
        };
        let idx = self.order[next_pos];
        Some(&self.tracks[idx])
    }

    /// Advance to the next track. Returns the new current track.
    pub fn next(&mut self) -> (r: Option<&QueueTrack>)
        requires
            old(self).wf(),
        ensures
            final(self).wf(),
            final(self).tracks() == old(self).tracks(),
            final(self).repeat_mode() == old(self).repeat_mode(),
            final(self).shuffled() == old(self).shuffled(),
            final(self).position() == old(self).next_position(),
            !old(self).next_reshuffles() ==> final(self).order() == old(self).order(),
            match r {
                Some(t) => final(self).current_track() == Some(*t),
                None => final(self).current_track() is None,
            },
    {
        let pos = match self.position {
            Some(p) => p,
            None => return None,
        };
        let olen = self.order.len();
        assert(pos < olen);
        match self.repeat {
            RepeatMode::One => {},
            RepeatMode::All => {
                if pos + 1 >= olen {
                    if self.shuffle {
                        self.reshuffle_around(usize::MAX);
                    }
                    self.position = Some(0);
                } else {
                    self.position = Some(pos + 1);
                }
            },
            RepeatMode::Off => {
                if pos + 1 >= olen {
                    self.position = None;
                    return None;
                }
                self.position = Some(pos + 1);
            },
        }
        self.current()
    }

    /// Jump to an absolute position in the queue.
    pub fn jump_to(&mut self, index: usize)
        requires
            old(self).wf(),
        ensures
            final(self).wf(),
            final(self).tracks() == old(self).tracks(),
            final(self).order() == old(self).order(),
            final(self).repeat_mode() == old(self).repeat_mode(),
            final(self).shuffled() == old(self).shuffled(),
            final(self).position() == if index < old(self).order().len() {
                Some(index)
            } else {
                old(self).position()
            },
    {
        if index < self.order.len() {
            self.position = Some(index);
        }
    }

    /// Go to previous track.
    pub fn previous(&mut self) -> (r: Option<&QueueTrack>)
        requires
            old(self).wf(),
        ensures
            final(self).wf(),
            final(self).tracks() == old(self).tracks(),
            final(self).order() == old(self).order(),
            final(self).repeat_mode() == old(self).repeat_mode(),
            final(self).shuffled() == old(self).shuffled(),
            final(self).position() == old(self).previous_position(),
            match r {
                Some(t) => final(self).current_track() == Some(*t),
                None => final(self).current_track() is None,
            },
    {
        let pos = match self.position {
            Some(p) => p,
            None => return None,
        };
        if pos == 0 {
            match self.repeat {
                RepeatMode::All => {
                    self.position = Some(self.order.len().saturating_sub(1));
                },
                _ => {},
            }
        } else {
            self.position = Some(pos - 1);
        }
        self.current()
    }

    /// Set shuffle mode. Reshuffles order if enabling.
    pub fn set_shuffle(&mut self, enabled: bool)
        requires
            old(self).wf(),
        ensures
            final(self).wf(),
            final(self).tracks() == old(self).tracks(),
            final(self).repeat_mode() == old(self).repeat_mode(),
            final(self).shuffled() == enabled,
            final(self).current_track() == old(self).current_track(),
            final(self).current_index() == old(self).current_index(),
            final(self).position() is Some == old(self).position() is Some,
            old(self).shuffled() == enabled ==> final(self).order() == old(self).order()
                && final(self).position() == old(self).position(),
            old(self).shuffled() != enabled && enabled ==> if old(self).position() is Some {
                final(self).position() == Some(0usize) && Some(final(self).order()[0])
                    == old(self).current_index()
            } else {
                final(self).order() == old(self).order() && final(self).position() is None
            },
            old(self).shuffled() != enabled && !enabled ==> is_natural_order(
                final(self).order(),
                old(self).tracks().len(),
            ),
    {
        if self.shuffle == enabled {
            return;
        }
        self.shuffle = enabled;
        if enabled {
            if let Some(p) = self.position {
                let idx = self.order[p];
                let ghost n = self.tracks@.len();
                self.reshuffle_around(idx);
                self.position = Some(0);
                proof {
                    if n <= 1 {
                        assert(p == 0);
                    }
                }
            }
        } else {
            let ghost old_order = self.order@;
            let current_idx = match self.position {
                Some(p) => Some(self.order[p]),
                None => None,
            };
            self.order = natural_order(self.tracks.len());
            if let Some(idx) = current_idx {
                assert(self.order@[idx as int] == idx);
                self.position = position_of_value(&self.order, idx);
            }
        }
    }

    /// Reshuffle placing `anchor_idx` at position 0.
    fn reshuffle_around(&mut self, anchor_idx: usize)
        requires
            is_index_permutation(old(self).order(), old(self).tracks().len()),
        ensures
            is_index_permutation(final(self).order(), final(self).tracks().len()),
            final(self).tracks() == old(self).tracks(),
            final(self).position() == old(self).position(),
            final(self).repeat_mode() == old(self).repeat_mode(),
            final(self).shuffled() == old(self).shuffled(),
            old(self).tracks().len() <= 1 ==> final(self).order() == old(self).order(),
            old(self).tracks().len() > 1 && anchor_idx < old(self).tracks().len()
                ==> final(self).order()[0] == anchor_idx,
    {
        let mut rng = thread_rng();
        let len = self.tracks.len();
        if len <= 1 {
            return;
        }
        if anchor_idx < len {
            // Remove anchor, shuffle rest, prepend anchor
            let mut rest = natural_order_without(len, anchor_idx);
            let ghost before = rest@;
            shuffle_indices(&mut rest, &mut rng);
            let ghost shuffled = rest@;
            proof {
                lemma_same_multiset_keeps_elements(before, rest@);
            }
            rest.insert(0, anchor_idx);
            proof {
                assert(rest@.drop_first() =~= shuffled);
                assert forall|x: usize| #[trigger] rest@.drop_first().contains(x) <==> (x < len
                    && x != anchor_idx) by {
                    assert(before.contains(x) <==> (x < len && x != anchor_idx));
                }
                lemma_prepend_anchor_permutation(rest@, len as nat, anchor_idx);
            }
            self.order = rest;
        } else {
            let mut all = natural_order(len);
            let ghost before = all@;
            shuffle_indices(&mut all, &mut rng);
            proof {
                lemma_same_multiset_keeps_elements(before, all@);
                assert forall|i: int| 0 <= i < all@.len() implies #[trigger] all@[i] < len by {
                    assert(all@.contains(all@[i]));
                    let k = choose|k: int| 0 <= k < before.len() && before[k] == all@[i];
                    assert(before[k] < len);
                }
            }
            self.order = all;
        }
    }

    /// Get all tracks in current play order.
    pub fn ordered_tracks(&self) -> (r: Vec<&QueueTrack>)
        requires
            self.wf(),
        ensures
            r@.len() == self.order().len(),
            forall|i: int| 0 <= i < r@.len() ==> *#[trigger] r@[i] == self.track_at(i),
    {
        let mut r: Vec<&QueueTrack> = Vec::new();
        let mut i: usize = 0;
        while i < self.order.len()
            invariant
                self.wf(),
                i <= self.order@.len(),
                r@.len() == i,
                forall|j: int| 0 <= j < i ==> *#[trigger] r@[j] == self.track_at(j),
            decreases self.order@.len() - i,
        {
            let idx = self.order[i];
            r.push(&self.tracks[idx]);
            i = i + 1;
        }
        r
    }

    pub fn len(&self) -> (n: usize)
        ensures
            n == self.tracks().len(),
    {
        self.tracks.len()
    }

    pub fn is_empty(&self) -> (b: bool)
        ensures
            b == (self.tracks().len() == 0),
    {
        self.tracks.len() == 0
    }

    /// The first position in the play order whose track has the given id.
    pub fn position_of_track_id(&self, id: i64) -> (r: Option<usize>)
        requires
            self.wf(),
        ensures
            match r {
                Some(p) => first_position_with_id(*self, id, 0) == Some(p as int),
                None => first_position_with_id(*self, id, 0) is None,
            },
    {
        let mut i: usize = 0;
        while i < self.order.len()
            invariant
                self.wf(),
                i <= self.order@.len(),
                first_position_with_id(*self, id, 0) == first_position_with_id(*self, id, i as int),
            decreases self.order@.len() - i,
        {
            let idx = self.order[i];
            if self.tracks[idx].id == id {
                return Some(i);
            }
            i = i + 1;
        }
        None
    }

    /// Find a track by its ID and return a clone.
    pub fn find_track_by_id(&self, id: i64) -> (r: Option<QueueTrack>)
        ensures
            match first_index_of_id(self.tracks(), id) {
                Some(k) => r == Some(self.tracks()[k]),
                None => r is None,
            },
    {
        proof {
            lemma_first_index_of_id(self.tracks@, id);
        }
        match position_of_id(&self.tracks, id) {
            Some(k) => {
                let t = self.tracks[k].duplicate();
                Some(t)
            },
            None => None,
        }
    }
}

/// The first position at or after `from` in the play order whose track has
/// the id `id`.
pub open spec fn first_position_with_id(q: PlayQueue, id: i64, from: int) -> Option<int>
    decreases q.order().len() - from,
{
    if from < 0 || from >= q.order().len() {
        None
    } else if q.track_at(from).id == id {
        Some(from)
    } else {
        first_position_with_id(q, id, from + 1)
    }
}

/// `first_position_with_id` finds the first matching position, and only one.
pub proof fn lemma_first_position_with_id(q: PlayQueue, id: i64, from: int)
    requires
        0 <= from,
    ensures
        match first_position_with_id(q, id, from) {
            Some(p) => from <= p < q.order().len() && q.track_at(p).id == id && forall|k: int|
                from <= k < p ==> #[trigger] q.track_at(k).id != id,
            None => forall|k: int| from <= k < q.order().len() ==> #[trigger] q.track_at(k).id != id,
        },
    decreases q.order().len() - from,
{
    if from < q.order().len() && q.track_at(from).id != id {
        lemma_first_position_with_id(q, id, from + 1);
    }
}

// ── Laws ────────────────────────────────────────────────────────────────────

/// `peek_next` shows the track that `next` then moves to: after a `next`
/// that did not reshuffle the order (repeat-all with shuffle at the end of
/// the order does), the current track is the one `peek_next` returned.
pub proof fn lemma_peek_next_predicts_next(q: PlayQueue, after: PlayQueue)
    requires
        q.wf(),
        !q.next_reshuffles(),
        after.tracks() == q.tracks(),
        after.order() == q.order(),
        after.position() == q.next_position(),
    ensures
        after.current_track() == match q.next_position() {
            Some(np) => Some(q.track_at(np as int)),
            None => None,
        },
{
}

/// `previous` undoes `next` when the repeat mode is off or all: from any
/// current position that has a next one, `next` then `previous` comes back
/// to the same position. (With repeat-one both stay or step back, so it
/// does not hold there.)
pub proof fn lemma_previous_undoes_next(q: PlayQueue, after: PlayQueue)
    requires
        q.wf(),
        q.repeat_mode() != RepeatMode::One,
        q.order().len() <= usize::MAX,
        q.next_position() is Some,
        after.order().len() == q.order().len(),
        after.repeat_mode() == q.repeat_mode(),
        after.position() == q.next_position(),
    ensures
        after.previous_position() == q.position(),
{
    let p = q.position().unwrap();
    let n = q.order().len();
    assert(p < n);
    if q.repeat_mode() == RepeatMode::All && p + 1 >= n {
        assert(after.position() == Some(0usize));
        assert(after.previous_position() == Some((n - 1) as usize));
    } else {
        assert(after.position() == Some((p + 1) as usize));
    }
}

/// The next position always lies in the play order, so stepping on never
/// leaves the queue's invariant.
pub proof fn lemma_next_position_in_order(q: PlayQueue)
    requires
        q.wf(),
    ensures
        q.next_position() matches Some(p) ==> p < q.order().len(),
        q.previous_position() matches Some(p) ==> p < q.order().len(),
{
}

// ── Helpers ─────────────────────────────────────────────────────────────────

/// Where an existing order entry lands when `count` tracks are inserted at `at`.
pub open spec fn shift_index(x: usize, at: usize, count: usize) -> usize {
    if x >= at {
        (x + count) as usize
    } else {
        x
    }
}

/// The indices `at, at + 1, ..., at + k - 1`.
pub open spec fn new_index_block(at: usize, k: usize) -> Seq<usize> {
    Seq::new(k as nat, |i: int| (at + i) as usize)
}

/// `0, 1, ..., n - 1`.
fn natural_order(n: usize) -> (v: Vec<usize>)
    ensures
        is_natural_order(v@, n as nat),
        is_index_permutation(v@, n as nat),
{
    let mut v: Vec<usize> = Vec::new();
    let mut i: usize = 0;
    while i < n
        invariant
            i <= n,
            v@.len() == i,
            forall|j: int| 0 <= j < i ==> #[trigger] v@[j] == j,
        decreases n - i,
    {
        v.push(i);
        i = i + 1;
    }
    v
}

/// `0, 1, ..., n - 1` without `skip`.
fn natural_order_without(n: usize, skip: usize) -> (v: Vec<usize>)
    requires
        skip < n,
    ensures
        v@.len() == n - 1,
        v@.no_duplicates(),
        forall|i: int| 0 <= i < v@.len() ==> #[trigger] v@[i] < n && v@[i] != skip,
        forall|x: usize| #[trigger] v@.contains(x) <==> (x < n && x != skip),
{
    let mut v: Vec<usize> = Vec::new();
    let mut i: usize = 0;
    while i < n
        invariant
            skip < n,
            i <= n,
            v@.len() == if i <= skip {
                i as int
            } else {
                i - 1
            },
            forall|j: int| 0 <= j < v@.len() ==> #[trigger] v@[j] == if j < skip {
                j
            } else {
                j + 1
            },
        decreases n - i,
    {
        if i != skip {
            v.push(i);
        }
        i = i + 1;
    }
    assert forall|x: usize| #[trigger] v@.contains(x) <==> (x < n && x != skip) by {
        if x < n && x != skip {
            if x < skip {
                assert(v@[x as int] == x);
            } else {
                assert(v@[x - 1] == x);
            }
        }
    }
    v
}

/// Index of the first track with the given id.
fn position_of_id(tracks: &Vec<QueueTrack>, id: i64) -> (r: Option<usize>)
    ensures
        match first_index_of_id(tracks@, id) {
            Some(k) => r matches Some(j) && j as int == k,
            None => r is None,
        },
        r matches Some(k) ==> k < tracks@.len(),
{
    let mut i: usize = 0;
    while i < tracks.len()
        invariant
            i <= tracks@.len(),
            first_index_of_id(tracks@.take(i as int), id) is None,
        decreases tracks@.len() - i,
    {
        proof {
            assert(tracks@.take(i + 1).drop_last() =~= tracks@.take(i as int));
        }
        if tracks[i].id == id {
            proof {
                lemma_first_index_prefix(tracks@, id, i + 1);
            }
            return Some(i);
        }
        i = i + 1;
    }
    assert(tracks@.take(tracks@.len() as int) =~= tracks@);
    None
}

/// A match found in a prefix is the match of the whole sequence.
proof fn lemma_first_index_prefix(tracks: Seq<QueueTrack>, id: i64, k: int)
    requires
        0 <= k <= tracks.len(),
        first_index_of_id(tracks.take(k), id) is Some,
    ensures
        first_index_of_id(tracks, id) == first_index_of_id(tracks.take(k), id),
    decreases tracks.len() - k,
{
    if k < tracks.len() {
        assert(tracks.take(k + 1).drop_last() =~= tracks.take(k));
        lemma_first_index_prefix(tracks, id, k + 1);
    } else {
        assert(tracks.take(k) =~= tracks);
    }
}

/// Index of the first occurrence of `x` in `v`.
fn position_of_value(v: &Vec<usize>, x: usize) -> (r: Option<usize>)
    ensures
        match r {
            Some(k) => k < v@.len() && v@[k as int] == x && forall|j: int| 0 <= j < k ==> v@[j] != x,
            None => !v@.contains(x),
        },
{
    let mut i: usize = 0;
    while i < v.len()
        invariant
            i <= v@.len(),
            forall|j: int| 0 <= j < i ==> v@[j] != x,
        decreases v@.len() - i,
    {
        if v[i] == x {
            return Some(i);
        }
        i = i + 1;
    }
    None
}

/// Two sequences with the same multiset have the same length, the same
/// elements, and are duplicate-free together.
proof fn lemma_same_multiset_keeps_elements(a: Seq<usize>, b: Seq<usize>)
    requires
        a.to_multiset() == b.to_multiset(),
    ensures
        a.len() == b.len(),
        forall|x: usize| a.contains(x) <==> b.contains(x),
        a.no_duplicates() ==> b.no_duplicates(),
{
    broadcast use vstd::seq_lib::group_to_multiset_ensures;

    a.to_multiset_ensures();
    b.to_multiset_ensures();
    assert forall|x: usize| a.contains(x) <==> b.contains(x) by {
        assert(a.contains(x) <==> a.to_multiset().count(x) > 0);
        assert(b.contains(x) <==> b.to_multiset().count(x) > 0);
    }
    if a.no_duplicates() {
        a.lemma_multiset_has_no_duplicates();
        b.lemma_multiset_has_no_duplicates_conv();
    }
}

proof fn lemma_prepend_anchor_permutation(s: Seq<usize>, n: nat, anchor: usize)
    requires
        anchor < n,
        s.len() == n,
        s[0] == anchor,
        s.drop_first().no_duplicates(),
        forall|x: usize| #[trigger] s.drop_first().contains(x) <==> (x < n && x != anchor),
    ensures
        is_index_permutation(s, n),
{
    assert forall|i: int| 0 <= i < s.len() implies #[trigger] s[i] < n by {
        if i > 0 {
            assert(s.drop_first()[i - 1] == s[i]);
            assert(s.drop_first().contains(s[i]));
        }
    }
    assert forall|i: int, j: int| 0 <= i < s.len() && 0 <= j < s.len() && i != j implies s[i]
        != s[j] by {
        if i > 0 && j > 0 {
            assert(s.drop_first()[i - 1] == s[i]);
            assert(s.drop_first()[j - 1] == s[j]);
        } else if i == 0 {
            assert(s.drop_first()[j - 1] == s[j]);
            assert(s.drop_first().contains(s[j]));
        } else {
            assert(s.drop_first()[i - 1] == s[i]);
            assert(s.drop_first().contains(s[i]));
        }
    }
}

proof fn lemma_insert_keeps_permutation(old_order: Seq<usize>, n: nat, at: usize, count: usize, p: int)
    requires
        is_index_permutation(old_order, n),
        at <= n,
        n + count <= usize::MAX,
        0 <= p <= n,
    ensures
        ({
            let shifted = old_order.map_values(|x: usize| shift_index(x, at, count));
            is_index_permutation(
                shifted.take(p) + new_index_block(at, count) + shifted.skip(p),
                (n + count) as nat,
            )
        }),
{
    let shifted = old_order.map_values(|x: usize| shift_index(x, at, count));
    let r = shifted.take(p) + new_index_block(at, count) + shifted.skip(p);
    assert(r.len() == n + count);
    assert forall|i: int| 0 <= i < r.len() implies #[trigger] r[i] < n + count by {
        if i < p {
            assert(r[i] == shifted[i]);
            assert(old_order[i] < n);
        } else if i < p + count {
            assert(r[i] == at + (i - p));
        } else {
            assert(r[i] == shifted[i - count]);
            assert(old_order[i - count] < n);
        }
    }
    assert forall|i: int, j: int| 0 <= i < r.len() && 0 <= j < r.len() && i != j implies r[i]
        != r[j] by {
        let oi = if i < p {
            i
        } else if i >= p + count {
            i - count
        } else {
            -1
        };
        let oj = if j < p {
            j
        } else if j >= p + count {
            j - count
        } else {
            -1
        };
        if oi >= 0 && oj >= 0 {
            assert(r[i] == shifted[oi]);
            assert(r[j] == shifted[oj]);
            assert(old_order[oi] != old_order[oj]);
        } else if oi >= 0 {
            assert(r[i] == shifted[oi]);
            assert(r[j] == at + (j - p));
        } else if oj >= 0 {
            assert(r[j] == shifted[oj]);
            assert(r[i] == at + (i - p));
        } else {
            assert(r[i] == at + (i - p));
            assert(r[j] == at + (j - p));
        }
    }
}

proof fn lemma_shifted_track(
    old_tracks: Seq<QueueTrack>,
    new_tracks: Seq<QueueTrack>,
    old_order: Seq<usize>,
    at: usize,
    pos: int,
)
    requires
        is_index_permutation(old_order, old_tracks.len()),
        at <= old_tracks.len(),
        0 <= pos < old_order.len(),
        old_tracks.len() + new_tracks.len() <= usize::MAX,
    ensures
        ({
            let t = old_tracks.take(at as int) + new_tracks + old_tracks.skip(at as int);
            t[shift_index(old_order[pos], at, new_tracks.len() as usize) as int]
                == old_tracks[old_order[pos] as int]
        }),
{
    let x = old_order[pos];
    assert(x < old_tracks.len());
    let t = old_tracks.take(at as int) + new_tracks + old_tracks.skip(at as int);
    if x < at {
        assert(t[x as int] == old_tracks.take(at as int)[x as int]);
    } else {
        let y = x + new_tracks.len();
        assert(t[y] == old_tracks.skip(at as int)[y - at - new_tracks.len()]);
    }
}

} // verus!
