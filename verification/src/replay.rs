//! Replay buffer / instant replay support.
//!
//! While a recording or stream is active, the engine captures the *encoded*
//! H.264/AAC packets that flow into the muxer into a RAM ring buffer that
//! retains the last N seconds. On demand the buffered segments are remuxed
//! into a standalone MP4 file — the classic "instant replay" feature.
use vstd::prelude::*;

use std::collections::VecDeque;

use crate::text::{append_decimal, decimal, owned};
use crate::time::Duration;

verus! {

/// A segment in mathematical form.
pub struct SegmentView {
    pub pts_ns: u64,
    pub dts_ns: u64,
    pub data: Seq<u8>,
    pub keyframe: bool,
}

/// One encoded packet (an H.264 NAL set or an AAC frame) captured from the
/// recording pipeline, together with the timestamps it carried there.
#[derive(Debug, PartialEq, Eq)]
pub struct ReplaySegment {
    /// Presentation timestamp in nanoseconds.
    pub pts_ns: u64,
    /// Decoding timestamp in nanoseconds. Equals `pts_ns` for audio and for
    /// video streams without B-frames.
    pub dts_ns: u64,
    /// Encoded payload exactly as it flowed into the muxer.
    pub data: Vec<u8>,
    /// Whether this packet starts an independently decodable unit (an H.264
    /// IDR frame). A saved clip must begin at a keyframe.
    pub keyframe: bool,
}

impl View for ReplaySegment {
    type V = SegmentView;

    open spec fn view(&self) -> SegmentView {
        SegmentView { pts_ns: self.pts_ns, dts_ns: self.dts_ns, data: self.data@, keyframe: self.keyframe }
    }
}

impl Clone for ReplaySegment {
    fn clone(&self) -> (r: Self)
        ensures
            r@ == self@,
    {
        let mut data: Vec<u8> = Vec::new();
        data.extend_from_slice(self.data.as_slice());
        proof {
            assert(data@ =~= self.data@);
        }
        ReplaySegment { pts_ns: self.pts_ns, dts_ns: self.dts_ns, data, keyframe: self.keyframe }
    }
}

impl ReplaySegment {
    /// A segment with the given timestamps, payload and keyframe flag.
    pub fn new(pts_ns: u64, dts_ns: u64, data: Vec<u8>, keyframe: bool) -> (r: Self)
        ensures
            r == (ReplaySegment { pts_ns, dts_ns, data, keyframe }),
    {
        ReplaySegment { pts_ns, dts_ns, data, keyframe }
    }
}

/// The segments in mathematical form.
pub open spec fn segs_view(s: Seq<ReplaySegment>) -> Seq<SegmentView> {
    s.map_values(|x: ReplaySegment| x@)
}

/// `a - b`, or zero when `b` is larger.
pub open spec fn sat_sub(a: u64, b: u64) -> u64 {
    if a >= b { (a - b) as u64 } else { 0 }
}

/// The segments with both timestamps moved back by `offset` (not below 0).
pub open spec fn shift_spec(s: Seq<SegmentView>, offset: u64) -> Seq<SegmentView> {
    s.map_values(|x: SegmentView| SegmentView { pts_ns: sat_sub(x.pts_ns, offset), dts_ns: sat_sub(x.dts_ns, offset), ..x })
}

/// The segments moved so that the first starts at time zero.
pub open spec fn rebase_spec(s: Seq<SegmentView>) -> Seq<SegmentView> {
    if s.len() == 0 { s } else { shift_spec(s, s[0].pts_ns) }
}

/// Index of the first keyframe at or after `i` (the length when none).
pub open spec fn first_keyframe_from(s: Seq<SegmentView>, i: int) -> int
    decreases s.len() - i,
{
    if i >= s.len() {
        s.len() as int
    } else if s[i].keyframe {
        i
    } else {
        first_keyframe_from(s, i + 1)
    }
}

/// The video of a saved clip: from the first keyframe on, starting at time
/// zero; nothing when no keyframe was buffered.
pub open spec fn normalized_video(s: Seq<SegmentView>) -> Seq<SegmentView> {
    let k = first_keyframe_from(s, 0);
    if k < s.len() {
        rebase_spec(s.subrange(k, s.len() as int))
    } else {
        Seq::empty()
    }
}

proof fn lemma_first_keyframe_from(s: Seq<SegmentView>, i: int)
    requires
        0 <= i <= s.len(),
    ensures
        i <= first_keyframe_from(s, i) <= s.len(),
        first_keyframe_from(s, i) < s.len() ==> s[first_keyframe_from(s, i)].keyframe,
        forall|k: int| i <= k < first_keyframe_from(s, i) ==> !(#[trigger] s[k]).keyframe,
    decreases s.len() - i,
{
    if i < s.len() && !s[i].keyframe {
        lemma_first_keyframe_from(s, i + 1);
    }
}

/// Immutable snapshot of the buffered data, taken for saving.
#[derive(Debug, Clone)]
pub struct ReplaySnapshot {
    pub video: Vec<ReplaySegment>,
    pub video_caps: Option<String>,
    pub audio_tracks: Vec<Vec<ReplaySegment>>,
    pub audio_caps: Vec<Option<String>>,
}

/// The tracks' segments in mathematical form.
pub open spec fn tracks_view(t: Seq<Vec<ReplaySegment>>) -> Seq<Seq<SegmentView>> {
    t.map_values(|v: Vec<ReplaySegment>| segs_view(v@))
}

/// Move the segments of `v` so that the first starts at time zero.
fn rebase_in_place(v: &mut Vec<ReplaySegment>)
    ensures
        segs_view(final(v)@) == rebase_spec(segs_view(old(v)@)),
{
    let n = v.len();
    if n == 0 {
        return;
    }
    let offset = v[0].pts_ns;
    let ghost orig = segs_view(v@);
    let mut i: usize = 0;
    while i < n
        invariant
            n == v@.len(),
            n > 0,
            orig.len() == n,
            offset == orig[0].pts_ns,
            i <= n,
            forall|k: int| 0 <= k < i ==> (#[trigger] v@[k])@ == (SegmentView {
                pts_ns: sat_sub(orig[k].pts_ns, offset),
                dts_ns: sat_sub(orig[k].dts_ns, offset),
                ..orig[k]
            }),
            forall|k: int| i <= k < n ==> (#[trigger] v@[k])@ == orig[k],
        decreases n - i,
    {
        let ghost before = v@;
        let seg = &mut v[i];
        seg.pts_ns = if seg.pts_ns >= offset { seg.pts_ns - offset } else { 0 };
        seg.dts_ns = if seg.dts_ns >= offset { seg.dts_ns - offset } else { 0 };
        proof {
            assert forall|k: int| 0 <= k < n && k != i implies (#[trigger] v@[k]) == before[k] by {}
        }
        i = i + 1;
    }
    proof {
        assert(segs_view(v@) =~= rebase_spec(orig));
    }
}

impl ReplaySnapshot {
    /// An empty snapshot.
    pub fn empty() -> (r: Self)
        ensures
            r.video@.len() == 0 && r.video_caps.is_none() && r.audio_tracks@.len() == 0 && r.audio_caps@.len() == 0,
    {
        ReplaySnapshot { video: Vec::new(), video_caps: None, audio_tracks: Vec::new(), audio_caps: Vec::new() }
    }

    /// Whether there is nothing to save: no video and no audio segment.
    pub fn is_empty(&self) -> (r: bool)
        ensures
            r == (self.video@.len() == 0 && forall|i: int| 0 <= i < self.audio_tracks@.len() ==> (#[trigger] self.audio_tracks@[i])@.len() == 0),
    {
        if self.video.len() != 0 {
            return false;
        }
        let n = self.audio_tracks.len();
        let mut i: usize = 0;
        while i < n
            invariant
                n == self.audio_tracks@.len(),
                i <= n,
                forall|k: int| 0 <= k < i ==> (#[trigger] self.audio_tracks@[k])@.len() == 0,
            decreases n - i,
        {
            if self.audio_tracks[i].len() != 0 {
                return false;
            }
            i = i + 1;
        }
        true
    }

    /// Prepare the snapshot for remuxing: drop the video before its first
    /// keyframe (all of it when there is none), then shift every stream's
    /// timestamps so it starts at time zero. Relative A/V sync is preserved
    /// because every track is shifted by its own start timestamp.
    pub fn normalize(&mut self)
        ensures
            segs_view(final(self).video@) == normalized_video(segs_view(old(self).video@)),
            final(self).audio_tracks@.len() == old(self).audio_tracks@.len(),
            forall|i: int| 0 <= i < old(self).audio_tracks@.len() ==> segs_view((#[trigger] final(self).audio_tracks@[i])@)
                == rebase_spec(segs_view(old(self).audio_tracks@[i]@)),
            final(self).video_caps == old(self).video_caps,
            final(self).audio_caps == old(self).audio_caps,
    {
        let ghost v0 = segs_view(self.video@);
        let n = self.video.len();
        let mut k: usize = 0;
        proof {
            lemma_first_keyframe_from(v0, 0);
        }
        while k < n && !self.video[k].keyframe
            invariant
                n == self.video@.len(),
                v0 == segs_view(self.video@),
                k <= n,
                first_keyframe_from(v0, k as int) == first_keyframe_from(v0, 0),
            decreases n - k,
        {
            k = k + 1;
        }
        let mut video = Vec::new();
        std::mem::swap(&mut video, &mut self.video);
        if k < n {
            let mut tail = video.split_off(k);
            proof {
                assert(segs_view(tail@) =~= v0.subrange(k as int, n as int));
            }
            rebase_in_place(&mut tail);
            self.video = tail;
        } else {
            proof {
                assert(segs_view(self.video@) =~= Seq::<SegmentView>::empty());
            }
        }
        let ghost t0 = self.audio_tracks@;
        let m = self.audio_tracks.len();
        let mut t: usize = 0;
        while t < m
            invariant
                m == self.audio_tracks@.len(),
                t0.len() == m,
                t <= m,
                forall|i: int| 0 <= i < t ==> segs_view((#[trigger] self.audio_tracks@[i])@) == rebase_spec(segs_view(t0[i]@)),
                forall|i: int| t <= i < m ==> (#[trigger] self.audio_tracks@[i]) == t0[i],
                segs_view(self.video@) == normalized_video(v0),
                self.video_caps == old(self).video_caps,
                self.audio_caps == old(self).audio_caps,
            decreases m - t,
        {
            let track = &mut self.audio_tracks[t];
            rebase_in_place(track);
            t = t + 1;
        }
    }
}

// ── ring buffer ─────────────────────────────────────────────────────────────

/// One buffered audio stream in mathematical form.
pub struct TrackView {
    pub segments: Seq<SegmentView>,
    pub caps: Option<Seq<char>>,
    pub newest_pts: Option<u64>,
}

/// One buffered audio stream (one per audio pad in the pipeline).
#[derive(Debug)]
struct ReplayAudioTrack {
    segments: VecDeque<ReplaySegment>,
    caps: Option<String>,
    newest_pts: Option<u64>,
}

impl View for ReplayAudioTrack {
    type V = TrackView;

    closed spec fn view(&self) -> TrackView {
        TrackView {
            segments: segs_view(self.segments@),
            caps: match self.caps {
                Some(c) => Some(c@),
                None => None,
            },
            newest_pts: self.newest_pts,
        }
    }
}

/// A replay buffer in mathematical form.
pub struct ReplayView {
    /// Retention window in nanoseconds.
    pub duration: nat,
    pub video: Seq<SegmentView>,
    pub video_caps: Option<Seq<char>>,
    pub newest_video_dts: Option<u64>,
    pub tracks: Seq<TrackView>,
}

/// The segments without those at the front whose timestamp (decoding time
/// when `by_dts`, presentation time otherwise) lies before `cutoff`.
pub open spec fn drop_front_before(s: Seq<SegmentView>, cutoff: u64, by_dts: bool) -> Seq<SegmentView>
    decreases s.len(),
{
    if s.len() > 0 && (if by_dts { s[0].dts_ns } else { s[0].pts_ns }) < cutoff {
        drop_front_before(s.drop_first(), cutoff, by_dts)
    } else {
        s
    }
}

/// The retention window in nanoseconds, as a 64-bit count.
pub open spec fn window_ns(duration: nat) -> u64 {
    (duration as u128) as u64
}

/// One track after eviction against the window.
pub open spec fn evict_track(t: TrackView, window: u64) -> TrackView {
    match t.newest_pts {
        Some(newest) => TrackView { segments: drop_front_before(t.segments, sat_sub(newest, window), false), ..t },
        None => t,
    }
}

/// The buffer after eviction: each stream drops what is older than its own
/// newest timestamp minus the window (video by decoding time, audio by
/// presentation time).
pub open spec fn evict_spec(v: ReplayView) -> ReplayView {
    let w = window_ns(v.duration);
    ReplayView {
        video: match v.newest_video_dts {
            Some(newest) => drop_front_before(v.video, sat_sub(newest, w), true),
            None => v.video,
        },
        tracks: v.tracks.map_values(|t: TrackView| evict_track(t, w)),
        ..v
    }
}

/// `Some(max(old, x))`, or `Some(x)` for a first value.
pub open spec fn newest(old: Option<u64>, x: u64) -> Option<u64> {
    match old {
        Some(p) => Some(if p >= x { p } else { x }),
        None => Some(x),
    }
}

/// An empty track.
pub open spec fn empty_track() -> TrackView {
    TrackView { segments: Seq::empty(), caps: None, newest_pts: None }
}

/// The tracks, extended with empty ones until `track` exists.
pub open spec fn with_track(tracks: Seq<TrackView>, track: nat) -> Seq<TrackView> {
    if track < tracks.len() {
        tracks
    } else {
        tracks + Seq::new((track + 1 - tracks.len()) as nat, |i: int| empty_track())
    }
}

/// RAM ring buffer retaining the last [`ReplayBuffer::duration`] of encoded
/// video/audio packets.
#[derive(Debug)]
pub struct ReplayBuffer {
    duration: Duration,
    video: VecDeque<ReplaySegment>,
    video_caps: Option<String>,
    /// Newest video decoding timestamp. DTS is monotonic in the pipeline's
    /// arrival order (unlike PTS, which B-frame reordering shuffles), so it
    /// drives eviction.
    newest_video_dts: Option<u64>,
    audio_tracks: Vec<ReplayAudioTrack>,
}

impl View for ReplayBuffer {
    type V = ReplayView;

    closed spec fn view(&self) -> ReplayView {
        ReplayView {
            duration: self.duration.spec_nanos(),
            video: segs_view(self.video@),
            video_caps: match self.video_caps {
                Some(c) => Some(c@),
                None => None,
            },
            newest_video_dts: self.newest_video_dts,
            tracks: self.audio_tracks@.map_values(|t: ReplayAudioTrack| t@),
        }
    }
}

fn drop_front_deque(q: &mut VecDeque<ReplaySegment>, cutoff: u64, by_dts: bool)
    ensures
        segs_view(final(q)@) == drop_front_before(segs_view(old(q)@), cutoff, by_dts),
{
    let ghost target = drop_front_before(segs_view(q@), cutoff, by_dts);
    loop
        invariant
            drop_front_before(segs_view(q@), cutoff, by_dts) == target,
            target == drop_front_before(segs_view(old(q)@), cutoff, by_dts),
        ensures
            segs_view(q@) == target,
        decreases q@.len(),
    {
        if q.len() == 0 {
            proof {
                assert(segs_view(q@).len() == 0);
            }
            return;
        }
        let key = if by_dts { q[0].dts_ns } else { q[0].pts_ns };
        if key >= cutoff {
            proof {
                assert(segs_view(q@)[0] == q@[0]@);
            }
            return;
        }
        let ghost before = q@;
        q.pop_front();
        proof {
            assert(segs_view(before).drop_first() =~= segs_view(q@));
        }
    }
}

impl ReplayAudioTrack {
    fn new() -> (r: Self)
        ensures
            r@ == empty_track(),
    {
        let r = ReplayAudioTrack { segments: VecDeque::new(), caps: None, newest_pts: None };
        proof {
            assert(r@.segments =~= Seq::<SegmentView>::empty());
        }
        r
    }

    fn evict(&mut self, window: u64)
        ensures
            final(self)@ == evict_track(old(self)@, window),
    {
        match self.newest_pts {
            Some(newest) => {
                let cutoff = if newest >= window { newest - window } else { 0 };
                drop_front_deque(&mut self.segments, cutoff, false);
            },
            None => {},
        }
    }

    fn push(&mut self, seg: ReplaySegment)
        ensures
            final(self)@ == (TrackView {
                segments: old(self)@.segments.push(seg@),
                newest_pts: newest(old(self)@.newest_pts, seg.pts_ns),
                ..old(self)@
            }),
    {
        let pts = seg.pts_ns;
        self.newest_pts = Some(match self.newest_pts {
            Some(prev) => if prev >= pts { prev } else { pts },
            None => pts,
        });
        let ghost before = self.segments@;
        self.segments.push_back(seg);
        proof {
            assert(segs_view(self.segments@) =~= segs_view(before).push(seg@));
        }
    }

    fn set_caps(&mut self, caps: String)
        ensures
            final(self)@ == (TrackView {
                caps: if old(self)@.caps.is_none() { Some(caps@) } else { old(self)@.caps },
                ..old(self)@
            }),
    {
        if self.caps.is_none() {
            self.caps = Some(caps);
        }
    }
}

impl ReplayBuffer {
    /// An empty buffer retaining `duration` of media.
    pub fn new(duration: Duration) -> (r: Self)
        ensures
            r@ == (ReplayView { duration: duration.spec_nanos(), video: Seq::empty(), video_caps: None, newest_video_dts: None, tracks: Seq::empty() }),
    {
        let r = ReplayBuffer { duration, video: VecDeque::new(), video_caps: None, newest_video_dts: None, audio_tracks: Vec::new() };
        proof {
            assert(r@.video =~= Seq::<SegmentView>::empty());
            assert(r@.tracks =~= Seq::<TrackView>::empty());
        }
        r
    }

    /// The retention window.
    pub fn duration(&self) -> (r: Duration)
        ensures
            r.spec_nanos() == self@.duration,
    {
        self.duration
    }

    /// Change the retention window and immediately evict everything that no
    /// longer fits.
    pub fn set_duration(&mut self, duration: Duration)
        ensures
            final(self)@ == evict_spec(ReplayView { duration: duration.spec_nanos(), ..old(self)@ }),
    {
        self.duration = duration;
        self.evict();
    }

    /// Whether no video and no audio segment is buffered.
    pub fn is_empty(&self) -> (r: bool)
        ensures
            r == (self@.video.len() == 0 && forall|i: int| 0 <= i < self@.tracks.len() ==> (#[trigger] self@.tracks[i]).segments.len() == 0),
    {
        if self.video.len() != 0 {
            return false;
        }
        let n = self.audio_tracks.len();
        let mut i: usize = 0;
        while i < n
            invariant
                n == self.audio_tracks@.len(),
                i <= n,
                forall|k: int| 0 <= k < i ==> (#[trigger] self@.tracks[k]).segments.len() == 0,
            decreases n - i,
        {
            if self.audio_tracks[i].segments.len() != 0 {
                proof {
                    assert(self@.tracks[i as int] == self.audio_tracks@[i as int]@);
                }
                return false;
            }
            i = i + 1;
        }
        true
    }

    /// Forget all media, caps and tracks (the window stays).
    pub fn clear(&mut self)
        ensures
            final(self)@ == (ReplayView { duration: old(self)@.duration, video: Seq::empty(), video_caps: None, newest_video_dts: None, tracks: Seq::empty() }),
    {
        self.video.clear();
        self.video_caps = None;
        self.newest_video_dts = None;
        self.audio_tracks.clear();
        proof {
            assert(self@.video =~= Seq::<SegmentView>::empty());
            assert(self@.tracks =~= Seq::<TrackView>::empty());
        }
    }

    /// Record the caps of the video stream; the first caps stay.
    pub fn set_video_caps(&mut self, caps: String)
        ensures
            final(self)@ == (ReplayView {
                video_caps: if old(self)@.video_caps.is_none() { Some(caps@) } else { old(self)@.video_caps },
                ..old(self)@
            }),
    {
        if self.video_caps.is_none() {
            self.video_caps = Some(caps);
        }
    }

    fn ensure_track(&mut self, track: usize)
        requires
            track < usize::MAX,
        ensures
            final(self)@ == (ReplayView { tracks: with_track(old(self)@.tracks, track as nat), ..old(self)@ }),
            track < final(self).audio_tracks@.len(),
    {
        let ghost t0 = self@.tracks;
        while self.audio_tracks.len() <= track
            invariant
                track < usize::MAX,
                self@ == (ReplayView { tracks: self@.tracks, ..old(self)@ }),
                t0 == old(self)@.tracks,
                self@.tracks.len() >= t0.len(),
                self@.tracks.subrange(0, t0.len() as int) == t0,
                forall|i: int| t0.len() <= i < self@.tracks.len() ==> (#[trigger] self@.tracks[i]) == empty_track(),
                self@.tracks.len() > t0.len() ==> self@.tracks.len() <= track + 1,
            decreases track + 1 - self.audio_tracks@.len(),
        {
            let ghost before = self.audio_tracks@;
            self.audio_tracks.push(ReplayAudioTrack::new());
            proof {
                assert(self.audio_tracks@.map_values(|t: ReplayAudioTrack| t@) =~= before.map_values(|t: ReplayAudioTrack| t@).push(empty_track()));
            }
        }
        proof {
            assert(self@.tracks =~= with_track(t0, track as nat));
        }
    }

    /// Record the caps of audio track `track` (created when missing); the
    /// first caps stay.
    pub fn set_audio_caps(&mut self, track: usize, caps: String)
        requires
            track < usize::MAX,
        ensures
            ({
                let t = with_track(old(self)@.tracks, track as nat);
                final(self)@ == (ReplayView {
                    tracks: t.update(track as int, (TrackView {
                        caps: if t[track as int].caps.is_none() { Some(caps@) } else { t[track as int].caps },
                        ..t[track as int]
                    })),
                    ..old(self)@
                })
            }),
    {
        self.ensure_track(track);
        let ghost mid = self.audio_tracks@;
        let t = &mut self.audio_tracks[track];
        t.set_caps(caps);
        proof {
            assert(self.audio_tracks@.map_values(|t: ReplayAudioTrack| t@) =~= mid.map_values(|t: ReplayAudioTrack| t@).update(track as int, self.audio_tracks@[track as int]@));
        }
    }

    /// The recorded video caps, if the first sample has been captured.
    pub fn video_caps(&self) -> (r: Option<&str>)
        ensures
            match r {
                Some(c) => self@.video_caps == Some(c@),
                None => self@.video_caps.is_none(),
            },
    {
        match &self.video_caps {
            Some(c) => Some(c.as_str()),
            None => None,
        }
    }

    /// The buffered video segments (oldest first).
    pub fn video(&self) -> (r: &VecDeque<ReplaySegment>)
        ensures
            segs_view(r@) == self@.video,
    {
        &self.video
    }

    /// The recorded caps of one audio track, if captured.
    pub fn audio_caps(&self, track: usize) -> (r: Option<&str>)
        ensures
            match r {
                Some(c) => track < self@.tracks.len() && self@.tracks[track as int].caps == Some(c@),
                None => track >= self@.tracks.len() || self@.tracks[track as int].caps.is_none(),
            },
    {
        if track >= self.audio_tracks.len() {
            return None;
        }
        match &self.audio_tracks[track].caps {
            Some(c) => Some(c.as_str()),
            None => None,
        }
    }

    /// Buffer one video packet and evict what falls out of the window.
    pub fn push_video(&mut self, pts_ns: u64, dts_ns: u64, data: Vec<u8>, keyframe: bool)
        ensures
            final(self)@ == evict_spec(ReplayView {
                video: old(self)@.video.push(SegmentView { pts_ns, dts_ns, data: data@, keyframe }),
                newest_video_dts: newest(old(self)@.newest_video_dts, dts_ns),
                ..old(self)@
            }),
    {
        self.newest_video_dts = Some(match self.newest_video_dts {
            Some(prev) => if prev >= dts_ns { prev } else { dts_ns },
            None => dts_ns,
        });
        let ghost before = self.video@;
        let seg = ReplaySegment::new(pts_ns, dts_ns, data, keyframe);
        self.video.push_back(seg);
        proof {
            assert(segs_view(self.video@) =~= segs_view(before).push(SegmentView { pts_ns, dts_ns, data: data@, keyframe }));
        }
        self.evict();
    }

    /// Buffer one packet of audio track `track` (created when missing) and
    /// evict what falls out of the window.
    pub fn push_audio(&mut self, track: usize, pts_ns: u64, dts_ns: u64, data: Vec<u8>)
        requires
            track < usize::MAX,
        ensures
            ({
                let t = with_track(old(self)@.tracks, track as nat);
                final(self)@ == evict_spec(ReplayView {
                    tracks: t.update(track as int, (TrackView {
                        segments: t[track as int].segments.push(SegmentView { pts_ns, dts_ns, data: data@, keyframe: false }),
                        newest_pts: newest(t[track as int].newest_pts, pts_ns),
                        ..t[track as int]
                    })),
                    ..old(self)@
                })
            }),
    {
        self.ensure_track(track);
        let ghost mid = self.audio_tracks@;
        let t = &mut self.audio_tracks[track];
        t.push(ReplaySegment::new(pts_ns, dts_ns, data, false));
        proof {
            assert(self.audio_tracks@.map_values(|t: ReplayAudioTrack| t@) =~= mid.map_values(|t: ReplayAudioTrack| t@).update(track as int, self.audio_tracks@[track as int]@));
        }
        self.evict();
    }

    /// Drop everything older than the retention window. Each stream evicts
    /// relative to its own newest timestamp.
    pub fn evict(&mut self)
        ensures
            final(self)@ == evict_spec(old(self)@),
    {
        #[verifier::truncate]
        let window: u64 = self.duration.as_nanos() as u64;
        match self.newest_video_dts {
            Some(newest) => {
                let cutoff = if newest >= window { newest - window } else { 0 };
                drop_front_deque(&mut self.video, cutoff, true);
            },
            None => {},
        }
        let ghost t0 = self@.tracks;
        let n = self.audio_tracks.len();
        let mut i: usize = 0;
        while i < n
            invariant
                n == self.audio_tracks@.len(),
                t0.len() == n,
                i <= n,
                window == window_ns(old(self)@.duration),
                forall|k: int| 0 <= k < i ==> (#[trigger] self.audio_tracks@[k])@ == evict_track(t0[k], window),
                forall|k: int| i <= k < n ==> (#[trigger] self.audio_tracks@[k])@ == t0[k],
                self@.duration == old(self)@.duration,
                self@.video == evict_spec(old(self)@).video,
                self@.video_caps == old(self)@.video_caps,
                self@.newest_video_dts == old(self)@.newest_video_dts,
                t0 == old(self)@.tracks,
            decreases n - i,
        {
            let ghost before = self.audio_tracks@;
            let t = &mut self.audio_tracks[i];
            t.evict(window);
            proof {
                assert forall|k: int| 0 <= k < n && k != i implies (#[trigger] self.audio_tracks@[k]) == before[k] by {}
            }
            i = i + 1;
        }
        proof {
            assert(self@.tracks =~= old(self)@.tracks.map_values(|t: TrackView| evict_track(t, window)));
        }
    }

    /// Approximate amount of video retained, in nanoseconds: from the oldest
    /// buffered decoding time to the newest (0 when empty).
    pub fn retained_ns(&self) -> (r: u64)
        ensures
            r == match self@.newest_video_dts {
                Some(n) => if self@.video.len() > 0 { sat_sub(n, self@.video[0].dts_ns) } else { 0 },
                None => 0,
            },
    {
        if self.video.len() == 0 {
            return 0;
        }
        let first = self.video[0].dts_ns;
        match self.newest_video_dts {
            Some(newest) => if newest >= first { newest - first } else { 0 },
            None => 0,
        }
    }
}

fn clone_segments(q: &VecDeque<ReplaySegment>) -> (r: Vec<ReplaySegment>)
    ensures
        segs_view(r@) == segs_view(q@),
{
    let mut out: Vec<ReplaySegment> = Vec::new();
    let n = q.len();
    let mut i: usize = 0;
    while i < n
        invariant
            n == q@.len(),
            i <= n,
            out@.len() == i,
            forall|k: int| 0 <= k < i ==> (#[trigger] out@[k])@ == q@[k]@,
        decreases n - i,
    {
        out.push(q[i].clone());
        i = i + 1;
    }
    proof {
        assert(segs_view(out@) =~= segs_view(q@));
    }
    out
}

fn clone_caps(c: &Option<String>) -> (r: Option<String>)
    ensures
        match (r, *c) {
            (Some(a), Some(b)) => a@ == b@,
            (None, None) => true,
            _ => false,
        },
{
    match c {
        Some(s) => Some(s.clone()),
        None => None,
    }
}

impl ReplayBuffer {
    /// Copy the buffered data into a normalized snapshot ready for saving:
    /// the video from its first keyframe and every stream starting at time
    /// zero.
    pub fn snapshot(&self) -> (r: ReplaySnapshot)
        ensures
            segs_view(r.video@) == normalized_video(self@.video),
            match r.video_caps {
                Some(c) => self@.video_caps == Some(c@),
                None => self@.video_caps.is_none(),
            },
            r.audio_tracks@.len() == self@.tracks.len(),
            r.audio_caps@.len() == self@.tracks.len(),
            forall|i: int| 0 <= i < self@.tracks.len() ==> segs_view((#[trigger] r.audio_tracks@[i])@) == rebase_spec(self@.tracks[i].segments),
            forall|i: int| 0 <= i < self@.tracks.len() ==> match (#[trigger] r.audio_caps@[i]) {
                Some(c) => self@.tracks[i].caps == Some(c@),
                None => self@.tracks[i].caps.is_none(),
            },
    {
        let video = clone_segments(&self.video);
        let video_caps = clone_caps(&self.video_caps);
        let mut audio_tracks: Vec<Vec<ReplaySegment>> = Vec::new();
        let mut audio_caps: Vec<Option<String>> = Vec::new();
        let n = self.audio_tracks.len();
        let mut i: usize = 0;
        while i < n
            invariant
                n == self.audio_tracks@.len(),
                i <= n,
                audio_tracks@.len() == i,
                audio_caps@.len() == i,
                forall|k: int| 0 <= k < i ==> segs_view((#[trigger] audio_tracks@[k])@) == self@.tracks[k].segments,
                forall|k: int| 0 <= k < i ==> match (#[trigger] audio_caps@[k]) {
                    Some(c) => self@.tracks[k].caps == Some(c@),
                    None => self@.tracks[k].caps.is_none(),
                },
            decreases n - i,
        {
            let segs = clone_segments(&self.audio_tracks[i].segments);
            let caps = clone_caps(&self.audio_tracks[i].caps);
            proof {
                assert(self@.tracks[i as int] == self.audio_tracks@[i as int]@);
            }
            audio_tracks.push(segs);
            audio_caps.push(caps);
            i = i + 1;
        }
        let mut snap = ReplaySnapshot { video, video_caps, audio_tracks, audio_caps };
        snap.normalize();
        snap
    }
}

/// Pieces of the remux description: the video source, one source per
/// non-empty audio track (by track number) and the muxer with its file.
pub open spec fn audio_sources(tracks: Seq<Seq<SegmentView>>) -> Seq<char>
    decreases tracks.len(),
{
    if tracks.len() == 0 {
        Seq::empty()
    } else {
        let i = (tracks.len() - 1) as nat;
        audio_sources(tracks.drop_last()) + if tracks.last().len() == 0 {
            Seq::empty()
        } else {
            "appsrc name=rv_asrc"@ + decimal(i) + " format=time is-live=false do-timestamp=false ! aacparse ! replay_mux. "@
        }
    }
}

/// The remux pipeline description for a snapshot saved at `location`.
pub open spec fn remux_spec(tracks: Seq<Seq<SegmentView>>, location: Seq<char>) -> Seq<char> {
    "appsrc name=rv_vsrc format=time is-live=false do-timestamp=false ! h264parse ! replay_mux. "@
        + audio_sources(tracks) + "mp4mux name=replay_mux ! filesink name=replay_file location=\""@
        + escape_location_spec(location) + "\""@
}

/// The pipeline description that remuxes `snapshot` into an MP4 file at
/// `location`: an error when there is nothing to save.
pub fn remux_description(snapshot: &ReplaySnapshot, location: &str) -> (r: Result<String, &'static str>)
    ensures
        snapshot.video@.len() == 0 && (forall|i: int| 0 <= i < snapshot.audio_tracks@.len() ==> (#[trigger] snapshot.audio_tracks@[i])@.len() == 0)
            ==> r == Err::<String, &'static str>("replay buffer is empty, nothing to save"),
        !(snapshot.video@.len() == 0 && (forall|i: int| 0 <= i < snapshot.audio_tracks@.len() ==> (#[trigger] snapshot.audio_tracks@[i])@.len() == 0))
            ==> (r matches Ok(d) && d@ == remux_spec(tracks_view(snapshot.audio_tracks@), location@)),
{
    if snapshot.is_empty() {
        return Err("replay buffer is empty, nothing to save");
    }
    let mut desc = owned("appsrc name=rv_vsrc format=time is-live=false do-timestamp=false ! h264parse ! replay_mux. ");
    let ghost tv = tracks_view(snapshot.audio_tracks@);
    let ghost head = desc@;
    let n = snapshot.audio_tracks.len();
    let mut i: usize = 0;
    while i < n
        invariant
            n == snapshot.audio_tracks@.len(),
            tv == tracks_view(snapshot.audio_tracks@),
            i <= n,
            desc@ == head + audio_sources(tv.subrange(0, i as int)),
        decreases n - i,
    {
        proof {
            assert(tv.subrange(0, i + 1).drop_last() =~= tv.subrange(0, i as int));
            assert(tv.subrange(0, i + 1).last() == segs_view(snapshot.audio_tracks@[i as int]@));
        }
        if snapshot.audio_tracks[i].len() != 0 {
            desc.append("appsrc name=rv_asrc");
            append_decimal(&mut desc, i as u64);
            desc.append(" format=time is-live=false do-timestamp=false ! aacparse ! replay_mux. ");
        }
        proof {
            assert(desc@ =~= head + audio_sources(tv.subrange(0, i + 1)));
        }
        i = i + 1;
    }
    proof {
        assert(tv.subrange(0, n as int) =~= tv);
    }
    desc.append("mp4mux name=replay_mux ! filesink name=replay_file location=\"");
    let escaped = escape_location(location);
    desc.append(escaped.as_str());
    desc.append("\"");
    Ok(desc)
}

/// The caps the remux video source is configured with: those captured from
/// the live pipeline, `video/x-h264` when none were.
pub fn remux_video_caps(snapshot: &ReplaySnapshot) -> (r: &str)
    ensures
        r@ == match snapshot.video_caps {
            Some(c) => c@,
            None => "video/x-h264"@,
        },
{
    match &snapshot.video_caps {
        Some(c) => c.as_str(),
        None => {
            proof {
                reveal_strlit("video/x-h264");
            }
            "video/x-h264"
        },
    }
}

/// The caps the remux source of audio track `track` is configured with:
/// those captured from the live pipeline, raw MPEG-4 AAC when none were.
pub fn remux_audio_caps(snapshot: &ReplaySnapshot, track: usize) -> (r: String)
    ensures
        r@ == if track < snapshot.audio_caps@.len() && snapshot.audio_caps@[track as int] is Some {
            snapshot.audio_caps@[track as int]->0@
        } else {
            "audio/mpeg, mpegversion=(int)4, stream-format=(string)raw"@
        },
{
    if track < snapshot.audio_caps.len() {
        match &snapshot.audio_caps[track] {
            Some(c) => return c.clone(),
            None => {},
        }
    }
    owned("audio/mpeg, mpegversion=(int)4, stream-format=(string)raw")
}

/// Eviction keeps a suffix of the stream: what it drops lies before the
/// cutoff, and the oldest segment it keeps does not.
pub proof fn lemma_eviction_keeps_recent_suffix(s: Seq<SegmentView>, cutoff: u64, by_dts: bool)
    ensures
        ({
            let r = drop_front_before(s, cutoff, by_dts);
            &&& r.len() <= s.len()
            &&& r == s.subrange(s.len() - r.len(), s.len() as int)
            &&& forall|k: int| 0 <= k < s.len() - r.len() ==> (if by_dts { (#[trigger] s[k]).dts_ns } else { s[k].pts_ns }) < cutoff
            &&& r.len() > 0 ==> (if by_dts { r[0].dts_ns } else { r[0].pts_ns }) >= cutoff
        }),
    decreases s.len(),
{
    if s.len() > 0 && (if by_dts { s[0].dts_ns } else { s[0].pts_ns }) < cutoff {
        lemma_eviction_keeps_recent_suffix(s.drop_first(), cutoff, by_dts);
        let r = drop_front_before(s, cutoff, by_dts);
        assert(s.drop_first().subrange(s.len() - 1 - r.len(), s.len() - 1) =~= s.subrange(s.len() - r.len(), s.len() as int));
        assert forall|k: int| 0 <= k < s.len() - r.len() implies (if by_dts { (#[trigger] s[k]).dts_ns } else { s[k].pts_ns }) < cutoff by {
            if k > 0 {
                assert(s[k] == s.drop_first()[k - 1]);
            }
        }
    } else {
        assert(s.subrange(0, s.len() as int) =~= s);
    }
}

/// With decoding times in arrival order, every video segment kept by
/// eviction lies within the window: none is older than the cutoff.
pub proof fn lemma_eviction_respects_window(s: Seq<SegmentView>, cutoff: u64)
    requires
        forall|i: int, j: int| 0 <= i <= j < s.len() ==> (#[trigger] s[i]).dts_ns <= (#[trigger] s[j]).dts_ns,
    ensures
        forall|k: int| 0 <= k < drop_front_before(s, cutoff, true).len() ==> (#[trigger] drop_front_before(s, cutoff, true)[k]).dts_ns >= cutoff,
{
    lemma_eviction_keeps_recent_suffix(s, cutoff, true);
    let r = drop_front_before(s, cutoff, true);
    assert forall|k: int| 0 <= k < r.len() implies (#[trigger] r[k]).dts_ns >= cutoff by {
        let off = s.len() - r.len();
        assert(r[k] == s[off + k]);
        assert(r[0] == s[off]);
        assert(s[off].dts_ns <= s[off + k].dts_ns);
    }
}

/// Eviction keeps, of every audio track, exactly its recent part: what
/// stays is a suffix of the track, every segment it drops lies more than the
/// window before the track's newest presentation time, the oldest segment
/// it keeps does not, and when presentation times arrive in order every kept
/// segment lies within the window. The track's caps and newest time stay.
pub proof fn lemma_audio_eviction_keeps_window(v: ReplayView, k: int)
    requires
        0 <= k < v.tracks.len(),
    ensures
        ({
            let w = window_ns(v.duration) as int;
            let t = v.tracks[k].segments;
            let e = evict_spec(v).tracks[k];
            &&& e.segments.len() <= t.len()
            &&& e.segments == t.subrange(t.len() - e.segments.len(), t.len() as int)
            &&& e.caps == v.tracks[k].caps
            &&& e.newest_pts == v.tracks[k].newest_pts
            &&& v.tracks[k].newest_pts matches Some(n) ==> {
                &&& forall|m: int| 0 <= m < t.len() - e.segments.len() ==> (#[trigger] t[m]).pts_ns + w < n
                &&& e.segments.len() > 0 ==> e.segments[0].pts_ns + w >= n
                &&& (forall|a: int, b: int| 0 <= a <= b < t.len() ==> (#[trigger] t[a]).pts_ns <= (#[trigger] t[b]).pts_ns)
                    ==> forall|m: int| 0 <= m < e.segments.len() ==> (#[trigger] e.segments[m]).pts_ns + w >= n
            }
            &&& v.tracks[k].newest_pts is None ==> e.segments == t
        }),
{
    let wn = window_ns(v.duration);
    let tr = v.tracks[k];
    let t = tr.segments;
    assert(evict_spec(v).tracks[k] == evict_track(tr, wn));
    match tr.newest_pts {
        Some(n) => {
            let cutoff = sat_sub(n, wn);
            lemma_eviction_keeps_recent_suffix(t, cutoff, false);
            let e = drop_front_before(t, cutoff, false);
            if forall|a: int, b: int| 0 <= a <= b < t.len() ==> (#[trigger] t[a]).pts_ns <= (#[trigger] t[b]).pts_ns {
                assert forall|m: int| 0 <= m < e.len() implies (#[trigger] e[m]).pts_ns + wn >= n by {
                    let off = t.len() - e.len();
                    assert(e[m] == t[off + m]);
                    assert(e[0] == t[off]);
                    assert(t[off].pts_ns <= t[off + m].pts_ns);
                }
            }
        },
        None => {},
    }
}

/// Eviction keeps, of the video, exactly its recent part: what stays is a
/// suffix, every segment it drops lies more than the window before the
/// newest decoding time, the oldest segment it keeps does not, and when
/// decoding times arrive in order every kept segment lies within the window.
pub proof fn lemma_video_eviction_keeps_window(v: ReplayView)
    ensures
        ({
            let w = window_ns(v.duration) as int;
            let t = v.video;
            let e = evict_spec(v).video;
            &&& e.len() <= t.len()
            &&& e == t.subrange(t.len() - e.len(), t.len() as int)
            &&& v.newest_video_dts matches Some(n) ==> {
                &&& forall|m: int| 0 <= m < t.len() - e.len() ==> (#[trigger] t[m]).dts_ns + w < n
                &&& e.len() > 0 ==> e[0].dts_ns + w >= n
                &&& (forall|a: int, b: int| 0 <= a <= b < t.len() ==> (#[trigger] t[a]).dts_ns <= (#[trigger] t[b]).dts_ns)
                    ==> forall|m: int| 0 <= m < e.len() ==> (#[trigger] e[m]).dts_ns + w >= n
            }
            &&& v.newest_video_dts is None ==> e == t
        }),
{
    let wn = window_ns(v.duration);
    let t = v.video;
    match v.newest_video_dts {
        Some(n) => {
            let cutoff = sat_sub(n, wn);
            lemma_eviction_keeps_recent_suffix(t, cutoff, true);
            let e = drop_front_before(t, cutoff, true);
            if forall|a: int, b: int| 0 <= a <= b < t.len() ==> (#[trigger] t[a]).dts_ns <= (#[trigger] t[b]).dts_ns {
                assert forall|m: int| 0 <= m < e.len() implies (#[trigger] e[m]).dts_ns + wn >= n by {
                    let off = t.len() - e.len();
                    assert(e[m] == t[off + m]);
                    assert(e[0] == t[off]);
                    assert(t[off].dts_ns <= t[off + m].dts_ns);
                }
            }
        },
        None => {
            assert(t.subrange(0, t.len() as int) =~= t);
        },
    }
}

/// A normalized clip starts at a keyframe at time zero (when it holds any
/// video), and keeps the spacing of the timestamps that lie after its start.
pub proof fn lemma_normalized_clip_starts_at_keyframe(s: Seq<SegmentView>)
    ensures
        ({
            let n = normalized_video(s);
            &&& n.len() > 0 ==> n[0].keyframe && n[0].pts_ns == 0
            &&& n.len() <= s.len()
            &&& (exists|i: int| 0 <= i < s.len() && s[i].keyframe) ==> n.len() > 0
        }),
{
    lemma_first_keyframe_from(s, 0);
    let k = first_keyframe_from(s, 0);
    if exists|i: int| 0 <= i < s.len() && s[i].keyframe {
        let i = choose|i: int| 0 <= i < s.len() && s[i].keyframe;
        assert(k <= i);
    }
}

/// `location` with every backslash doubled, for a quoted property value in
/// a pipeline description.
pub open spec fn escape_location_spec(s: Seq<char>) -> Seq<char>
    decreases s.len(),
{
    if s.len() == 0 {
        Seq::empty()
    } else {
        escape_location_spec(s.drop_last()) + (if s.last() == '\\' { seq!['\\', '\\'] } else { seq![s.last()] })
    }
}

/// Escape a location string for embedding into a pipeline description:
/// `\` is an escape character in quoted property values, which would
/// otherwise mangle Windows paths.
pub fn escape_location(location: &str) -> (r: String)
    ensures
        r@ == escape_location_spec(location@),
{
    let mut out = String::new();
    let n = location.unicode_len();
    let mut i: usize = 0;
    while i < n
        invariant
            n == location@.len(),
            i <= n,
            out@ == escape_location_spec(location@.subrange(0, i as int)),
        decreases n - i,
    {
        let c = location.get_char(i);
        proof {
            assert(location@.subrange(0, i + 1).drop_last() =~= location@.subrange(0, i as int));
        }
        if c == '\\' {
            crate::text::push_char(&mut out, '\\');
            crate::text::push_char(&mut out, '\\');
        } else {
            crate::text::push_char(&mut out, c);
        }
        proof {
            assert(out@ =~= escape_location_spec(location@.subrange(0, i + 1)));
        }
        i = i + 1;
    }
    proof {
        assert(location@.subrange(0, n as int) =~= location@);
    }
    out
}

} // verus!
