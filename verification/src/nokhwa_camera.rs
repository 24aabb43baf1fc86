//! Camera indices, the window of recent frame times, the pacing decisions of
//! the capture loop, and the handle that stops it.
use vstd::prelude::*;
use std::sync::Arc;
use vstd::std_specs::cmp::PartialEqSpec;
use std::sync::atomic::{AtomicBool, Ordering};
use crate::text::{decimal_string, decimal_text, lemma_decimal_text_injective};

verus! {

/// Where a camera backend finds a device: by number or by name.
#[derive(Debug, Clone)]
pub enum DeviceIndex {
    Index(u32),
    String(String),
}

impl DeviceIndex {
    /// The text of the index: the decimal digits of a number, or the name.
    pub open spec fn text(&self) -> Seq<char> {
        match self {
            DeviceIndex::Index(i) => decimal_text(*i as nat),
            DeviceIndex::String(s) => s@,
        }
    }

    /// The text of the index, as the backend renders it.
    pub fn as_string(&self) -> (text: String)
        ensures
            text@ == self.text(),
    {
        match self {
            DeviceIndex::Index(i) => decimal_string(*i as u64),
            DeviceIndex::String(s) => s.clone(),
        }
    }
}

/// A camera as the user interface names it: the text of its device index.
#[derive(Debug, Clone, Eq)]
pub struct CameraIndex(pub String);

impl CameraIndex {
    /// The text shown for this camera.
    pub fn display_text(&self) -> (text: String)
        ensures
            text@ == self.0@,
    {
        self.0.clone()
    }
}

impl PartialEq for CameraIndex {
    fn eq(&self, other: &CameraIndex) -> (r: bool) {
        self.0 == other.0
    }
}

impl vstd::std_specs::cmp::PartialEqSpecImpl for CameraIndex {
    open spec fn obeys_eq_spec() -> bool {
        true
    }

    open spec fn eq_spec(&self, other: &CameraIndex) -> bool {
        self.0@ == other.0@
    }
}

impl PartialEq<DeviceIndex> for CameraIndex {
    /// A camera matches a device index when its text is the index's text.
    fn eq(&self, other: &DeviceIndex) -> (r: bool) {
        match other {
            DeviceIndex::Index(i) => decimal_string(*i as u64) == self.0,
            DeviceIndex::String(s) => self.0 == *s,
        }
    }
}

impl vstd::std_specs::cmp::PartialEqSpecImpl<DeviceIndex> for CameraIndex {
    open spec fn obeys_eq_spec() -> bool {
        true
    }

    open spec fn eq_spec(&self, other: &DeviceIndex) -> bool {
        self.0@ == other.text()
    }
}

impl From<DeviceIndex> for CameraIndex {
    /// The camera named by the text of a device index.
    fn from(value: DeviceIndex) -> (r: Self)
        ensures
            r.0@ == value.text(),
    {
        CameraIndex(value.as_string())
    }
}

/// The camera made from a numeric index holds a freshly rendered `String`,
/// of which only the characters are known (`from` states them), so no spec
/// value can stand for it: the trait's clause is not used for this direction.
impl vstd::std_specs::convert::FromSpecImpl<DeviceIndex> for CameraIndex {
    open spec fn obeys_from_spec() -> bool {
        false
    }

    open spec fn from_spec(v: DeviceIndex) -> Self {
        arbitrary()
    }
}

impl From<CameraIndex> for DeviceIndex {
    /// The device index that looks a camera up by its name.
    fn from(value: CameraIndex) -> (r: Self)
        ensures
            r matches DeviceIndex::String(s) && s@ == value.0@,
    {
        DeviceIndex::String(value.0)
    }
}

impl vstd::std_specs::convert::FromSpecImpl<CameraIndex> for DeviceIndex {
    open spec fn obeys_from_spec() -> bool {
        true
    }

    /// A camera becomes the device index that looks it up by its name.
    open spec fn from_spec(v: CameraIndex) -> Self {
        DeviceIndex::String(v.0)
    }
}

/// A camera made from a device index matches that index.
pub proof fn lemma_camera_from_device_matches(device: DeviceIndex, camera: CameraIndex)
    requires
        camera.0@ == device.text(),
    ensures
        camera.eq_spec(&device),
{
}

/// The device index made from a camera looks up a device that the camera
/// matches.
pub proof fn lemma_device_from_camera_matches(camera: CameraIndex, device: DeviceIndex)
    requires
        device matches DeviceIndex::String(s) && s@ == camera.0@,
    ensures
        camera.eq_spec(&device),
{
}

/// A camera matches at most one numeric device index.
pub proof fn lemma_numeric_match_unique(camera: CameraIndex, a: u32, b: u32)
    requires
        camera.eq_spec(&DeviceIndex::Index(a)),
        camera.eq_spec(&DeviceIndex::Index(b)),
    ensures
        a == b,
{
    lemma_decimal_text_injective(a as nat, b as nat);
}

/// How many recent frame times the window keeps.
pub const FRAME_WINDOW: usize = 60;

/// The state of a ring of frame times: the slots, the slot the next time
/// goes to, and how many slots hold times since the last clearing.
pub type RingState = (Seq<u64>, int, int);

/// The state after recording `time` in `ring`: it goes to the next slot, the
/// next slot moves on round the ring, and the count grows up to the ring's size.
pub open spec fn ring_push(ring: RingState, time: u64) -> RingState {
    let (slots, next, count) = ring;
    (
        slots.update(next, time),
        (next + 1) % (FRAME_WINDOW as int),
        if count < FRAME_WINDOW as int {
            count + 1
        } else {
            count
        },
    )
}

/// The state after recording each of `times` in order, starting from a
/// cleared ring whose slots hold `slots`.
pub open spec fn ring_replay(slots: Seq<u64>, times: Seq<u64>) -> RingState
    decreases times.len(),
{
    if times.len() == 0 {
        (slots, 0, 0)
    } else {
        ring_push(ring_replay(slots, times.drop_last()), times.last())
    }
}

/// The times that the ring counts: the first `count` slots.
pub open spec fn ring_window(ring: RingState) -> Seq<u64> {
    ring.0.take(ring.2)
}

/// The sum of a sequence of times.
pub open spec fn time_sum(times: Seq<u64>) -> int
    decreases times.len(),
{
    if times.len() == 0 {
        0
    } else {
        time_sum(times.drop_last()) + times.last()
    }
}

/// The last `FRAME_WINDOW` of `times`, or all of them if there are fewer.
pub open spec fn most_recent(times: Seq<u64>) -> Seq<u64> {
    if times.len() <= FRAME_WINDOW as int {
        times
    } else {
        times.subrange(times.len() - FRAME_WINDOW as int, times.len() as int)
    }
}

/// A ring of the last sixty frame times (nanoseconds each), from which the
/// capture loop derives its frame rate.
pub struct FrameTimeBuffer {
    times: Vec<u64>,
    index: usize,
    count: usize,
}

impl FrameTimeBuffer {
    /// The ring state the buffer holds.
    pub closed spec fn state(&self) -> RingState {
        (self.times@, self.index as int, self.count as int)
    }

    /// The slots are the ring's size, the next slot is one of them, the count
    /// is at most the size, and while the ring is not full the next slot is
    /// the one after the counted ones.
    pub closed spec fn wf(&self) -> bool {
        &&& self.times@.len() == FRAME_WINDOW
        &&& self.index < FRAME_WINDOW
        &&& self.count <= FRAME_WINDOW
        &&& self.count < FRAME_WINDOW ==> self.index == self.count
    }

    /// An empty ring whose slots hold zero.
    pub fn new() -> (buffer: Self)
        ensures
            buffer.wf(),
            buffer.state() == (Seq::new(FRAME_WINDOW as nat, |i: int| 0u64), 0int, 0int),
    {
        let buffer = FrameTimeBuffer { times: vec![0u64; FRAME_WINDOW], index: 0, count: 0 };
        assert(buffer.times@ =~= Seq::new(FRAME_WINDOW as nat, |i: int| 0u64));
        buffer
    }

    /// Records the time of one frame.
    pub fn push(&mut self, time: u64)
        requires
            old(self).wf(),
        ensures
            final(self).wf(),
            final(self).state() == ring_push(old(self).state(), time),
    {
        self.times.set(self.index, time);
        self.index = (self.index + 1) % FRAME_WINDOW;
        if self.count < FRAME_WINDOW {
            self.count += 1;
        }
    }

    /// Forgets the recorded times; the slots keep their stale values.
    pub fn clear(&mut self)
        requires
            old(self).wf(),
        ensures
            final(self).wf(),
            final(self).state() == (old(self).state().0, 0int, 0int),
    {
        self.index = 0;
        self.count = 0;
    }

    /// How many times are recorded.
    pub fn count(&self) -> (n: usize)
        ensures
            n == self.state().2,
    {
        self.count
    }

    /// The sum of the recorded times.
    pub fn total(&self) -> (sum: u128)
        requires
            self.wf(),
        ensures
            sum == time_sum(ring_window(self.state())),
    {
        let mut sum: u128 = 0;
        let mut i: usize = 0;
        while i < self.count
            invariant
                self.wf(),
                i <= self.count,
                sum == time_sum(self.times@.take(i as int)),
                sum <= i * (u64::MAX as int),
            decreases self.count - i,
        {
            proof {
                assert(self.times@.take(i + 1).drop_last() =~= self.times@.take(i as int));
            }
            sum = sum + self.times[i] as u128;
            i = i + 1;
        }
        sum
    }
}

/// The sum of two sequences of times joined is the sum of their sums.
pub proof fn lemma_time_sum_concat(a: Seq<u64>, b: Seq<u64>)
    ensures
        time_sum(a + b) == time_sum(a) + time_sum(b),
    decreases b.len(),
{
    if b.len() == 0 {
        assert(a + b =~= a);
    } else {
        lemma_time_sum_concat(a, b.drop_last());
        assert((a + b).drop_last() =~= a + b.drop_last());
    }
}

/// What replaying times into a ring leaves: while fewer than the ring's size
/// were recorded they sit in order in the first slots; after that the slots
/// hold the most recent ones, rotated so that the oldest is in the next slot.
pub open spec fn ring_holds(ring: RingState, times: Seq<u64>) -> bool {
    let (slots, next, count) = ring;
    let n = FRAME_WINDOW as int;
    &&& slots.len() == n
    &&& 0 <= next < n
    &&& if times.len() < n {
        &&& count == times.len()
        &&& next == count
        &&& slots.take(count) == times
    } else {
        &&& count == n
        &&& forall|k: int| 0 <= k < n ==> #[trigger] slots[(next + k) % n] == most_recent(times)[k]
    }
}

/// After `times` are pushed, one by one, into a ring just made or cleared
/// (whatever its stale slots held), the next slot is the number of pushes
/// modulo the ring's size, and the slots hold the pushed times as
/// `ring_holds` says: in order while fewer than sixty were pushed, and
/// otherwise the last sixty, the oldest in the next slot.
pub proof fn lemma_ring_replay_holds(slots: Seq<u64>, times: Seq<u64>)
    requires
        slots.len() == FRAME_WINDOW,
    ensures
        ring_holds(ring_replay(slots, times), times),
        ring_replay(slots, times).1 == (times.len() as int) % (FRAME_WINDOW as int),
    decreases times.len(),
{
    let n = FRAME_WINDOW as int;
    if times.len() > 0 {
        lemma_ring_replay_holds(slots, times.drop_last());
        let bi = ring_replay(slots, times.drop_last()).1;
        assert(bi == (times.len() - 1) % n);
        assert((bi + 1) % n == (times.len() as int) % n);
    }
    if times.len() == 0 {
        assert(slots.take(0) =~= times);
    } else {
        let prev = times.drop_last();
        let t = times.last();
        lemma_ring_replay_holds(slots, prev);
        let before = ring_replay(slots, prev);
        let after = ring_replay(slots, times);
        assert(after == ring_push(before, t));
        let (bs, bi, bc) = before;
        let (as_, ai, ac) = after;
        if prev.len() < n - 1 {
            assert(bi == bc && ac == bc + 1);
            assert forall|j: int| 0 <= j < ac implies #[trigger] as_.take(ac)[j] == times[j] by {
                if j < bc {
                    assert(bs.take(bc)[j] == prev[j]);
                }
            }
            assert(as_.take(ac) =~= times);
        } else if prev.len() == n - 1 {
            assert(bi == n - 1);
            assert(ai == 0);
            assert(most_recent(times) == times);
            assert forall|k: int| 0 <= k < n implies #[trigger] as_[(ai + k) % n] == most_recent(times)[k] by {
                assert((ai + k) % n == k);
                if k < n - 1 {
                    assert(bs.take(bc)[k] == prev[k]);
                }
            }
        } else {
            let old_recent = most_recent(prev);
            let new_recent = most_recent(times);
            assert(new_recent =~= old_recent.drop_first().push(t));
            assert(ai == (bi + 1) % n);
            assert forall|k: int| 0 <= k < n implies #[trigger] as_[(ai + k) % n] == new_recent[k] by {
                assert((ai + k) % n == (bi + (k + 1)) % n);
                if k < n - 1 {
                    assert((bi + (k + 1)) % n != bi);
                    assert(bs[(bi + (k + 1)) % n] == old_recent[k + 1]);
                } else {
                    assert((bi + (k + 1)) % n == bi);
                }
            }
        }
    }
}

/// After recording any times into a cleared ring, whatever its stale slots
/// held, the ring counts the most recent sixty of them (all, if fewer): the
/// counted slots hold exactly those times, in some order, and their sum is
/// the sum of those times.
pub proof fn lemma_ring_window_sum(slots: Seq<u64>, times: Seq<u64>)
    requires
        slots.len() == FRAME_WINDOW,
    ensures
        ring_replay(slots, times).2 == most_recent(times).len(),
        ring_window(ring_replay(slots, times)).to_multiset() == most_recent(times).to_multiset(),
        time_sum(ring_window(ring_replay(slots, times))) == time_sum(most_recent(times)),
{
    let n = FRAME_WINDOW as int;
    lemma_ring_replay_holds(slots, times);
    let ring = ring_replay(slots, times);
    let (rs, ri, rc) = ring;
    if times.len() < n {
        assert(ring_window(ring) == times);
    } else {
        let recent = most_recent(times);
        let m = n - ri;
        let rotated = recent.subrange(m, n) + recent.subrange(0, m);
        assert forall|j: int| 0 <= j < n implies rs[j] == rotated[j] by {
            if j < ri {
                let k = j + m;
                assert((ri + k) % n == j);
                assert(rs[(ri + k) % n] == recent[k]);
            } else {
                let k = j - ri;
                assert((ri + k) % n == j);
                assert(rs[(ri + k) % n] == recent[k]);
            }
        }
        assert(ring_window(ring) =~= rotated);
        vstd::seq_lib::lemma_seq_union_to_multiset_commutative(recent.subrange(m, n), recent.subrange(0, m));
        lemma_time_sum_concat(recent.subrange(m, n), recent.subrange(0, m));
        lemma_time_sum_concat(recent.subrange(0, m), recent.subrange(m, n));
        assert(recent.subrange(0, m) + recent.subrange(m, n) =~= recent);
    }
}

/// A pixel format to ask the camera for, in the library's order of preference.
#[derive(Debug, Clone, Copy, PartialEq, Eq, Structural)]
pub enum FormatRequest {
    /// Four bytes per pixel: only the channels need reordering.
    Rgba,
    /// Three bytes per pixel: needs an alpha byte added.
    Rgb,
    /// Packed YUV 4:2:2.
    Yuyv,
}

/// The order in which formats are tried: RGBA, then RGB, then YUYV.
pub open spec fn format_preference() -> Seq<FormatRequest> {
    seq![FormatRequest::Rgba, FormatRequest::Rgb, FormatRequest::Yuyv]
}

/// The format to try after `failed` formats were refused, each at the highest
/// resolution the camera offers; `None` once every format was refused.
pub fn next_format(failed: usize) -> (format: Option<FormatRequest>)
    ensures
        failed < format_preference().len() ==> format == Some(format_preference()[failed as int]),
        failed >= format_preference().len() ==> format is None,
{
    if failed == 0 {
        Some(FormatRequest::Rgba)
    } else if failed == 1 {
        Some(FormatRequest::Rgb)
    } else if failed == 2 {
        Some(FormatRequest::Yuyv)
    } else {
        None
    }
}

/// The error reported when no format could be opened.
pub fn no_format_message() -> (message: String)
    ensures
        message@ == "No se pudo crear la cámara con ningún formato soportado"@,
{
    String::from_str("No se pudo crear la cámara con ningún formato soportado")
}

/// Nanoseconds the capture loop aims to spend on each frame (about 60 per second).
pub const TARGET_FRAME_NANOS: u128 = 16_000_000;

/// The shortest pause worth sleeping for, in nanoseconds.
pub const MIN_SLEEP_NANOS: u128 = 500_000;

/// How often, in nanoseconds, the reported frame rate is recomputed.
pub const FPS_REFRESH_NANOS: u128 = 1_000_000_000;

/// The frame count and total frame time (nanoseconds) that a frame-rate
/// figure is computed from: frames per second is `frames / (total / 1e9)`,
/// and zero when no frame was counted.
#[derive(Debug, Clone, Copy, PartialEq, Eq, Structural)]
pub struct FpsSample {
    pub frames: usize,
    pub total_nanos: u128,
}

/// How long the capture loop sleeps after a frame whose capture and
/// rendering took `processing_nanos`: the rest of the frame period, if that
/// is more than the smallest pause worth taking.
pub fn sleep_after(processing_nanos: u128) -> (pause: Option<u128>)
    ensures
        pause matches Some(p) ==> processing_nanos < TARGET_FRAME_NANOS
            && p == TARGET_FRAME_NANOS - processing_nanos && p > MIN_SLEEP_NANOS,
        pause is None ==> processing_nanos >= TARGET_FRAME_NANOS
            || TARGET_FRAME_NANOS - processing_nanos <= MIN_SLEEP_NANOS,
{
    if processing_nanos < TARGET_FRAME_NANOS {
        let pause = TARGET_FRAME_NANOS - processing_nanos;
        if pause > MIN_SLEEP_NANOS {
            return Some(pause);
        }
    }
    None
}

/// The decisions of the capture loop: which frame times count towards the
/// frame rate, and when the reported rate is recomputed.
pub struct StreamPacer {
    frame_times: FrameTimeBuffer,
    last_fps_update_nanos: u128,
    cached: FpsSample,
}

impl StreamPacer {
    /// The buffer is well formed.
    pub closed spec fn wf(&self) -> bool {
        self.frame_times.wf()
    }

    /// The ring of recent frame times.
    pub closed spec fn ring(&self) -> RingState {
        self.frame_times.state()
    }

    /// When (nanoseconds since the stream started) the rate was last recomputed.
    pub closed spec fn last_update(&self) -> u128 {
        self.last_fps_update_nanos
    }

    /// The figures the reported rate was last computed from.
    pub closed spec fn cached_sample(&self) -> FpsSample {
        self.cached
    }

    /// A pacer for a stream starting now (time zero), with no frame times and
    /// a reported rate of zero.
    pub fn new() -> (pacer: Self)
        ensures
            pacer.wf(),
            pacer.ring() == (Seq::new(FRAME_WINDOW as nat, |i: int| 0u64), 0int, 0int),
            pacer.last_update() == 0,
            pacer.cached_sample() == (FpsSample { frames: 0, total_nanos: 0 }),
    {
        StreamPacer {
            frame_times: FrameTimeBuffer::new(),
            last_fps_update_nanos: 0,
            cached: FpsSample { frames: 0, total_nanos: 0 },
        }
    }

    /// Takes the outcome of one capture: the time of a good frame is
    /// recorded; a failed capture forgets the recorded times.
    pub fn record_frame(&mut self, frame_nanos: Option<u64>)
        requires
            old(self).wf(),
        ensures
            final(self).wf(),
            final(self).ring() == (match frame_nanos {
                Some(t) => ring_push(old(self).ring(), t),
                None => (old(self).ring().0, 0int, 0int),
            }),
            final(self).last_update() == old(self).last_update(),
            final(self).cached_sample() == old(self).cached_sample(),
    {
        match frame_nanos {
            Some(t) => self.frame_times.push(t),
            None => self.frame_times.clear(),
        }
    }

    /// At time `now_nanos`, recomputes the reported rate from the recorded
    /// times if a full second has passed since it was last recomputed, and
    /// says whether it did.
    pub fn refresh(&mut self, now_nanos: u128) -> (refreshed: bool)
        requires
            old(self).wf(),
        ensures
            final(self).wf(),
            final(self).ring() == old(self).ring(),
            (refreshed, final(self).last_update()) == refresh_step(old(self).last_update(), now_nanos),
            refreshed ==> final(self).cached_sample() == (
            FpsSample {
                frames: old(self).ring().2 as usize,
                total_nanos: time_sum(ring_window(old(self).ring())) as u128,
            }),
            !refreshed ==> final(self).cached_sample() == old(self).cached_sample(),
    {
        if now_nanos >= self.last_fps_update_nanos && now_nanos - self.last_fps_update_nanos
            >= FPS_REFRESH_NANOS {
            self.cached = FpsSample {
                frames: self.frame_times.count(),
                total_nanos: self.frame_times.total(),
            };
            self.last_fps_update_nanos = now_nanos;
            true
        } else {
            false
        }
    }

    /// The figures of the currently reported frame rate.
    pub fn fps_sample(&self) -> (sample: FpsSample)
        ensures
            sample == self.cached_sample(),
    {
        self.cached
    }
}

/// Whether the frame rate is recomputed at `now` when it was last
/// recomputed at `last`, and the new time of the last recomputation.
pub open spec fn refresh_step(last: u128, now: u128) -> (bool, u128) {
    if now >= last && now - last >= FPS_REFRESH_NANOS {
        (true, now)
    } else {
        (false, last)
    }
}

/// Two successive recomputations of the frame rate, at `first` and then at
/// `second`, are at least a second apart: the reported rate changes at most
/// once a second.
pub proof fn lemma_refresh_spacing(last: u128, first: u128, second: u128)
    requires
        refresh_step(last, first).0,
        refresh_step(refresh_step(last, first).1, second).0,
    ensures
        second >= first + FPS_REFRESH_NANOS,
{
}

/// What the pacer's contracts speak of: its ring of frame times, when the
/// rate was last recomputed, and the figures it was computed from.
pub type PacerState = (RingState, u128, FpsSample);

/// A pacer just made (see `StreamPacer::new`).
pub open spec fn pacer_start() -> PacerState {
    ((Seq::new(FRAME_WINDOW as nat, |i: int| 0u64), 0int, 0int), 0u128, FpsSample { frames: 0, total_nanos: 0 })
}

/// The figures a rate is computed from for the given frame times.
pub open spec fn figures(times: Seq<u64>) -> FpsSample {
    FpsSample { frames: times.len() as usize, total_nanos: time_sum(times) as u128 }
}

/// One turn of the capture loop: the outcome of the capture is recorded (see
/// `StreamPacer::record_frame`), then the rate is refreshed at `now` (see
/// `StreamPacer::refresh`).
pub open spec fn pacer_step(state: PacerState, outcome: Option<u64>, now: u128) -> PacerState {
    let (ring, last, cached) = state;
    let ring_after = match outcome {
        Some(t) => ring_push(ring, t),
        None => (ring.0, 0int, 0int),
    };
    let (refreshed, last_after) = refresh_step(last, now);
    (
        ring_after,
        last_after,
        if refreshed {
            FpsSample { frames: ring_after.2 as usize, total_nanos: time_sum(ring_window(ring_after)) as u128 }
        } else {
            cached
        },
    )
}

/// The pacer after a run of turns, each the outcome of a capture (a frame
/// time, or `None` for a failed capture) and the clock reading after it.
pub open spec fn pacer_run(state: PacerState, turns: Seq<(Option<u64>, u128)>) -> PacerState
    decreases turns.len(),
{
    if turns.len() == 0 {
        state
    } else {
        pacer_step(pacer_run(state, turns.drop_last()), turns.last().0, turns.last().1)
    }
}

/// The frame times of the good captures since the last failed one.
pub open spec fn times_since_failure(turns: Seq<(Option<u64>, u128)>) -> Seq<u64>
    decreases turns.len(),
{
    if turns.len() == 0 {
        Seq::empty()
    } else {
        match turns.last().0 {
            Some(t) => times_since_failure(turns.drop_last()).push(t),
            None => Seq::empty(),
        }
    }
}

/// Turn `k` of a run from a new pacer recomputed the rate.
pub open spec fn refreshed_at(turns: Seq<(Option<u64>, u128)>, k: int) -> bool {
    refresh_step(pacer_run(pacer_start(), turns.take(k)).1, turns[k].1).0
}

/// After any run of turns from a new pacer, its ring is the one that pushing
/// the times since the last failure into a cleared ring gives, over some
/// stale slots.
proof fn lemma_pacer_ring(turns: Seq<(Option<u64>, u128)>)
    ensures
        exists|slots: Seq<u64>| slots.len() == FRAME_WINDOW && #[trigger] ring_replay(slots, times_since_failure(turns))
            == pacer_run(pacer_start(), turns).0,
    decreases turns.len(),
{
    if turns.len() == 0 {
        let slots = Seq::new(FRAME_WINDOW as nat, |i: int| 0u64);
        assert(ring_replay(slots, times_since_failure(turns)) == pacer_run(pacer_start(), turns).0);
    } else {
        let prefix = turns.drop_last();
        lemma_pacer_ring(prefix);
        let slots = choose|slots: Seq<u64>| slots.len() == FRAME_WINDOW && #[trigger] ring_replay(slots, times_since_failure(prefix))
            == pacer_run(pacer_start(), prefix).0;
        let before = pacer_run(pacer_start(), prefix).0;
        match turns.last().0 {
            Some(t) => {
                let times = times_since_failure(turns);
                assert(times.drop_last() =~= times_since_failure(prefix));
                assert(ring_replay(slots, times) == pacer_run(pacer_start(), turns).0);
            },
            None => {
                lemma_ring_replay_holds(slots, times_since_failure(prefix));
                assert(ring_replay(before.0, times_since_failure(turns)) == pacer_run(pacer_start(), turns).0);
            },
        }
    }
}

/// The frame rate a capture loop reports: after any run of turns from a new
/// pacer, the ring counts exactly the most recent sixty frame times since the
/// last failed capture (all of them, if fewer); the reported figures are zero
/// while no turn has recomputed the rate, and otherwise are the figures of
/// those times as they stood at the last turn that recomputed it.
pub proof fn lemma_pacer_reports_recent_frames(turns: Seq<(Option<u64>, u128)>)
    ensures
        ring_window(pacer_run(pacer_start(), turns).0).to_multiset() == most_recent(times_since_failure(turns)).to_multiset(),
        time_sum(ring_window(pacer_run(pacer_start(), turns).0)) == time_sum(most_recent(times_since_failure(turns))),
        (forall|k: int| 0 <= k < turns.len() ==> !#[trigger] refreshed_at(turns, k)) ==> pacer_run(pacer_start(), turns).2
            == (FpsSample { frames: 0, total_nanos: 0 }),
        forall|k: int|
            0 <= k < turns.len() && #[trigger] refreshed_at(turns, k) && (forall|j: int| k < j < turns.len() ==> !#[trigger] refreshed_at(turns, j))
                ==> pacer_run(pacer_start(), turns).2 == figures(most_recent(times_since_failure(turns.take(k + 1)))),
    decreases turns.len(),
{
    lemma_pacer_window(turns);
    if turns.len() > 0 {
        let n = turns.len() - 1;
        let prefix = turns.drop_last();
        lemma_pacer_reports_recent_frames(prefix);
        assert(turns.take(n) =~= prefix);
        assert forall|k: int| 0 <= k < n implies #[trigger] refreshed_at(turns, k) == refreshed_at(prefix, k) by {
            assert(turns.take(k) =~= prefix.take(k));
            assert(turns[k] == prefix[k]);
        }
        assert(turns.take(n + 1) =~= turns);
        let fin = pacer_run(pacer_start(), turns).2;
        assert forall|k: int|
            0 <= k < turns.len() && #[trigger] refreshed_at(turns, k) && (forall|j: int| k < j < turns.len() ==> !#[trigger] refreshed_at(turns, j))
                implies fin == figures(most_recent(times_since_failure(turns.take(k + 1)))) by {
            if k < n {
                assert(!refreshed_at(turns, n));
                assert(refreshed_at(prefix, k));
                assert forall|j: int| k < j < prefix.len() implies !#[trigger] refreshed_at(prefix, j) by {
                    assert(!refreshed_at(turns, j));
                }
                assert(turns.take(k + 1) =~= prefix.take(k + 1));
            }
        }
        if forall|k: int| 0 <= k < turns.len() ==> !#[trigger] refreshed_at(turns, k) {
            assert(!refreshed_at(turns, n));
            assert forall|k: int| 0 <= k < prefix.len() implies !#[trigger] refreshed_at(prefix, k) by {
                assert(!refreshed_at(turns, k));
            }
        }
    }
}

/// Over any run of turns from a new pacer, any two turns that recompute the
/// rate, the earlier at index `i` and the later at `j`, read the clock at
/// least a second apart: the reported rate changes at most once a second.
pub proof fn lemma_pacer_refresh_spacing(turns: Seq<(Option<u64>, u128)>)
    ensures
        forall|i: int| 0 <= i < turns.len() && #[trigger] refreshed_at(turns, i) ==> turns[i].1
            <= pacer_run(pacer_start(), turns).1,
        forall|i: int, j: int|
            0 <= i < j < turns.len() && #[trigger] refreshed_at(turns, i) && #[trigger] refreshed_at(turns, j)
                ==> turns[j].1 >= turns[i].1 + FPS_REFRESH_NANOS,
    decreases turns.len(),
{
    if turns.len() > 0 {
        let n = turns.len() - 1;
        let prefix = turns.drop_last();
        lemma_pacer_refresh_spacing(prefix);
        assert(turns.take(n) =~= prefix);
        assert forall|k: int| 0 <= k < n implies #[trigger] refreshed_at(turns, k) == refreshed_at(prefix, k)
            && turns[k] == prefix[k] by {
            assert(turns.take(k) =~= prefix.take(k));
        }
        let before = pacer_run(pacer_start(), prefix).1;
        assert(turns.last() == turns[n]);
        assert forall|i: int| 0 <= i < turns.len() && #[trigger] refreshed_at(turns, i) implies turns[i].1
            <= pacer_run(pacer_start(), turns).1 by {
            if i < n {
                assert(refreshed_at(prefix, i));
            }
        }
        assert forall|i: int, j: int|
            0 <= i < j < turns.len() && #[trigger] refreshed_at(turns, i) && #[trigger] refreshed_at(turns, j)
                implies turns[j].1 >= turns[i].1 + FPS_REFRESH_NANOS by {
            assert(refreshed_at(prefix, i));
            if j < n {
                assert(refreshed_at(prefix, j));
            }
        }
    }
}

/// The ring after any run counts the most recent times since the last
/// failure, with their sum.
proof fn lemma_pacer_window(turns: Seq<(Option<u64>, u128)>)
    ensures
        pacer_run(pacer_start(), turns).0.2 == most_recent(times_since_failure(turns)).len(),
        ring_window(pacer_run(pacer_start(), turns).0).to_multiset() == most_recent(times_since_failure(turns)).to_multiset(),
        time_sum(ring_window(pacer_run(pacer_start(), turns).0)) == time_sum(most_recent(times_since_failure(turns))),
{
    lemma_pacer_ring(turns);
    let slots = choose|slots: Seq<u64>| slots.len() == FRAME_WINDOW && #[trigger] ring_replay(slots, times_since_failure(turns))
        == pacer_run(pacer_start(), turns).0;
    lemma_ring_window_sum(slots, times_since_failure(turns));
}

/// Stops a running capture loop: the loop checks the flag after each frame.
pub struct CameraAbort(Arc<AtomicBool>);

impl CameraAbort {
    /// The flag the loop watches.
    pub closed spec fn flag(&self) -> Arc<AtomicBool> {
        self.0
    }

    /// A handle on the loop that watches `flag`.
    pub fn new(flag: Arc<AtomicBool>) -> (handle: Self)
        ensures
            handle.flag() == flag,
    {
        CameraAbort(flag)
    }

    /// Asks the loop to stop after its current frame.
    pub fn abort(self) {
        self.0.store(true, Ordering::Release);
    }

    /// Whether the loop was asked to stop.
    pub fn is_aborted(&self) -> (stopped: bool) {
        self.0.load(Ordering::Acquire)
    }
}

/// `AtomicBool::store` of `true` with relaxed ordering, which std documents
/// to panic only for acquire orderings: it opens no invariant and does not
/// unwind. Nothing is claimed of the flag's value, which other threads share.
#[verifier::external_body]
fn raise_flag_relaxed(flag: &AtomicBool)
    opens_invariants none
    no_unwind
{
    flag.store(true, Ordering::Relaxed)
}

impl Drop for CameraAbort {
    /// A handle that goes away stops the loop too.
    fn drop(&mut self)
        opens_invariants none
        no_unwind
    {
        raise_flag_relaxed(&self.0);
    }
}

/// What one poll of a wait for the loop to stop decides: done (`true`) once
/// the flag is set, given up (`false`) once more than `timeout_nanos` have
/// passed, and otherwise nothing yet.
pub open spec fn poll_outcome(stopped: bool, elapsed_nanos: u128, timeout_nanos: u128) -> Option<bool> {
    if stopped {
        Some(true)
    } else if elapsed_nanos > timeout_nanos {
        Some(false)
    } else {
        None
    }
}

/// One poll of a wait for the loop to stop (see `poll_outcome`); `None`
/// means wait a millisecond and poll again.
pub fn completion_poll(stopped: bool, elapsed_nanos: u128, timeout_nanos: u128) -> (r: Option<bool>)
    ensures
        r == poll_outcome(stopped, elapsed_nanos, timeout_nanos),
{
    if stopped {
        Some(true)
    } else if elapsed_nanos > timeout_nanos {
        Some(false)
    } else {
        None
    }
}

/// How a wait whose polls saw `polls` (whether the flag was set, and the
/// nanoseconds elapsed) ends: at the first poll that decides, given by its
/// index and its answer; `None` while none has decided.
pub open spec fn wait_outcome(polls: Seq<(bool, u128)>, timeout_nanos: u128) -> Option<(int, bool)>
    decreases polls.len(),
{
    if polls.len() == 0 {
        None
    } else {
        match wait_outcome(polls.drop_last(), timeout_nanos) {
            Some(done) => Some(done),
            None => match poll_outcome(polls.last().0, polls.last().1, timeout_nanos) {
                Some(answer) => Some((polls.len() - 1, answer)),
                None => None,
            },
        }
    }
}

/// The wait ends at the first deciding poll and at no other.
proof fn lemma_wait_outcome_first(polls: Seq<(bool, u128)>, timeout_nanos: u128)
    ensures
        match wait_outcome(polls, timeout_nanos) {
            Some((k, answer)) => 0 <= k < polls.len() && poll_outcome(polls[k].0, polls[k].1, timeout_nanos)
                == Some(answer) && forall|j: int| 0 <= j < k ==> (#[trigger] poll_outcome(polls[j].0, polls[j].1, timeout_nanos)) is None,
            None => forall|j: int| 0 <= j < polls.len() ==> (#[trigger] poll_outcome(polls[j].0, polls[j].1, timeout_nanos)) is None,
        },
    decreases polls.len(),
{
    if polls.len() > 0 {
        let prefix = polls.drop_last();
        lemma_wait_outcome_first(prefix, timeout_nanos);
        assert forall|j: int| 0 <= j < prefix.len() implies prefix[j] == polls[j] by {}
        assert(polls.last() == polls[polls.len() - 1]);
    }
}

/// A wait for the loop to stop ends: when the polls come at least a
/// millisecond apart (poll `i` sees at least `i` milliseconds elapsed), the
/// wait has decided by poll `timeout / 1ms + 1`. It answers `true` exactly
/// when the poll that decides sees the flag set, and every poll before it saw
/// the flag clear and the timeout not yet passed.
pub proof fn lemma_wait_ends(polls: Seq<(bool, u128)>, timeout_nanos: u128)
    requires
        forall|i: int| 0 <= i < polls.len() ==> (#[trigger] polls[i]).1 >= i * 1_000_000,
        polls.len() > timeout_nanos / 1_000_000 + 1,
    ensures
        wait_outcome(polls, timeout_nanos) matches Some((k, answer)) && k <= timeout_nanos / 1_000_000 + 1
            && (answer <==> polls[k].0) && forall|j: int| 0 <= j < k ==> !(#[trigger] polls[j]).0
            && polls[j].1 <= timeout_nanos,
{
    let m: int = timeout_nanos / 1_000_000 + 1;
    assert(m * 1_000_000 > timeout_nanos) by (nonlinear_arith)
        requires m == timeout_nanos / 1_000_000 + 1, timeout_nanos >= 0;
    assert(polls[m].1 >= m * 1_000_000);
    assert(poll_outcome(polls[m].0, polls[m].1, timeout_nanos) is Some);
    lemma_wait_outcome_first(polls, timeout_nanos);
    match wait_outcome(polls, timeout_nanos) {
        Some((k, answer)) => {
            assert(k <= m);
            assert forall|j: int| 0 <= j < k implies !(#[trigger] polls[j]).0 && polls[j].1 <= timeout_nanos by {
                assert(poll_outcome(polls[j].0, polls[j].1, timeout_nanos) is None);
            }
        },
        None => {
            assert(poll_outcome(polls[m].0, polls[m].1, timeout_nanos) is None);
        },
    }
}

} // verus!
