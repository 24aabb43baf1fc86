//! The decisions of the preview application: when the picture on screen is
//! refreshed, how frame errors are counted, reported and acted on, which
//! status line is shown, and which camera a selection names.
use vstd::prelude::*;
use std::time::Instant;
use crate::clock::{instant_now, millis_since_epoch, nanos_since, system_now};
use crate::nokhwa_camera::{CameraIndex, DeviceIndex};
use crate::text::{decimal_text, push_decimal};

verus! {

/// The saturating difference `later - earlier`.
pub open spec fn elapsed(later: int, earlier: int) -> int {
    if later >= earlier {
        later - earlier
    } else {
        0
    }
}

/// The decision of a throttler whose last update was at `last`, asked at
/// `now`: whether the update goes through, and the new time of the last update.
pub open spec fn throttle_step(last: u128, interval: u128, now: u128) -> (bool, u128) {
    if elapsed(now as int, last as int) >= interval {
        (true, now)
    } else {
        (false, last)
    }
}

/// Lets through at most one screen update per interval.
pub struct UiUpdateThrottler {
    origin: Instant,
    last_update_nanos: u128,
    min_interval_nanos: u128,
}

impl UiUpdateThrottler {
    /// When (nanoseconds after the throttler was made) the last update was let through.
    pub closed spec fn last_update(&self) -> u128 {
        self.last_update_nanos
    }

    /// The shortest time between two updates, in nanoseconds.
    pub closed spec fn min_interval(&self) -> u128 {
        self.min_interval_nanos
    }

    /// A throttler letting updates through at most every `min_interval_ms`
    /// milliseconds, counting its creation as the last update.
    pub fn new(min_interval_ms: u64) -> (throttler: Self)
        ensures
            throttler.last_update() == 0,
            throttler.min_interval() == min_interval_ms as int * 1_000_000,
    {
        UiUpdateThrottler {
            origin: instant_now(),
            last_update_nanos: 0,
            min_interval_nanos: (min_interval_ms as u128) * 1_000_000,
        }
    }

    /// Whether an update at time `now_nanos` may go through: it may once the
    /// interval has passed since the last one, which it then becomes.
    pub fn should_update_at(&mut self, now_nanos: u128) -> (update: bool)
        ensures
            (update, final(self).last_update()) == throttle_step(old(self).last_update(), old(self).min_interval(), now_nanos),
            final(self).min_interval() == old(self).min_interval(),
    {
        let since = if now_nanos >= self.last_update_nanos {
            now_nanos - self.last_update_nanos
        } else {
            0
        };
        if since >= self.min_interval_nanos {
            self.last_update_nanos = now_nanos;
            true
        } else {
            false
        }
    }

    /// Whether an update may go through now (see `should_update_at`).
    pub fn should_update(&mut self) -> (update: bool)
        ensures
            exists|now: u128| #[trigger] throttle_step(old(self).last_update(), old(self).min_interval(), now)
                == (update, final(self).last_update()),
            final(self).min_interval() == old(self).min_interval(),
    {
        let now = nanos_since(&self.origin);
        let update = self.should_update_at(now);
        assert(throttle_step(old(self).last_update(), old(self).min_interval(), now) == (update, self.last_update()));
        update
    }
}

/// Two updates let through one after the other, at `first` and then at
/// `second`, are at least the interval apart.
pub proof fn lemma_throttle_spacing(last: u128, interval: u128, first: u128, second: u128)
    requires
        interval > 0,
        throttle_step(last, interval, first).0,
        throttle_step(throttle_step(last, interval, first).1, interval, second).0,
    ensures
        second >= first + interval,
{
}

/// A throttler's decisions over successive clock readings, starting from a
/// last update at `last`, and the time of the last update after them.
pub open spec fn throttle_run(last: u128, interval: u128, readings: Seq<u128>) -> (Seq<bool>, u128)
    decreases readings.len(),
{
    if readings.len() == 0 {
        (Seq::empty(), last)
    } else {
        let (before, at) = throttle_run(last, interval, readings.drop_last());
        let (update, next) = throttle_step(at, interval, readings.last());
        (before.push(update), next)
    }
}

/// Over any run of readings of a throttler with a positive interval, every
/// update let through comes at least the interval after the starting last
/// update (the throttler's creation), and any two updates let through, the
/// earlier at index `i` and the later at `j`, are at least the interval
/// apart; so no two updates fall within one interval.
pub proof fn lemma_throttle_run_spacing(last: u128, interval: u128, readings: Seq<u128>)
    requires
        interval > 0,
    ensures
        throttle_run(last, interval, readings).0.len() == readings.len(),
        throttle_run(last, interval, readings).1 >= last,
        forall|i: int| 0 <= i < readings.len() && #[trigger] throttle_run(last, interval, readings).0[i]
            ==> readings[i] >= last + interval && readings[i] <= throttle_run(last, interval, readings).1,
        forall|i: int, j: int|
            0 <= i < j < readings.len() && #[trigger] throttle_run(last, interval, readings).0[i]
                && #[trigger] throttle_run(last, interval, readings).0[j] ==> readings[j] >= readings[i]
                + interval,
    decreases readings.len(),
{
    if readings.len() > 0 {
        let prefix = readings.drop_last();
        lemma_throttle_run_spacing(last, interval, prefix);
        let (before, at) = throttle_run(last, interval, prefix);
        let x = readings.last();
        let (outs, fin) = throttle_run(last, interval, readings);
        assert(outs == before.push(throttle_step(at, interval, x).0));
        assert forall|i: int| 0 <= i < readings.len() && #[trigger] outs[i] implies readings[i] >= last
            + interval && readings[i] <= fin by {
            if i < prefix.len() {
                assert(outs[i] == before[i]);
                assert(readings[i] == prefix[i]);
            }
        }
        assert forall|i: int, j: int|
            0 <= i < j < readings.len() && #[trigger] outs[i] && #[trigger] outs[j] implies readings[j]
                >= readings[i] + interval by {
            assert(outs[i] == before[i]);
            assert(readings[i] == prefix[i]);
            if j < prefix.len() {
                assert(outs[j] == before[j]);
                assert(readings[j] == prefix[j]);
            }
        }
    }
}

/// Milliseconds between two shown frame errors.
pub const ERROR_LOG_INTERVAL_MS: u64 = 2000;

/// Consecutive frame errors after which the camera is stopped.
pub const MAX_CONSECUTIVE_ERRORS: usize = 100;

/// The decision on showing an error at `now_ms` when the last one was shown
/// at `last`: whether to show it, and the new time of the last shown error.
pub open spec fn log_step(last: u64, now_ms: u64) -> (bool, u64) {
    if elapsed(now_ms as int, last as int) >= ERROR_LOG_INTERVAL_MS {
        (true, now_ms)
    } else {
        (false, last)
    }
}

/// Counts frame errors and spaces out the ones that are shown.
pub struct CameraErrorState {
    error_count: usize,
    last_error_time_ms: u64,
}

impl CameraErrorState {
    /// Frame errors since the last good frame (or reset).
    pub closed spec fn count(&self) -> usize {
        self.error_count
    }

    /// When (milliseconds since the epoch) an error was last shown.
    pub closed spec fn last_shown(&self) -> u64 {
        self.last_error_time_ms
    }

    /// No errors counted, none shown yet.
    pub fn new() -> (state: Self)
        ensures
            state.count() == 0,
            state.last_shown() == 0,
    {
        CameraErrorState { error_count: 0, last_error_time_ms: 0 }
    }

    /// Counts one more error and returns the count before it; the count wraps
    /// round at the largest `usize`.
    pub fn increment_error(&mut self) -> (before: usize)
        ensures
            before == old(self).count(),
            final(self).count() == (if old(self).count() == usize::MAX {
                0
            } else {
                old(self).count() + 1
            }),
            final(self).last_shown() == old(self).last_shown(),
    {
        let before = self.error_count;
        self.error_count = self.error_count.wrapping_add(1);
        before
    }

    /// Forgets the counted errors.
    pub fn reset_errors(&mut self)
        ensures
            final(self).count() == 0,
            final(self).last_shown() == old(self).last_shown(),
    {
        self.error_count = 0;
    }

    /// Whether an error at `now_ms` may be shown: it may once two seconds
    /// have passed since the last shown one, which it then becomes.
    pub fn should_log_error_at(&mut self, now_ms: u64) -> (show: bool)
        ensures
            (show, final(self).last_shown()) == log_step(old(self).last_shown(), now_ms),
            final(self).count() == old(self).count(),
    {
        if now_ms.saturating_sub(self.last_error_time_ms) >= ERROR_LOG_INTERVAL_MS {
            self.last_error_time_ms = now_ms;
            true
        } else {
            false
        }
    }

    /// Whether an error may be shown now, by the wall clock in milliseconds
    /// (truncated to 64 bits; zero if the clock reads before the epoch).
    pub fn should_log_error(&mut self) -> (show: bool)
        ensures
            final(self).count() == old(self).count(),
            exists|now_ms: u64| #[trigger] log_step(old(self).last_shown(), now_ms) == (show, final(self).last_shown()),
    {
        let now = system_now();
        let now_ms: u64 = match millis_since_epoch(&now) {
            Some(millis) => #[verifier::truncate] (millis as u64),
            None => 0,
        };
        let show = self.should_log_error_at(now_ms);
        assert(log_step(old(self).last_shown(), now_ms) == (show, self.last_shown()));
        show
    }
}

/// Two errors shown one after the other, at `first` and then at `second`,
/// are at least two seconds apart.
pub proof fn lemma_error_log_spacing(last_shown: u64, first: u64, second: u64)
    requires
        log_step(last_shown, first).0,
        log_step(log_step(last_shown, first).1, second).0,
    ensures
        second >= first + ERROR_LOG_INTERVAL_MS,
{
}

/// The decisions on showing errors at successive wall-clock readings (in
/// milliseconds), starting from a last shown error at `last`, and the time of
/// the last shown error after them.
pub open spec fn log_run(last: u64, readings: Seq<u64>) -> (Seq<bool>, u64)
    decreases readings.len(),
{
    if readings.len() == 0 {
        (Seq::empty(), last)
    } else {
        let (before, at) = log_run(last, readings.drop_last());
        let (show, next) = log_step(at, readings.last());
        (before.push(show), next)
    }
}

/// Over any run of readings, every error shown comes at least two seconds
/// after the starting last shown one, and any two errors shown, the earlier
/// at index `i` and the later at `j`, are at least two seconds apart.
pub proof fn lemma_error_log_run_spacing(last: u64, readings: Seq<u64>)
    ensures
        log_run(last, readings).0.len() == readings.len(),
        log_run(last, readings).1 >= last,
        forall|i: int| 0 <= i < readings.len() && #[trigger] log_run(last, readings).0[i] ==> readings[i]
            >= last + ERROR_LOG_INTERVAL_MS && readings[i] <= log_run(last, readings).1,
        forall|i: int, j: int|
            0 <= i < j < readings.len() && #[trigger] log_run(last, readings).0[i]
                && #[trigger] log_run(last, readings).0[j] ==> readings[j] >= readings[i]
                + ERROR_LOG_INTERVAL_MS,
    decreases readings.len(),
{
    if readings.len() > 0 {
        let prefix = readings.drop_last();
        lemma_error_log_run_spacing(last, prefix);
        let (before, at) = log_run(last, prefix);
        let x = readings.last();
        let (outs, fin) = log_run(last, readings);
        assert(outs == before.push(log_step(at, x).0));
        assert forall|i: int| 0 <= i < readings.len() && #[trigger] outs[i] implies readings[i] >= last
            + ERROR_LOG_INTERVAL_MS && readings[i] <= fin by {
            if i < prefix.len() {
                assert(outs[i] == before[i]);
                assert(readings[i] == prefix[i]);
            }
        }
        assert forall|i: int, j: int|
            0 <= i < j < readings.len() && #[trigger] outs[i] && #[trigger] outs[j] implies readings[j]
                >= readings[i] + ERROR_LOG_INTERVAL_MS by {
            assert(outs[i] == before[i]);
            assert(readings[i] == prefix[i]);
            if j < prefix.len() {
                assert(outs[j] == before[j]);
                assert(readings[j] == prefix[j]);
            }
        }
    }
}

/// The line of text under the picture and how it is shown.
#[derive(Debug)]
pub enum StatusState {
    Error(String),
    Normal(String),
    Success(String),
}

/// The status shown for an error: its text after "Error: ".
pub fn error_status(message: &str) -> (status: StatusState)
    ensures
        status matches StatusState::Error(text) && text@ == "Error: "@ + message@,
{
    let mut text = String::from_str("Error: ");
    text.append(message);
    StatusState::Error(text)
}

/// The status shown when a selected camera is not in the list.
pub fn camera_not_found_status() -> (status: StatusState)
    ensures
        status matches StatusState::Error(text) && text@ == "Error: "@ + "Camera not found"@,
{
    error_status("Camera not found")
}

/// The status shown after scanning for cameras.
pub fn found_cameras_status(count: usize) -> (status: StatusState)
    ensures
        status matches StatusState::Normal(text) && text@ == "Found "@ + decimal_text(count as nat)
            + " cameras"@,
{
    let mut text = String::from_str("Found ");
    push_decimal(&mut text, count as u64);
    text.append(" cameras");
    StatusState::Normal(text)
}

/// The status shown once a camera streams.
pub fn camera_started_status() -> (status: StatusState)
    ensures
        status matches StatusState::Normal(text) && text@ == "Camera started successfully"@,
{
    StatusState::Normal(String::from_str("Camera started successfully"))
}

/// The status shown once the camera is stopped.
pub fn camera_stopped_status() -> (status: StatusState)
    ensures
        status matches StatusState::Normal(text) && text@ == "Camera stopped"@,
{
    StatusState::Normal(String::from_str("Camera stopped"))
}

/// The status shown when the camera is stopped for failing too often.
pub fn too_many_errors_status() -> (status: StatusState)
    ensures
        status matches StatusState::Error(text) && text@ == "Too many errors, camera stopped"@,
{
    StatusState::Error(String::from_str("Too many errors, camera stopped"))
}

/// The text shown for a frame error: its number among the consecutive ones
/// (counting from zero) and the error's own text.
pub fn frame_error_text(error_number: usize, error: &str) -> (text: String)
    ensures
        text@ == "Error (#"@ + decimal_text(error_number as nat) + "): "@ + error@,
{
    let mut text = String::from_str("Error (#");
    push_decimal(&mut text, error_number as u64);
    text.append("): ");
    text.append(error);
    text
}

/// What to do after a failed frame.
pub struct FrameErrorAction {
    /// The number of consecutive errors before this one.
    pub error_number: usize,
    /// The text to show, when enough time has passed since the last shown error.
    pub report: Option<String>,
    /// Whether the camera must be stopped for failing too often.
    pub stop_camera: bool,
}

/// The error count and the stop decision after one more failed frame, from
/// `count` earlier consecutive errors.
pub open spec fn error_step(count: int) -> (int, bool) {
    if count >= MAX_CONSECUTIVE_ERRORS as int {
        (0, true)
    } else {
        (count + 1, false)
    }
}

/// The error count after `n` consecutive failed frames following a good one,
/// and whether the last of them stopped the camera.
pub open spec fn errors_after(n: nat) -> (int, bool)
    decreases n,
{
    if n == 0 {
        (0, false)
    } else {
        error_step(errors_after((n - 1) as nat).0)
    }
}

/// After a good frame, the camera keeps running through a hundred
/// consecutive failed frames and is stopped at the hundred and first, which
/// also clears the count.
pub proof fn lemma_stop_after_hundred_errors(n: nat)
    requires
        1 <= n <= MAX_CONSECUTIVE_ERRORS as nat + 1,
    ensures
        n <= MAX_CONSECUTIVE_ERRORS ==> errors_after(n) == (n as int, false),
        n == MAX_CONSECUTIVE_ERRORS + 1 ==> errors_after(n) == (0int, true),
    decreases n,
{
    if n > 1 {
        lemma_stop_after_hundred_errors((n - 1) as nat);
    } else {
        assert(errors_after(0) == (0int, false));
    }
}

impl CameraErrorState {
    /// Handles a failed frame at `now_ms`: counts it, decides whether to show
    /// it, and stops the camera (clearing the count) once a hundred errors
    /// came before it.
    pub fn handle_frame_error_at(&mut self, error: &str, now_ms: u64) -> (action: FrameErrorAction)
        ensures
            action.error_number == old(self).count(),
            (final(self).count() as int, action.stop_camera) == error_step(old(self).count() as int),
            log_step(old(self).last_shown(), now_ms) == (action.report is Some, final(self).last_shown()),
            action.report matches Some(text) ==> text@ == "Error (#"@ + decimal_text(old(self).count() as nat)
                + "): "@ + error@,
    {
        let error_number = self.increment_error();
        let report = if self.should_log_error_at(now_ms) {
            Some(frame_error_text(error_number, error))
        } else {
            None
        };
        let stop_camera = error_number >= MAX_CONSECUTIVE_ERRORS;
        if stop_camera {
            self.reset_errors();
        }
        FrameErrorAction { error_number, report, stop_camera }
    }

    /// Handles a failed frame now, by the wall clock (see `handle_frame_error_at`).
    pub fn handle_frame_error(&mut self, error: &str) -> (action: FrameErrorAction)
        ensures
            action.error_number == old(self).count(),
            (final(self).count() as int, action.stop_camera) == error_step(old(self).count() as int),
            exists|now_ms: u64| #[trigger] log_step(old(self).last_shown(), now_ms) == (
                action.report is Some,
                final(self).last_shown(),
            ),
            action.report matches Some(text) ==> text@ == "Error (#"@ + decimal_text(old(self).count() as nat)
                + "): "@ + error@,
    {
        let now = system_now();
        let now_ms: u64 = match millis_since_epoch(&now) {
            Some(millis) => #[verifier::truncate] (millis as u64),
            None => 0,
        };
        self.handle_frame_error_at(error, now_ms)
    }

    /// Handles a good frame: the error count is cleared, and the picture is
    /// refreshed if the throttler lets the update through.
    pub fn handle_frame_ok(&mut self, throttler: &mut UiUpdateThrottler) -> (update: bool)
        ensures
            final(self).count() == 0,
            final(self).last_shown() == old(self).last_shown(),
            exists|now: u128| #[trigger] throttle_step(old(throttler).last_update(), old(throttler).min_interval(), now)
                == (update, final(throttler).last_update()),
            final(throttler).min_interval() == old(throttler).min_interval(),
    {
        self.reset_errors();
        throttler.should_update()
    }
}

/// The position of the first camera in `cameras` that `selected` names.
pub fn find_camera(cameras: &[DeviceIndex], selected: &CameraIndex) -> (found: Option<usize>)
    ensures
        found matches Some(i) ==> i < cameras@.len() && selected.0@ == cameras@[i as int].text() && forall|j: int|
            0 <= j < i ==> selected.0@ != #[trigger] cameras@[j].text(),
        found is None ==> forall|j: int| 0 <= j < cameras@.len() ==> selected.0@ != #[trigger] cameras@[j].text(),
{
    let mut i: usize = 0;
    while i < cameras.len()
        invariant
            i <= cameras@.len(),
            forall|j: int| 0 <= j < i ==> selected.0@ != #[trigger] cameras@[j].text(),
        decreases cameras@.len() - i,
    {
        if selected.eq(&cameras[i]) {
            return Some(i);
        }
        i = i + 1;
    }
    None
}

/// How long, in nanoseconds, a camera list stays fresh.
pub const CAMERA_QUERY_TTL_NANOS: u128 = 5_000_000_000;

/// A camera list kept for a few seconds so that scanning is not repeated on
/// every request.
pub struct CachedCameraQuery<T> {
    cameras: Vec<T>,
    origin: Instant,
    last_update_nanos: i128,
    ttl_nanos: u128,
}

impl<T> CachedCameraQuery<T> {
    /// The list was stored no earlier than ten seconds before the cache was made.
    #[verifier::type_invariant]
    closed spec fn stored_recently_enough(self) -> bool {
        self.last_update_nanos >= -10_000_000_000
    }

    /// When (nanoseconds after the cache was made) the list was last stored.
    pub closed spec fn last_update(&self) -> i128 {
        self.last_update_nanos
    }

    /// The kept list.
    pub closed spec fn kept(&self) -> Seq<T> {
        self.cameras@
    }

    /// How long the list stays fresh.
    pub closed spec fn ttl(&self) -> u128 {
        self.ttl_nanos
    }

    /// An empty cache that counts as last filled ten seconds ago, so that
    /// the first request scans.
    pub fn new() -> (cache: Self)
        ensures
            cache.kept().len() == 0,
            cache.last_update() == -10_000_000_000,
            cache.ttl() == CAMERA_QUERY_TTL_NANOS,
    {
        CachedCameraQuery {
            cameras: Vec::new(),
            origin: instant_now(),
            last_update_nanos: -10_000_000_000,
            ttl_nanos: CAMERA_QUERY_TTL_NANOS,
        }
    }

    /// Whether the list must be scanned again at `now_nanos`: once the time to
    /// live has passed since it was stored.
    pub fn needs_refresh_at(&self, now_nanos: u128) -> (stale: bool)
        ensures
            stale == (now_nanos as int - self.last_update() as int >= self.ttl() as int),
    {
        proof {
            use_type_invariant(self);
        }
        if self.last_update_nanos < 0 {
            let age_of_origin = (0 - self.last_update_nanos) as u128;
            now_nanos >= self.ttl_nanos || age_of_origin >= self.ttl_nanos - now_nanos
        } else {
            let last = self.last_update_nanos as u128;
            now_nanos >= last && now_nanos - last >= self.ttl_nanos
        }
    }

    /// Nanoseconds since the cache was made, by the monotonic clock.
    pub fn now_nanos(&self) -> (now: u128) {
        nanos_since(&self.origin)
    }

    /// Keeps `cameras` as the list scanned at `now_nanos`.
    pub fn store(&mut self, cameras: Vec<T>, now_nanos: u128)
        requires
            now_nanos <= i128::MAX,
        ensures
            final(self).kept() == cameras@,
            final(self).last_update() == now_nanos,
            final(self).ttl() == old(self).ttl(),
    {
        proof {
            use_type_invariant(&*self);
        }
        self.last_update_nanos = now_nanos as i128;
        self.cameras = cameras;
    }

    /// The kept list.
    pub fn cameras(&self) -> (list: &Vec<T>)
        ensures
            list@ == self.kept(),
    {
        &self.cameras
    }
}

} // verus!
