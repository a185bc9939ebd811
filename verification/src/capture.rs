//! Detection of the "double Cmd+C" capture gesture.
use vstd::prelude::*;
use crate::models::opt_text;
use crate::text::{is_blank, trim, trimmed};

verus! {

/// Maximum time, in nanoseconds, between two Cmd+C presses that still counts as a double tap.
pub const DOUBLE_TAP_THRESHOLD_NANOS: u64 = 400_000_000;

/// Elapsed time from `earlier` to `later`, saturating at zero when `earlier` is the later one.
pub open spec fn elapsed_nanos(later: u64, earlier: u64) -> nat {
    if later >= earlier { (later - earlier) as nat } else { 0 }
}

/// Remembers the last single tap and recognises a second one that follows it closely.
///
/// Instants are plain nanosecond readings of a monotonic clock.
pub struct DoubleTapDetector {
    last_tap: Option<u64>,
    threshold: u64,
}

impl DoubleTapDetector {
    /// The pending tap, if one is waiting for its partner.
    pub closed spec fn pending(&self) -> Option<u64> {
        self.last_tap
    }

    /// The largest gap (exclusive) that still forms a double tap.
    pub closed spec fn threshold_nanos(&self) -> u64 {
        self.threshold
    }

    /// Whether a tap at `now` completes a double tap in this state.
    pub open spec fn completes_double_tap(&self, now: u64) -> bool {
        match self.pending() {
            Some(last) => elapsed_nanos(now, last) < self.threshold_nanos(),
            None => false,
        }
    }

    /// The state after a tap at `now`: a completed double tap clears the pending tap,
    /// any other tap becomes the pending one.
    pub closed spec fn after_tap(&self, now: u64) -> DoubleTapDetector {
        if self.completes_double_tap(now) {
            DoubleTapDetector { last_tap: None, threshold: self.threshold }
        } else {
            DoubleTapDetector { last_tap: Some(now), threshold: self.threshold }
        }
    }

    /// A detector with no pending tap.
    pub fn new(threshold: u64) -> (d: Self)
        ensures
            d.pending() is None,
            d.threshold_nanos() == threshold,
    {
        DoubleTapDetector { last_tap: None, threshold }
    }

    /// Registers a tap at `now`; returns `true` when it completes a double tap.
    ///
    /// A completed double tap clears the pending tap, so a third tap starts over;
    /// any other tap becomes the new pending tap.
    pub fn register_tap(&mut self, now: u64) -> (fired: bool)
        ensures
            fired == old(self).completes_double_tap(now),
            *final(self) == old(self).after_tap(now),
            final(self).threshold_nanos() == old(self).threshold_nanos(),
            fired ==> final(self).pending() is None,
            !fired ==> final(self).pending() == Some(now),
    {
        if let Some(last) = self.last_tap {
            let elapsed = if now >= last { now - last } else { 0 };
            if elapsed < self.threshold {
                self.last_tap = None;
                return true;
            }
        }
        self.last_tap = Some(now);
        false
    }
}

/// The event type of a key press (`kCGEventKeyDown`).
pub const MAC_KEYDOWN_TYPE: u32 = 10;

/// The event field that holds the key code (`kCGKeyboardEventKeycode`).
pub const EVENT_FIELD_KEYCODE: u32 = 9;

/// The hardware-independent virtual key code of the "C" key.
pub const KEYCODE_C: i64 = 8;

/// The flag bit of the Command key (`kCGEventFlagMaskCommand`, 2^20).
pub const MAC_CMD_FLAG: u64 = 1_048_576;

/// Whether a keyboard event is a Cmd+C key press.
pub open spec fn is_copy_keystroke(event_type: u32, key_code: i64, flags: u64) -> bool {
    event_type == MAC_KEYDOWN_TYPE && key_code == KEYCODE_C && flags & MAC_CMD_FLAG != 0
}

/// Whether a keyboard event is a Cmd+C key press, the gesture's building block.
pub fn is_copy_shortcut(event_type: u32, key_code: i64, flags: u64) -> (b: bool)
    ensures
        b == is_copy_keystroke(event_type, key_code, flags),
{
    event_type == MAC_KEYDOWN_TYPE && key_code == KEYCODE_C && (flags & MAC_CMD_FLAG) != 0
}

/// The text and context of a captured selection, as sent to the frontend.
#[derive(Debug, Clone, PartialEq, Eq)]
pub struct CapturePayload {
    pub text: String,
    pub context: Option<String>,
}

/// The active context from the context script's outcome: its trimmed output when it
/// succeeded and printed something other than white space, else nothing.
pub fn active_context_from_output(success: bool, stdout: &str) -> (ctx: Option<String>)
    ensures
        opt_text(ctx) == if success && trim(stdout@).len() > 0 {
            Some(trim(stdout@))
        } else {
            None::<Seq<char>>
        },
{
    if !success {
        return None;
    }
    if is_blank(stdout) {
        return None;
    }
    Some(trimmed(stdout))
}

/// A detector never fires twice in a row: after a double tap, the next tap, however
/// soon, only starts a new gesture (so a triple tap fires once).
pub proof fn lemma_no_consecutive_double_taps(d: DoubleTapDetector, first: u64, second: u64)
    requires
        d.completes_double_tap(first),
    ensures
        !d.after_tap(first).completes_double_tap(second),
        d.after_tap(first).after_tap(second).pending() == Some(second),
{
}

/// A tap on a detector with nothing pending, such as a new one, never fires.
pub proof fn lemma_first_tap_never_fires(d: DoubleTapDetector, now: u64)
    requires
        d.pending() is None,
    ensures
        !d.completes_double_tap(now),
        d.after_tap(now).pending() == Some(now),
{
}

/// Two taps on a quiet detector form a double tap exactly when the second comes less
/// than the threshold after the first.
pub proof fn lemma_double_tap_iff_close(d: DoubleTapDetector, first: u64, second: u64)
    requires
        d.pending() is None,
    ensures
        d.after_tap(first).completes_double_tap(second) <==> elapsed_nanos(second, first)
            < d.threshold_nanos(),
{
}

/// A tap fires exactly when a tap is pending and the gap since it, in plain nanoseconds
/// (none when the readings run backwards), is below the threshold: a gap of the
/// threshold or more never fires, however the gap is made up.
pub proof fn lemma_fires_on_short_gap_only(d: DoubleTapDetector, now: u64)
    ensures
        d.completes_double_tap(now) <==> (d.pending() matches Some(last) && (if now >= last {
            now - last < d.threshold_nanos()
        } else {
            0 < d.threshold_nanos()
        })),
        d.pending() matches Some(last) && now >= last && now - last >= d.threshold_nanos()
            ==> !d.completes_double_tap(now),
{
}

} // verus!
