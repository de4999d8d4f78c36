//! Freshness-bounded store for the latest sensor reading.
//!
//! The store holds at most one snapshot: the most recent validated frame and
//! the time it arrived. Updates replace the snapshot as a whole value;
//! rendering re-evaluates freshness against the caller's clock, so a
//! producer that stops is noticed at read time.

use vstd::prelude::*;

use crate::frame::SensorFrame;
use crate::text::{append_metric_line, metric_line};

verus! {

/// How old the stored snapshot may be before readers treat it as absent.
pub const METRICS_TTL_MS: u64 = 60000;

/// The exposition text for one frame: one `name value` line per field, in
/// field order.
pub open spec fn exposition(f: SensorFrame) -> Seq<char> {
    metric_line("pm1_0_standard"@, f.pm1_0_standard as int) + metric_line(
        "pm2_5_standard"@,
        f.pm2_5_standard as int,
    ) + metric_line("pm10_standard"@, f.pm10_standard as int) + metric_line(
        "pm1_0_atmospheric"@,
        f.pm1_0_atmospheric as int,
    ) + metric_line("pm2_5_atmospheric"@, f.pm2_5_atmospheric as int) + metric_line(
        "pm10_atmospheric"@,
        f.pm10_atmospheric as int,
    ) + metric_line("particles_gt_0_3um"@, f.particles_gt_0_3um as int) + metric_line(
        "particles_gt_0_5um"@,
        f.particles_gt_0_5um as int,
    ) + metric_line("particles_gt_1_0um"@, f.particles_gt_1_0um as int) + metric_line(
        "particles_gt_2_5um"@,
        f.particles_gt_2_5um as int,
    ) + metric_line("particles_gt_5_0um"@, f.particles_gt_5_0um as int) + metric_line(
        "particles_gt_10um"@,
        f.particles_gt_10um as int,
    )
}

/// The latest-reading snapshot: the most recent validated frame, if any, and
/// the reading of the caller's monotonic clock when it was stored.
pub struct Metrics {
    pub frame: Option<SensorFrame>,
    pub last_update_ms: u64,
}

/// Whether the snapshot is present and no older than `ttl_ms` at `now_ms`.
pub open spec fn is_fresh(m: Metrics, now_ms: u64, ttl_ms: u64) -> bool {
    &&& m.frame is Some
    &&& now_ms - m.last_update_ms <= ttl_ms
}

/// What a render at `now_ms` returns: the exposition of the held frame while
/// it is fresh, and the empty text once it is absent or stale.
pub open spec fn render_spec(m: Metrics, now_ms: u64, ttl_ms: u64) -> Seq<char> {
    if is_fresh(m, now_ms, ttl_ms) {
        exposition(m.frame->0)
    } else {
        Seq::empty()
    }
}

impl Metrics {
    /// An empty store: no frame has ever been stored.
    pub fn new() -> (m: Metrics)
        ensures
            m.frame is None,
            m.last_update_ms == 0,
    {
        Metrics { frame: None, last_update_ms: 0 }
    }

    /// Replaces the snapshot as a whole with the given frame, observed now.
    /// Never fails.
    pub fn update(&mut self, frame: &SensorFrame, now_ms: u64)
        ensures
            *final(self) == (Metrics { frame: Some(*frame), last_update_ms: now_ms }),
    {
        self.frame = Some(*frame);
        self.last_update_ms = now_ms;
    }

    /// Renders the held frame into the exposition text.
    pub fn encode(&self) -> (r: String)
        requires
            self.frame is Some,
        ensures
            r@ == exposition(self.frame->0),
    {
        let f = match &self.frame {
            Some(f) => f,
            None => unreached(),
        };
        let mut out = String::new();
        append_metric_line(&mut out, "pm1_0_standard", f.pm1_0_standard);
        append_metric_line(&mut out, "pm2_5_standard", f.pm2_5_standard);
        append_metric_line(&mut out, "pm10_standard", f.pm10_standard);
        append_metric_line(&mut out, "pm1_0_atmospheric", f.pm1_0_atmospheric);
        append_metric_line(&mut out, "pm2_5_atmospheric", f.pm2_5_atmospheric);
        append_metric_line(&mut out, "pm10_atmospheric", f.pm10_atmospheric);
        append_metric_line(&mut out, "particles_gt_0_3um", f.particles_gt_0_3um);
        append_metric_line(&mut out, "particles_gt_0_5um", f.particles_gt_0_5um);
        append_metric_line(&mut out, "particles_gt_1_0um", f.particles_gt_1_0um);
        append_metric_line(&mut out, "particles_gt_2_5um", f.particles_gt_2_5um);
        append_metric_line(&mut out, "particles_gt_5_0um", f.particles_gt_5_0um);
        append_metric_line(&mut out, "particles_gt_10um", f.particles_gt_10um);
        proof {
            assert(out@ =~= exposition(self.frame->0));
        }
        out
    }

    /// Renders the snapshot if it is still fresh at `now_ms`; returns the
    /// empty text when no frame was ever stored or the snapshot is older
    /// than `freshness_ttl_ms`. Staleness is never an error.
    pub fn render(&self, now_ms: u64, freshness_ttl_ms: u64) -> (r: String)
        ensures
            r@ == render_spec(*self, now_ms, freshness_ttl_ms),
    {
        let has_frame = self.frame.is_some();
        let stale = now_ms >= self.last_update_ms && now_ms - self.last_update_ms
            > freshness_ttl_ms;
        if !has_frame || stale {
            let out = String::new();
            proof {
                assert(out@ =~= Seq::<char>::empty());
            }
            out
        } else {
            self.encode()
        }
    }
}

/// A render never mixes fields of two frames: whatever it returns is either
/// the empty text or the exposition of the one whole frame the store holds.
/// Updates replace that frame as a single value, so every observer sees one
/// snapshot entire.
pub proof fn lemma_render_whole_snapshot(m: Metrics, now_ms: u64, ttl_ms: u64)
    ensures
        render_spec(m, now_ms, ttl_ms) == Seq::<char>::empty() || (m.frame is Some && render_spec(
            m,
            now_ms,
            ttl_ms,
        ) == exposition(m.frame->0)),
{
}

/// Before any update the store renders the "no data" result, whatever the
/// clock says.
pub proof fn lemma_render_before_update(m: Metrics, now_ms: u64, ttl_ms: u64)
    requires
        m.frame is None,
    ensures
        render_spec(m, now_ms, ttl_ms) == Seq::<char>::empty(),
{
}

/// Around one update: a render within the freshness window returns the
/// exposition of exactly the frame just stored, and a render past the window
/// returns the "no data" result even though a snapshot exists.
pub proof fn lemma_render_after_update(m: Metrics, f: SensorFrame, t: u64, now_ms: u64, ttl_ms: u64)
    ensures
        now_ms - t <= ttl_ms ==> render_spec(
            Metrics { frame: Some(f), last_update_ms: t },
            now_ms,
            ttl_ms,
        ) == exposition(f),
        now_ms - t > ttl_ms ==> render_spec(
            Metrics { frame: Some(f), last_update_ms: t },
            now_ms,
            ttl_ms,
        ) == Seq::<char>::empty(),
{
}

} // verus!
