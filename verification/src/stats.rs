//! The statistics collector: at every tick it snapshots the shared counters
//! into one report for the front end. Levels are a sliding maximum with
//! decay — each window remembers the loudest value it has seen, reports the
//! current value as a share of that maximum, and halves the maximum every
//! few seconds so the scale adapts back down.

use vstd::prelude::*;

verus! {

/// Milliseconds between reports.
pub const UPDATE_INTERVAL_MS: u64 = 100;

/// Milliseconds between reports in efficiency mode.
pub const EFFICIENT_UPDATE_INTERVAL_MS: u64 = 500;

/// Milliseconds between halvings of the level windows' maxima.
pub const LEVEL_DECAY_INTERVAL_MS: u64 = 5000;

/// One report to the front end. Levels are given in permille of the window
/// maximum; the counters are read from the shared atomics.
#[derive(Clone, Copy, Debug, PartialEq, Eq, Structural, Default)]
pub struct Statistics {
    /// Input loudness as a share of the loudest recent input, in permille.
    pub input_level: u32,
    /// Output loudness as a share of the loudest recent output, in permille.
    pub output_level: u32,
    /// Current call latency, in milliseconds.
    pub latency: u64,
    /// Bytes sent since the call began.
    pub upload_bandwidth: u64,
    /// Bytes received since the call began.
    pub download_bandwidth: u64,
    /// Samples lost since the last report.
    pub loss: u64,
}

/// The level a window reports for a value, in permille of the maximum:
/// zero for an empty window, and levels under one percent are squelched.
pub open spec fn level_of(local: u64, max: int) -> int {
    if max == 0 {
        0
    } else {
        let level = (local * 1000) / max;
        if level < 10 {
            0
        } else {
            level
        }
    }
}

/// A sliding-maximum window over one level counter.
pub struct LevelWindow {
    max: u64,
}

impl LevelWindow {
    pub closed spec fn max_model(self) -> int {
        self.max as int
    }

    pub fn new() -> (r: LevelWindow)
        ensures
            r.max_model() == 0,
    {
        LevelWindow { max: 0 }
    }

    /// Feeds one value: the window maximum rises to it if it is louder, and
    /// the value comes back as a permille share of the maximum.
    pub fn level_from_window(&mut self, local: u64) -> (r: u32)
        ensures
            final(self).max_model() == if local > old(self).max_model() {
                local as int
            } else {
                old(self).max_model()
            },
            r as int == level_of(local, final(self).max_model()),
            r <= 1000,
    {
        if local > self.max {
            self.max = local;
        }
        if self.max == 0 {
            0u32
        } else {
            let wide = (local as u128) * 1000;
            let level = wide / (self.max as u128);
            proof {
                assert(((local as int) * 1000) / (self.max as int) <= 1000) by (nonlinear_arith)
                    requires
                        local as int <= self.max as int,
                        self.max as int >= 1,
                ;
                assert((local as int) * 1000 <= 0xffff_ffff_ffff_ffff * 1000) by (nonlinear_arith)
                    requires
                        local as int <= 0xffff_ffff_ffff_ffff,
                ;
            }
            if level < 10 {
                0u32
            } else {
                level as u32
            }
        }
    }

    /// Halves the maximum, so the scale adapts back down after loud spells.
    pub fn decay(&mut self)
        ensures
            final(self).max_model() == old(self).max_model() / 2,
    {
        self.max = self.max / 2;
    }
}

/// The collector's own state: one level window per direction.
pub struct StatisticsCollector {
    input_window: LevelWindow,
    output_window: LevelWindow,
}

impl StatisticsCollector {
    pub closed spec fn input_max(self) -> int {
        self.input_window.max_model()
    }

    pub closed spec fn output_max(self) -> int {
        self.output_window.max_model()
    }

    pub fn new() -> (r: StatisticsCollector)
        ensures
            r.input_max() == 0,
            r.output_max() == 0,
    {
        StatisticsCollector { input_window: LevelWindow::new(), output_window: LevelWindow::new() }
    }

    /// One tick: fold the snapshots of the shared counters into a report.
    /// The caller swaps the loudness and loss counters to zero as it reads
    /// them, so each report covers one interval.
    pub fn tick(
        &mut self,
        input_rms: u64,
        output_rms: u64,
        latency: u64,
        upload_bandwidth: u64,
        download_bandwidth: u64,
        loss: u64,
    ) -> (r: Statistics)
        ensures
            final(self).input_max() == if input_rms > old(self).input_max() {
                input_rms as int
            } else {
                old(self).input_max()
            },
            final(self).output_max() == if output_rms > old(self).output_max() {
                output_rms as int
            } else {
                old(self).output_max()
            },
            r.input_level as int == level_of(input_rms, final(self).input_max()),
            r.output_level as int == level_of(output_rms, final(self).output_max()),
            r.latency == latency,
            r.upload_bandwidth == upload_bandwidth,
            r.download_bandwidth == download_bandwidth,
            r.loss == loss,
    {
        let input_level = self.input_window.level_from_window(input_rms);
        let output_level = self.output_window.level_from_window(output_rms);
        Statistics {
            input_level,
            output_level,
            latency,
            upload_bandwidth,
            download_bandwidth,
            loss,
        }
    }

    /// The periodic decay of both windows.
    pub fn decay(&mut self)
        ensures
            final(self).input_max() == old(self).input_max() / 2,
            final(self).output_max() == old(self).output_max() / 2,
    {
        self.input_window.decay();
        self.output_window.decay();
    }
}

/// The zeroed report posted once when the collector shuts down.
pub fn final_statistics() -> (r: Statistics)
    ensures
        r == (Statistics {
            input_level: 0,
            output_level: 0,
            latency: 0,
            upload_bandwidth: 0,
            download_bandwidth: 0,
            loss: 0,
        }),
{
    Statistics {
        input_level: 0,
        output_level: 0,
        latency: 0,
        upload_bandwidth: 0,
        download_bandwidth: 0,
        loss: 0,
    }
}

} // verus!
