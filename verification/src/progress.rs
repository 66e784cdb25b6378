//! Progress accounting: shared byte counters with coarse update decisions,
//! and the rolling speed and ETA computation of the sampling task.

use vstd::prelude::*;

verus! {

/// How progress bars are rendered.
#[derive(Debug, Clone, Copy, PartialEq, Eq, Structural)]
pub struct ProgressBarSettings {
    /// Suppress all bars; counters are still updated.
    pub hidden: bool,
}

impl Default for ProgressBarSettings {
    /// Bars are shown by default.
    fn default() -> (r: Self)
        ensures
            r.hidden == false,
    {
        ProgressBarSettings { hidden: false }
    }
}

/// Stores the settings the presentation layer should use.
pub fn set_progress_bar_settings(store: &mut ProgressBarSettings, pbs: ProgressBarSettings)
    ensures
        *final(store) == pbs,
{
    *store = pbs;
}

/// Which presentation a progress bar gets.
#[derive(Debug, Clone, Copy, PartialEq, Eq, Structural)]
pub enum ProgressBarType {
    PullLine1,
    PullLine2,
    PullLayer,
    CreateDescriptor,
    CopyingFiles,
    SingleChunk,
    DescriptorUpload,
    UploadTotal,
    UploadDetails,
    UploadChunks,
}

/// Bytes observed by a stream, with the coarse-update throttle: the
/// presentation is refreshed only once per 100 kB.
#[derive(Debug, Clone, Copy, PartialEq, Eq, Structural)]
pub struct ProgressContext {
    /// All bytes observed so far.
    pub bytes_total: u64,
    /// Bytes observed since the last refresh.
    pub bytes_current: u64,
}

/// Granularity of presentation refreshes, in bytes.
pub const PROGRESS_UPDATE_BYTES: u64 = 100_000;

/// Largest piece a streaming read takes at once, in bytes.
pub const MAX_READ_BYTES: usize = 100_000;

/// How many bytes the next streaming read should take: what is left, capped
/// at 100 kB.
pub fn next_read_size(bytes_to_read: usize) -> (r: usize)
    ensures
        r == if bytes_to_read < MAX_READ_BYTES {
            bytes_to_read
        } else {
            MAX_READ_BYTES
        },
{
    if bytes_to_read < MAX_READ_BYTES {
        bytes_to_read
    } else {
        MAX_READ_BYTES
    }
}

impl ProgressContext {
    /// The counter never holds more pending bytes than it has seen.
    pub open spec fn wf(self) -> bool {
        self.bytes_current <= self.bytes_total
    }

    /// A fresh counter.
    pub fn new() -> (r: Self)
        ensures
            r.bytes_total == 0,
            r.bytes_current == 0,
            r.wf(),
    {
        ProgressContext { bytes_total: 0, bytes_current: 0 }
    }

    /// All bytes observed so far.
    pub fn total_bytes(&self) -> (r: u64)
        ensures
            r == self.bytes_total,
    {
        self.bytes_total
    }

    /// Counts `n` more bytes; the result says whether the presentation
    /// should be refreshed, which happens once another 100 kB have
    /// accumulated.
    pub fn observe(&mut self, n: u64) -> (do_update: bool)
        requires
            old(self).wf(),
            old(self).bytes_total + n <= u64::MAX,
        ensures
            final(self).wf(),
            final(self).bytes_total == old(self).bytes_total + n,
            do_update == (old(self).bytes_current + n > PROGRESS_UPDATE_BYTES),
            final(self).bytes_current == if old(self).bytes_current + n
                > PROGRESS_UPDATE_BYTES {
                0u64
            } else {
                (old(self).bytes_current + n) as u64
            },
    {
        self.bytes_total = self.bytes_total + n;
        self.bytes_current = self.bytes_current + n;
        if self.bytes_current > PROGRESS_UPDATE_BYTES {
            self.bytes_current = 0;
            true
        } else {
            false
        }
    }
}

/// What one sampling step reports.
#[derive(Debug, Clone, Copy, PartialEq, Eq, Structural)]
pub struct SpeedSample {
    /// Rolling speed in bytes per second over the sample window, once two
    /// samples exist.
    pub speed: Option<u64>,
    /// Cumulative speed since the sampler started, once a second passed.
    pub total_speed: Option<u64>,
    /// Seconds left at the rolling speed; absent below 100 B/s.
    pub eta_secs: Option<u64>,
    /// The wall clock jumped backward and the window was reset.
    pub reset: bool,
}

/// Speed below which no ETA is reported, in bytes per second.
pub const MIN_SPEED_FOR_ETA: u64 = 100;

/// Samples the window holds at most.
pub const SPEED_WINDOW_SAMPLES: usize = 11;

/// The sampling task's state: a ring of recent positions, newest first.
#[derive(Debug, Clone, PartialEq, Eq)]
pub struct SpeedSampler {
    /// Recent byte positions, newest first, at most eleven.
    pub ticks: Vec<u64>,
    /// Samples taken since the last reset.
    pub loop_no: u64,
    /// Position when the sampler started.
    pub total_start_pos: u64,
}

impl SpeedSampler {
    /// The window is bounded and ordered newest first.
    pub open spec fn wf(self) -> bool {
        &&& self.ticks@.len() <= SPEED_WINDOW_SAMPLES
        &&& forall|i: int, j: int|
            0 <= i <= j < self.ticks@.len() ==> self.ticks@[i] >= self.ticks@[j]
    }

    /// A sampler starting at `start_pos`.
    pub fn new(start_pos: u64) -> (r: Self)
        ensures
            r.ticks@ == Seq::<u64>::empty(),
            r.loop_no == 0,
            r.total_start_pos == start_pos,
            r.wf(),
    {
        SpeedSampler { ticks: Vec::new(), loop_no: 0, total_start_pos: start_pos }
    }

    /// One sampling step, once per second: records `position`, computes the
    /// rolling and cumulative speeds and the ETA toward `total_len`, and
    /// resets the window when the clock ran backward.
    pub fn on_tick(&mut self, position: u64, total_len: u64, elapsed_secs: u64) -> (r:
        SpeedSample)
        requires
            old(self).wf(),
            old(self).loop_no < u64::MAX,
            old(self).ticks@.len() > 0 ==> position >= old(self).ticks@[0],
            position >= old(self).total_start_pos,
            position <= total_len,
        ensures
            final(self).wf(),
            final(self).total_start_pos == old(self).total_start_pos,
            r.reset == (elapsed_secs < old(self).loop_no),
            r.reset ==> {
                &&& final(self).ticks@ == Seq::<u64>::empty()
                &&& final(self).loop_no == 0
                &&& r.speed is None
                &&& r.total_speed is None
                &&& r.eta_secs is None
            },
            !r.reset ==> ({
                let t = (seq![position] + old(self).ticks@).take(
                    if old(self).ticks@.len() + 1 <= SPEED_WINDOW_SAMPLES {
                        old(self).ticks@.len() as int + 1
                    } else {
                        SPEED_WINDOW_SAMPLES as int
                    },
                );
                &&& final(self).ticks@ == t
                &&& final(self).loop_no == old(self).loop_no + 1
                &&& r.speed == (if t.len() > 1 {
                    Some(((position - t.last()) as u64 / ((t.len() - 1) as u64)))
                } else {
                    None::<u64>
                })
                &&& r.total_speed == (if elapsed_secs > 0 {
                    Some((position - old(self).total_start_pos) as u64 / elapsed_secs)
                } else {
                    None::<u64>
                })
                &&& r.eta_secs == (match r.speed {
                    Some(s) => if s >= MIN_SPEED_FOR_ETA {
                        Some((total_len - position) as u64 / s)
                    } else {
                        None::<u64>
                    },
                    None => None::<u64>,
                })
            }),
    {
        if elapsed_secs < self.loop_no {
            // The clock ran backward; drop the window and start over.
            self.ticks.clear();
            self.loop_no = 0;
            return SpeedSample { speed: None, total_speed: None, eta_secs: None, reset: true };
        }
        self.loop_no = self.loop_no + 1;
        let ghost old_ticks = self.ticks@;
        let ghost target_len: int = if old_ticks.len() + 1 <= SPEED_WINDOW_SAMPLES {
            old_ticks.len() as int + 1
        } else {
            SPEED_WINDOW_SAMPLES as int
        };
        self.ticks.insert(0, position);
        proof {
            assert(self.ticks@ =~= seq![position] + old_ticks);
        }
        if self.ticks.len() > SPEED_WINDOW_SAMPLES {
            let _dropped = self.ticks.pop();
        }
        proof {
            assert(self.ticks@ =~= (seq![position] + old_ticks).take(target_len));
            assert forall|i: int, j: int|
                0 <= i <= j < self.ticks@.len() implies self.ticks@[i] >= self.ticks@[j] by {
                if i == 0 && j > 0 {
                    assert(old_ticks[0] >= old_ticks[j - 1]);
                }
            }
        }
        let len = self.ticks.len();
        let speed: Option<u64> = if len > 1 {
            let oldest = self.ticks[len - 1];
            Some((position - oldest) / (len - 1) as u64)
        } else {
            None
        };
        let total_speed: Option<u64> = if elapsed_secs > 0 {
            Some((position - self.total_start_pos) / elapsed_secs)
        } else {
            None
        };
        let eta_secs: Option<u64> = match speed {
            Some(s) => if s >= MIN_SPEED_FOR_ETA {
                Some((total_len - position) / s)
            } else {
                None
            },
            None => None,
        };
        SpeedSample { speed, total_speed, eta_secs, reset: false }
    }
}

} // verus!
