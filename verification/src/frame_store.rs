//! The scene recorder: a scene's frames are written to a video file for a
//! time or until enough frames are there, then read back one by one for
//! the slower recognition.
//!
//! The video writer and reader belong to the caller; the recorder decides
//! when each is opened, written, read and let go, and the caller does it.
//! Times are in milliseconds.

use vstd::prelude::*;

verus! {

/// What the caller does with a captured frame.
#[derive(Clone, Copy, Debug, PartialEq, Eq, Structural)]
pub enum RecordStep {
    /// Nothing: no recording is going on, or the recording is full.
    Skip,
    /// Write the frame.
    Write,
    /// Write the frame; the recording is complete, so let the writer go
    /// and open the reader, and report the outcome to `reader_opened`.
    WriteAndReplay,
}

/// What recording one captured frame at `now` does.
pub open spec fn frame_recorded(before: CaptureFrameStore, after: CaptureFrameStore, now: i64, step: RecordStep) -> bool {
    if before.filled_by_frame || !before.started_at(now) {
        step == RecordStep::Skip && after == before
    } else {
        let written = CaptureFrameStore { recoded_frame: (before.recoded_frame + 1) as i32, ..before };
        &&& after == written
        &&& step == if written.ended_at(now) && !written.reader_open {
            RecordStep::WriteAndReplay
        } else {
            RecordStep::Write
        }
    }
}

/// The state of a scene recording.
#[derive(Clone, Copy, Debug, PartialEq, Eq, Structural)]
pub struct CaptureFrameStore {
    pub writer_open: bool,
    pub reader_open: bool,
    pub filled_by_frame: bool,
    pub recoded_frame: i32,
    pub recoding_start_time: Option<i64>,
    pub recoding_end_time: Option<i64>,
    pub recoding_need_frame: Option<i32>,
}

impl CaptureFrameStore {
    /// At time `now` a recording is going on: the writer is open and the
    /// start time has come, or a number of frames is wanted.
    pub open spec fn started_at(&self, now: i64) -> bool {
        &&& self.writer_open
        &&& match self.recoding_start_time {
            Some(start) => start <= now,
            None => match self.recoding_need_frame {
                Some(need) => 0 < need,
                None => false,
            },
        }
    }

    /// At time `now` the recording going on is complete: its end time has
    /// come, or the wanted frames are there.
    pub open spec fn ended_at(&self, now: i64) -> bool {
        &&& self.started_at(now)
        &&& match self.recoding_end_time {
            Some(end) => end <= now,
            None => match self.recoding_need_frame {
                Some(need) => need <= self.recoded_frame,
                None => false,
            },
        }
    }

    /// Nothing recorded, nothing open.
    pub fn new() -> (r: CaptureFrameStore)
        ensures
            r == (CaptureFrameStore {
                writer_open: false,
                reader_open: false,
                filled_by_frame: false,
                recoded_frame: 0,
                recoding_start_time: None,
                recoding_end_time: None,
                recoding_need_frame: None,
            }),
    {
        CaptureFrameStore {
            writer_open: false,
            reader_open: false,
            filled_by_frame: false,
            recoded_frame: 0,
            recoding_start_time: None,
            recoding_end_time: None,
            recoding_need_frame: None,
        }
    }

    /// Whether a recording is going on at time `now`.
    pub fn is_recoding_started(&self, now: i64) -> (b: bool)
        ensures
            b == self.started_at(now),
    {
        if !self.writer_open {
            return false;
        }
        if let Some(start) = self.recoding_start_time {
            return start <= now;
        }
        if let Some(need) = self.recoding_need_frame {
            return 0 < need;
        }
        false
    }

    /// Whether the recording going on at time `now` is complete.
    pub fn is_recoding_end(&self, now: i64) -> (b: bool)
        ensures
            b == self.ended_at(now),
    {
        if !self.is_recoding_started(now) {
            return false;
        }
        if let Some(end) = self.recoding_end_time {
            return end <= now;
        }
        if let Some(need) = self.recoding_need_frame {
            return need <= self.recoded_frame;
        }
        false
    }

    /// Whether the replay of the last recording ended.
    pub fn is_replay_end(&self) -> (b: bool)
        ensures
            b == (self.recoded_frame == -1),
    {
        -1 == self.recoded_frame
    }

    /// Whether a complete recording waits to be replayed.
    pub fn is_filled(&self) -> (b: bool)
        ensures
            b == self.filled_by_frame,
    {
        self.filled_by_frame
    }

    /// Forgets the last recording and opens the writer: the caller lets
    /// the reader go and opens the writer with the recording codec.
    fn recoding_initialize(&mut self)
        ensures
            *final(self) == (CaptureFrameStore {
                writer_open: true,
                reader_open: false,
                filled_by_frame: false,
                recoded_frame: 0,
                recoding_start_time: None,
                recoding_end_time: None,
                recoding_need_frame: None,
            }),
    {
        self.recoding_start_time = None;
        self.recoding_end_time = None;
        self.recoding_need_frame = None;
        self.recoded_frame = 0;
        self.filled_by_frame = false;
        self.reader_open = false;
        self.writer_open = true;
    }

    /// Starts recording at time `now` for `duration` milliseconds, unless a
    /// recording is going on. Returns whether it started: the caller then
    /// lets the reader go and opens the writer.
    pub fn start_recoding_by_time(&mut self, now: i64, duration: i64) -> (started: bool)
        requires
            i64::MIN <= now + duration <= i64::MAX,
        ensures
            started == !old(self).started_at(now),
            !started ==> *final(self) == *old(self),
            started ==> *final(self) == (CaptureFrameStore {
                writer_open: true,
                reader_open: false,
                filled_by_frame: false,
                recoded_frame: 0,
                recoding_start_time: Some(now),
                recoding_end_time: Some((now + duration) as i64),
                recoding_need_frame: None,
            }),
    {
        if self.is_recoding_started(now) {
            return false;
        }
        self.recoding_initialize();
        self.recoding_start_time = Some(now);
        self.recoding_end_time = Some(now + duration);
        true
    }

    /// Starts recording until `need_frame` frames are there, unless a
    /// recording is going on at time `now`. Returns whether it started: the
    /// caller then lets the reader go and opens the writer.
    pub fn start_recoding_by_frame(&mut self, now: i64, need_frame: i32) -> (started: bool)
        ensures
            started == !old(self).started_at(now),
            !started ==> *final(self) == *old(self),
            started ==> *final(self) == (CaptureFrameStore {
                writer_open: true,
                reader_open: false,
                filled_by_frame: false,
                recoded_frame: 0,
                recoding_start_time: None,
                recoding_end_time: None,
                recoding_need_frame: Some(need_frame),
            }),
    {
        if self.is_recoding_started(now) {
            return false;
        }
        self.recoding_initialize();
        self.recoding_need_frame = Some(need_frame);
        self.recoded_frame = 0;
        true
    }

    /// A frame was captured at time `now`: it is written while a recording
    /// is going on and the store is not full; when that completes the
    /// recording, the replay is to be set up.
    pub fn recoding_frame(&mut self, now: i64) -> (step: RecordStep)
        requires
            !old(self).filled_by_frame && old(self).started_at(now) ==> old(self).recoded_frame < i32::MAX,
        ensures
            frame_recorded(*old(self), *final(self), now, step),
    {
        if self.filled_by_frame {
            return RecordStep::Skip;
        }
        if !self.is_recoding_started(now) {
            return RecordStep::Skip;
        }
        self.recoded_frame = self.recoded_frame + 1;
        if self.is_recoding_end(now) && !self.reader_open {
            RecordStep::WriteAndReplay
        } else {
            RecordStep::Write
        }
    }

    /// The caller let the writer go and tried to open the reader: when it
    /// opened, the recording waits to be replayed.
    pub fn reader_opened(&mut self, opened: bool)
        ensures
            *final(self) == (if opened {
                CaptureFrameStore { writer_open: false, reader_open: true, filled_by_frame: true, ..*old(self) }
            } else {
                CaptureFrameStore { writer_open: false, ..*old(self) }
            }),
    {
        self.writer_open = false;
        if opened {
            self.reader_open = true;
            self.filled_by_frame = true;
        }
    }

    /// Whether a recorded frame can be read: the reader is open and the
    /// recording complete.
    pub fn can_replay(&self) -> (b: bool)
        ensures
            b == (self.reader_open && self.filled_by_frame),
    {
        self.reader_open && self.filled_by_frame
    }

    /// A recorded frame was read and looked at; `stop` tells that nothing
    /// more is wanted from the recording. Counts the frame off; after the
    /// last one (or on `stop`) the replay ends: the caller lets the reader
    /// go, which this returns as true.
    pub fn replayed(&mut self, stop: bool) -> (finished: bool)
        requires
            old(self).reader_open,
            old(self).filled_by_frame,
        ensures
            replay_step(*old(self), *final(self), stop, finished),
    {
        if stop {
            self.recoded_frame = 1;
        }
        if 0 < self.recoded_frame {
            self.recoded_frame = self.recoded_frame - 1;
            if 0 == self.recoded_frame {
                self.reader_open = false;
                self.filled_by_frame = false;
                self.recoded_frame = -1;
                return true;
            }
        }
        false
    }
}

/// One replayed frame (see `replayed`): `stop` ends the replay at once;
/// otherwise the frame is counted off, and counting off the last frame ends
/// it, closing the reader and emptying the store.
pub open spec fn replay_step(before: CaptureFrameStore, after: CaptureFrameStore, stop: bool, finished: bool) -> bool {
    let left = if stop {
        1
    } else {
        before.recoded_frame as int
    };
    if 0 < left {
        if left - 1 == 0 {
            &&& finished
            &&& after == CaptureFrameStore {
                reader_open: false,
                filled_by_frame: false,
                recoded_frame: -1i32,
                ..before
            }
        } else {
            &&& !finished
            &&& after == CaptureFrameStore { recoded_frame: (left - 1) as i32, ..before }
        }
    } else {
        &&& !finished
        &&& after == CaptureFrameStore { recoded_frame: left as i32, ..before }
    }
}

/// A replay of `k` recorded frames, each looked at without asking to stop:
/// the reader stays open and the store full while frames are left, only
/// the `k`-th frame ends the replay, and after it the replay is over (the
/// frame count is -1) and no frame can be read any more.
pub proof fn lemma_replay_run(states: Seq<CaptureFrameStore>, finished: Seq<bool>, k: int)
    requires
        1 <= k,
        finished.len() <= k,
        states.len() == finished.len() + 1,
        states[0].reader_open,
        states[0].filled_by_frame,
        states[0].recoded_frame == k,
        forall|i: int| 0 <= i < finished.len() ==> replay_step(states[i], states[i + 1], false, #[trigger] finished[i]),
    ensures
        forall|i: int| 0 <= i < finished.len() ==> (#[trigger] states[i]).reader_open && states[i].filled_by_frame,
        forall|i: int| 0 <= i < finished.len() ==> #[trigger] finished[i] == (i == k - 1),
        finished.len() == k ==> {
            &&& states[k].recoded_frame == -1
            &&& !states[k].reader_open
            &&& !states[k].filled_by_frame
        },
{
    assert forall|i: int| 0 <= i < finished.len() implies (#[trigger] states[i]).reader_open && states[i].filled_by_frame
        && finished[i] == (i == k - 1) by {
        lemma_replay_count(states, finished, k, i);
        assert(replay_step(states[i], states[i + 1], false, finished[i]));
    }
    if finished.len() == k {
        lemma_replay_count(states, finished, k, k - 1);
        assert(replay_step(states[k - 1], states[k], false, finished[k - 1]));
    }
}

/// Before the `i`-th replayed frame of a replay of `k`, `k - i` frames are
/// left and the reader is open on a full store.
proof fn lemma_replay_count(states: Seq<CaptureFrameStore>, finished: Seq<bool>, k: int, i: int)
    requires
        1 <= k,
        finished.len() <= k,
        states.len() == finished.len() + 1,
        states[0].reader_open,
        states[0].filled_by_frame,
        states[0].recoded_frame == k,
        forall|j: int| 0 <= j < finished.len() ==> replay_step(states[j], states[j + 1], false, #[trigger] finished[j]),
        0 <= i < finished.len(),
    ensures
        states[i].recoded_frame == k - i,
        states[i].reader_open,
        states[i].filled_by_frame,
    decreases i,
{
    if i > 0 {
        lemma_replay_count(states, finished, k, i - 1);
        assert(replay_step(states[i - 1], states[i], false, finished[i - 1]));
    }
}

/// A recording of `need` frames: each captured frame is written, and the
/// one that makes `need` frames completes the recording.
pub proof fn lemma_recording_by_frames(states: Seq<CaptureFrameStore>, steps: Seq<RecordStep>, now: i64, need: i32)
    requires
        0 < need,
        steps.len() <= need,
        states.len() == steps.len() + 1,
        states[0] == (CaptureFrameStore {
            writer_open: true,
            reader_open: false,
            filled_by_frame: false,
            recoded_frame: 0,
            recoding_start_time: None,
            recoding_end_time: None,
            recoding_need_frame: Some(need),
        }),
        forall|i: int| 0 <= i < steps.len() ==> frame_recorded(states[i], states[i + 1], now, #[trigger] steps[i]),
    ensures
        forall|i: int|
            0 <= i < steps.len() ==> #[trigger] steps[i] == if i + 1 == need {
                RecordStep::WriteAndReplay
            } else {
                RecordStep::Write
            },
        states[steps.len() as int].recoded_frame == steps.len(),
{
    assert forall|i: int| 0 <= i <= steps.len() implies #[trigger] states[i] == (CaptureFrameStore {
        recoded_frame: i as i32,
        ..states[0]
    }) by {
        lemma_recording_count(states, steps, now, need, i);
    }
    assert forall|i: int| 0 <= i < steps.len() implies #[trigger] steps[i] == if i + 1 == need {
        RecordStep::WriteAndReplay
    } else {
        RecordStep::Write
    } by {
        assert(states[i] == (CaptureFrameStore { recoded_frame: i as i32, ..states[0] }));
        assert(frame_recorded(states[i], states[i + 1], now, steps[i]));
    }
    assert(states[steps.len() as int] == (CaptureFrameStore { recoded_frame: steps.len() as i32, ..states[0] }));
}

proof fn lemma_recording_count(states: Seq<CaptureFrameStore>, steps: Seq<RecordStep>, now: i64, need: i32, i: int)
    requires
        0 < need,
        steps.len() <= need,
        states.len() == steps.len() + 1,
        states[0] == (CaptureFrameStore {
            writer_open: true,
            reader_open: false,
            filled_by_frame: false,
            recoded_frame: 0,
            recoding_start_time: None,
            recoding_end_time: None,
            recoding_need_frame: Some(need),
        }),
        forall|j: int| 0 <= j < steps.len() ==> frame_recorded(states[j], states[j + 1], now, #[trigger] steps[j]),
        0 <= i <= steps.len(),
    ensures
        states[i] == (CaptureFrameStore { recoded_frame: i as i32, ..states[0] }),
    decreases i,
{
    if i > 0 {
        lemma_recording_count(states, steps, now, need, i - 1);
        assert(frame_recorded(states[i - 1], states[i], now, steps[i - 1]));
    }
}

} // verus!

