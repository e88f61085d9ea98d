//! Rotation of video chunks: which frames go into which chunk, and when a
//! chunk is complete.

use vstd::prelude::*;

verus! {

/// One segment of video: its place in the run, the timestamps of its first
/// and last frame, and the indices of those frames.
#[derive(Clone, Copy, PartialEq, Eq, Structural, Debug)]
pub struct Chunk {
    pub sequence: u64,
    pub start_ms: u64,
    pub end_ms: u64,
    pub first_frame: u64,
    pub last_frame: u64,
}

/// What became of a frame handed to the writer.
#[derive(Clone, Copy, PartialEq, Eq, Structural, Debug)]
pub enum Accepted {
    /// The frame joined the open chunk, or opened one.
    Buffered,
    /// The frame completed the chunk given here, which is to be written out.
    Flushed(Chunk),
    /// The frame's index is not above that of the frame before: it is left out.
    OutOfOrder,
}

/// The writer's state: the length of a chunk, the number of the next chunk,
/// the index of the last frame taken, and the chunk being filled.
#[derive(Clone, Copy, PartialEq, Eq, Structural, Debug)]
pub struct ChunkedVideoWriter {
    pub chunk_duration_ms: u64,
    pub next_sequence: u64,
    pub last_frame: Option<u64>,
    pub open: Option<Chunk>,
}

impl Chunk {
    /// The chunk with one frame more.
    pub open spec fn extended(self, frame_index: u64, timestamp_ms: u64) -> Chunk {
        Chunk {
            end_ms: if timestamp_ms > self.end_ms {
                timestamp_ms
            } else {
                self.end_ms
            },
            last_frame: frame_index,
            ..self
        }
    }
}

impl ChunkedVideoWriter {
    /// A chunk has a positive length; the open chunk carries the next
    /// sequence number, ends with the last frame taken and spans less than
    /// the length of a chunk; and fewer chunks were completed than frames
    /// were taken.
    pub open spec fn wf(&self) -> bool {
        &&& self.chunk_duration_ms > 0
        &&& match self.last_frame {
            Some(last) => self.next_sequence <= last,
            None => self.next_sequence == 0 && self.open is None,
        }
        &&& match self.open {
            Some(c) => c.sequence == self.next_sequence && Some(c.last_frame) == self.last_frame
                && c.first_frame <= c.last_frame && c.start_ms <= c.end_ms && c.end_ms
                - c.start_ms < self.chunk_duration_ms,
            None => true,
        }
    }

    /// Whether a frame with this index comes after the last frame taken.
    pub open spec fn in_order(&self, frame_index: u64) -> bool {
        match self.last_frame {
            Some(last) => frame_index > last,
            None => true,
        }
    }

    /// Whether a frame at `timestamp_ms` completes the open chunk: the time
    /// since the chunk's first frame has reached the length of a chunk.
    pub open spec fn completes_chunk(&self, timestamp_ms: u64) -> bool {
        self.open matches Some(c) && timestamp_ms - c.start_ms >= self.chunk_duration_ms
    }

    /// The writer after a frame, and what became of the frame.
    ///
    /// A frame out of order changes nothing. With no chunk open the frame
    /// opens one. Otherwise it joins the open chunk, and completes it if the
    /// chunk's length has been reached: the next frame will open a new one.
    pub open spec fn accepted(&self, frame_index: u64, timestamp_ms: u64) -> (
        ChunkedVideoWriter,
        Accepted,
    ) {
        if !self.in_order(frame_index) {
            (*self, Accepted::OutOfOrder)
        } else {
            match self.open {
                None => (
                    ChunkedVideoWriter {
                        last_frame: Some(frame_index),
                        open: Some(
                            Chunk {
                                sequence: self.next_sequence,
                                start_ms: timestamp_ms,
                                end_ms: timestamp_ms,
                                first_frame: frame_index,
                                last_frame: frame_index,
                            },
                        ),
                        ..*self
                    },
                    Accepted::Buffered,
                ),
                Some(c) => if self.completes_chunk(timestamp_ms) {
                    (
                        ChunkedVideoWriter {
                            last_frame: Some(frame_index),
                            next_sequence: (self.next_sequence + 1) as u64,
                            open: None,
                            ..*self
                        },
                        Accepted::Flushed(c.extended(frame_index, timestamp_ms)),
                    )
                } else {
                    (
                        ChunkedVideoWriter {
                            last_frame: Some(frame_index),
                            open: Some(c.extended(frame_index, timestamp_ms)),
                            ..*self
                        },
                        Accepted::Buffered,
                    )
                },
            }
        }
    }

    /// The writer after the frames of `frames`, in order. A frame is given
    /// by its index and its time in milliseconds.
    pub open spec fn after_frames(&self, frames: Seq<(u64, u64)>) -> ChunkedVideoWriter
        decreases frames.len(),
    {
        if frames.len() == 0 {
            *self
        } else {
            self.after_frames(frames.drop_last()).accepted(frames.last().0, frames.last().1).0
        }
    }

    /// The chunks that the frames of `frames` complete, in order.
    pub open spec fn completed_by(&self, frames: Seq<(u64, u64)>) -> Seq<Chunk>
        decreases frames.len(),
    {
        if frames.len() == 0 {
            Seq::empty()
        } else {
            let before = self.completed_by(frames.drop_last());
            match self.after_frames(frames.drop_last()).accepted(
                frames.last().0,
                frames.last().1,
            ).1 {
                Accepted::Flushed(c) => before.push(c),
                _ => before,
            }
        }
    }

    /// A writer that has taken no frame. There is none for chunks of no length.
    pub fn new(chunk_duration_ms: u64) -> (w: Option<Self>)
        ensures
            chunk_duration_ms == 0 <==> w is None,
            w matches Some(w) ==> w.wf() && w == (ChunkedVideoWriter {
                chunk_duration_ms,
                next_sequence: 0,
                last_frame: None,
                open: None,
            }),
    {
        if chunk_duration_ms == 0 {
            None
        } else {
            Some(
                ChunkedVideoWriter {
                    chunk_duration_ms,
                    next_sequence: 0,
                    last_frame: None,
                    open: None,
                },
            )
        }
    }

    /// Takes the next frame. Only time decides when a chunk is complete:
    /// gaps between frame indices change nothing. A completed chunk is
    /// handed out to be written; it spans at least the length of a chunk.
    pub fn accept(&mut self, frame_index: u64, timestamp_ms: u64) -> (a: Accepted)
        requires
            old(self).wf(),
        ensures
            final(self).wf(),
            (*final(self), a) == old(self).accepted(frame_index, timestamp_ms),
            a matches Accepted::Flushed(c) ==> c.end_ms - c.start_ms >= old(self).chunk_duration_ms
                && c.first_frame < c.last_frame && c.sequence == old(self).next_sequence,
    {
        match self.last_frame {
            Some(last) => {
                if frame_index <= last {
                    return Accepted::OutOfOrder;
                }
            },
            None => {},
        }
        self.last_frame = Some(frame_index);
        match self.open {
            None => {
                self.open = Some(
                    Chunk {
                        sequence: self.next_sequence,
                        start_ms: timestamp_ms,
                        end_ms: timestamp_ms,
                        first_frame: frame_index,
                        last_frame: frame_index,
                    },
                );
                Accepted::Buffered
            },
            Some(c) => {
                let grown = Chunk {
                    sequence: c.sequence,
                    start_ms: c.start_ms,
                    end_ms: if timestamp_ms > c.end_ms {
                        timestamp_ms
                    } else {
                        c.end_ms
                    },
                    first_frame: c.first_frame,
                    last_frame: frame_index,
                };
                if timestamp_ms >= c.start_ms && timestamp_ms - c.start_ms
                    >= self.chunk_duration_ms {
                    self.open = None;
                    self.next_sequence = self.next_sequence + 1;
                    Accepted::Flushed(grown)
                } else {
                    self.open = Some(grown);
                    Accepted::Buffered
                }
            },
        }
    }

    /// Ends the stream: the open chunk, however short, is handed out to be
    /// written. It holds at least one frame and spans less than the length
    /// of a chunk. Without an open chunk there is nothing to write.
    pub fn finalize(self) -> (last: Option<Chunk>)
        requires
            self.wf(),
        ensures
            last == self.open,
            last matches Some(c) ==> c.sequence == self.next_sequence && c.first_frame
                <= c.last_frame && c.start_ms <= c.end_ms && c.end_ms - c.start_ms
                < self.chunk_duration_ms,
    {
        self.open
    }
}

/// Whatever frames a run hands to the writer, the chunks that they complete
/// are numbered one after the other, each spans at least the length of a
/// chunk and holds more than one frame, and the chunk left open at the end
/// gets the next number.
pub proof fn lemma_chunks_of_a_run(w: ChunkedVideoWriter, frames: Seq<(u64, u64)>)
    requires
        w.wf(),
    ensures
        w.after_frames(frames).wf(),
        w.after_frames(frames).chunk_duration_ms == w.chunk_duration_ms,
        w.after_frames(frames).next_sequence == w.next_sequence + w.completed_by(frames).len(),
        forall|k: int|
            0 <= k < w.completed_by(frames).len() ==> {
                let c = #[trigger] w.completed_by(frames)[k];
                &&& c.sequence == w.next_sequence + k
                &&& c.end_ms - c.start_ms >= w.chunk_duration_ms
                &&& c.first_frame < c.last_frame
            },
    decreases frames.len(),
{
    if frames.len() > 0 {
        lemma_chunks_of_a_run(w, frames.drop_last());
    }
}

/// Where time does not run backwards, a run completes no more chunks than
/// the time from its first frame to its last holds: `n` completed chunks
/// take at least `n` times the length of a chunk. With the chunk left open
/// at the end, a run of 25 s in chunks of 10 s writes at most three.
pub proof fn lemma_chunks_fit_in_time(chunk_duration_ms: u64, frames: Seq<(u64, u64)>)
    requires
        chunk_duration_ms > 0,
        frames.len() > 0,
        forall|i: int, j: int| 0 <= i <= j < frames.len() ==> frames[i].1 <= frames[j].1,
    ensures
        fresh_writer(chunk_duration_ms).completed_by(frames).len() * chunk_duration_ms
            <= frames.last().1 - frames[0].1,
        fresh_writer(chunk_duration_ms).after_frames(frames).open matches Some(c) ==> fresh_writer(
            chunk_duration_ms,
        ).completed_by(frames).len() * chunk_duration_ms <= c.start_ms - frames[0].1,
    decreases frames.len(),
{
    let w = fresh_writer(chunk_duration_ms);
    let head = frames.drop_last();
    lemma_chunks_of_a_run(w, head);
    if head.len() > 0 {
        lemma_chunks_fit_in_time(chunk_duration_ms, head);
        assert(head[0] == frames[0]);
        assert(head.last() == frames[frames.len() - 2]);
        let n = w.completed_by(head).len() as int;
        let d = chunk_duration_ms as int;
        assert((n + 1) * d == n * d + d) by (nonlinear_arith);
    } else {
        assert(w.completed_by(head).len() == 0);
        assert(w.after_frames(head) == w);
    }
}

/// A writer that has taken no frame.
pub open spec fn fresh_writer(chunk_duration_ms: u64) -> ChunkedVideoWriter {
    ChunkedVideoWriter { chunk_duration_ms, next_sequence: 0, last_frame: None, open: None }
}

} // verus!
