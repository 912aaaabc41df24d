//! The per-connection state machine: it owns one store and decides, for each event on the
//! connection, what the connection does next.
use vstd::prelude::*;
use crate::request::{frame_request, Query};
use crate::store::{range_mean, SessionStore};
use crate::wire::{be_i32, encode_i32};

verus! {

/// What happened on the connection since the last step.
#[derive(Clone, Copy, Debug, PartialEq, Eq)]
pub enum Event {
    /// A complete frame was read.
    Frame([u8; 9]),
    /// The peer closed the stream, before or within a frame.
    EndOfStream,
    /// Reading failed for another reason.
    ReadFailed,
    /// Writing a reply failed.
    WriteFailed,
}

/// What the connection must do next.
#[derive(Clone, Copy, Debug, PartialEq, Eq)]
pub enum Action {
    /// A value was recorded; read the next frame.
    Stored { timestamp: i32, value: i32 },
    /// Write `reply` (the big-endian mean) before reading the next frame.
    Answer { min_ts: i32, max_ts: i32, mean: i32, reply: [u8; 4] },
    /// Nothing to do; read the next frame.
    Skip,
    /// Stop; `failed` tells whether an I/O failure ended the session.
    Close { failed: bool },
}

/// The state of one connection: its private store, and whether it is still open.
pub struct Session {
    store: SessionStore,
    open: bool,
}

impl View for Session {
    type V = (Map<i32, i32>, bool);

    closed spec fn view(&self) -> (Map<i32, i32>, bool) {
        (self.store@, self.open)
    }
}

impl Session {
    /// A freshly accepted connection: open, with an empty store.
    pub fn new() -> (r: Session)
        ensures
            r@ == (Map::<i32, i32>::empty(), true),
    {
        Session { store: SessionStore::new(), open: true }
    }

    /// Whether the connection still reads frames.
    pub fn is_open(&self) -> (r: bool)
        ensures
            r == self@.1,
    {
        self.open
    }

    /// Handles one event. A frame is decoded and applied to this session's store only; a
    /// query is answered with its mean. The end of the stream, or a failure, closes the
    /// session. A closed session changes no more and only ever asks to stop.
    pub fn step(&mut self, event: Event) -> (r: Action)
        ensures
            !old(self)@.1 ==> final(self)@ == old(self)@ && r == (Action::Close { failed: false }),
            old(self)@.1 ==> match event {
                Event::Frame(f) => final(self)@.1 && match frame_request(f@) {
                    Query::Insert { timestamp, value } => final(self)@.0 == old(self)@.0.insert(
                        timestamp,
                        value,
                    ) && r == (Action::Stored { timestamp, value }),
                    Query::Query { min_ts, max_ts } => final(self)@.0 == old(self)@.0 && (
                    r matches Action::Answer { min_ts: a, max_ts: b, mean, reply } && a
                        == min_ts && b == max_ts && mean as int == range_mean(
                        old(self)@.0,
                        min_ts as int,
                        max_ts as int,
                    ) && be_i32(reply[0], reply[1], reply[2], reply[3]) == mean as int),
                    Query::Unknown => final(self)@.0 == old(self)@.0 && r == Action::Skip,
                },
                Event::EndOfStream => final(self)@ == (old(self)@.0, false) && r == (
                Action::Close { failed: false }),
                Event::ReadFailed | Event::WriteFailed => final(self)@ == (old(self)@.0, false)
                    && r == (Action::Close { failed: true }),
            },
    {
        if !self.open {
            return Action::Close { failed: false };
        }
        match event {
            Event::Frame(f) => {
                let q = Query::decode(&f);
                let answer = q.process(&mut self.store);
                match (q, answer) {
                    (Query::Insert { timestamp, value }, _) => Action::Stored { timestamp, value },
                    (Query::Query { min_ts, max_ts }, Some(mean)) => {
                        Action::Answer { min_ts, max_ts, mean, reply: encode_i32(mean) }
                    },
                    _ => Action::Skip,
                }
            },
            Event::EndOfStream => {
                self.open = false;
                Action::Close { failed: false }
            },
            Event::ReadFailed | Event::WriteFailed => {
                self.open = false;
                Action::Close { failed: true }
            },
        }
    }
}

} // verus!
