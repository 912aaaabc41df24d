//! Requests: decoding a nine-byte frame and applying it to a session store.
use vstd::prelude::*;
use crate::store::{range_mean, SessionStore};
use crate::wire::{be_i32_at, decode_i32};

verus! {

/// The discriminator byte of an insert frame, `'I'`.
pub const INSERT_TAG: u8 = 0x49;

/// The discriminator byte of a query frame, `'Q'`.
pub const QUERY_TAG: u8 = 0x51;

/// The number of bytes in a frame.
pub const FRAME_LEN: usize = 9;

/// One decoded frame.
#[derive(Clone, Copy, Debug, PartialEq, Eq, Structural)]
pub enum Query {
    /// Record `value` at `timestamp`.
    Insert { timestamp: i32, value: i32 },
    /// Answer with the mean of the values at `min_ts..=max_ts`.
    Query { min_ts: i32, max_ts: i32 },
    /// Any other discriminator: ignored.
    Unknown,
}

/// The request that a frame's bytes denote.
pub open spec fn frame_request(f: Seq<u8>) -> Query {
    if f[0] == INSERT_TAG {
        Query::Insert { timestamp: be_i32_at(f, 1) as i32, value: be_i32_at(f, 5) as i32 }
    } else if f[0] == QUERY_TAG {
        Query::Query { min_ts: be_i32_at(f, 1) as i32, max_ts: be_i32_at(f, 5) as i32 }
    } else {
        Query::Unknown
    }
}

impl Query {
    /// Decodes a frame: byte 0 selects the request, bytes 1..5 and 5..9 are its two
    /// big-endian signed parameters. Any other discriminator gives `Unknown`.
    pub fn decode(frame: &[u8; 9]) -> (r: Query)
        ensures
            r == frame_request(frame@),
            r matches Query::Insert { timestamp, value } ==> timestamp as int == be_i32_at(
                frame@,
                1,
            ) && value as int == be_i32_at(frame@, 5),
            r matches Query::Query { min_ts, max_ts } ==> min_ts as int == be_i32_at(frame@, 1)
                && max_ts as int == be_i32_at(frame@, 5),
    {
        let first = decode_i32(frame[1], frame[2], frame[3], frame[4]);
        let second = decode_i32(frame[5], frame[6], frame[7], frame[8]);
        if frame[0] == INSERT_TAG {
            Query::Insert { timestamp: first, value: second }
        } else if frame[0] == QUERY_TAG {
            Query::Query { min_ts: first, max_ts: second }
        } else {
            Query::Unknown
        }
    }

    /// Applies the request to the store. An insert records its value; a query leaves the
    /// store as it is and returns the mean to answer with; an unknown request does nothing.
    pub fn process(self, db: &mut SessionStore) -> (r: Option<i32>)
        ensures
            match self {
                Query::Insert { timestamp, value } => final(db)@ == old(db)@.insert(
                    timestamp,
                    value,
                ) && r is None,
                Query::Query { min_ts, max_ts } => final(db)@ == old(db)@ && r == Some(
                    range_mean(old(db)@, min_ts as int, max_ts as int) as i32,
                ),
                Query::Unknown => final(db)@ == old(db)@ && r is None,
            },
            r matches Some(mean) ==> self matches Query::Query { min_ts, max_ts } && mean as int
                == range_mean(old(db)@, min_ts as int, max_ts as int),
    {
        match self {
            Query::Insert { timestamp, value } => {
                db.insert(timestamp, value);
                None
            },
            Query::Query { min_ts, max_ts } => Some(db.mean(min_ts, max_ts)),
            Query::Unknown => None,
        }
    }
}

} // verus!
