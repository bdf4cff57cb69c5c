//! Which part of the source is encoded, and how the encoder is told.

use vstd::prelude::*;
use crate::decimal::{decimal_text, format_decimal};
use crate::text::{push_owned, push_text};

verus! {

/// The part of the source to encode, in millionths of a second from its beginning. No start
/// means from the beginning, no end means to the end.
#[derive(Clone, Copy, Debug)]
pub struct TimeRange {
    pub start: Option<u64>,
    pub end: Option<u64>,
}

/// Where the encoder stops reading.
#[derive(Clone, Copy, Debug, PartialEq, Eq, Structural)]
pub enum Stop {
    /// At the end of the source.
    Open,
    /// After this much has been read, counted from the seek position.
    After(u64),
    /// At this position of the source.
    At(u64),
}

/// The position to seek to before reading: the start, unless it is absent or zero.
pub open spec fn seek_of(range: TimeRange) -> Option<u64> {
    match range.start {
        Some(start) if start > 0 => Some(start),
        _ => None,
    }
}

/// Where reading stops. With a start and a later end the encoder is given the length between
/// them; an end alone, or one not after the start, is given as a position.
pub open spec fn stop_of(range: TimeRange) -> Stop {
    match (range.start, range.end) {
        (_, None) => Stop::Open,
        (Some(start), Some(end)) if end > start => Stop::After((end - start) as u64),
        (_, Some(end)) => Stop::At(end),
    }
}

/// The arguments that stand before the input: the seek, if there is one.
pub open spec fn seek_args(range: TimeRange) -> Seq<Seq<char>> {
    match seek_of(range) {
        Some(start) => seq!["-ss"@, decimal_text(start as int)],
        None => Seq::empty(),
    }
}

/// The arguments that stand after the input: a length or an end position, if there is one.
pub open spec fn stop_args(range: TimeRange) -> Seq<Seq<char>> {
    match stop_of(range) {
        Stop::Open => Seq::empty(),
        Stop::After(length) => seq!["-t"@, decimal_text(length as int)],
        Stop::At(end) => seq!["-to"@, decimal_text(end as int)],
    }
}

impl TimeRange {
    pub fn new(start: Option<u64>, end: Option<u64>) -> (range: Self)
        ensures
            range.start == start,
            range.end == end,
    {
        TimeRange { start, end }
    }

    /// The position to seek to before reading, if there is one; it is never zero.
    pub fn seek(&self) -> (seek: Option<u64>)
        ensures
            seek == seek_of(*self),
            seek matches Some(start) ==> start > 0,
    {
        match self.start {
            Some(start) => if start > 0 {
                Some(start)
            } else {
                None
            },
            None => None,
        }
    }

    /// Where reading stops; a length is never zero.
    pub fn stop(&self) -> (stop: Stop)
        ensures
            stop == stop_of(*self),
            stop matches Stop::After(length) ==> length > 0,
    {
        match self.end {
            None => Stop::Open,
            Some(end) => match self.start {
                Some(start) => if end > start {
                    Stop::After(end - start)
                } else {
                    Stop::At(end)
                },
                None => Stop::At(end),
            },
        }
    }
}

/// Appends the seek arguments of `range` to `args`.
pub fn push_seek(args: &mut Vec<String>, range: &TimeRange)
    ensures
        final(args).deep_view() == old(args).deep_view() + seek_args(*range),
{
    match range.seek() {
        Some(start) => {
            push_text(args, "-ss");
            push_owned(args, format_decimal(start as i128));
        },
        None => {},
    }
    assert(args.deep_view() =~= old(args).deep_view() + seek_args(*range));
}

/// Appends the stop arguments of `range` to `args`.
pub fn push_stop(args: &mut Vec<String>, range: &TimeRange)
    ensures
        final(args).deep_view() == old(args).deep_view() + stop_args(*range),
{
    match range.stop() {
        Stop::Open => {},
        Stop::After(length) => {
            push_text(args, "-t");
            push_owned(args, format_decimal(length as i128));
        },
        Stop::At(end) => {
            push_text(args, "-to");
            push_owned(args, format_decimal(end as i128));
        },
    }
    assert(args.deep_view() =~= old(args).deep_view() + stop_args(*range));
}

} // verus!
