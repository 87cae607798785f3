//! Frames as they go out and come in, and the lines that report them: one
//! line on the console for each frame sent, and, in listen mode, two lines in
//! the log for each frame that was answered.

use crate::bits::PAYLOAD_BYTES;
use crate::text::{hex_padded, pad_right, push_column, push_hex_padded};
use vstd::prelude::*;
use vstd::slice::slice_to_vec;

verus! {

/// Largest identifier of a standard frame.
pub const SFF_MASK: u32 = 0x0000_07ff;

/// Largest identifier of an extended frame.
pub const EFF_MASK: u32 = 0x1fff_ffff;

/// Width of the column that holds the direction of a frame.
pub const NOTE_WIDTH: usize = 3;

/// Width of the column that holds the time.
pub const TIME_WIDTH: usize = 30;

/// Width of the column that holds the name of the channel.
pub const CHANNEL_WIDTH: usize = 8;

/// Width of the column that holds the identifier.
pub const ID_WIDTH: usize = 10;

/// Width of the column that holds the payload.
pub const DATA_WIDTH: usize = 25;

/// Why a frame cannot be built.
#[derive(Debug, Clone, Copy, PartialEq, Eq, Structural)]
pub enum FrameError {
    /// The payload has more than eight bytes.
    TooMuchData,
    /// The identifier has more than 29 bits.
    IdTooLarge,
}

/// The way a frame went.
#[derive(Debug, Clone, Copy, PartialEq, Eq, Structural)]
pub enum Direction {
    /// Sent by this side.
    Tx,
    /// Heard from the bus.
    Rx,
}

/// One transmission unit: an identifier and up to eight bytes of payload.
#[derive(Debug, PartialEq, Eq)]
pub struct Frame {
    pub id: u32,
    pub data: Vec<u8>,
    pub rtr: bool,
    pub err: bool,
}

/// A frame that was seen on a channel, with the time at which it was noted.
#[derive(Debug, PartialEq, Eq)]
pub struct FrameRecord {
    pub id: u32,
    pub data: Vec<u8>,
    pub direction: Direction,
    pub timestamp: String,
    pub channel: String,
}

pub struct FrameView {
    pub id: u32,
    pub data: Seq<u8>,
    pub rtr: bool,
    pub err: bool,
}

pub struct FrameRecordView {
    pub id: u32,
    pub data: Seq<u8>,
    pub direction: Direction,
    pub timestamp: Seq<char>,
    pub channel: Seq<char>,
}

impl View for Frame {
    type V = FrameView;

    open spec fn view(&self) -> FrameView {
        FrameView { id: self.id, data: self.data@, rtr: self.rtr, err: self.err }
    }
}

impl View for FrameRecord {
    type V = FrameRecordView;

    open spec fn view(&self) -> FrameRecordView {
        FrameRecordView {
            id: self.id,
            data: self.data@,
            direction: self.direction,
            timestamp: self.timestamp@,
            channel: self.channel@,
        }
    }
}

/// The text that stands for a direction.
pub open spec fn note_text(direction: Direction) -> Seq<char> {
    match direction {
        Direction::Tx => "TX"@,
        Direction::Rx => "RX"@,
    }
}

/// The identifier as it is shown: `0x` and at least three hexadecimal
/// digits.
pub open spec fn id_text(id: u32) -> Seq<char> {
    "0x"@ + hex_padded(id as nat, 3)
}

/// The payload as it is shown: each byte as two hexadecimal digits with a
/// space behind them.
pub open spec fn data_text(data: Seq<u8>) -> Seq<char>
    decreases data.len(),
{
    if data.len() == 0 {
        Seq::empty()
    } else {
        data_text(data.drop_last()) + hex_padded(data.last() as nat, 2) + " "@
    }
}

/// The line that reports a frame on the console: the time, the channel, the
/// identifier and the payload, each in a column of its own.
pub open spec fn console_line(timestamp: Seq<char>, channel: Seq<char>, id: u32, data: Seq<u8>) -> Seq<
    char,
> {
    pad_right(timestamp, TIME_WIDTH as nat) + " "@ + pad_right(channel, CHANNEL_WIDTH as nat) + " "@
        + pad_right(id_text(id), ID_WIDTH as nat) + " "@ + pad_right(
        data_text(data),
        DATA_WIDTH as nat,
    )
}

impl FrameView {
    /// The frame can go onto the bus.
    pub open spec fn well_formed(self) -> bool {
        self.data.len() <= 8 && self.id <= EFF_MASK
    }
}

impl FrameRecordView {
    /// The line that the record makes in the log: the direction in a column
    /// of its own, then the columns of the console line, then a line feed.
    pub open spec fn line(self) -> Seq<char> {
        pad_right(note_text(self.direction), NOTE_WIDTH as nat) + " "@ + console_line(
            self.timestamp,
            self.channel,
            self.id,
            self.data,
        ) + "\n"@
    }
}

impl Direction {
    /// `TX` or `RX`.
    pub fn note(&self) -> (r: &'static str)
        ensures
            r@ == note_text(*self),
    {
        match self {
            Direction::Tx => "TX",
            Direction::Rx => "RX",
        }
    }
}

impl Frame {
    /// A frame with the given identifier and payload. A payload of more than
    /// eight bytes is refused, and then an identifier of more than 29 bits.
    pub fn new(id: u32, data: &[u8], rtr: bool, err: bool) -> (r: Result<Frame, FrameError>)
        ensures
            r == Err::<Frame, FrameError>(FrameError::TooMuchData) <==> data@.len() > 8,
            r == Err::<Frame, FrameError>(FrameError::IdTooLarge) <==> data@.len() <= 8 && id
                > EFF_MASK,
            r is Ok <==> data@.len() <= 8 && id <= EFF_MASK,
            r matches Ok(frame) ==> frame@ == (FrameView { id, data: data@, rtr, err }),
    {
        if data.len() > PAYLOAD_BYTES {
            Err(FrameError::TooMuchData)
        } else if id > EFF_MASK {
            Err(FrameError::IdTooLarge)
        } else {
            Ok(Frame { id, data: slice_to_vec(data), rtr, err })
        }
    }

    /// Whether the identifier needs the extended frame format.
    pub fn is_extended(&self) -> (b: bool)
        ensures
            b == (self.id > SFF_MASK),
    {
        self.id > SFF_MASK
    }
}

/// Appends the identifier as it is shown.
pub fn push_id(out: &mut String, id: u32)
    ensures
        final(out)@ == old(out)@ + id_text(id),
{
    let mut shown = String::new();
    shown.append("0x");
    push_hex_padded(&mut shown, id as u64, 3);
    assert(shown@ =~= id_text(id));
    out.append(shown.as_str());
}

/// The payload as it is shown.
pub fn render_data(data: &[u8]) -> (r: String)
    ensures
        r@ == data_text(data@),
{
    let mut out = String::new();
    let mut i: usize = 0;
    while i < data.len()
        invariant
            i <= data.len(),
            out@ == data_text(data@.take(i as int)),
        decreases data.len() - i,
    {
        proof {
            assert(data@.take(i as int + 1).drop_last() =~= data@.take(i as int));
        }
        push_hex_padded(&mut out, data[i] as u64, 2);
        out.append(" ");
        i = i + 1;
    }
    assert(data@.take(i as int) =~= data@);
    out
}

/// The line that reports a frame on the console.
pub fn render_console_line(timestamp: &str, channel: &str, id: u32, data: &[u8]) -> (r: String)
    ensures
        r@ == console_line(timestamp@, channel@, id, data@),
{
    let mut shown_id = String::new();
    push_id(&mut shown_id, id);
    assert(shown_id@ =~= id_text(id));
    let shown_data = render_data(data);
    let mut out = String::new();
    push_column(&mut out, timestamp, TIME_WIDTH);
    assert(out@ =~= pad_right(timestamp@, TIME_WIDTH as nat));
    out.append(" ");
    push_column(&mut out, channel, CHANNEL_WIDTH);
    out.append(" ");
    push_column(&mut out, shown_id.as_str(), ID_WIDTH);
    out.append(" ");
    push_column(&mut out, shown_data.as_str(), DATA_WIDTH);
    out
}

impl FrameRecord {
    /// The record of `frame`, noted at `timestamp` on `channel`.
    pub fn new(direction: Direction, timestamp: String, channel: &str, frame: &Frame) -> (r: Self)
        ensures
            r@ == (FrameRecordView {
                id: frame.id,
                data: frame.data@,
                direction,
                timestamp: timestamp@,
                channel: channel@,
            }),
    {
        FrameRecord {
            id: frame.id,
            data: frame.data.clone(),
            direction,
            timestamp,
            channel: String::from_str(channel),
        }
    }

    /// The line that the record makes in the log.
    pub fn line(&self) -> (r: String)
        ensures
            r@ == self@.line(),
    {
        let columns = render_console_line(
            self.timestamp.as_str(),
            self.channel.as_str(),
            self.id,
            self.data.as_slice(),
        );
        let mut out = String::new();
        push_column(&mut out, self.direction.note(), NOTE_WIDTH);
        assert(out@ =~= pad_right(note_text(self.direction), NOTE_WIDTH as nat));
        out.append(" ");
        out.append(columns.as_str());
        out.append("\n");
        out
    }
}

} // verus!
