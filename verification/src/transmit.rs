//! What is worked out around one transmission: the frame that goes out with
//! the line that reports it, and the records of a frame that was answered.
//! Putting the frame on the bus, waiting for the answer and writing the
//! lines is left to the caller.

use crate::frame::{
    console_line, render_console_line, Direction, Frame, FrameError, FrameRecord, FrameRecordView,
    FrameView, EFF_MASK,
};
use vstd::prelude::*;

verus! {

/// `Utc::now` of the `chrono` crate, formatted by it as
/// `[%a %b %e %H:%M:%S %Y]:`. The text depends on the clock: nothing is
/// claimed of it.
#[verifier::external_body]
pub(crate) fn timestamp() -> String {
    chrono::Utc::now().naive_local().format("[%a %b %e %H:%M:%S %Y]:").to_string()
}

/// `record` is a record of `frame`, seen on `channel` in the given
/// direction, noted at whatever time.
pub open spec fn records(
    record: FrameRecordView,
    direction: Direction,
    channel: Seq<char>,
    frame: FrameView,
) -> bool {
    &&& record.id == frame.id
    &&& record.data == frame.data
    &&& record.direction == direction
    &&& record.channel == channel
}

/// The frame for one transmission on `channel`, and the line that reports
/// it on the console, with the current time in its first column. The frame
/// is refused as `Frame::new` refuses it.
pub fn create_frame_send_msg(channel: &str, cob_id: u32, data: &[u8], rtr: bool, err: bool) -> (r:
    Result<(Frame, String), FrameError>)
    ensures
        r is Ok <==> data@.len() <= 8 && cob_id <= EFF_MASK,
        r matches Err(e) ==> e == (if data@.len() > 8 {
            FrameError::TooMuchData
        } else {
            FrameError::IdTooLarge
        }),
        r matches Ok((frame, line)) ==> {
            &&& frame@ == (FrameView { id: cob_id, data: data@, rtr, err })
            &&& exists|stamp: Seq<char>| line@ == console_line(stamp, channel@, cob_id, data@)
        },
{
    match Frame::new(cob_id, data, rtr, err) {
        Err(e) => Err(e),
        Ok(frame) => {
            let stamp = timestamp();
            let line = render_console_line(stamp.as_str(), channel, cob_id, data);
            Ok((frame, line))
        },
    }
}

/// The records that listening after one transmission leaves: none where no
/// reply was heard, else one of the frame sent and one of the reply, in
/// this order, each noted at the current time.
pub fn listen(channel: &str, tx_frame: &Frame, reply: Option<&Frame>) -> (r: Vec<FrameRecord>)
    ensures
        reply is None ==> r.len() == 0,
        reply matches Some(rx_frame) ==> {
            &&& r.len() == 2
            &&& records(r[0]@, Direction::Tx, channel@, tx_frame@)
            &&& records(r[1]@, Direction::Rx, channel@, rx_frame@)
        },
{
    let mut out: Vec<FrameRecord> = Vec::new();
    match reply {
        None => {},
        Some(rx_frame) => {
            out.push(FrameRecord::new(Direction::Tx, timestamp(), channel, tx_frame));
            out.push(FrameRecord::new(Direction::Rx, timestamp(), channel, rx_frame));
        },
    }
    out
}

} // verus!
