//! The generation engine: draws a value for each field, packs the fields of
//! a section into one value, packs the sections into the eight bytes of a
//! payload, and selects an identifier.

use crate::bits::{
    align, byte_range_limit, byte_range_max, lemma_aligned_tail_is_zero, lemma_pack_fields_step,
    lemma_pack_single_field, pack_fields, push, to_be_bytes, total_width, PAYLOAD_BYTES,
};
use crate::msg_format::{widen, MsgFormat, Section, SubSec};
use crate::random::{pick, random_between};
use crate::validate::lemma_total_width_step;
use vstd::prelude::*;

verus! {

/// First identifier above the ones that are drawn where no format is given.
pub const DEFAULT_COB_ID_END: u32 = 2_021;

/// Largest value of a payload byte that is drawn where no format is given.
pub const RANDOM_BYTE_MAX: u8 = 254;

/// A value for one sub-section: the fixed value of a specified sub-section,
/// whatever its width and holes; else one of the values of the sampling
/// range `[0, 2^num_bits - 2]` that is no hole.
pub fn sub_sec_proc(sub_sec: &SubSec) -> (r: u8)
    requires
        sub_sec@.generable(),
    ensures
        sub_sec@.admits(r),
        sub_sec.is_specified ==> r == sub_sec.specified_val,
        !sub_sec.is_specified ==> 0 <= r <= sub_sec@.sample_max() && !sub_sec.holes@.contains(r),
{
    if sub_sec.is_specified {
        return sub_sec.specified_val;
    }
    let candidates = sub_sec.candidates();
    proof {
        let v = choose|v: u8| sub_sec@.admits(v);
        assert(candidates@.contains(v));
    }
    let drawn = pick(&candidates);
    *drawn.unwrap()
}

/// A value for one section: the fixed value of a specified section; for a
/// section without sub-sections any value of its byte range; else the values
/// of the sub-sections, packed so that the first declared one takes the most
/// significant bits.
pub fn section_proc(section: &Section) -> (r: u64)
    requires
        section@.generable(),
    ensures
        section@.admits(r),
        section.is_specified ==> r == section.specified_val,
        !section.is_specified && section.sub_secs.len() == 0 ==> 0 <= r <= byte_range_max(
            section.num_bytes as nat,
        ),
{
    if section.is_specified {
        return section.specified_val;
    }
    if section.sub_secs.len() == 0 {
        return random_between(0, byte_range_limit(section.num_bytes));
    }
    let ghost widths = section@.widths();
    let ghost mut draws: Seq<u8> = Seq::empty();
    let mut result: u64 = 0;
    let mut i: usize = 0;
    while i < section.sub_secs.len()
        invariant
            !section.is_specified,
            section@.generable(),
            widths == section@.widths(),
            i <= section.sub_secs.len(),
            draws.len() == i,
            forall|k: int| 0 <= k < i ==> (#[trigger] section@.sub_secs[k]).admits(draws[k]),
            result == pack_fields(widths.take(i as int), widen(draws)),
        decreases section.sub_secs.len() - i,
    {
        assert(section@.sub_secs[i as int].generable());
        let drawn = sub_sec_proc(&section.sub_secs[i]);
        proof {
            let ghost longer = draws.push(drawn);
            lemma_pack_fields_step(widths, widen(longer), i as int);
            assert(widen(longer).take(i as int) =~= widen(draws));
            assert(widen(longer).take(i as int + 1) =~= widen(longer));
            draws = longer;
        }
        result = push(result, section.sub_secs[i].num_bits as u32, drawn as u64);
        i = i + 1;
    }
    proof {
        assert(widths.take(i as int) =~= widths);
        assert(section@.admits_draws(draws));
    }
    result
}

/// The payload of one message of the format: the values of the sections,
/// packed so that the first declared one comes first, at the front of the
/// eight bytes; the bytes behind them are zero.
pub fn msg_processor(msg_format: &MsgFormat) -> (r: Vec<u8>)
    requires
        msg_format@.payload_ready(),
    ensures
        msg_format@.admits_payload(r@),
        r.len() == 8,
        forall|i: int| msg_format@.total_bytes() <= i < 8 ==> r[i] == 0,
{
    let ghost bit_widths = msg_format@.bit_widths();
    let ghost byte_widths = msg_format@.byte_widths();
    let ghost mut values: Seq<u64> = Seq::empty();
    let mut result: u64 = 0;
    let mut total_num_bytes: usize = 0;
    if msg_format.sections.len() == 1 {
        assert(msg_format@.sections[0].generable());
        result = section_proc(&msg_format.sections[0]);
        total_num_bytes = msg_format.sections[0].num_bytes as usize;
        proof {
            values = seq![result];
            lemma_pack_single_field(bit_widths[0], result);
            assert(bit_widths =~= seq![bit_widths[0]]);
            lemma_total_width_step(byte_widths, 0);
            assert(byte_widths.take(1) =~= byte_widths);
            assert(byte_widths.take(0) =~= Seq::<nat>::empty());
        }
    } else {
        let mut i: usize = 0;
        while i < msg_format.sections.len()
            invariant
                msg_format@.payload_ready(),
                bit_widths == msg_format@.bit_widths(),
                byte_widths == msg_format@.byte_widths(),
                i <= msg_format.sections.len(),
                values.len() == i,
                forall|k: int| 0 <= k < i ==> (#[trigger] msg_format@.sections[k]).admits(values[k]),
                result == pack_fields(bit_widths.take(i as int), values),
                total_num_bytes == total_width(byte_widths.take(i as int)),
                total_num_bytes <= PAYLOAD_BYTES,
            decreases msg_format.sections.len() - i,
        {
            assert(msg_format@.sections[i as int].generable());
            let sec_result = section_proc(&msg_format.sections[i]);
            proof {
                let ghost longer = values.push(sec_result);
                lemma_pack_fields_step(bit_widths, longer, i as int);
                assert(longer.take(i as int) =~= values);
                assert(longer.take(i as int + 1) =~= longer);
                values = longer;
                lemma_total_width_step(byte_widths, i as int);
                crate::validate::lemma_total_width_prefix(byte_widths, i as int + 1);
            }
            result = push(result, 8 * (msg_format.sections[i].num_bytes as u32), sec_result);
            total_num_bytes = total_num_bytes + msg_format.sections[i].num_bytes as usize;
            i = i + 1;
        }
        proof {
            assert(bit_widths.take(i as int) =~= bit_widths);
            assert(byte_widths.take(i as int) =~= byte_widths);
        }
    }
    let word = align(result, total_num_bytes);
    let bytes = to_be_bytes(word);
    proof {
        assert(msg_format@.admits_values(values));
        assert(bytes@ == msg_format@.payload_of(values));
        assert forall|i: int| msg_format@.total_bytes() <= i < 8 implies bytes[i] == 0 by {
            lemma_aligned_tail_is_zero(result, msg_format@.total_bytes(), i);
        }
    }
    bytes
}

/// An identifier for one message of the format: one of the pool where the
/// pool is not empty, else one of the half-open range.
pub fn random_cob_id_with_format(msg_format: &MsgFormat) -> (r: u32)
    requires
        msg_format@.has_id(),
    ensures
        msg_format@.admits_id(r),
{
    if msg_format.cob_id_values.len() > 0 {
        let drawn = pick(&msg_format.cob_id_values);
        return *drawn.unwrap();
    }
    let low = msg_format.cob_id_range.start as u64;
    let high = (msg_format.cob_id_range.end - 1) as u64;
    random_between(low, high) as u32
}

/// An identifier from the default window `[0, 2021)`.
pub fn random_cob_id() -> (r: u32)
    ensures
        r < DEFAULT_COB_ID_END,
{
    random_between(0, (DEFAULT_COB_ID_END - 1) as u64) as u32
}

/// A payload of eight bytes, each drawn from `[0, 254]`.
pub fn random_msg() -> (r: Vec<u8>)
    ensures
        r.len() == 8,
        forall|i: int| 0 <= i < 8 ==> r[i] <= RANDOM_BYTE_MAX,
{
    let mut data: Vec<u8> = Vec::new();
    let mut i: usize = 0;
    while i < PAYLOAD_BYTES
        invariant
            i <= PAYLOAD_BYTES,
            data.len() == i,
            forall|k: int| 0 <= k < i ==> data[k] <= RANDOM_BYTE_MAX,
        decreases PAYLOAD_BYTES - i,
    {
        data.push(random_between(0, RANDOM_BYTE_MAX as u64) as u8);
        i = i + 1;
    }
    data
}

} // verus!
