//! Checks made when a format is loaded, before any message is generated
//! from it: that its sections fit into one payload, that every field has a
//! value to draw, and that there is an identifier to select.

use crate::bits::{lemma_one_shl_is_pow2, total_width, PAYLOAD_BYTES};
use crate::msg_format::{FormatError, MsgFormat, Section, SubSec};
use vstd::arithmetic::power2::{lemma2_to64, lemma_pow2_strictly_increases, pow2};
use vstd::prelude::*;

verus! {

/// Whether `v` is one of `holes`.
pub fn is_hole(holes: &Vec<u8>, v: u8) -> (b: bool)
    ensures
        b == holes@.contains(v),
{
    let mut i: usize = 0;
    while i < holes.len()
        invariant
            i <= holes.len(),
            forall|k: int| 0 <= k < i ==> holes[k] != v,
        decreases holes.len() - i,
    {
        if holes[i] == v {
            return true;
        }
        i = i + 1;
    }
    false
}

/// The largest value in the sampling range of a field of `num_bits` bits, as
/// far as a byte can hold it. A field without bits has an empty range.
pub fn sample_limit(num_bits: u8) -> (r: Option<u8>)
    ensures
        num_bits == 0 ==> r is None && pow2(num_bits as nat) - 2 < 0,
        1 <= num_bits <= 8 ==> r == Some((pow2(num_bits as nat) - 2) as u8) && 0 <= pow2(
            num_bits as nat,
        ) - 2 <= 254,
        num_bits > 8 ==> r == Some(255u8) && pow2(num_bits as nat) - 2 >= 255,
{
    proof {
        lemma2_to64();
    }
    if num_bits == 0 {
        None
    } else if num_bits > 8 {
        proof {
            lemma_pow2_strictly_increases(8, num_bits as nat);
        }
        Some(255)
    } else {
        let top: u64 = 1u64 << (num_bits as u32);
        proof {
            lemma_one_shl_is_pow2(num_bits as u64);
            lemma_pow2_strictly_increases(0, num_bits as nat);
            if num_bits < 8 {
                lemma_pow2_strictly_increases(num_bits as nat, 8);
            }
        }
        Some((top - 2) as u8)
    }
}

impl SubSec {
    /// The values that a draw may yield, in increasing order.
    pub fn candidates(&self) -> (r: Vec<u8>)
        ensures
            forall|v: u8| r@.contains(v) <==> self@.draws(v),
            forall|i: int, j: int| 0 <= i < j < r.len() ==> r[i] < r[j],
    {
        let mut out: Vec<u8> = Vec::new();
        match sample_limit(self.num_bits) {
            None => {},
            Some(max) => {
                let mut next: u16 = 0;
                while next <= max as u16
                    invariant
                        next <= max + 1,
                        forall|k: int| 0 <= k < out.len() ==> out[k] < next && !self.holes@.contains(out[k]),
                        forall|v: u8| v < next && !self.holes@.contains(v) ==> out@.contains(v),
                        forall|i: int, j: int| 0 <= i < j < out.len() ==> out[i] < out[j],
                    decreases max + 1 - next,
                {
                    let v: u8 = next as u8;
                    if !is_hole(&self.holes, v) {
                        let ghost before = out@;
                        out.push(v);
                        assert(out@[before.len() as int] == v);
                        assert forall|x: u8| x < next + 1 && !self.holes@.contains(x) implies out@.contains(
                            x,
                        ) by {
                            if x < next {
                                assert(before.contains(x));
                                let k = choose|k: int| 0 <= k < before.len() && before[k] == x;
                                assert(out@[k] == x);
                            }
                        }
                    }
                    next = next + 1;
                }
            },
        }
        out
    }

    /// Whether generation has a value to yield for the field.
    pub fn is_generable(&self) -> (b: bool)
        ensures
            b == self@.generable(),
    {
        if self.is_specified {
            assert(self@.admits(self.specified_val));
            true
        } else {
            let candidates = self.candidates();
            if candidates.len() > 0 {
                assert(candidates@.contains(candidates[0]));
                assert(self@.admits(candidates[0]));
                true
            } else {
                assert forall|v: u8| !self@.admits(v) by {
                    if self@.draws(v) {
                        assert(candidates@.contains(v));
                    }
                }
                false
            }
        }
    }
}

impl Section {
    /// Whether every sub-section that packing consults has a value to yield.
    pub fn is_generable(&self) -> (b: bool)
        ensures
            b == self@.generable(),
    {
        if self.is_specified {
            return true;
        }
        let mut i: usize = 0;
        while i < self.sub_secs.len()
            invariant
                !self.is_specified,
                i <= self.sub_secs.len(),
                forall|k: int| 0 <= k < i ==> (#[trigger] self@.sub_secs[k]).generable(),
            decreases self.sub_secs.len() - i,
        {
            if !self.sub_secs[i].is_generable() {
                assert(!self@.sub_secs[i as int].generable());
                return false;
            }
            i = i + 1;
        }
        true
    }
}

impl MsgFormat {
    /// The number of payload bytes that the sections declare, where a payload
    /// can hold them.
    pub fn payload_bytes(&self) -> (r: Option<usize>)
        ensures
            self@.total_bytes() <= 8 ==> r == Some(self@.total_bytes() as usize),
            self@.total_bytes() > 8 ==> r is None,
    {
        let ghost widths = self@.byte_widths();
        let mut total: usize = 0;
        let mut i: usize = 0;
        while i < self.sections.len()
            invariant
                i <= self.sections.len(),
                widths == self@.byte_widths(),
                total == total_width(widths.take(i as int)),
                total <= PAYLOAD_BYTES,
            decreases self.sections.len() - i,
        {
            proof {
                lemma_total_width_step(widths, i as int);
            }
            total = total + self.sections[i].num_bytes as usize;
            if total > PAYLOAD_BYTES {
                proof {
                    lemma_total_width_prefix(widths, i as int + 1);
                }
                return None;
            }
            i = i + 1;
        }
        assert(widths.take(i as int) =~= widths);
        Some(total)
    }

    /// Whether every section has a value to yield.
    pub fn is_generable(&self) -> (b: bool)
        ensures
            b == self@.generable(),
    {
        let mut i: usize = 0;
        while i < self.sections.len()
            invariant
                i <= self.sections.len(),
                forall|k: int| 0 <= k < i ==> (#[trigger] self@.sections[k]).generable(),
            decreases self.sections.len() - i,
        {
            if !self.sections[i].is_generable() {
                assert(!self@.sections[i as int].generable());
                return false;
            }
            i = i + 1;
        }
        true
    }

    /// Whether there is an identifier to select.
    pub fn has_id(&self) -> (b: bool)
        ensures
            b == self@.has_id(),
    {
        self.cob_id_values.len() > 0 || self.cob_id_range.start < self.cob_id_range.end
    }
}

/// Accepts the formats from which messages can be generated. Of a format
/// with several faults the first of these is reported: too many bytes, a
/// field without a value to draw, no identifier.
pub fn validate(format: &MsgFormat) -> (r: Result<(), FormatError>)
    ensures
        r is Ok <==> format@.valid(),
        r == Err::<(), FormatError>(FormatError::RangeOverflow) <==> format@.total_bytes() > 8,
        r == Err::<(), FormatError>(FormatError::Constraint) <==> format@.total_bytes() <= 8
            && !format@.generable(),
        r == Err::<(), FormatError>(FormatError::NoIdentifier) <==> format@.payload_ready()
            && !format@.has_id(),
{
    if format.payload_bytes().is_none() {
        Err(FormatError::RangeOverflow)
    } else if !format.is_generable() {
        Err(FormatError::Constraint)
    } else if !format.has_id() {
        Err(FormatError::NoIdentifier)
    } else {
        Ok(())
    }
}

/// The total of the first `i + 1` widths is the total of the first `i` and
/// width `i`.
pub proof fn lemma_total_width_step(widths: Seq<nat>, i: int)
    requires
        0 <= i < widths.len(),
    ensures
        total_width(widths.take(i + 1)) == total_width(widths.take(i)) + widths[i],
{
    assert(widths.take(i + 1).drop_last() =~= widths.take(i));
}

/// No prefix of the widths has a larger total than all of them.
pub proof fn lemma_total_width_prefix(widths: Seq<nat>, i: int)
    requires
        0 <= i <= widths.len(),
    ensures
        total_width(widths.take(i)) <= total_width(widths),
    decreases widths.len() - i,
{
    if i == widths.len() {
        assert(widths.take(i) =~= widths);
    } else {
        lemma_total_width_step(widths, i);
        lemma_total_width_prefix(widths, i + 1);
    }
}

} // verus!
