//! The message-format data model: a format holds sections of whole bytes,
//! a section holds sub-sections of single bits. Each level can be fixed to a
//! value or left to be drawn at random.

use crate::bits::{align_left, be_bytes, byte_range_max, pack_fields, total_width};
use core::ops::Range;
use vstd::arithmetic::power2::{lemma_pow2_strictly_increases, pow2};
use vstd::prelude::*;

verus! {

/// A field of bits inside a section.
#[derive(Debug, PartialEq, Eq)]
pub struct SubSec {
    pub name: String,
    pub num_bits: u8,
    pub holes: Vec<u8>,
    pub is_specified: bool,
    pub specified_val: u8,
}

/// One or more bytes of a message format.
#[derive(Debug, PartialEq, Eq)]
pub struct Section {
    pub name: String,
    pub num_bytes: u8,
    pub sub_secs: Vec<SubSec>,
    pub is_specified: bool,
    pub specified_val: u64,
}

/// A CAN message format: where the identifier comes from and how the payload
/// is laid out.
#[derive(Debug, PartialEq, Eq)]
pub struct MsgFormat {
    pub name: String,
    pub cob_id_range: Range<u32>,
    pub cob_id_values: Vec<u32>,
    pub num_sections: u8,
    pub sections: Vec<Section>,
    pub is_specified: bool,
    pub specified_val: u64,
}

/// What a format can be refused for before any message is generated from it.
#[derive(Debug, Clone, Copy, PartialEq, Eq, Structural)]
pub enum FormatError {
    /// The sections hold more bytes than a payload has.
    RangeOverflow,
    /// The holes of some field leave no value to draw.
    Constraint,
    /// The identifier pool is empty and the identifier range holds no value.
    NoIdentifier,
}

pub struct SubSecView {
    pub name: Seq<char>,
    pub num_bits: nat,
    pub holes: Seq<u8>,
    pub is_specified: bool,
    pub specified_val: u8,
}

pub struct SectionView {
    pub name: Seq<char>,
    pub num_bytes: nat,
    pub sub_secs: Seq<SubSecView>,
    pub is_specified: bool,
    pub specified_val: u64,
}

pub struct MsgFormatView {
    pub name: Seq<char>,
    pub cob_id_start: u32,
    pub cob_id_end: u32,
    pub cob_id_values: Seq<u32>,
    pub num_sections: u8,
    pub sections: Seq<SectionView>,
    pub is_specified: bool,
    pub specified_val: u64,
}

impl View for SubSec {
    type V = SubSecView;

    open spec fn view(&self) -> SubSecView {
        SubSecView {
            name: self.name@,
            num_bits: self.num_bits as nat,
            holes: self.holes@,
            is_specified: self.is_specified,
            specified_val: self.specified_val,
        }
    }
}

impl View for Section {
    type V = SectionView;

    open spec fn view(&self) -> SectionView {
        SectionView {
            name: self.name@,
            num_bytes: self.num_bytes as nat,
            sub_secs: self.sub_secs@.map_values(|s: SubSec| s@),
            is_specified: self.is_specified,
            specified_val: self.specified_val,
        }
    }
}

impl View for MsgFormat {
    type V = MsgFormatView;

    open spec fn view(&self) -> MsgFormatView {
        MsgFormatView {
            name: self.name@,
            cob_id_start: self.cob_id_range.start,
            cob_id_end: self.cob_id_range.end,
            cob_id_values: self.cob_id_values@,
            num_sections: self.num_sections,
            sections: self.sections@.map_values(|s: Section| s@),
            is_specified: self.is_specified,
            specified_val: self.specified_val,
        }
    }
}

/// The bytes `draws` read as words.
pub open spec fn widen(draws: Seq<u8>) -> Seq<u64> {
    draws.map_values(|d: u8| d as u64)
}

impl SubSecView {
    /// The largest value that is ever drawn for the field: `2^num_bits - 2`.
    /// The top value of the field is left out on purpose.
    pub open spec fn sample_max(self) -> int {
        pow2(self.num_bits) - 2
    }

    /// `v` lies in the sampling range and is no hole.
    pub open spec fn draws(self, v: u8) -> bool {
        v <= self.sample_max() && !self.holes.contains(v)
    }

    /// `v` is a value that generation may yield for the field.
    pub open spec fn admits(self, v: u8) -> bool {
        if self.is_specified {
            v == self.specified_val
        } else {
            self.draws(v)
        }
    }

    /// Generation has some value to yield.
    pub open spec fn generable(self) -> bool {
        exists|v: u8| self.admits(v)
    }
}

impl SectionView {
    /// The widths of the sub-sections in bits, in declaration order.
    pub open spec fn widths(self) -> Seq<nat> {
        self.sub_secs.map_values(|s: SubSecView| s.num_bits)
    }

    /// `draws` holds one admitted value for each sub-section.
    pub open spec fn admits_draws(self, draws: Seq<u8>) -> bool {
        &&& draws.len() == self.sub_secs.len()
        &&& forall|i: int| 0 <= i < draws.len() ==> (#[trigger] self.sub_secs[i]).admits(draws[i])
    }

    /// `v` is a value that packing may yield for the section: the fixed
    /// value; or, without sub-sections, any value of the byte range; or the
    /// sub-sections' values packed first to last.
    pub open spec fn admits(self, v: u64) -> bool {
        if self.is_specified {
            v == self.specified_val
        } else if self.sub_secs.len() == 0 {
            v <= byte_range_max(self.num_bytes)
        } else {
            exists|draws: Seq<u8>|
                #[trigger] self.admits_draws(draws) && v == pack_fields(self.widths(), widen(draws))
        }
    }

    /// Every sub-section that packing consults has a value to yield.
    pub open spec fn generable(self) -> bool {
        self.is_specified || forall|i: int|
            0 <= i < self.sub_secs.len() ==> (#[trigger] self.sub_secs[i]).generable()
    }
}

impl MsgFormatView {
    /// The widths of the sections in bytes, in declaration order.
    pub open spec fn byte_widths(self) -> Seq<nat> {
        self.sections.map_values(|s: SectionView| s.num_bytes)
    }

    /// The widths of the sections in bits, in declaration order.
    pub open spec fn bit_widths(self) -> Seq<nat> {
        self.sections.map_values(|s: SectionView| 8 * s.num_bytes)
    }

    /// The number of payload bytes that the sections declare.
    pub open spec fn total_bytes(self) -> nat {
        total_width(self.byte_widths())
    }

    /// `values` holds one admitted value for each section.
    pub open spec fn admits_values(self, values: Seq<u64>) -> bool {
        &&& values.len() == self.sections.len()
        &&& forall|i: int| 0 <= i < values.len() ==> (#[trigger] self.sections[i]).admits(values[i])
    }

    /// The payload that holds `values`, one value for each section: the
    /// values packed first to last, moved to the front of the payload, the
    /// rest of the payload zero.
    pub open spec fn payload_of(self, values: Seq<u64>) -> Seq<u8> {
        be_bytes(align_left(pack_fields(self.bit_widths(), values), self.total_bytes()))
    }

    /// `bytes` is a payload that assembly may yield for the format.
    pub open spec fn admits_payload(self, bytes: Seq<u8>) -> bool {
        exists|values: Seq<u64>| #[trigger] self.admits_values(values) && bytes == self.payload_of(values)
    }

    /// Every section has a value to yield.
    pub open spec fn generable(self) -> bool {
        forall|i: int| 0 <= i < self.sections.len() ==> (#[trigger] self.sections[i]).generable()
    }

    /// The sections fit into one payload and each has a value to yield.
    pub open spec fn payload_ready(self) -> bool {
        self.total_bytes() <= 8 && self.generable()
    }

    /// There is an identifier to select.
    pub open spec fn has_id(self) -> bool {
        self.cob_id_values.len() > 0 || self.cob_id_start < self.cob_id_end
    }

    /// `id` is an identifier that selection may yield: a member of the pool
    /// where the pool is not empty, else a member of the half-open range.
    pub open spec fn admits_id(self, id: u32) -> bool {
        if self.cob_id_values.len() > 0 {
            self.cob_id_values.contains(id)
        } else {
            self.cob_id_start <= id < self.cob_id_end
        }
    }

    /// Messages can be generated from the format.
    pub open spec fn valid(self) -> bool {
        self.payload_ready() && self.has_id()
    }
}

impl SubSec {
    /// A sub-section with the given definition.
    pub fn new(name: String, num_bits: u8, holes: Vec<u8>, is_specified: bool, specified_val: u8) -> (r:
        Self)
        ensures
            r@ == (SubSecView {
                name: name@,
                num_bits: num_bits as nat,
                holes: holes@,
                is_specified,
                specified_val,
            }),
    {
        Self { name, num_bits, holes, is_specified, specified_val }
    }
}

impl Section {
    /// A section with the given definition.
    pub fn new(
        name: String,
        num_bytes: u8,
        sub_secs: Vec<SubSec>,
        is_specified: bool,
        specified_val: u64,
    ) -> (r: Self)
        ensures
            r@ == (SectionView {
                name: name@,
                num_bytes: num_bytes as nat,
                sub_secs: sub_secs@.map_values(|s: SubSec| s@),
                is_specified,
                specified_val,
            }),
    {
        Self { name, num_bytes, sub_secs, is_specified, specified_val }
    }
}

impl MsgFormat {
    /// A message format with the given definition.
    pub fn new(
        name: String,
        cob_id_range: Range<u32>,
        cob_id_values: Vec<u32>,
        num_sections: u8,
        sections: Vec<Section>,
        is_specified: bool,
        specified_val: u64,
    ) -> (r: Self)
        ensures
            r@ == (MsgFormatView {
                name: name@,
                cob_id_start: cob_id_range.start,
                cob_id_end: cob_id_range.end,
                cob_id_values: cob_id_values@,
                num_sections,
                sections: sections@.map_values(|s: Section| s@),
                is_specified,
                specified_val,
            }),
    {
        Self { name, cob_id_range, cob_id_values, num_sections, sections, is_specified, specified_val }
    }
}


impl Clone for SubSec {
    fn clone(&self) -> (r: Self)
        ensures
            r@ == self@,
    {
        SubSec {
            name: self.name.clone(),
            num_bits: self.num_bits,
            holes: self.holes.clone(),
            is_specified: self.is_specified,
            specified_val: self.specified_val,
        }
    }
}

impl Clone for Section {
    fn clone(&self) -> (r: Self)
        ensures
            r@ == self@,
    {
        let sub_secs = self.sub_secs.clone();
        assert(sub_secs@.map_values(|s: SubSec| s@) =~= self.sub_secs@.map_values(|s: SubSec| s@));
        Section {
            name: self.name.clone(),
            num_bytes: self.num_bytes,
            sub_secs,
            is_specified: self.is_specified,
            specified_val: self.specified_val,
        }
    }
}

impl Clone for MsgFormat {
    fn clone(&self) -> (r: Self)
        ensures
            r@ == self@,
    {
        let sections = self.sections.clone();
        assert(sections@.map_values(|s: Section| s@) =~= self.sections@.map_values(|s: Section| s@));
        MsgFormat {
            name: self.name.clone(),
            cob_id_range: Range { start: self.cob_id_range.start, end: self.cob_id_range.end },
            cob_id_values: self.cob_id_values.clone(),
            num_sections: self.num_sections,
            sections,
            is_specified: self.is_specified,
            specified_val: self.specified_val,
        }
    }
}

impl SectionView {
    /// The fixed values of the sub-sections, in declaration order.
    pub open spec fn specified_draws(self) -> Seq<u8> {
        self.sub_secs.map_values(|s: SubSecView| s.specified_val)
    }

    /// The sub-sections fit into the bytes of the section, and each fixed
    /// value fits into the bits of its sub-section.
    pub open spec fn well_formed(self) -> bool {
        &&& self.num_bytes <= 8
        &&& total_width(self.widths()) <= 8 * self.num_bytes
        &&& forall|i: int|
            0 <= i < self.sub_secs.len() && (#[trigger] self.sub_secs[i]).is_specified
                ==> self.sub_secs[i].specified_val < pow2(self.sub_secs[i].num_bits)
    }
}

impl MsgFormatView {
    /// The fixed values of the sections, in declaration order.
    pub open spec fn specified_values(self) -> Seq<u64> {
        self.sections.map_values(|s: SectionView| s.specified_val)
    }
}

/// A value that is drawn for a field is smaller than two to the width of
/// the field.
pub proof fn lemma_draw_fits(sub_sec: SubSecView, v: u8)
    requires
        sub_sec.draws(v),
    ensures
        v < pow2(sub_sec.num_bits),
{
}

/// A section has a value to yield exactly if packing admits some value.
pub proof fn lemma_generable_section_admits_some(section: SectionView)
    ensures
        section.generable() <==> exists|v: u64| section.admits(v),
{
    if section.is_specified {
        assert(section.admits(section.specified_val));
    } else if section.sub_secs.len() == 0 {
        assert(section.admits(0));
    } else if section.generable() {
        let draws = Seq::new(
            section.sub_secs.len(),
            |i: int| choose|v: u8| section.sub_secs[i].admits(v),
        );
        assert forall|i: int| 0 <= i < draws.len() implies (#[trigger] section.sub_secs[i]).admits(
            draws[i],
        ) by {
            assert(section.sub_secs[i].generable());
        }
        assert(section.admits_draws(draws));
        assert(section.admits(pack_fields(section.widths(), widen(draws))));
    } else {
        assert forall|v: u64| !section.admits(v) by {
            if section.admits(v) {
                let draws = choose|draws: Seq<u8>|
                    #[trigger] section.admits_draws(draws) && v == pack_fields(
                        section.widths(),
                        widen(draws),
                    );
                assert forall|i: int| 0 <= i < section.sub_secs.len() implies (
                #[trigger] section.sub_secs[i]).generable() by {
                    assert(section.sub_secs[i].admits(draws[i]));
                }
            }
        }
    }
}

/// Two sub-sections of one bit each, with the values `a` and `b` in
/// declaration order, pack into `(a << 1) | b`.
pub proof fn lemma_two_single_bits_pack_msb_first(section: SectionView, a: u8, b: u8)
    requires
        section.sub_secs.len() == 2,
        section.sub_secs[0].num_bits == 1,
        section.sub_secs[1].num_bits == 1,
    ensures
        pack_fields(section.widths(), widen(seq![a, b])) == ((a as u64) << 1u64) | (b as u64),
{
    assert(section.widths() =~= seq![1nat, 1nat]);
    assert(widen(seq![a, b]) =~= seq![a as u64, b as u64]);
    crate::bits::lemma_pack_two_single_bits(a as u64, b as u64);
}

/// Where every sub-section of an unspecified section is fixed, packing
/// admits one value only: the fixed values, packed first to last.
pub proof fn lemma_specified_sub_secs_fix_section(section: SectionView, v: u64)
    requires
        !section.is_specified,
        section.sub_secs.len() > 0,
        forall|i: int| 0 <= i < section.sub_secs.len() ==> (#[trigger] section.sub_secs[i]).is_specified,
    ensures
        section.admits(v) <==> v == pack_fields(section.widths(), widen(section.specified_draws())),
{
    let fixed = section.specified_draws();
    assert(section.admits_draws(fixed));
    assert forall|draws: Seq<u8>| #[trigger] section.admits_draws(draws) implies draws == fixed by {
        assert forall|i: int| 0 <= i < draws.len() implies draws[i] == fixed[i] by {
            assert(section.sub_secs[i].admits(draws[i]));
        }
        assert(draws =~= fixed);
    }
}

/// Where every section of a format is fixed, assembly admits one payload
/// only: the one that holds the fixed values.
pub proof fn lemma_specified_sections_fix_payload(format: MsgFormatView, bytes: Seq<u8>)
    requires
        forall|i: int| 0 <= i < format.sections.len() ==> (#[trigger] format.sections[i]).is_specified,
    ensures
        format.admits_payload(bytes) <==> bytes == format.payload_of(format.specified_values()),
{
    let fixed = format.specified_values();
    assert(format.admits_values(fixed));
    assert forall|values: Seq<u64>| #[trigger] format.admits_values(values) implies values == fixed by {
        assert forall|i: int| 0 <= i < values.len() implies values[i] == fixed[i] by {
            assert(format.sections[i].admits(values[i]));
        }
        assert(values =~= fixed);
    }
}

/// The value of a well-formed, unspecified section has no more significant
/// bits than the section has: it lies in the byte range of the section.
pub proof fn lemma_section_value_fits(section: SectionView, v: u64)
    requires
        !section.is_specified,
        section.well_formed(),
        section.admits(v),
    ensures
        v <= byte_range_max(section.num_bytes),
{
    if section.sub_secs.len() > 0 {
        let draws = choose|draws: Seq<u8>|
            #[trigger] section.admits_draws(draws) && v == pack_fields(section.widths(), widen(draws));
        let widths = section.widths();
        let values = widen(draws);
        assert forall|i: int| 0 <= i < widths.len() implies values[i] < pow2(#[trigger] widths[i]) by {
            assert(section.sub_secs[i].admits(draws[i]));
        }
        crate::bits::lemma_pack_fields_is_positional(widths, values);
        if total_width(widths) < 8 * section.num_bytes {
            lemma_pow2_strictly_increases(total_width(widths), 8 * section.num_bytes);
        }
    }
}

} // verus!
