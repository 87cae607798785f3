//! Formats shown as text, for the operator to read: one block of lines for
//! each level of a format.

use crate::msg_format::{MsgFormat, MsgFormatView, Section, SectionView, SubSec, SubSecView};
use crate::text::{bool_text, decimal, list_text, push_bool, push_list, push_numeral};
use vstd::prelude::*;

verus! {

impl SubSecView {
    /// The lines that show the sub-section.
    pub open spec fn display_text(self) -> Seq<char> {
        "\t\t"@ + self.name + ": \n\t\tnum_bits "@ + decimal(self.num_bits) + ", holes "@ + list_text(
            self.holes,
        ) + ", \n\t\tis_specified "@ + bool_text(self.is_specified) + ", specified_val "@ + decimal(
            self.specified_val as nat,
        ) + "\n"@
    }
}

/// The lines that show the sub-sections, each under a heading with its
/// number.
pub open spec fn sub_secs_text(sub_secs: Seq<SubSecView>) -> Seq<char>
    decreases sub_secs.len(),
{
    if sub_secs.len() == 0 {
        Seq::empty()
    } else {
        sub_secs_text(sub_secs.drop_last()) + "\t\tSubSec #"@ + decimal((sub_secs.len() - 1) as nat)
            + ": \n"@ + sub_secs.last().display_text()
    }
}

impl SectionView {
    /// The lines that show the section itself.
    pub open spec fn display_text(self) -> Seq<char> {
        "\t"@ + self.name + ": \n\tnum_bytes "@ + decimal(self.num_bytes) + ", is_specified "@
            + bool_text(self.is_specified) + ", specified_val "@ + decimal(self.specified_val as nat)
            + "\n"@
    }
}

/// The lines that show the sections, each under a heading with its number.
pub open spec fn sections_text(sections: Seq<SectionView>) -> Seq<char>
    decreases sections.len(),
{
    if sections.len() == 0 {
        Seq::empty()
    } else {
        sections_text(sections.drop_last()) + "\tSection #"@ + decimal((sections.len() - 1) as nat)
            + ": \n"@ + sections.last().display_text()
    }
}

impl MsgFormatView {
    /// The lines that show the format itself.
    pub open spec fn display_text(self) -> Seq<char> {
        self.name + ": \ncob_id_range: "@ + decimal(self.cob_id_start as nat) + ".."@ + decimal(
            self.cob_id_end as nat,
        ) + ", num_sections "@ + decimal(self.num_sections as nat) + ", \nis_specified "@ + bool_text(
            self.is_specified,
        ) + ", specified_val "@ + decimal(self.specified_val as nat) + "\n"@
    }
}

impl SubSec {
    /// The sub-section as text.
    pub fn display(&self) -> (r: String)
        ensures
            r@ == self@.display_text(),
    {
        let mut out = String::from_str("\t\t");
        out.append(self.name.as_str());
        out.append(": \n\t\tnum_bits ");
        push_numeral(&mut out, self.num_bits as u64, 10);
        out.append(", holes ");
        push_list(&mut out, &self.holes);
        out.append(", \n\t\tis_specified ");
        push_bool(&mut out, self.is_specified);
        out.append(", specified_val ");
        push_numeral(&mut out, self.specified_val as u64, 10);
        out.append("\n");
        out
    }
}

impl Section {
    /// The section as text, without its sub-sections.
    pub fn display(&self) -> (r: String)
        ensures
            r@ == self@.display_text(),
    {
        let mut out = String::from_str("\t");
        out.append(self.name.as_str());
        out.append(": \n\tnum_bytes ");
        push_numeral(&mut out, self.num_bytes as u64, 10);
        out.append(", is_specified ");
        push_bool(&mut out, self.is_specified);
        out.append(", specified_val ");
        push_numeral(&mut out, self.specified_val, 10);
        out.append("\n");
        out
    }

    /// The sub-sections of the section as text.
    pub fn display_sub_secs(&self) -> (r: String)
        ensures
            r@ == sub_secs_text(self@.sub_secs),
    {
        let mut out = String::new();
        let mut i: usize = 0;
        while i < self.sub_secs.len()
            invariant
                i <= self.sub_secs.len(),
                out@ == sub_secs_text(self@.sub_secs.take(i as int)),
            decreases self.sub_secs.len() - i,
        {
            proof {
                assert(self@.sub_secs.take(i as int + 1).drop_last() =~= self@.sub_secs.take(i as int));
            }
            out.append("\t\tSubSec #");
            push_numeral(&mut out, i as u64, 10);
            out.append(": \n");
            let shown = self.sub_secs[i].display();
            out.append(shown.as_str());
            i = i + 1;
        }
        assert(self@.sub_secs.take(i as int) =~= self@.sub_secs);
        out
    }
}

impl MsgFormat {
    /// The format as text, without its sections.
    pub fn display(&self) -> (r: String)
        ensures
            r@ == self@.display_text(),
    {
        let mut out = String::new();
        out.append(self.name.as_str());
        assert(out@ =~= self@.name);
        out.append(": \ncob_id_range: ");
        push_numeral(&mut out, self.cob_id_range.start as u64, 10);
        out.append("..");
        push_numeral(&mut out, self.cob_id_range.end as u64, 10);
        out.append(", num_sections ");
        push_numeral(&mut out, self.num_sections as u64, 10);
        out.append(", \nis_specified ");
        push_bool(&mut out, self.is_specified);
        out.append(", specified_val ");
        push_numeral(&mut out, self.specified_val, 10);
        out.append("\n");
        out
    }

    /// The sections of the format as text, without their sub-sections.
    pub fn display_sections(&self) -> (r: String)
        ensures
            r@ == sections_text(self@.sections),
    {
        let mut out = String::new();
        let mut i: usize = 0;
        while i < self.sections.len()
            invariant
                i <= self.sections.len(),
                out@ == sections_text(self@.sections.take(i as int)),
            decreases self.sections.len() - i,
        {
            proof {
                assert(self@.sections.take(i as int + 1).drop_last() =~= self@.sections.take(i as int));
            }
            out.append("\tSection #");
            push_numeral(&mut out, i as u64, 10);
            out.append(": \n");
            let shown = self.sections[i].display();
            out.append(shown.as_str());
            i = i + 1;
        }
        assert(self@.sections.take(i as int) =~= self@.sections);
        out
    }
}

} // verus!
