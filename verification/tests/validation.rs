use can_fuzzer::msg_format::{FormatError, MsgFormat, Section, SubSec};
use can_fuzzer::session::{validate_catalog, CatalogError};
use can_fuzzer::validate::{is_hole, sample_limit, validate};
use std::ops::Range;

fn free_sub_sec(num_bits: u8, holes: Vec<u8>) -> SubSec {
    SubSec::new(String::from("field"), num_bits, holes, false, 0)
}

fn section_with(num_bytes: u8, sub_secs: Vec<SubSec>) -> Section {
    Section::new(String::from("section"), num_bytes, sub_secs, false, 0)
}

fn format_with(range: Range<u32>, pool: Vec<u32>, sections: Vec<Section>) -> MsgFormat {
    let count = sections.len() as u8;
    MsgFormat::new(String::from("format"), range, pool, count, sections, false, 0)
}

fn emcy_format() -> MsgFormat {
    MsgFormat::new(
        String::from("TestEMCYMsgFormat#1"),
        std::ops::Range { start: 0x080, end: 0x0FF },
        vec![],
        3,
        vec![
            Section::new(
                String::from("EmergencyErrorCode"),
                2,
                vec![
                    SubSec::new(String::from("EEC#1"), 8, vec![], false, 0),
                    SubSec::new(String::from("EEC#2"), 8, vec![], false, 0),
                ],
                false,
                0,
            ),
            Section::new(
                String::from("ErrorRegister"),
                1,
                vec![SubSec::new(String::from("ER#1"), 8, vec![], false, 0)],
                false,
                0,
            ),
            Section::new(
                String::from("ManufacturerSpecificErrorCode"),
                5,
                vec![],
                true,
                0x00_00_00_00_00,
            ),
        ],
        false,
        0,
    )
}

#[test]
fn hole_is_found_wherever_it_stands() {
    let holes = vec![4, 9, 4, 200];
    assert!(is_hole(&holes, 4));
    assert!(is_hole(&holes, 9));
    assert!(is_hole(&holes, 200));
    assert!(!is_hole(&holes, 0));
    assert!(!is_hole(&holes, 5));
    assert!(!is_hole(&vec![], 0));
}

#[test]
fn sample_limit_is_two_below_the_power_of_two() {
    assert_eq!(sample_limit(0), None);
    assert_eq!(sample_limit(1), Some(0));
    assert_eq!(sample_limit(2), Some(2));
    assert_eq!(sample_limit(3), Some(6));
    assert_eq!(sample_limit(4), Some(14));
    assert_eq!(sample_limit(5), Some(30));
    assert_eq!(sample_limit(6), Some(62));
    assert_eq!(sample_limit(7), Some(126));
    assert_eq!(sample_limit(8), Some(254));
}

#[test]
fn sample_limit_of_a_wide_field_is_the_whole_byte() {
    assert_eq!(sample_limit(9), Some(255));
    assert_eq!(sample_limit(64), Some(255));
    assert_eq!(sample_limit(255), Some(255));
}

#[test]
fn candidates_are_the_range_without_the_holes() {
    assert_eq!(free_sub_sec(3, vec![1, 2]).candidates(), vec![0, 3, 4, 5, 6]);
    assert_eq!(free_sub_sec(2, vec![]).candidates(), vec![0, 1, 2]);
    assert_eq!(free_sub_sec(1, vec![]).candidates(), vec![0]);
    assert_eq!(free_sub_sec(2, vec![2, 2, 0, 7]).candidates(), vec![1]);
    assert_eq!(free_sub_sec(0, vec![]).candidates(), Vec::<u8>::new());
    assert_eq!(free_sub_sec(1, vec![0]).candidates(), Vec::<u8>::new());
}

#[test]
fn candidates_of_a_byte_end_at_254() {
    let candidates = free_sub_sec(8, vec![]).candidates();
    assert_eq!(candidates.len(), 255);
    assert_eq!(candidates[0], 0);
    assert_eq!(candidates[254], 254);
}

#[test]
fn candidates_of_a_wide_field_are_every_byte() {
    let candidates = free_sub_sec(12, vec![10]).candidates();
    assert_eq!(candidates.len(), 255);
    assert_eq!(candidates[9], 9);
    assert_eq!(candidates[10], 11);
    assert_eq!(candidates[254], 255);
}

#[test]
fn sub_sec_is_generable_while_a_value_is_left() {
    assert!(free_sub_sec(2, vec![0, 1]).is_generable());
    assert!(!free_sub_sec(2, vec![0, 1, 2]).is_generable());
    assert!(!free_sub_sec(0, vec![]).is_generable());
    // the top value of the field is no value to draw
    assert!(!free_sub_sec(1, vec![0]).is_generable());
    let specified = SubSec::new(String::from("fixed"), 0, vec![0], true, 0);
    assert!(specified.is_generable());
}

#[test]
fn section_is_generable_with_generable_sub_secs() {
    assert!(section_with(1, vec![]).is_generable());
    assert!(section_with(1, vec![free_sub_sec(4, vec![]), free_sub_sec(4, vec![3])]).is_generable());
    assert!(!section_with(1, vec![free_sub_sec(4, vec![]), free_sub_sec(1, vec![0])]).is_generable());
    let specified =
        Section::new(String::from("fixed"), 1, vec![free_sub_sec(1, vec![0])], true, 0);
    assert!(specified.is_generable());
}

#[test]
fn payload_bytes_are_counted_up_to_eight() {
    assert_eq!(format_with(0..1, vec![], vec![]).payload_bytes(), Some(0));
    assert_eq!(emcy_format().payload_bytes(), Some(8));
    let nine = format_with(0..1, vec![], vec![section_with(4, vec![]), section_with(5, vec![])]);
    assert_eq!(nine.payload_bytes(), None);
    let many = format_with(
        0..1,
        vec![],
        vec![section_with(255, vec![]), section_with(255, vec![]), section_with(0, vec![])],
    );
    assert_eq!(many.payload_bytes(), None);
}

#[test]
fn valid_format_is_accepted() {
    assert_eq!(validate(&emcy_format()), Ok(()));
    assert_eq!(validate(&format_with(0..1, vec![], vec![])), Ok(()));
    assert_eq!(validate(&format_with(0..0, vec![7], vec![section_with(8, vec![])])), Ok(()));
}

#[test]
fn more_than_eight_bytes_are_a_range_overflow() {
    let format = format_with(0..1, vec![], vec![section_with(8, vec![]), section_with(1, vec![])]);
    assert_eq!(validate(&format), Err(FormatError::RangeOverflow));
}

#[test]
fn holes_over_the_whole_range_are_a_constraint_error() {
    let format = format_with(
        0..1,
        vec![],
        vec![section_with(1, vec![free_sub_sec(4, vec![]), free_sub_sec(2, vec![0, 1, 2])])],
    );
    assert_eq!(validate(&format), Err(FormatError::Constraint));
}

#[test]
fn empty_pool_and_empty_range_leave_no_identifier() {
    assert_eq!(validate(&format_with(5..5, vec![], vec![])), Err(FormatError::NoIdentifier));
    assert_eq!(validate(&format_with(9..3, vec![], vec![])), Err(FormatError::NoIdentifier));
}

#[test]
fn first_fault_of_several_is_reported() {
    let blocked = section_with(1, vec![free_sub_sec(1, vec![0])]);
    let overflow_and_more =
        format_with(5..5, vec![], vec![section_with(8, vec![]), blocked]);
    assert_eq!(validate(&overflow_and_more), Err(FormatError::RangeOverflow));
    let constraint_and_more =
        format_with(5..5, vec![], vec![section_with(1, vec![free_sub_sec(1, vec![0])])]);
    assert_eq!(validate(&constraint_and_more), Err(FormatError::Constraint));
}

#[test]
fn catalog_is_accepted_with_valid_formats_only() {
    assert_eq!(validate_catalog(&vec![emcy_format()]), Ok(()));
    assert_eq!(validate_catalog(&vec![]), Err(CatalogError::Empty));
    let catalog = vec![
        emcy_format(),
        format_with(5..5, vec![], vec![]),
        format_with(0..1, vec![], vec![section_with(9, vec![])]),
    ];
    assert_eq!(
        validate_catalog(&catalog),
        Err(CatalogError::Format { index: 1, error: FormatError::NoIdentifier })
    );
}

#[test]
fn format_equals_what_has_the_same_fields() {
    let format = emcy_format();
    assert_eq!(format, emcy_format());
    assert_eq!(format.clone(), format);
    let mut renamed = emcy_format();
    renamed.sections[2].specified_val = 1;
    assert_ne!(renamed, format);
    let mut reordered = emcy_format();
    reordered.sections.swap(0, 1);
    assert_ne!(reordered, format);
}

#[test]
fn constructors_keep_what_they_are_given() {
    let format = emcy_format();
    assert_eq!(format.name, "TestEMCYMsgFormat#1");
    assert_eq!(format.cob_id_range, 0x080..0x0FF);
    assert_eq!(format.cob_id_values, Vec::<u32>::new());
    assert_eq!(format.num_sections, 3);
    assert_eq!(format.sections.len(), 3);
    assert!(!format.is_specified);
    assert_eq!(format.specified_val, 0);
    let section = &format.sections[0];
    assert_eq!(section.name, "EmergencyErrorCode");
    assert_eq!(section.num_bytes, 2);
    assert!(!section.is_specified);
    let sub_sec = &section.sub_secs[1];
    assert_eq!(sub_sec.name, "EEC#2");
    assert_eq!(sub_sec.num_bits, 8);
    assert_eq!(sub_sec.holes, Vec::<u8>::new());
    assert!(!sub_sec.is_specified);
    assert_eq!(sub_sec.specified_val, 0);
    assert!(format.sections[2].is_specified);
}
