//! What is decided in one round of sending: which format a message is
//! generated from, where its identifier and payload come from, and how many
//! rounds are left.

use crate::msg_format::{FormatError, MsgFormat};
use crate::msg_processor::{
    msg_processor, random_cob_id, random_cob_id_with_format, random_msg, DEFAULT_COB_ID_END,
    RANDOM_BYTE_MAX,
};
use crate::random::pick;
use crate::validate::validate;
use vstd::prelude::*;

verus! {

/// The number of rounds that stands for sending without end.
pub const REPEAT_FOREVER: i64 = -1;

/// What a catalog of formats can be refused for.
#[derive(Debug, Clone, Copy, PartialEq, Eq, Structural)]
pub enum CatalogError {
    /// The catalog holds no format.
    Empty,
    /// The format at `index` is refused for `error`.
    Format { index: usize, error: FormatError },
}

/// Messages can be generated from every format of the catalog, and there
/// is at least one.
pub open spec fn catalog_ready(catalog: Seq<MsgFormat>) -> bool {
    &&& catalog.len() > 0
    &&& forall|i: int| 0 <= i < catalog.len() ==> (#[trigger] catalog[i])@.valid()
}

/// `id` and `payload` are an identifier and a payload that one format of
/// the catalog admits.
pub open spec fn catalog_admits(catalog: Seq<MsgFormat>, id: u32, payload: Seq<u8>) -> bool {
    exists|i: int|
        0 <= i < catalog.len() && (#[trigger] catalog[i])@.admits_id(id) && catalog[i]@.admits_payload(
            payload,
        )
}

/// `payload` is a payload that is drawn where no format is given: eight
/// bytes, none of them above 254.
pub open spec fn random_payload(payload: Seq<u8>) -> bool {
    &&& payload.len() == 8
    &&& forall|i: int| 0 <= i < 8 ==> payload[i] <= RANDOM_BYTE_MAX
}

/// Accepts the catalogs from which messages can be generated. Of several
/// refused formats the first is reported.
pub fn validate_catalog(catalog: &Vec<MsgFormat>) -> (r: Result<(), CatalogError>)
    ensures
        r is Ok <==> catalog_ready(catalog@),
        r == Err::<(), CatalogError>(CatalogError::Empty) <==> catalog.len() == 0,
        r matches Err(CatalogError::Format { index, error }) ==> {
            &&& index < catalog.len()
            &&& forall|k: int| 0 <= k < index ==> (#[trigger] catalog[k])@.valid()
            &&& !catalog[index as int]@.valid()
            &&& (error == FormatError::RangeOverflow <==> catalog[index as int]@.total_bytes() > 8)
            &&& (error == FormatError::NoIdentifier <==> catalog[index as int]@.payload_ready())
        },
{
    if catalog.len() == 0 {
        return Err(CatalogError::Empty);
    }
    let mut i: usize = 0;
    while i < catalog.len()
        invariant
            i <= catalog.len(),
            catalog.len() > 0,
            forall|k: int| 0 <= k < i ==> (#[trigger] catalog[k])@.valid(),
        decreases catalog.len() - i,
    {
        match validate(&catalog[i]) {
            Ok(()) => {},
            Err(error) => {
                return Err(CatalogError::Format { index: i, error });
            },
        }
        i = i + 1;
    }
    Ok(())
}

/// One format of the catalog.
pub fn select_format(catalog: &Vec<MsgFormat>) -> (r: Option<&MsgFormat>)
    ensures
        catalog.len() == 0 ==> r is None,
        catalog.len() > 0 ==> r is Some && catalog@.contains(*r.unwrap()),
{
    pick(catalog)
}

/// The identifier and the payload of one message, generated from one
/// format of the catalog.
pub fn fuzz_message(catalog: &Vec<MsgFormat>) -> (r: (u32, Vec<u8>))
    requires
        catalog_ready(catalog@),
    ensures
        catalog_admits(catalog@, r.0, r.1@),
        r.1.len() == 8,
{
    let selected = select_format(catalog);
    let format = selected.unwrap();
    let ghost at = choose|i: int| 0 <= i < catalog.len() && catalog[i] == *format;
    assert(catalog[at]@.valid());
    let id = random_cob_id_with_format(format);
    let payload = msg_processor(format);
    (id, payload)
}

/// The identifier and the payload of the next message. With a catalog both
/// are generated from one of its formats. Without one, the identifier and
/// the payload of the message before are kept, but for what is asked to be
/// drawn anew: the identifier from the default window, the payload byte by
/// byte.
pub fn next_message(
    catalog: &Option<Vec<MsgFormat>>,
    random_id: bool,
    random_message: bool,
    id: u32,
    message: Vec<u8>,
) -> (r: (u32, Vec<u8>))
    requires
        catalog matches Some(formats) ==> catalog_ready(formats@),
    ensures
        catalog matches Some(formats) ==> catalog_admits(formats@, r.0, r.1@),
        catalog is None && random_id ==> r.0 < DEFAULT_COB_ID_END,
        catalog is None && !random_id ==> r.0 == id,
        catalog is None && random_message ==> random_payload(r.1@),
        catalog is None && !random_message ==> r.1@ == message@,
{
    match catalog {
        Some(formats) => fuzz_message(formats),
        None => {
            let next_id = if random_id {
                random_cob_id()
            } else {
                id
            };
            let next_payload = if random_message {
                random_msg()
            } else {
                message
            };
            (next_id, next_payload)
        },
    }
}

/// Whether `repeat` is a number of rounds: a count, or -1 for no end.
pub fn repeat_is_valid(repeat: i64) -> (b: bool)
    ensures
        b == (repeat >= REPEAT_FOREVER),
{
    repeat >= REPEAT_FOREVER
}

/// Whether a round is still to be sent.
pub fn has_round(repeat: i64) -> (b: bool)
    ensures
        b == (repeat != 0),
{
    repeat != 0
}

/// The number of rounds that are left after one round: one less, or still
/// no end.
pub fn after_round(repeat: i64) -> (r: i64)
    requires
        repeat >= REPEAT_FOREVER,
        repeat != 0,
    ensures
        repeat == REPEAT_FOREVER ==> r == REPEAT_FOREVER,
        repeat > 0 ==> r == repeat - 1,
{
    if repeat != REPEAT_FOREVER {
        repeat - 1
    } else {
        repeat
    }
}

/// Whether the sender sleeps after a round. In listen mode the wait for a
/// reply takes the place of the sleep.
pub fn sleeps_after_round(listen_mode: bool) -> (b: bool)
    ensures
        b == !listen_mode,
{
    !listen_mode
}

} // verus!
