//! The format of a header as mathematics: the bytes of its items, what is
//! read from given bytes, and what the accessors look for.

use vstd::prelude::*;
use vstd::string::*;
use crate::utils::{from_le32, from_le64, le32, le64};
use super::table::{kind_of, Kind};
use super::{DecodeError, ItemView, SpStrView};

verus! {

/// The bytes of a string: its length prefix, then its bytes.
pub open spec fn text_bytes(t: SpStrView) -> Seq<u8> {
    le32(t.len) + t.content
}

/// The bytes of an item: its name, then its value in the width of its kind.
pub open spec fn item_bytes(item: ItemView) -> Seq<u8> {
    match item {
        ItemView::HeaderStart => text_bytes(SpStrView::of("HEADER_START")),
        ItemView::HeaderEnd => text_bytes(SpStrView::of("HEADER_END")),
        ItemView::StringItem { key, value } => text_bytes(key) + text_bytes(value),
        ItemView::IntItem { key, value } => text_bytes(key) + le32(value),
        ItemView::DoubleItem { key, value } => text_bytes(key) + le64(value),
    }
}

/// The bytes of a run of items, each after the other.
pub open spec fn items_bytes(items: Seq<ItemView>) -> Seq<u8>
    decreases items.len(),
{
    if items.len() == 0 {
        Seq::empty()
    } else {
        items_bytes(items.drop_last()) + item_bytes(items.last())
    }
}

/// The bytes of a header: the opening sentinel, the items in their order, the
/// closing sentinel.
pub open spec fn header_bytes(items: Seq<ItemView>) -> Seq<u8> {
    item_bytes(ItemView::HeaderStart) + items_bytes(items) + item_bytes(ItemView::HeaderEnd)
}

/// The string that starts at `pos`, with the position behind it; `None` where
/// the bytes end before the string does.
pub open spec fn parse_text(bytes: Seq<u8>, pos: int) -> Option<(SpStrView, int)> {
    if 0 <= pos && pos + 4 <= bytes.len() {
        let len = from_le32(bytes.subrange(pos, pos + 4));
        if pos + 4 + len <= bytes.len() {
            Some(
                (
                    SpStrView { len, content: bytes.subrange(pos + 4, pos + 4 + len) },
                    pos + 4 + len,
                ),
            )
        } else {
            None
        }
    } else {
        None
    }
}

/// The item that starts at `pos`, with the position behind it.
#[verifier::opaque]
pub open spec fn parse_item(bytes: Seq<u8>, pos: int) -> Result<(ItemView, int), DecodeError> {
    match parse_text(bytes, pos) {
        None => Err(DecodeError::UnexpectedEof),
        Some((key, p)) => match kind_of(key.content) {
            None => Err(DecodeError::UnknownField),
            Some(Kind::Start) => Ok((ItemView::HeaderStart, p)),
            Some(Kind::End) => Ok((ItemView::HeaderEnd, p)),
            Some(Kind::Int) => if p + 4 <= bytes.len() {
                Ok((ItemView::IntItem { key, value: from_le32(bytes.subrange(p, p + 4)) }, p + 4))
            } else {
                Err(DecodeError::UnexpectedEof)
            },
            Some(Kind::Str) => match parse_text(bytes, p) {
                None => Err(DecodeError::UnexpectedEof),
                Some((value, q)) => Ok((ItemView::StringItem { key, value }, q)),
            },
            Some(Kind::Double) => if p + 8 <= bytes.len() {
                Ok(
                    (
                        ItemView::DoubleItem { key, value: from_le64(bytes.subrange(p, p + 8)) },
                        p + 8,
                    ),
                )
            } else {
                Err(DecodeError::UnexpectedEof)
            },
        },
    }
}

/// The items from `pos` up to the closing sentinel, with the position behind
/// that sentinel.
pub open spec fn parse_items(bytes: Seq<u8>, pos: int) -> Result<(Seq<ItemView>, int), DecodeError>
    decreases bytes.len() - pos,
    via parse_items_decreases
{
    match parse_item(bytes, pos) {
        Err(e) => Err(e),
        Ok((item, p)) => if item is HeaderEnd {
            Ok((Seq::empty(), p))
        } else {
            match parse_items(bytes, p) {
                Err(e) => Err(e),
                Ok((rest, q)) => Ok((seq![item] + rest, q)),
            }
        },
    }
}

#[via_fn]
proof fn parse_items_decreases(bytes: Seq<u8>, pos: int) {
    reveal(parse_item);
}

/// The items of the header that `bytes` begins with, and the length of that
/// header: where the payload starts.
pub open spec fn parse_header(bytes: Seq<u8>) -> Result<(Seq<ItemView>, int), DecodeError> {
    match parse_text(bytes, 0) {
        None => Err(DecodeError::UnexpectedEof),
        Some((name, p)) => if kind_of(name.content) == Some(Kind::Start) {
            parse_items(bytes, p)
        } else {
            Err(DecodeError::MissingStart)
        },
    }
}

/// The result `r` of reading on, behind the items `done` that were read before.
pub open spec fn behind(done: Seq<ItemView>, r: Result<(Seq<ItemView>, int), DecodeError>) -> Result<
    (Seq<ItemView>, int),
    DecodeError,
> {
    match r {
        Err(e) => Err(e),
        Ok((rest, q)) => Ok((done + rest, q)),
    }
}

/// The item is an integer item named `name`.
pub open spec fn int_named(item: ItemView, name: Seq<u8>) -> bool {
    item matches ItemView::IntItem { key, .. } && key.content == name
}

/// The item is a 64-bit IEEE-754 item named `name`.
pub open spec fn double_named(item: ItemView, name: Seq<u8>) -> bool {
    item matches ItemView::DoubleItem { key, .. } && key.content == name
}

/// The value of an integer item.
pub open spec fn int_value(item: ItemView) -> u32 {
    match item {
        ItemView::IntItem { value, .. } => value,
        _ => 0,
    }
}

/// The value of a 64-bit IEEE-754 item, as its bit pattern.
pub open spec fn double_value(item: ItemView) -> u64 {
    match item {
        ItemView::DoubleItem { value, .. } => value,
        _ => 0,
    }
}

/// The item at `i` is the first integer item named `name`.
pub open spec fn is_first_int(items: Seq<ItemView>, name: Seq<u8>, i: int) -> bool {
    &&& 0 <= i < items.len()
    &&& int_named(items[i], name)
    &&& forall|j: int| 0 <= j < i ==> !int_named(#[trigger] items[j], name)
}

/// The item at `i` is the first 64-bit IEEE-754 item named `name`.
pub open spec fn is_first_double(items: Seq<ItemView>, name: Seq<u8>, i: int) -> bool {
    &&& 0 <= i < items.len()
    &&& double_named(items[i], name)
    &&& forall|j: int| 0 <= j < i ==> !double_named(#[trigger] items[j], name)
}

/// Where the first integer item named `name` stands, if there is one.
pub open spec fn first_int_index(items: Seq<ItemView>, name: Seq<u8>) -> Option<int> {
    if exists|i: int| is_first_int(items, name, i) {
        Some(choose|i: int| is_first_int(items, name, i))
    } else {
        None
    }
}

/// Where the first 64-bit IEEE-754 item named `name` stands, if there is one.
pub open spec fn first_double_index(items: Seq<ItemView>, name: Seq<u8>) -> Option<int> {
    if exists|i: int| is_first_double(items, name, i) {
        Some(choose|i: int| is_first_double(items, name, i))
    } else {
        None
    }
}

/// The value of the first integer item named `name`, if there is one.
pub open spec fn first_int(items: Seq<ItemView>, name: Seq<u8>) -> Option<u32> {
    match first_int_index(items, name) {
        Some(i) => Some(int_value(items[i])),
        None => None,
    }
}

/// The bit pattern of the first 64-bit IEEE-754 item named `name`, if there
/// is one.
pub open spec fn first_double(items: Seq<ItemView>, name: Seq<u8>) -> Option<u64> {
    match first_double_index(items, name) {
        Some(i) => Some(double_value(items[i])),
        None => None,
    }
}

/// The item with its value replaced by the bit pattern `value`, where it is a
/// 64-bit IEEE-754 item.
pub open spec fn with_double(item: ItemView, value: u64) -> ItemView {
    match item {
        ItemView::DoubleItem { key, .. } => ItemView::DoubleItem { key, value },
        _ => item,
    }
}

/// The integer item named `name`.
pub open spec fn int_item(name: &str, value: u32) -> ItemView {
    ItemView::IntItem { key: SpStrView::of(name), value }
}

/// The 64-bit IEEE-754 item named `name`, with the bit pattern `value`.
pub open spec fn double_item(name: &str, value: u64) -> ItemView {
    ItemView::DoubleItem { key: SpStrView::of(name), value }
}

/// The string item named `name`.
pub open spec fn string_item(name: &str, value: &str) -> ItemView {
    ItemView::StringItem { key: SpStrView::of(name), value: SpStrView::of(value) }
}

/// The bit pattern of the 64-bit IEEE-754 number 900000, the declination
/// `90:00:00` that the canonical header gives.
pub const SRC_DEJ_DEFAULT: u64 = 0x412b_7740_0000_0000;

/// The items of the canonical header of a filterbank file with `nch`
/// channels of 32-bit samples and one IF stream. The frequency of the first
/// channel, the channel spacing, the epoch and the sample interval are bit
/// patterns of 64-bit IEEE-754 numbers; the channel count is cut to 32 bits.
pub open spec fn canonical_items(fch1: u64, nch: usize, foff: u64, t0: u64, tsamp: u64) -> Seq<
    ItemView,
> {
    seq![
        string_item("source_name", "fake"),
        int_item("machine_id", 0),
        int_item("telescope_id", 0),
        int_item("data_type", 1),
        double_item("fch1", fch1),
        double_item("foff", foff),
        int_item("nchans", nch as u32),
        int_item("barycentric", 1),
        int_item("nbits", 32),
        double_item("tstart", t0),
        double_item("tsamp", tsamp),
        double_item("src_raj", 0),
        double_item("src_dej", SRC_DEJ_DEFAULT),
        int_item("nifs", 1),
    ]
}

} // verus!
