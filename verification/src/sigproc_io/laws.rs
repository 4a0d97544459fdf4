//! What holds of the format: a header that is written out is read back as
//! it was, bytes that are read as a header are the bytes of that header, and
//! a name outside the table makes bytes no header.

use vstd::prelude::*;
use vstd::string::*;
use crate::utils::{
    le32, le64, lemma_le32_bytes_round_trip, lemma_le32_round_trip, lemma_le64_bytes_round_trip,
    lemma_le64_round_trip,
};
use super::format::{
    behind, canonical_items, double_named, first_double, first_double_index, first_int,
    first_int_index, header_bytes, int_named, is_first_double, is_first_int, item_bytes,
    items_bytes, parse_header, parse_item, parse_items, parse_text, text_bytes,
};
use super::table::{kind_of, lemma_fake, lemma_names_differ, lemma_table, Kind};
use super::{items_wf, DecodeError, ItemView, SpStrView};

verus! {

/// The bytes of two runs of items, one after the other, are the bytes of the
/// one run that holds both.
pub proof fn lemma_items_bytes_concat(a: Seq<ItemView>, b: Seq<ItemView>)
    ensures
        items_bytes(a + b) == items_bytes(a) + items_bytes(b),
    decreases b.len(),
{
    if b.len() > 0 {
        lemma_items_bytes_concat(a, b.drop_last());
        assert((a + b).drop_last() =~= a + b.drop_last());
    }
}

/// Where the bytes from `pos` on begin with the bytes of a string that is as
/// long as its prefix says, that string is read there.
pub proof fn lemma_parse_text(bytes: Seq<u8>, pos: int, t: SpStrView)
    requires
        t.wf(),
        0 <= pos,
        pos + text_bytes(t).len() <= bytes.len(),
        bytes.subrange(pos, pos + text_bytes(t).len()) == text_bytes(t),
    ensures
        text_bytes(t).len() == 4 + t.content.len(),
        parse_text(bytes, pos) == Some((t, pos + text_bytes(t).len())),
{
    let tb = text_bytes(t);
    let part = bytes.subrange(pos, pos + tb.len());
    lemma_le32_round_trip(t.len);
    assert(bytes.subrange(pos + 4, pos + 4 + t.len) =~= part.subrange(4, 4 + t.len));
    assert(part.subrange(4, 4 + t.len) =~= t.content);
}

/// Where `whole` lies in `bytes` from `pos` on and is `front` followed by
/// `back`, `front` lies at `pos` and `back` behind it.
proof fn lemma_parts(bytes: Seq<u8>, pos: int, whole: Seq<u8>, front: Seq<u8>, back: Seq<u8>)
    requires
        0 <= pos,
        pos + whole.len() <= bytes.len(),
        bytes.subrange(pos, pos + whole.len()) == whole,
        whole == front + back,
    ensures
        bytes.subrange(pos, pos + front.len()) == front,
        bytes.subrange(pos + front.len(), pos + front.len() + back.len()) == back,
{
    let f: int = front.len() as int;
    let b: int = back.len() as int;
    assert(whole.subrange(f, f + b) =~= back);
}

/// Where the bytes from `pos` on begin with a name of the table, in a string
/// as long as its prefix says, the name is read there.
proof fn lemma_parse_key(bytes: Seq<u8>, pos: int, key: SpStrView, whole: Seq<u8>, back: Seq<u8>)
    requires
        key.wf(),
        0 <= pos,
        pos + whole.len() <= bytes.len(),
        bytes.subrange(pos, pos + whole.len()) == whole,
        whole == text_bytes(key) + back,
    ensures
        parse_text(bytes, pos) == Some((key, pos + text_bytes(key).len())),
        bytes.subrange(
            pos + text_bytes(key).len(),
            pos + text_bytes(key).len() + back.len(),
        ) == back,
        whole.len() == text_bytes(key).len() + back.len(),
        text_bytes(key).len() >= 4,
{
    lemma_parts(bytes, pos, whole, text_bytes(key), back);
    lemma_parse_text(bytes, pos, key);
}

/// Where the bytes from `pos` on begin with the bytes of an item that can be
/// read back, or of the closing sentinel, that item is read there.
pub proof fn lemma_parse_item(bytes: Seq<u8>, pos: int, item: ItemView)
    requires
        item.wf() || item is HeaderEnd,
        0 <= pos,
        pos + item_bytes(item).len() <= bytes.len(),
        bytes.subrange(pos, pos + item_bytes(item).len()) == item_bytes(item),
    ensures
        item_bytes(item).len() >= 4,
        parse_item(bytes, pos) == Ok::<(ItemView, int), DecodeError>(
            (item, pos + item_bytes(item).len()),
        ),
{
    reveal(parse_item);
    let whole = item_bytes(item);
    match item {
        ItemView::HeaderStart => {
            lemma_table();
            lemma_parse_text(bytes, pos, SpStrView::of("HEADER_START"));
        },
        ItemView::HeaderEnd => {
            lemma_table();
            lemma_parse_text(bytes, pos, SpStrView::of("HEADER_END"));
        },
        ItemView::StringItem { key, value } => {
            lemma_parse_key(bytes, pos, key, whole, text_bytes(value));
            lemma_parse_text(bytes, pos + text_bytes(key).len(), value);
        },
        ItemView::IntItem { key, value } => {
            lemma_parse_key(bytes, pos, key, whole, le32(value));
            lemma_le32_round_trip(value);
        },
        ItemView::DoubleItem { key, value } => {
            lemma_parse_key(bytes, pos, key, whole, le64(value));
            lemma_le64_round_trip(value);
        },
    }
}

/// A run of items that can be read back, and is not empty, is its first item
/// and the run of the others, which can be read back too, and so are its
/// bytes.
proof fn lemma_first_and_rest(items: Seq<ItemView>)
    requires
        items_wf(items),
        items.len() > 0,
    ensures
        items[0].wf(),
        items_wf(items.skip(1)),
        seq![items[0]] + items.skip(1) == items,
        items_bytes(items) == item_bytes(items[0]) + items_bytes(items.skip(1)),
{
    let first = items[0];
    let rest = items.skip(1);
    assert(seq![first] + rest =~= items);
    lemma_items_bytes_concat(seq![first], rest);
    assert(items_bytes(seq![first]) == item_bytes(first)) by {
        assert(seq![first].drop_last() =~= Seq::<ItemView>::empty());
        assert(items_bytes(Seq::<ItemView>::empty()) =~= Seq::<u8>::empty());
    }
}

/// Where the bytes from `pos` on begin with the bytes of a run of items that
/// can be read back, reading from `pos` gives those items and then whatever
/// reading behind them gives.
pub proof fn lemma_parse_items_prefix(bytes: Seq<u8>, pos: int, items: Seq<ItemView>)
    requires
        items_wf(items),
        0 <= pos,
        pos + items_bytes(items).len() <= bytes.len(),
        bytes.subrange(pos, pos + items_bytes(items).len()) == items_bytes(items),
    ensures
        parse_items(bytes, pos) == behind(
            items,
            parse_items(bytes, pos + items_bytes(items).len()),
        ),
    decreases items.len(),
{
    let next = parse_items(bytes, pos + items_bytes(items).len());
    if items.len() == 0 {
        if next is Ok {
            assert(items + next->Ok_0.0 =~= next->Ok_0.0);
        }
    } else {
        let first = items[0];
        let rest = items.skip(1);
        lemma_first_and_rest(items);
        lemma_parts(bytes, pos, items_bytes(items), item_bytes(first), items_bytes(rest));
        lemma_parse_item(bytes, pos, first);
        lemma_parse_items_prefix(bytes, pos + item_bytes(first).len(), rest);
        if next is Ok {
            assert(seq![first] + (rest + next->Ok_0.0) =~= items + next->Ok_0.0);
        }
    }
}

/// Where the bytes from `pos` on begin with the bytes of a run of items that
/// can be read back and of the closing sentinel behind them, that run is read
/// there, up to the end of the sentinel.
pub proof fn lemma_parse_items(bytes: Seq<u8>, pos: int, items: Seq<ItemView>)
    requires
        items_wf(items),
        0 <= pos,
        pos + (items_bytes(items) + item_bytes(ItemView::HeaderEnd)).len() <= bytes.len(),
        bytes.subrange(
            pos,
            pos + (items_bytes(items) + item_bytes(ItemView::HeaderEnd)).len(),
        ) == items_bytes(items) + item_bytes(ItemView::HeaderEnd),
    ensures
        parse_items(bytes, pos) == Ok::<(Seq<ItemView>, int), DecodeError>(
            (items, pos + (items_bytes(items) + item_bytes(ItemView::HeaderEnd)).len()),
        ),
{
    let body = items_bytes(items);
    let end = item_bytes(ItemView::HeaderEnd);
    lemma_parts(bytes, pos, body + end, body, end);
    lemma_parse_items_prefix(bytes, pos, items);
    lemma_parse_item(bytes, pos + body.len(), ItemView::HeaderEnd);
    assert(items + Seq::<ItemView>::empty() =~= items);
}

/// Reading a header back: the bytes of a header whose items can all be read
/// back, with anything behind them, are read as those items in their order,
/// and the header ends where its bytes end.
pub proof fn lemma_decode_encode(items: Seq<ItemView>, rest: Seq<u8>)
    requires
        items_wf(items),
    ensures
        parse_header(header_bytes(items) + rest) == Ok::<(Seq<ItemView>, int), DecodeError>(
            (items, header_bytes(items).len() as int),
        ),
{
    lemma_table();
    let start = item_bytes(ItemView::HeaderStart);
    let end = item_bytes(ItemView::HeaderEnd);
    let body = items_bytes(items) + end;
    let bytes = header_bytes(items) + rest;
    assert(bytes.subrange(0, header_bytes(items).len() as int) =~= start + body);
    lemma_parts(bytes, 0, start + body, start, body);
    lemma_parse_text(bytes, 0, SpStrView::of("HEADER_START"));
    lemma_parse_items(bytes, start.len() as int, items);
}

/// A name that the table does not hold makes the bytes no header: where the
/// opening sentinel and items that can be read back are followed by a string
/// whose bytes are no name of the table, reading fails on that name, whatever
/// follows it.
pub proof fn lemma_unknown_field(items: Seq<ItemView>, name: SpStrView, rest: Seq<u8>)
    requires
        items_wf(items),
        name.wf(),
        kind_of(name.content) is None,
    ensures
        parse_header(
            item_bytes(ItemView::HeaderStart) + items_bytes(items) + text_bytes(name) + rest,
        ) == Err::<(Seq<ItemView>, int), DecodeError>(DecodeError::UnknownField),
{
    lemma_table();
    let start = item_bytes(ItemView::HeaderStart);
    let body = items_bytes(items);
    let tail = text_bytes(name) + rest;
    let bytes = start + body + text_bytes(name) + rest;
    assert(bytes =~= start + (body + tail));
    assert(bytes.subrange(0, bytes.len() as int) =~= bytes);
    lemma_parts(bytes, 0, bytes, start, body + tail);
    lemma_parse_text(bytes, 0, SpStrView::of("HEADER_START"));
    let p: int = start.len() as int;
    lemma_parts(bytes, p, body + tail, body, tail);
    lemma_parse_items_prefix(bytes, p, items);
    let q: int = p + body.len();
    lemma_parts(bytes, q, tail, text_bytes(name), rest);
    lemma_parse_text(bytes, q, name);
    assert(parse_item(bytes, q) == Err::<(ItemView, int), DecodeError>(
        DecodeError::UnknownField,
    )) by {
        reveal(parse_item);
    }
}

/// A string that was read lies in the bytes where it was read, and is as long
/// as its prefix says.
pub proof fn lemma_text_read(bytes: Seq<u8>, pos: int)
    requires
        parse_text(bytes, pos) is Some,
    ensures
        ({
            let (t, p) = parse_text(bytes, pos)->0;
            &&& t.wf()
            &&& 0 <= pos
            &&& pos + 4 <= p <= bytes.len()
            &&& bytes.subrange(pos, p) == text_bytes(t)
        }),
{
    lemma_le32_bytes_round_trip(bytes.subrange(pos, pos + 4));
}

/// A string as long as its prefix says whose bytes the table takes for a
/// sentinel is that sentinel's name.
proof fn lemma_sentinel_names(name: SpStrView)
    requires
        name.wf(),
    ensures
        kind_of(name.content) == Some(Kind::Start) ==> name == SpStrView::of("HEADER_START"),
        kind_of(name.content) == Some(Kind::End) ==> name == SpStrView::of("HEADER_END"),
{
    reveal(kind_of);
    lemma_table();
}

/// An item that was read lies in the bytes where it was read, and is the
/// closing sentinel or can be read back.
pub proof fn lemma_item_read(bytes: Seq<u8>, pos: int)
    requires
        parse_item(bytes, pos) is Ok,
    ensures
        ({
            let (item, p) = parse_item(bytes, pos)->Ok_0;
            &&& item.wf() || item is HeaderEnd
            &&& 0 <= pos
            &&& pos + 4 <= p <= bytes.len()
            &&& bytes.subrange(pos, p) == item_bytes(item)
        }),
{
    reveal(parse_item);
    lemma_text_read(bytes, pos);
    let (key, k) = parse_text(bytes, pos)->0;
    match parse_item(bytes, pos)->Ok_0.0 {
        ItemView::HeaderStart | ItemView::HeaderEnd => {
            lemma_sentinel_names(key);
        },
        ItemView::StringItem { .. } => {
            lemma_text_read(bytes, k);
        },
        ItemView::IntItem { .. } => {
            lemma_le32_bytes_round_trip(bytes.subrange(k, k + 4));
        },
        ItemView::DoubleItem { .. } => {
            lemma_le64_bytes_round_trip(bytes.subrange(k, k + 8));
        },
    }
}

/// A run of items that was read lies in the bytes where it was read, with
/// the closing sentinel behind it, and each of its items can be read back.
pub proof fn lemma_items_read(bytes: Seq<u8>, pos: int)
    requires
        parse_items(bytes, pos) is Ok,
    ensures
        ({
            let (items, q) = parse_items(bytes, pos)->Ok_0;
            &&& items_wf(items)
            &&& 0 <= pos
            &&& pos + 4 <= q <= bytes.len()
            &&& bytes.subrange(pos, q) == items_bytes(items) + item_bytes(ItemView::HeaderEnd)
        }),
    decreases bytes.len() - pos,
{
    lemma_item_read(bytes, pos);
    let (item, p) = parse_item(bytes, pos)->Ok_0;
    if !(item is HeaderEnd) {
        lemma_items_read(bytes, p);
        let items = parse_items(bytes, pos)->Ok_0.0;
        let rest = parse_items(bytes, p)->Ok_0.0;
        let end = item_bytes(ItemView::HeaderEnd);
        assert(items_wf(items));
        lemma_first_and_rest(items);
        assert(items.skip(1) =~= rest);
        assert(items_bytes(items) + end =~= item_bytes(item) + (items_bytes(rest) + end));
    }
}

/// Writing a header out again: where bytes are read as a header, each item
/// of it can be read back, and the bytes of those items are the bytes that
/// were read, up to where the header ends.
pub proof fn lemma_encode_decode(bytes: Seq<u8>)
    requires
        parse_header(bytes) is Ok,
    ensures
        ({
            let (items, n) = parse_header(bytes)->Ok_0;
            &&& items_wf(items)
            &&& 0 <= n <= bytes.len()
            &&& header_bytes(items) == bytes.subrange(0, n)
        }),
{
    lemma_text_read(bytes, 0);
    let (name, p) = parse_text(bytes, 0)->0;
    lemma_sentinel_names(name);
    lemma_items_read(bytes, p);
    let (items, n) = parse_header(bytes)->Ok_0;
    assert(header_bytes(items) =~= item_bytes(ItemView::HeaderStart) + (items_bytes(items)
        + item_bytes(ItemView::HeaderEnd)));
}

/// An item that is an integer item named `name`, with none before it, is
/// where the first such item stands.
pub proof fn lemma_first_int(items: Seq<ItemView>, name: Seq<u8>, i: int)
    requires
        is_first_int(items, name, i),
    ensures
        first_int_index(items, name) == Some(i),
{
    let c = choose|c: int| is_first_int(items, name, c);
    assert(c == i);
}

/// An item that is a 64-bit IEEE-754 item named `name`, with none before it,
/// is where the first such item stands.
pub proof fn lemma_first_double(items: Seq<ItemView>, name: Seq<u8>, i: int)
    requires
        is_first_double(items, name, i),
    ensures
        first_double_index(items, name) == Some(i),
{
    let c = choose|c: int| is_first_double(items, name, c);
    assert(c == i);
}

/// The canonical header can be read back: the table gives each of its names
/// the kind of its value, and its strings are as long as their prefixes say.
pub proof fn lemma_canonical_wf(fch1: u64, nch: usize, foff: u64, t0: u64, tsamp: u64)
    ensures
        items_wf(canonical_items(fch1, nch, foff, t0, tsamp)),
{
    lemma_table();
    lemma_fake();
}

/// The channel count of the canonical header is its first `nchans` item.
pub proof fn lemma_canonical_nchans(fch1: u64, nch: usize, foff: u64, t0: u64, tsamp: u64)
    ensures
        first_int(canonical_items(fch1, nch, foff, t0, tsamp), "nchans".spec_bytes()) == Some(
            nch as u32,
        ),
{
    let items = canonical_items(fch1, nch, foff, t0, tsamp);
    let name = "nchans".spec_bytes();
    lemma_names_differ();
    lemma_first_int(items, name, 6);
}

/// The canonical header gives 32 bits to a sample.
pub proof fn lemma_canonical_nbits(fch1: u64, nch: usize, foff: u64, t0: u64, tsamp: u64)
    ensures
        first_int(canonical_items(fch1, nch, foff, t0, tsamp), "nbits".spec_bytes()) == Some(
            32u32,
        ),
{
    let items = canonical_items(fch1, nch, foff, t0, tsamp);
    let name = "nbits".spec_bytes();
    lemma_names_differ();
    lemma_first_int(items, name, 8);
}

/// The canonical header has one IF stream.
pub proof fn lemma_canonical_nifs(fch1: u64, nch: usize, foff: u64, t0: u64, tsamp: u64)
    ensures
        first_int(canonical_items(fch1, nch, foff, t0, tsamp), "nifs".spec_bytes()) == Some(
            1u32,
        ),
{
    let items = canonical_items(fch1, nch, foff, t0, tsamp);
    let name = "nifs".spec_bytes();
    lemma_names_differ();
    lemma_first_int(items, name, 13);
}

/// The sample interval of the canonical header is its first `tsamp` item.
pub proof fn lemma_canonical_tsamp(fch1: u64, nch: usize, foff: u64, t0: u64, tsamp: u64)
    ensures
        first_double(canonical_items(fch1, nch, foff, t0, tsamp), "tsamp".spec_bytes()) == Some(
            tsamp,
        ),
{
    let items = canonical_items(fch1, nch, foff, t0, tsamp);
    let name = "tsamp".spec_bytes();
    lemma_names_differ();
    lemma_first_double(items, name, 10);
}

/// The canonical header, written out and read back, is the canonical header
/// with its items in their order, whatever follows its bytes.
pub proof fn lemma_canonical_round_trip(
    fch1: u64,
    nch: usize,
    foff: u64,
    t0: u64,
    tsamp: u64,
    rest: Seq<u8>,
)
    ensures
        parse_header(header_bytes(canonical_items(fch1, nch, foff, t0, tsamp)) + rest) == Ok::<
            (Seq<ItemView>, int),
            DecodeError,
        >(
            (
                canonical_items(fch1, nch, foff, t0, tsamp),
                header_bytes(canonical_items(fch1, nch, foff, t0, tsamp)).len() as int,
            ),
        ),
{
    lemma_canonical_wf(fch1, nch, foff, t0, tsamp);
    lemma_decode_encode(canonical_items(fch1, nch, foff, t0, tsamp), rest);
}

} // verus!
