//! The typed key/value header that precedes the payload of a filterbank
//! file: its items, and the coding of a header to and from bytes.
//!
//! A 64-bit IEEE-754 value is held as its bit pattern.

use vstd::prelude::*;
use vstd::string::*;
use crate::utils::{get_le32, get_le64, put_le32, put_le64};
use format::{
    behind, canonical_items, double_named, double_value, first_double, first_double_index,
    first_int, first_int_index, header_bytes, int_named, int_value, item_bytes, items_bytes,
    parse_header, parse_item, parse_items, parse_text, text_bytes, with_double, SRC_DEJ_DEFAULT,
};
use laws::{lemma_encode_decode, lemma_first_double, lemma_first_int, lemma_item_read};
use table::{kind_of, lookup, Kind};

pub mod format;
pub mod laws;
pub mod table;

verus! {

/// A byte string with its length prefix, as the file holds it.
#[derive(Clone, Debug)]
pub struct SpStr {
    /// The length as written before the bytes.
    pub len: u32,
    /// The bytes.
    pub content: Vec<u8>,
}

/// What an [`SpStr`] is, as mathematics.
pub struct SpStrView {
    pub len: u32,
    pub content: Seq<u8>,
}

impl View for SpStr {
    type V = SpStrView;

    open spec fn view(&self) -> SpStrView {
        SpStrView { len: self.len, content: self.content@ }
    }
}

impl SpStrView {
    /// The length prefix tells how many bytes follow it.
    pub open spec fn wf(self) -> bool {
        self.len == self.content.len()
    }

    /// The string that holds the bytes of `name`.
    pub open spec fn of(name: &str) -> SpStrView {
        SpStrView { len: name.spec_bytes().len() as u32, content: name.spec_bytes() }
    }
}

impl SpStr {
    /// The length prefix tells how many bytes follow it.
    pub open spec fn wf(&self) -> bool {
        self@.wf()
    }

    /// The string that holds the bytes of `c`, with its length cut to 32 bits.
    pub fn new(c: &str) -> (s: SpStr)
        ensures
            s@ == SpStrView::of(c),
    {
        let bytes = c.as_bytes();
        let mut content: Vec<u8> = Vec::new();
        let mut i: usize = 0;
        while i < bytes.len()
            invariant
                i <= bytes@.len(),
                content@ == bytes@.take(i as int),
            decreases bytes@.len() - i,
        {
            content.push(bytes[i]);
            i += 1;
        }
        assert(bytes@.take(i as int) =~= bytes@);
        SpStr { len: #[verifier::truncate] (content.len() as u32), content }
    }

    /// Whether the bytes are those of `name`.
    pub fn is(&self, name: &str) -> (b: bool)
        ensures
            b == (self.content@ == name.spec_bytes()),
    {
        let bytes = name.as_bytes();
        if self.content.len() != bytes.len() {
            return false;
        }
        let mut i: usize = 0;
        while i < bytes.len()
            invariant
                i <= bytes@.len(),
                bytes@ == name.spec_bytes(),
                self.content@.len() == bytes@.len(),
                self.content@.take(i as int) == bytes@.take(i as int),
            decreases bytes@.len() - i,
        {
            if self.content[i] != bytes[i] {
                return false;
            }
            i += 1;
        }
        assert(bytes@.take(i as int) =~= bytes@);
        assert(self.content@.take(i as int) =~= self.content@);
        true
    }

    /// Whether the length prefix tells how many bytes follow it.
    pub fn check(&self) -> (ok: bool)
        ensures
            ok == self.wf(),
    {
        self.content.len() == self.len as usize
    }

    /// A copy of the string.
    pub fn duplicate(&self) -> (s: SpStr)
        ensures
            s@ == self@,
    {
        let mut content: Vec<u8> = Vec::new();
        let mut i: usize = 0;
        while i < self.content.len()
            invariant
                i <= self.content@.len(),
                content@ == self.content@.take(i as int),
            decreases self.content@.len() - i,
        {
            content.push(self.content[i]);
            i += 1;
        }
        assert(self.content@.take(i as int) =~= self.content@);
        SpStr { len: self.len, content }
    }

    /// Appends the length prefix and the bytes to `out`.
    pub fn write_to(&self, out: &mut Vec<u8>)
        ensures
            final(out)@ == old(out)@ + text_bytes(self@),
    {
        put_le32(out, self.len);
        let ghost mid = out@;
        let mut i: usize = 0;
        while i < self.content.len()
            invariant
                i <= self.content@.len(),
                out@ == mid + self.content@.take(i as int),
            decreases self.content@.len() - i,
        {
            out.push(self.content[i]);
            i += 1;
        }
    }

    /// Reads the string that starts at `pos`, and gives it with the position
    /// behind it.
    pub fn read_from(bytes: &[u8], pos: usize) -> (r: Option<(SpStr, usize)>)
        ensures
            match parse_text(bytes@, pos as int) {
                Some((t, p)) => r matches Some(found) && found.0@ == t && found.1 == p,
                None => r is None,
            },
    {
        if pos > bytes.len() || bytes.len() - pos < 4 {
            return None;
        }
        let len: u32 = get_le32(bytes, pos);
        let start: usize = pos + 4;
        if bytes.len() - start < len as usize {
            return None;
        }
        let n: usize = len as usize;
        let mut content: Vec<u8> = Vec::new();
        let mut i: usize = 0;
        while i < n
            invariant
                i <= n,
                start + n <= bytes@.len() <= usize::MAX,
                content@ == bytes@.subrange(start as int, start + i),
            decreases n - i,
        {
            content.push(bytes[start + i]);
            i += 1;
        }
        Some((SpStr { len, content }, start + n))
    }
}

/// A name with its value.
#[derive(Clone, Debug)]
pub struct KvPair<T> {
    pub key: SpStr,
    pub value: T,
}

impl<T> KvPair<T> {
    /// The pair of the name `k` and the value `v`.
    pub fn new(k: &str, v: T) -> (p: KvPair<T>)
        ensures
            p.key@ == SpStrView::of(k),
            p.value == v,
    {
        KvPair { key: SpStr::new(k), value: v }
    }
}

/// One item of a header: a sentinel, or a name with its typed value.
#[derive(Clone, Debug)]
pub enum HeaderItem {
    HeaderStart,
    HeaderEnd,
    StringItem(KvPair<SpStr>),
    IntItem(KvPair<u32>),
    /// The value is the bit pattern of a 64-bit IEEE-754 number.
    DoubleItem(KvPair<u64>),
}

/// What a [`HeaderItem`] is, as mathematics.
pub enum ItemView {
    HeaderStart,
    HeaderEnd,
    StringItem { key: SpStrView, value: SpStrView },
    IntItem { key: SpStrView, value: u32 },
    DoubleItem { key: SpStrView, value: u64 },
}

impl View for HeaderItem {
    type V = ItemView;

    open spec fn view(&self) -> ItemView {
        match self {
            HeaderItem::HeaderStart => ItemView::HeaderStart,
            HeaderItem::HeaderEnd => ItemView::HeaderEnd,
            HeaderItem::StringItem(p) => ItemView::StringItem { key: p.key@, value: p.value@ },
            HeaderItem::IntItem(p) => ItemView::IntItem { key: p.key@, value: p.value },
            HeaderItem::DoubleItem(p) => ItemView::DoubleItem { key: p.key@, value: p.value },
        }
    }
}

impl ItemView {
    /// The item can stand between the sentinels of a header and be read back:
    /// its strings are as long as their prefixes say, and the table gives its
    /// name the kind of its value. The closing sentinel is no such item.
    pub open spec fn wf(self) -> bool {
        match self {
            ItemView::HeaderStart => true,
            ItemView::HeaderEnd => false,
            ItemView::StringItem { key, value } => key.wf() && value.wf() && kind_of(key.content)
                == Some(Kind::Str),
            ItemView::IntItem { key, value } => key.wf() && kind_of(key.content) == Some(
                Kind::Int,
            ),
            ItemView::DoubleItem { key, value } => key.wf() && kind_of(key.content) == Some(
                Kind::Double,
            ),
        }
    }
}

/// The reasons for which bytes are no header.
#[derive(Clone, Copy, Debug, PartialEq, Eq, Structural)]
pub enum DecodeError {
    /// The bytes end inside an item.
    UnexpectedEof,
    /// A name is not in the table of names.
    UnknownField,
    /// The bytes do not begin with the opening sentinel.
    MissingStart,
}

impl HeaderItem {
    /// Whether the item can stand between the sentinels of a header and be
    /// read back.
    pub fn check(&self) -> (ok: bool)
        ensures
            ok == self@.wf(),
    {
        match self {
            HeaderItem::HeaderStart => true,
            HeaderItem::HeaderEnd => false,
            HeaderItem::StringItem(p) => p.key.check() && p.value.check() && match lookup(&p.key) {
                Some(Kind::Str) => true,
                _ => false,
            },
            HeaderItem::IntItem(p) => p.key.check() && match lookup(&p.key) {
                Some(Kind::Int) => true,
                _ => false,
            },
            HeaderItem::DoubleItem(p) => p.key.check() && match lookup(&p.key) {
                Some(Kind::Double) => true,
                _ => false,
            },
        }
    }

    /// Appends the bytes of the item to `out`.
    pub fn write_to(&self, out: &mut Vec<u8>)
        ensures
            final(out)@ == old(out)@ + item_bytes(self@),
    {
        match self {
            HeaderItem::HeaderStart => {
                SpStr::new("HEADER_START").write_to(out);
            },
            HeaderItem::HeaderEnd => {
                SpStr::new("HEADER_END").write_to(out);
            },
            HeaderItem::StringItem(p) => {
                p.key.write_to(out);
                p.value.write_to(out);
            },
            HeaderItem::IntItem(p) => {
                p.key.write_to(out);
                put_le32(out, p.value);
            },
            HeaderItem::DoubleItem(p) => {
                p.key.write_to(out);
                put_le64(out, p.value);
            },
        }
    }

    /// Reads the item that starts at `pos`, and gives it with the position
    /// behind it.
    pub fn read_from(bytes: &[u8], pos: usize) -> (r: Result<(HeaderItem, usize), DecodeError>)
        ensures
            match parse_item(bytes@, pos as int) {
                Ok((item, p)) => r matches Ok(found) && found.0@ == item && found.1 == p,
                Err(e) => r == Err::<(HeaderItem, usize), DecodeError>(e),
            },
    {
        reveal(parse_item);
        let (key, p) = match SpStr::read_from(bytes, pos) {
            None => {
                return Err(DecodeError::UnexpectedEof);
            },
            Some(found) => found,
        };
        match lookup(&key) {
            None => Err(DecodeError::UnknownField),
            Some(Kind::Start) => Ok((HeaderItem::HeaderStart, p)),
            Some(Kind::End) => Ok((HeaderItem::HeaderEnd, p)),
            Some(Kind::Int) => {
                if bytes.len() - p < 4 {
                    return Err(DecodeError::UnexpectedEof);
                }
                let value: u32 = get_le32(bytes, p);
                Ok((HeaderItem::IntItem(KvPair { key, value }), p + 4))
            },
            Some(Kind::Str) => match SpStr::read_from(bytes, p) {
                None => Err(DecodeError::UnexpectedEof),
                Some((value, q)) => Ok((HeaderItem::StringItem(KvPair { key, value }), q)),
            },
            Some(Kind::Double) => {
                if bytes.len() - p < 8 {
                    return Err(DecodeError::UnexpectedEof);
                }
                let value: u64 = get_le64(bytes, p);
                Ok((HeaderItem::DoubleItem(KvPair { key, value }), p + 8))
            },
        }
    }
}

/// A header: the items between its sentinels, in their order.
#[derive(Clone, Debug)]
pub struct Header {
    pub items: Vec<HeaderItem>,
}

/// What each item of a run is, as mathematics.
pub open spec fn item_views(items: Seq<HeaderItem>) -> Seq<ItemView> {
    Seq::new(items.len(), |i: int| items[i]@)
}

impl View for Header {
    type V = Seq<ItemView>;

    open spec fn view(&self) -> Seq<ItemView> {
        item_views(self.items@)
    }
}

/// Every item of the run can be read back.
pub open spec fn items_wf(items: Seq<ItemView>) -> bool {
    forall|i: int| 0 <= i < items.len() ==> (#[trigger] items[i]).wf()
}

impl Header {
    /// Every item can be read back.
    pub open spec fn wf(&self) -> bool {
        items_wf(self@)
    }

    /// Appends `item` behind the items that are there.
    pub fn push_item(&mut self, item: HeaderItem)
        ensures
            final(self)@ == old(self)@.push(item@),
    {
        self.items.push(item);
    }

    /// The bytes of the header.
    pub fn encode(&self) -> (out: Vec<u8>)
        ensures
            out@ == header_bytes(self@),
    {
        let mut out: Vec<u8> = Vec::new();
        HeaderItem::HeaderStart.write_to(&mut out);
        let mut i: usize = 0;
        while i < self.items.len()
            invariant
                i <= self.items@.len(),
                out@ == item_bytes(ItemView::HeaderStart) + items_bytes(self@.take(i as int)),
            decreases self.items@.len() - i,
        {
            self.items[i].write_to(&mut out);
            assert(self@.take(i + 1).drop_last() =~= self@.take(i as int));
            i += 1;
        }
        assert(self@.take(i as int) =~= self@);
        HeaderItem::HeaderEnd.write_to(&mut out);
        out
    }

    /// Whether every item can be read back, so that the header, written out
    /// and read, is the same header.
    pub fn check(&self) -> (ok: bool)
        ensures
            ok == self.wf(),
    {
        let mut i: usize = 0;
        while i < self.items.len()
            invariant
                i <= self.items@.len(),
                forall|k: int| 0 <= k < i ==> (#[trigger] self@[k]).wf(),
            decreases self.items@.len() - i,
        {
            if !self.items[i].check() {
                assert(!self@[i as int].wf());
                return false;
            }
            i += 1;
        }
        true
    }

    /// Reads the header that `bytes` begins with, and gives it with its
    /// length, which is where the payload starts.
    ///
    /// The bytes must open with the opening sentinel; each name that follows
    /// must be in the table of names and have a value of its kind behind it;
    /// the closing sentinel ends the header. A header that was read can be
    /// written out and read back.
    pub fn decode(bytes: &[u8]) -> (r: Result<(Header, usize), DecodeError>)
        ensures
            match parse_header(bytes@) {
                Ok((items, n)) => r matches Ok(found) && found.0@ == items && found.1 == n,
                Err(e) => r == Err::<(Header, usize), DecodeError>(e),
            },
            r matches Ok(found) ==> found.0.wf() && found.1 <= bytes@.len(),
    {
        let (name, start) = match SpStr::read_from(bytes, 0) {
            None => {
                return Err(DecodeError::UnexpectedEof);
            },
            Some(found) => found,
        };
        match lookup(&name) {
            Some(Kind::Start) => {},
            _ => {
                return Err(DecodeError::MissingStart);
            },
        }
        let mut items: Vec<HeaderItem> = Vec::new();
        let mut pos: usize = start;
        loop
            invariant
                pos <= bytes@.len(),
                parse_header(bytes@) == parse_items(bytes@, start as int),
                parse_items(bytes@, start as int) == behind(
                    item_views(items@),
                    parse_items(bytes@, pos as int),
                ),
            decreases bytes@.len() - pos,
        {
            match HeaderItem::read_from(bytes, pos) {
                Err(e) => {
                    return Err(e);
                },
                Ok((item, p)) => {
                    if let HeaderItem::HeaderEnd = item {
                        proof {
                            lemma_encode_decode(bytes@);
                        }
                        return Ok((Header { items }, p));
                    }
                    let ghost done = item_views(items@);
                    let ghost next = parse_items(bytes@, p as int);
                    items.push(item);
                    proof {
                        lemma_item_read(bytes@, pos as int);
                        assert(item_views(items@) =~= done.push(item@));
                        if next is Ok {
                            let rest = next->Ok_0.0;
                            assert(done + (seq![item@] + rest) =~= done.push(item@) + rest);
                        }
                    }
                    pos = p;
                },
            }
        }
    }

    /// Where the first integer item named `name` stands, with its value.
    pub fn find_int(&self, name: &str) -> (r: Option<(usize, u32)>)
        ensures
            match r {
                Some((i, v)) => first_int_index(self@, name.spec_bytes()) == Some(i as int) && v
                    == int_value(self@[i as int]),
                None => first_int_index(self@, name.spec_bytes()) is None,
            },
    {
        let mut i: usize = 0;
        while i < self.items.len()
            invariant
                i <= self.items@.len(),
                forall|j: int| 0 <= j < i ==> !int_named(#[trigger] self@[j], name.spec_bytes()),
            decreases self.items@.len() - i,
        {
            if let HeaderItem::IntItem(p) = &self.items[i] {
                if p.key.is(name) {
                    proof {
                        lemma_first_int(self@, name.spec_bytes(), i as int);
                    }
                    return Some((i, p.value));
                }
            }
            i += 1;
        }
        None
    }

    /// Where the first 64-bit IEEE-754 item named `name` stands, with the bit
    /// pattern of its value.
    pub fn find_double(&self, name: &str) -> (r: Option<(usize, u64)>)
        ensures
            match r {
                Some((i, v)) => first_double_index(self@, name.spec_bytes()) == Some(i as int)
                    && v == double_value(self@[i as int]),
                None => first_double_index(self@, name.spec_bytes()) is None,
            },
    {
        let mut i: usize = 0;
        while i < self.items.len()
            invariant
                i <= self.items@.len(),
                forall|j: int|
                    0 <= j < i ==> !double_named(#[trigger] self@[j], name.spec_bytes()),
            decreases self.items@.len() - i,
        {
            if let HeaderItem::DoubleItem(p) = &self.items[i] {
                if p.key.is(name) {
                    proof {
                        lemma_first_double(self@, name.spec_bytes(), i as int);
                    }
                    return Some((i, p.value));
                }
            }
            i += 1;
        }
        None
    }

    /// The number of IF streams: the value of the first `nifs` item, and 1
    /// where there is none.
    pub fn nifs(&self) -> (n: usize)
        ensures
            n == match first_int(self@, "nifs".spec_bytes()) {
                Some(v) => v as usize,
                None => 1usize,
            },
    {
        match self.find_int("nifs") {
            Some((_, v)) => v as usize,
            None => 1,
        }
    }

    /// The number of channels: the value of the first `nchans` item.
    pub fn nchans(&self) -> (n: usize)
        requires
            first_int(self@, "nchans".spec_bytes()) is Some,
        ensures
            Some(n as u32) == first_int(self@, "nchans".spec_bytes()),
            n <= u32::MAX,
    {
        match self.find_int("nchans") {
            Some((_, v)) => v as usize,
            None => 0,
        }
    }

    /// The number of bits of a sample: the value of the first `nbits` item.
    pub fn nbits(&self) -> (n: usize)
        requires
            first_int(self@, "nbits".spec_bytes()) is Some,
        ensures
            Some(n as u32) == first_int(self@, "nbits".spec_bytes()),
            n <= u32::MAX,
    {
        match self.find_int("nbits") {
            Some((_, v)) => v as usize,
            None => 0,
        }
    }

    /// The sample interval: the bit pattern of the first `tsamp` item.
    pub fn tsamp(&self) -> (t: u64)
        requires
            first_double(self@, "tsamp".spec_bytes()) is Some,
        ensures
            Some(t) == first_double(self@, "tsamp".spec_bytes()),
    {
        match self.find_double("tsamp") {
            Some((_, v)) => v,
            None => 0,
        }
    }

    /// Replaces the value of the first `tsamp` item by the bit pattern
    /// `tsamp`, and leaves every other item as it is.
    pub fn set_tsamp(&mut self, tsamp: u64)
        requires
            first_double_index(old(self)@, "tsamp".spec_bytes()) is Some,
        ensures
            final(self)@ == old(self)@.update(
                first_double_index(old(self)@, "tsamp".spec_bytes())->0,
                with_double(
                    old(self)@[first_double_index(old(self)@, "tsamp".spec_bytes())->0],
                    tsamp,
                ),
            ),
    {
        match self.find_double("tsamp") {
            Some((i, _)) => {
                let key = match &self.items[i] {
                    HeaderItem::DoubleItem(p) => p.key.duplicate(),
                    _ => SpStr::new("tsamp"),
                };
                self.items.set(i, HeaderItem::DoubleItem(KvPair { key, value: tsamp }));
            },
            None => {},
        }
    }

    /// The canonical header: see [`canonical_items`].
    pub fn new(fch1: u64, nch: usize, foff: u64, t0: u64, tsamp: u64) -> (h: Header)
        ensures
            h@ == canonical_items(fch1, nch, foff, t0, tsamp),
    {
        let mut header = Header::default();
        header.push_item(
            HeaderItem::StringItem(KvPair::new("source_name", SpStr::new("fake"))),
        );
        header.push_item(HeaderItem::IntItem(KvPair::new("machine_id", 0)));
        header.push_item(HeaderItem::IntItem(KvPair::new("telescope_id", 0)));
        header.push_item(HeaderItem::IntItem(KvPair::new("data_type", 1)));
        header.push_item(HeaderItem::DoubleItem(KvPair::new("fch1", fch1)));
        header.push_item(HeaderItem::DoubleItem(KvPair::new("foff", foff)));
        header.push_item(
            HeaderItem::IntItem(KvPair::new("nchans", #[verifier::truncate] (nch as u32))),
        );
        header.push_item(HeaderItem::IntItem(KvPair::new("barycentric", 1)));
        header.push_item(HeaderItem::IntItem(KvPair::new("nbits", 32)));
        header.push_item(HeaderItem::DoubleItem(KvPair::new("tstart", t0)));
        header.push_item(HeaderItem::DoubleItem(KvPair::new("tsamp", tsamp)));
        header.push_item(HeaderItem::DoubleItem(KvPair::new("src_raj", 0)));
        header.push_item(HeaderItem::DoubleItem(KvPair::new("src_dej", SRC_DEJ_DEFAULT)));
        header.push_item(HeaderItem::IntItem(KvPair::new("nifs", 1)));
        header
    }
}

impl Default for Header {
    /// The header without items.
    fn default() -> (h: Header)
        ensures
            h@ == Seq::<ItemView>::empty(),
    {
        Header { items: Vec::new() }
    }
}

} // verus!
