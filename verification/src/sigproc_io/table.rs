//! The table of names: which kind of value follows each name that a header
//! may hold.

use vstd::prelude::*;
use vstd::string::*;
use super::{SpStr, SpStrView};

verus! {

/// The kinds of name that a header holds.
#[derive(Clone, Copy, Debug, PartialEq, Eq, Structural)]
pub enum Kind {
    /// The sentinel that opens a header.
    Start,
    /// The sentinel that closes a header.
    End,
    /// A name followed by an unsigned 32-bit integer.
    Int,
    /// A name followed by a length-prefixed byte string.
    Str,
    /// A name followed by a 64-bit IEEE-754 number.
    Double,
}

/// The names whose value is an unsigned 32-bit integer.
pub open spec fn is_int_name(n: Seq<u8>) -> bool {
    ||| n == "telescope_id".spec_bytes()
    ||| n == "machine_id".spec_bytes()
    ||| n == "data_type".spec_bytes()
    ||| n == "barycentric".spec_bytes()
    ||| n == "pulsarcentric".spec_bytes()
    ||| n == "nbits".spec_bytes()
    ||| n == "nsamples".spec_bytes()
    ||| n == "nchans".spec_bytes()
    ||| n == "nifs".spec_bytes()
}

/// The names whose value is a length-prefixed byte string.
pub open spec fn is_str_name(n: Seq<u8>) -> bool {
    ||| n == "rawdatafile".spec_bytes()
    ||| n == "source_name".spec_bytes()
}

/// The names whose value is a 64-bit IEEE-754 number.
pub open spec fn is_double_name(n: Seq<u8>) -> bool {
    ||| n == "az_start".spec_bytes()
    ||| n == "za_start".spec_bytes()
    ||| n == "src_raj".spec_bytes()
    ||| n == "src_dej".spec_bytes()
    ||| n == "tstart".spec_bytes()
    ||| n == "tsamp".spec_bytes()
    ||| n == "fch1".spec_bytes()
    ||| n == "foff".spec_bytes()
    ||| n == "fchannel".spec_bytes()
    ||| n == "refdm".spec_bytes()
    ||| n == "period".spec_bytes()
}

/// The table of names: the kind of each name that a header may hold, and
/// `None` for every other byte string.
#[verifier::opaque]
pub open spec fn kind_of(n: Seq<u8>) -> Option<Kind> {
    if n == "HEADER_START".spec_bytes() {
        Some(Kind::Start)
    } else if n == "HEADER_END".spec_bytes() {
        Some(Kind::End)
    } else if is_int_name(n) {
        Some(Kind::Int)
    } else if is_str_name(n) {
        Some(Kind::Str)
    } else if is_double_name(n) {
        Some(Kind::Double)
    } else {
        None
    }
}

/// Looks `name` up in the table of names.
pub fn lookup(name: &SpStr) -> (k: Option<Kind>)
    ensures
        k == kind_of(name.content@),
{
    reveal(kind_of);
    if name.is("HEADER_START") {
        Some(Kind::Start)
    } else if name.is("HEADER_END") {
        Some(Kind::End)
    } else if name.is("telescope_id") {
        Some(Kind::Int)
    } else if name.is("machine_id") {
        Some(Kind::Int)
    } else if name.is("data_type") {
        Some(Kind::Int)
    } else if name.is("barycentric") {
        Some(Kind::Int)
    } else if name.is("pulsarcentric") {
        Some(Kind::Int)
    } else if name.is("nbits") {
        Some(Kind::Int)
    } else if name.is("nsamples") {
        Some(Kind::Int)
    } else if name.is("nchans") {
        Some(Kind::Int)
    } else if name.is("nifs") {
        Some(Kind::Int)
    } else if name.is("rawdatafile") {
        Some(Kind::Str)
    } else if name.is("source_name") {
        Some(Kind::Str)
    } else if name.is("az_start") {
        Some(Kind::Double)
    } else if name.is("za_start") {
        Some(Kind::Double)
    } else if name.is("src_raj") {
        Some(Kind::Double)
    } else if name.is("src_dej") {
        Some(Kind::Double)
    } else if name.is("tstart") {
        Some(Kind::Double)
    } else if name.is("tsamp") {
        Some(Kind::Double)
    } else if name.is("fch1") {
        Some(Kind::Double)
    } else if name.is("foff") {
        Some(Kind::Double)
    } else if name.is("fchannel") {
        Some(Kind::Double)
    } else if name.is("refdm") {
        Some(Kind::Double)
    } else if name.is("period") {
        Some(Kind::Double)
    } else {
        None
    }
}

/// The length of a name with its first, second and fifth byte: enough to tell
/// any two names of the table apart.
spec fn signature(n: Seq<u8>) -> (nat, u8, u8, u8) {
    (n.len(), n[0], n[1], if n.len() > 4 { n[4] } else { 0 })
}

/// The signatures of the two sentinels.
proof fn lemma_sentinel_signatures()
    ensures
        signature("HEADER_START".spec_bytes()) == (12nat, 72u8, 69u8, 69u8),
        SpStrView::of("HEADER_START").wf(),
        signature("HEADER_END".spec_bytes()) == (10nat, 72u8, 69u8, 69u8),
        SpStrView::of("HEADER_END").wf(),
{
    reveal_strlit("HEADER_START");
    is_ascii_spec_bytes("HEADER_START");
    reveal_strlit("HEADER_END");
    is_ascii_spec_bytes("HEADER_END");
}

/// The signatures of the names of integer items.
proof fn lemma_int_signatures()
    ensures
        signature("telescope_id".spec_bytes()) == (12nat, 116u8, 101u8, 115u8),
        SpStrView::of("telescope_id").wf(),
        signature("machine_id".spec_bytes()) == (10nat, 109u8, 97u8, 105u8),
        SpStrView::of("machine_id").wf(),
        signature("data_type".spec_bytes()) == (9nat, 100u8, 97u8, 95u8),
        SpStrView::of("data_type").wf(),
        signature("barycentric".spec_bytes()) == (11nat, 98u8, 97u8, 99u8),
        SpStrView::of("barycentric").wf(),
        signature("pulsarcentric".spec_bytes()) == (13nat, 112u8, 117u8, 97u8),
        SpStrView::of("pulsarcentric").wf(),
        signature("nbits".spec_bytes()) == (5nat, 110u8, 98u8, 115u8),
        SpStrView::of("nbits").wf(),
        signature("nsamples".spec_bytes()) == (8nat, 110u8, 115u8, 112u8),
        SpStrView::of("nsamples").wf(),
        signature("nchans".spec_bytes()) == (6nat, 110u8, 99u8, 110u8),
        SpStrView::of("nchans").wf(),
        signature("nifs".spec_bytes()) == (4nat, 110u8, 105u8, 0u8),
        SpStrView::of("nifs").wf(),
{
    reveal_strlit("telescope_id");
    is_ascii_spec_bytes("telescope_id");
    reveal_strlit("machine_id");
    is_ascii_spec_bytes("machine_id");
    reveal_strlit("data_type");
    is_ascii_spec_bytes("data_type");
    reveal_strlit("barycentric");
    is_ascii_spec_bytes("barycentric");
    reveal_strlit("pulsarcentric");
    is_ascii_spec_bytes("pulsarcentric");
    reveal_strlit("nbits");
    is_ascii_spec_bytes("nbits");
    reveal_strlit("nsamples");
    is_ascii_spec_bytes("nsamples");
    reveal_strlit("nchans");
    is_ascii_spec_bytes("nchans");
    reveal_strlit("nifs");
    is_ascii_spec_bytes("nifs");
}

/// The signatures of the names of string items.
proof fn lemma_str_signatures()
    ensures
        signature("rawdatafile".spec_bytes()) == (11nat, 114u8, 97u8, 97u8),
        SpStrView::of("rawdatafile").wf(),
        signature("source_name".spec_bytes()) == (11nat, 115u8, 111u8, 99u8),
        SpStrView::of("source_name").wf(),
{
    reveal_strlit("rawdatafile");
    is_ascii_spec_bytes("rawdatafile");
    reveal_strlit("source_name");
    is_ascii_spec_bytes("source_name");
}

/// The signatures of the names of 64-bit IEEE-754 items.
proof fn lemma_double_signatures()
    ensures
        signature("az_start".spec_bytes()) == (8nat, 97u8, 122u8, 116u8),
        SpStrView::of("az_start").wf(),
        signature("za_start".spec_bytes()) == (8nat, 122u8, 97u8, 116u8),
        SpStrView::of("za_start").wf(),
        signature("src_raj".spec_bytes()) == (7nat, 115u8, 114u8, 114u8),
        SpStrView::of("src_raj").wf(),
        signature("src_dej".spec_bytes()) == (7nat, 115u8, 114u8, 100u8),
        SpStrView::of("src_dej").wf(),
        signature("tstart".spec_bytes()) == (6nat, 116u8, 115u8, 114u8),
        SpStrView::of("tstart").wf(),
        signature("tsamp".spec_bytes()) == (5nat, 116u8, 115u8, 112u8),
        SpStrView::of("tsamp").wf(),
        signature("fch1".spec_bytes()) == (4nat, 102u8, 99u8, 0u8),
        SpStrView::of("fch1").wf(),
        signature("foff".spec_bytes()) == (4nat, 102u8, 111u8, 0u8),
        SpStrView::of("foff").wf(),
        signature("fchannel".spec_bytes()) == (8nat, 102u8, 99u8, 110u8),
        SpStrView::of("fchannel").wf(),
        signature("refdm".spec_bytes()) == (5nat, 114u8, 101u8, 109u8),
        SpStrView::of("refdm").wf(),
        signature("period".spec_bytes()) == (6nat, 112u8, 101u8, 111u8),
        SpStrView::of("period").wf(),
{
    reveal_strlit("az_start");
    is_ascii_spec_bytes("az_start");
    reveal_strlit("za_start");
    is_ascii_spec_bytes("za_start");
    reveal_strlit("src_raj");
    is_ascii_spec_bytes("src_raj");
    reveal_strlit("src_dej");
    is_ascii_spec_bytes("src_dej");
    reveal_strlit("tstart");
    is_ascii_spec_bytes("tstart");
    reveal_strlit("tsamp");
    is_ascii_spec_bytes("tsamp");
    reveal_strlit("fch1");
    is_ascii_spec_bytes("fch1");
    reveal_strlit("foff");
    is_ascii_spec_bytes("foff");
    reveal_strlit("fchannel");
    is_ascii_spec_bytes("fchannel");
    reveal_strlit("refdm");
    is_ascii_spec_bytes("refdm");
    reveal_strlit("period");
    is_ascii_spec_bytes("period");
}

/// The table gives each name that it holds the kind under which the name is
/// listed, and each such name is short enough for its length prefix.
pub proof fn lemma_table()
    ensures
        kind_of("HEADER_START".spec_bytes()) == Some(Kind::Start),
        SpStrView::of("HEADER_START").wf(),
        kind_of("HEADER_END".spec_bytes()) == Some(Kind::End),
        SpStrView::of("HEADER_END").wf(),
        kind_of("telescope_id".spec_bytes()) == Some(Kind::Int),
        SpStrView::of("telescope_id").wf(),
        kind_of("machine_id".spec_bytes()) == Some(Kind::Int),
        SpStrView::of("machine_id").wf(),
        kind_of("data_type".spec_bytes()) == Some(Kind::Int),
        SpStrView::of("data_type").wf(),
        kind_of("barycentric".spec_bytes()) == Some(Kind::Int),
        SpStrView::of("barycentric").wf(),
        kind_of("pulsarcentric".spec_bytes()) == Some(Kind::Int),
        SpStrView::of("pulsarcentric").wf(),
        kind_of("nbits".spec_bytes()) == Some(Kind::Int),
        SpStrView::of("nbits").wf(),
        kind_of("nsamples".spec_bytes()) == Some(Kind::Int),
        SpStrView::of("nsamples").wf(),
        kind_of("nchans".spec_bytes()) == Some(Kind::Int),
        SpStrView::of("nchans").wf(),
        kind_of("nifs".spec_bytes()) == Some(Kind::Int),
        SpStrView::of("nifs").wf(),
        kind_of("rawdatafile".spec_bytes()) == Some(Kind::Str),
        SpStrView::of("rawdatafile").wf(),
        kind_of("source_name".spec_bytes()) == Some(Kind::Str),
        SpStrView::of("source_name").wf(),
        kind_of("az_start".spec_bytes()) == Some(Kind::Double),
        SpStrView::of("az_start").wf(),
        kind_of("za_start".spec_bytes()) == Some(Kind::Double),
        SpStrView::of("za_start").wf(),
        kind_of("src_raj".spec_bytes()) == Some(Kind::Double),
        SpStrView::of("src_raj").wf(),
        kind_of("src_dej".spec_bytes()) == Some(Kind::Double),
        SpStrView::of("src_dej").wf(),
        kind_of("tstart".spec_bytes()) == Some(Kind::Double),
        SpStrView::of("tstart").wf(),
        kind_of("tsamp".spec_bytes()) == Some(Kind::Double),
        SpStrView::of("tsamp").wf(),
        kind_of("fch1".spec_bytes()) == Some(Kind::Double),
        SpStrView::of("fch1").wf(),
        kind_of("foff".spec_bytes()) == Some(Kind::Double),
        SpStrView::of("foff").wf(),
        kind_of("fchannel".spec_bytes()) == Some(Kind::Double),
        SpStrView::of("fchannel").wf(),
        kind_of("refdm".spec_bytes()) == Some(Kind::Double),
        SpStrView::of("refdm").wf(),
        kind_of("period".spec_bytes()) == Some(Kind::Double),
        SpStrView::of("period").wf(),
{
    reveal(kind_of);
    lemma_sentinel_signatures();
    lemma_int_signatures();
    lemma_str_signatures();
    lemma_double_signatures();
}

/// The value of the canonical header's one string item is short enough for
/// its length prefix.
pub(crate) proof fn lemma_fake()
    ensures
        SpStrView::of("fake").wf(),
{
    reveal_strlit("fake");
    is_ascii_spec_bytes("fake");
}

/// The names that the accessors look for differ from the names that stand
/// before them in the canonical header.
pub(crate) proof fn lemma_names_differ()
    ensures
        "nchans".spec_bytes() != "machine_id".spec_bytes(),
        "nchans".spec_bytes() != "telescope_id".spec_bytes(),
        "nchans".spec_bytes() != "data_type".spec_bytes(),
        "nbits".spec_bytes() != "machine_id".spec_bytes(),
        "nbits".spec_bytes() != "telescope_id".spec_bytes(),
        "nbits".spec_bytes() != "data_type".spec_bytes(),
        "nbits".spec_bytes() != "nchans".spec_bytes(),
        "nbits".spec_bytes() != "barycentric".spec_bytes(),
        "nifs".spec_bytes() != "machine_id".spec_bytes(),
        "nifs".spec_bytes() != "telescope_id".spec_bytes(),
        "nifs".spec_bytes() != "data_type".spec_bytes(),
        "nifs".spec_bytes() != "nchans".spec_bytes(),
        "nifs".spec_bytes() != "barycentric".spec_bytes(),
        "nifs".spec_bytes() != "nbits".spec_bytes(),
        "tsamp".spec_bytes() != "fch1".spec_bytes(),
        "tsamp".spec_bytes() != "foff".spec_bytes(),
        "tsamp".spec_bytes() != "tstart".spec_bytes(),
{
    lemma_int_signatures();
    lemma_double_signatures();
}

} // verus!
