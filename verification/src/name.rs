//! The shape of a result link's file name.

use vstd::prelude::*;
use vstd::utf8::{is_leading_byte_width_1, partial_valid_utf8, partial_valid_utf8_extend_ascii_block, valid_utf8};

verus! {

/// The bytes of `result` in ASCII, the name a build tool gives its output link.
pub open spec fn stem() -> Seq<u8> {
    seq![114u8, 101u8, 115u8, 117u8, 108u8, 116u8]
}

/// The byte that separates the stem from a suffix: `-` in ASCII.
pub open spec fn dash() -> u8 {
    45u8
}

/// A name has the shape of a result link when it is the stem itself, or the
/// stem followed by a dash and any suffix.
pub open spec fn is_result_name(name: Seq<u8>) -> bool {
    name == stem() || stem().push(dash()).is_prefix_of(name)
}

/// Every byte is an ASCII character.
pub open spec fn is_ascii_text(bytes: Seq<u8>) -> bool {
    forall|i: int| 0 <= i < bytes.len() ==> #[trigger] bytes[i] <= 0x7f
}

/// Bytes that are all ASCII are well-formed UTF-8: a name written in ASCII
/// is text.
pub proof fn law_ascii_is_text(bytes: Seq<u8>)
    requires
        is_ascii_text(bytes),
    ensures
        valid_utf8(bytes),
{
    assert(bytes.subrange(0, 0) =~= Seq::<u8>::empty());
    assert(partial_valid_utf8(bytes, 0));
    assert forall|i: int| 0 <= i < bytes.len() implies #[trigger] is_leading_byte_width_1(
        bytes[i],
    ) by {
        assert(bytes[i] <= 0x7f);
    }
    partial_valid_utf8_extend_ascii_block(bytes, 0, bytes.len() as int);
    assert(bytes.subrange(0, bytes.len() as int) =~= bytes);
}

/// The name `result` is text of the shape of a result link, and so is the
/// stem followed by a dash and any ASCII suffix.
pub proof fn law_ascii_result_names(suffix: Seq<u8>)
    requires
        is_ascii_text(suffix),
    ensures
        valid_utf8(stem()) && is_result_name(stem()),
        valid_utf8(stem().push(dash()) + suffix) && is_result_name(stem().push(dash()) + suffix),
{
    let dashed = stem().push(dash()) + suffix;
    assert(is_ascii_text(stem()));
    assert forall|i: int| 0 <= i < dashed.len() implies #[trigger] dashed[i] <= 0x7f by {
        if i >= 7 {
            assert(dashed[i] == suffix[i - 7]);
        }
    }
    law_ascii_is_text(stem());
    law_ascii_is_text(dashed);
    assert(dashed.subrange(0, 7) =~= stem().push(dash()));
}

/// Whether `data` begins with `prefix`, byte for byte.
pub fn starts_with(data: &[u8], prefix: &[u8]) -> (r: bool)
    ensures
        r == prefix@.is_prefix_of(data@),
{
    if prefix.len() > data.len() {
        return false;
    }
    let mut i: usize = 0;
    while i < prefix.len()
        invariant
            i <= prefix.len() <= data.len(),
            prefix@.take(i as int) == data@.take(i as int),
        decreases prefix.len() - i,
    {
        if prefix[i] != data[i] {
            assert(prefix@[i as int] != data@.subrange(0, prefix@.len() as int)[i as int]);
            return false;
        }
        assert(prefix@.take(i + 1) == prefix@.take(i as int).push(prefix@[i as int]));
        assert(data@.take(i + 1) == data@.take(i as int).push(data@[i as int]));
        i += 1;
    }
    assert(prefix@.take(i as int) == prefix@);
    assert(data@.take(i as int) == data@.subrange(0, prefix@.len() as int));
    true
}

/// Decides the name shape of a file name given as text bytes.
pub fn name_matches(name: &[u8]) -> (r: bool)
    ensures
        r == is_result_name(name@),
{
    let bare: [u8; 6] = [114, 101, 115, 117, 108, 116];
    let dashed: [u8; 7] = [114, 101, 115, 117, 108, 116, 45];
    assert(bare@ =~= stem());
    assert(dashed@ =~= stem().push(dash()));
    if starts_with(name, dashed.as_slice()) {
        return true;
    }
    let exact = name.len() == 6 && starts_with(name, bare.as_slice());
    assert(exact == (name@ == stem())) by {
        if exact {
            assert(name@ =~= name@.subrange(0, 6));
        }
    }
    exact
}

} // verus!
