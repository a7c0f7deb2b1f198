//! Byte strings that are text by convention only.
use vstd::prelude::*;
use vstd::utf8::decode_utf8;
use vstd::utf8::valid_utf8;

verus! {

/// The error of `bstr`, which says where a byte string stops being UTF-8.
#[verifier::external_type_specification]
#[verifier::external_body]
pub struct ExUtf8Error(bstr::Utf8Error);

/// The text that `bytes` turn into when each malformed part of them is
/// replaced by the replacement character U+FFFD.
pub uninterp spec fn lossy_text(bytes: Seq<u8>) -> Seq<char>;

/// `bstr::ByteSlice::to_str`: the bytes as text, which succeeds exactly if they
/// are valid UTF-8 and then gives the text that these bytes encode.
#[verifier::external_body]
pub(crate) fn to_str(bytes: &[u8]) -> (text: Result<&str, bstr::Utf8Error>)
    ensures
        text is Ok <==> valid_utf8(bytes@),
        text matches Ok(valid) ==> valid@ == decode_utf8(bytes@),
{
    bstr::ByteSlice::to_str(bytes)
}

/// `bstr::ByteSlice::to_str_lossy`: the bytes as text, with the replacement
/// character in place of whatever is not valid UTF-8.
#[verifier::external_body]
pub(crate) fn to_str_lossy(bytes: &[u8]) -> (text: String)
    ensures
        text@ == lossy_text(bytes@),
{
    bstr::ByteSlice::to_str_lossy(bytes).into_owned()
}

/// The byte that separates the parts of a path and of a URL.
pub const SLASH: u8 = 0x2f;

/// Copy `bytes` into a vector of their own.
pub fn to_owned(bytes: &[u8]) -> (copy: Vec<u8>)
    ensures
        copy@ == bytes@,
{
    vstd::slice::slice_to_vec(bytes)
}

/// Whether `left` and `right` hold the same bytes.
pub fn same(left: &[u8], right: &[u8]) -> (equal: bool)
    ensures
        equal == (left@ == right@),
{
    if left.len() != right.len() {
        return false;
    }
    let mut at: usize = 0;
    while at < left.len()
        invariant
            left.len() == right.len(),
            at <= left.len(),
            forall|i: int| 0 <= i < at ==> left@[i] == right@[i],
        decreases left.len() - at,
    {
        if left[at] != right[at] {
            return false;
        }
        at = at + 1;
    }
    assert(left@ =~= right@);
    true
}

/// Append `tail` to `buffer`.
pub fn append(buffer: &mut Vec<u8>, tail: &[u8])
    ensures
        final(buffer)@ == old(buffer)@ + tail@,
{
    let ghost before = buffer@;
    let mut at: usize = 0;
    while at < tail.len()
        invariant
            at <= tail.len(),
            buffer@ == before + tail@.take(at as int),
        decreases tail.len() - at,
    {
        buffer.push(tail[at]);
        assert(tail@.take(at + 1) =~= tail@.take(at as int).push(tail@[at as int]));
        assert(buffer@ =~= before + tail@.take(at + 1));
        at = at + 1;
    }
    assert(tail@.take(tail.len() as int) =~= tail@);
}

} // verus!
