use vstd::prelude::*;
use vstd::utf8::encode_utf8;

verus! {

/// Room, in bytes, for the name of a time zone.
pub const TZ_NAME_CAPACITY: usize = 32;

#[verifier::external_type_specification]
#[verifier::external_body]
pub struct ExHeaplessString<const N: usize>(heapless::String<N>);

/// The characters that a time-zone name buffer holds.
pub uninterp spec fn tz_name_chars(name: heapless::String<32>) -> Seq<char>;

/// `heapless::String::<32>::new`: an empty buffer.
#[verifier::external_body]
pub(crate) fn tz_name_new() -> (name: heapless::String<32>)
    ensures
        tz_name_chars(name) == Seq::<char>::empty(),
{
    heapless::String::new()
}

/// `heapless::String::<32>::push_str`: appends the whole of `s` when its UTF-8
/// bytes fit in the room left, and otherwise changes nothing and fails.
#[verifier::external_body]
pub(crate) fn tz_name_push_str(name: &mut heapless::String<32>, s: &str) -> (r: Result<(), ()>)
    ensures
        encode_utf8(tz_name_chars(*old(name))).len() + encode_utf8(s@).len() <= 32 ==> {
            &&& r is Ok
            &&& tz_name_chars(*final(name)) == tz_name_chars(*old(name)) + s@
        },
        encode_utf8(tz_name_chars(*old(name))).len() + encode_utf8(s@).len() > 32 ==> {
            &&& r is Err
            &&& tz_name_chars(*final(name)) == tz_name_chars(*old(name))
        },
{
    name.push_str(s)
}

/// `heapless::String::<32>::as_str`: the text held, at most 32 UTF-8 bytes.
#[verifier::external_body]
pub(crate) fn tz_name_as_str(name: &heapless::String<32>) -> (s: &str)
    ensures
        s@ == tz_name_chars(*name),
        encode_utf8(s@).len() <= 32,
{
    name.as_str()
}

/// `Clone::clone` for `heapless::String<32>`: a buffer holding the same text.
#[verifier::external_body]
pub(crate) fn tz_name_clone(name: &heapless::String<32>) -> (c: heapless::String<32>)
    ensures
        tz_name_chars(c) == tz_name_chars(*name),
{
    name.clone()
}

/// `PartialEq::eq` for `heapless::String<32>`: whether the texts are equal.
#[verifier::external_body]
pub(crate) fn tz_name_eq(a: &heapless::String<32>, b: &heapless::String<32>) -> (r: bool)
    ensures
        r == (tz_name_chars(*a) == tz_name_chars(*b)),
{
    a == b
}

} // verus!
