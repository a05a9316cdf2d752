use vstd::prelude::*;
use vstd::string::StringSliceAdditionalSpecFns;

verus! {

/// Relies on `String::push`: appends one character at the end.
#[verifier::external_body]
pub(crate) fn push_char(s: &mut String, c: char)
    ensures
        final(s)@ == old(s)@.push(c),
{
    s.push(c)
}

/// Length of the fixed-width name field.
pub const NAME_LEN: usize = 15;

/// The name field that `array_from_str` makes of `bytes`: byte by byte, one
/// character each, padded with spaces and cut at `NAME_LEN`.
pub open spec fn name_field(bytes: Seq<u8>) -> Seq<char> {
    Seq::new(NAME_LEN as nat, |i: int| if i < bytes.len() { bytes[i] as char } else { ' ' })
}

/// The fixed-width name field of a text: each byte becomes one character,
/// the rest is padded with spaces.
pub fn array_from_str(string: &str) -> (r: [char; 15])
    ensures
        r@ == name_field(string.spec_bytes()),
{
    let mut ret: [char; 15] = [' ';15];
    let bytes = string.as_bytes();
    let mut i: usize = 0;
    while i < NAME_LEN
        invariant
            i <= NAME_LEN,
            bytes@ == string.spec_bytes(),
            forall|j: int| 0 <= j < i ==> ret@[j] == name_field(bytes@)[j],
            forall|j: int| i <= j < NAME_LEN ==> ret@[j] == ' ',
        decreases NAME_LEN - i,
    {
        if i < bytes.len() {
            ret[i] = bytes[i] as char;
        }
        i = i + 1;
    }
    assert(ret@ =~= name_field(bytes@));
    ret
}

/// The text of a fixed-width name field, padding included.
pub fn string_from_array(string: [char; 15]) -> (r: String)
    ensures
        r@ == string@,
{
    let mut ret = String::new();
    let mut i: usize = 0;
    while i < NAME_LEN
        invariant
            i <= NAME_LEN,
            ret@ == string@.take(i as int),
        decreases NAME_LEN - i,
    {
        push_char(&mut ret, string[i]);
        assert(string@.take(i + 1) =~= string@.take(i as int).push(string@[i as int]));
        i = i + 1;
    }
    assert(string@.take(NAME_LEN as int) =~= string@);
    ret
}

} // verus!
