use vstd::prelude::*;
use vstd::utf8::{decode_utf8, valid_utf8};

verus! {

/// Turns the raw bytes of an entry name into text.
///
/// Archive formats do not say how their member names are encoded, so the
/// caller picks the decoder. `decoded` says what `decode` returns: the
/// decoded text, or `None` where the bytes cannot be decoded.
pub trait NameDecoder: Copy {
    spec fn decoded(&self, raw: Seq<u8>) -> Option<Seq<char>>;

    fn decode(&self, raw: &[u8]) -> (r: Option<String>)
        ensures
            r is Some <==> self.decoded(raw@) is Some,
            r is Some ==> r->0@ == self.decoded(raw@)->0,
    ;
}

/// The default decoder: names are UTF-8, and any other bytes fail.
#[derive(Clone, Copy, Debug)]
pub struct Utf8Names;

impl NameDecoder for Utf8Names {
    open spec fn decoded(&self, raw: Seq<u8>) -> Option<Seq<char>> {
        if valid_utf8(raw) {
            Some(decode_utf8(raw))
        } else {
            None
        }
    }

    fn decode(&self, raw: &[u8]) -> (r: Option<String>) {
        utf8_text(raw)
    }
}

/// Relies on std::str::from_utf8: it succeeds exactly on valid UTF-8, and the
/// text then holds the characters that the bytes encode.
#[verifier::external_body]
fn utf8_text(raw: &[u8]) -> (r: Option<String>)
    ensures
        r is Some <==> valid_utf8(raw@),
        r is Some ==> r->0@ == decode_utf8(raw@),
{
    match std::str::from_utf8(raw) {
        Ok(s) => Some(s.to_string()),
        Err(_) => None,
    }
}

} // verus!
