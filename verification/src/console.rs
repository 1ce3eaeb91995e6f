//! The command runner's verified half: decoding captured console output.
//! The target OS's console tools emit localized text in the legacy IBM866
//! code page rather than UTF-8, so captured bytes go through that decoding
//! before any parsing. Spawning the hidden process itself is I/O and stays
//! with the unverified shell, which hands the raw bytes in here.

use vstd::prelude::*;

verus! {

/// The text that decoding a byte sequence as IBM866 console output yields.
pub uninterp spec fn ibm866_of(bytes: Seq<u8>) -> Seq<char>;

/// Relies on encoding_rs's `Encoding::decode` on the IBM866 encoding: it
/// turns the whole buffer into text (with BOM sniffing, malformed sequences
/// replaced), a pure function of the bytes alone, and decodes no bytes to no
/// text. The length bound keeps its internal output-buffer size calculation,
/// which panics on overflow, far from overflowing.
#[verifier::external_body]
pub fn decode_console_bytes(bytes: &[u8]) -> (r: String)
    requires
        bytes@.len() <= usize::MAX / 4,
    ensures
        r@ == ibm866_of(bytes@),
        bytes@.len() == 0 ==> r@.len() == 0,
{
    encoding_rs::IBM866.decode(bytes).0.to_string()
}

} // verus!
