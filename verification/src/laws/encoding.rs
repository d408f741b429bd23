//! Base64.

use vstd::prelude::*;

use crate::encoding::{base64_text, base64_to_bytes, lemma_base64_decodes};
use crate::outside::base64_error;

verus! {

/// Bytes are decoded from exactly their own base64 form.
pub proof fn law_bytes_come_from_their_base64_form(
    text: &str,
    bytes: Seq<u8>,
    decoded: Result<Vec<u8>, String>,
)
    requires
        call_ensures(base64_to_bytes, (text,), decoded),
    ensures
        text@ == base64_text(bytes) <==> decoded is Ok && decoded->Ok_0@ == bytes,
        decoded matches Err(reason) ==> reason@ == base64_error(text@),
{
    lemma_base64_decodes(bytes);
    if decoded is Ok && decoded->Ok_0@ == bytes {
        let found = choose|found: Seq<u8>| #[trigger] base64_text(found) == text@;
        assert(base64_text(found) == text@);
    }
}

} // verus!
