use base64::Engine;
use vstd::prelude::*;

verus! {

/// What base64's standard engine returns for the UTF-8 bytes of
/// `content`: a function of the content alone, the same in every process.
pub uninterp spec fn base64_std_of(content: Seq<char>) -> Seq<char>;

/// Relies on base64's `Engine::encode` with the `STANDARD` engine: the
/// standard alphabet with padding, applied to the UTF-8 bytes of the
/// input; an empty input encodes to the empty text. The length bound
/// keeps the output size that the engine computes within `usize`, below
/// which the engine does not panic.
#[verifier::external_body]
pub(crate) fn base64_encode(content: &str) -> (r: String)
    requires
        vstd::utf8::encode_utf8(content@).len() / 3 * 4 + 4 <= usize::MAX as int,
    ensures
        r@ == base64_std_of(content@),
        content@.len() == 0 ==> r@.len() == 0,
{
    base64::engine::general_purpose::STANDARD.encode(content.as_bytes())
}

} // verus!
