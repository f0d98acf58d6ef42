//! Inline `data:` payloads, decoded by the `data-url` crate.

use vstd::prelude::*;

verus! {

/// Whether `data_url::DataUrl::process` and the body decode succeed on
/// this URL text.
pub uninterp spec fn data_url_ok(s: Seq<u8>) -> bool;

/// The MIME type `data_url::DataUrl::mime_type` reports for this URL text.
pub uninterp spec fn data_url_mime_of(s: Seq<u8>) -> Seq<u8>;

/// The body bytes `data_url::DataUrl::decode_to_vec` yields for this URL
/// text.
pub uninterp spec fn data_url_body_of(s: Seq<u8>) -> Seq<u8>;

/// Relies on `data_url::DataUrl::process`, `mime_type` and
/// `decode_to_vec`: parsing and decoding depend on the URL text alone.
#[verifier::external_body]
pub fn parse_data_url(text: &Vec<u8>) -> (r: Option<(Vec<u8>, Vec<u8>)>)
    ensures
        (r is Some) == data_url_ok(text@),
        r matches Some(p) ==> p.0@ == data_url_mime_of(text@) && p.1@ == data_url_body_of(text@),
{
    let s = core::str::from_utf8(text.as_slice()).ok()?;
    let du = data_url::DataUrl::process(s).ok()?;
    let mime = du.mime_type().to_string();
    let (body, _) = du.decode_to_vec().ok()?;
    Some((mime.into_bytes(), body))
}

} // verus!
