//! Images as base64 data URLs.

use vstd::prelude::*;
use crate::error::{Error, ErrorView};
use crate::text::{chars_of, find_char, index_of, string_of};

verus! {

/// Whether a text is the standard, padded base64 encoding of some bytes.
pub uninterp spec fn is_base64(text: Seq<char>) -> bool;

/// The standard, padded base64 encoding of bytes.
pub uninterp spec fn base64_text(bytes: Seq<u8>) -> Seq<char>;

/// Validates a base64 text: `Engine::decode` of the `base64` crate, on its
/// `STANDARD` engine, accepts it.
#[verifier::external_body]
pub fn validate_base64(base64_url: &str) -> (r: bool)
    ensures
        r == is_base64(base64_url@),
{
    base64::Engine::decode(&base64::engine::general_purpose::STANDARD, base64_url).is_ok()
}

/// `Engine::encode` of the `base64` crate, on its `STANDARD` engine.
#[verifier::external_body]
fn encode_base64(bytes: &[u8]) -> (r: String)
    requires
        bytes@.len() <= usize::MAX / 2,
    ensures
        r@ == base64_text(bytes@),
{
    base64::Engine::encode(&base64::engine::general_purpose::STANDARD, bytes)
}

/// What follows the first comma of a data URL; `None` where it has no comma.
pub open spec fn data_part(url: Seq<char>) -> Option<Seq<char>> {
    let comma = index_of(url, ',');
    if comma < url.len() {
        Some(url.skip(comma + 1))
    } else {
        None
    }
}

/// A data URL whose part after the first comma is base64.
pub open spec fn is_data_url(url: Seq<char>) -> bool {
    match data_part(url) {
        Some(data) => is_base64(data),
        None => false,
    }
}

/// Checks an image data URL (such as `data:image/png;base64,iVBORw0KGgoA...`)
/// and hands it back.
pub fn base64(base64_url: &str) -> (r: Result<String, Error>)
    ensures
        match r {
            Ok(url) => is_data_url(base64_url@) && url@ == base64_url@,
            Err(error) => !is_data_url(base64_url@) && error@ == ErrorView::InvalidBase64Url,
        },
{
    let chars = chars_of(base64_url);
    let len = chars.len();
    assert(chars@.subrange(0, len as int) =~= chars@);
    let comma = find_char(chars.as_slice(), 0, len, ',');
    if comma >= len {
        return Err(Error::InvalidBase64Url);
    }
    let data = string_of(chars.as_slice(), comma + 1, len);
    if validate_base64(data.as_str()) {
        Ok(String::from_str(base64_url))
    } else {
        Err(Error::InvalidBase64Url)
    }
}

/// The media type that goes with the extension of a file name.
pub open spec fn media_type(extension: Option<Seq<char>>) -> Seq<char> {
    match extension {
        Some(e) => if e == "png"@ {
            "image/png"@
        } else if e == "jpg"@ || e == "jpeg"@ {
            "image/jpeg"@
        } else if e == "gif"@ {
            "image/gif"@
        } else {
            "application/octet-stream"@
        },
        None => "application/octet-stream"@,
    }
}

/// Returns the media type that goes with the extension of a file name.
pub fn mime_type(extension: Option<&str>) -> (r: &'static str)
    ensures
        r@ == media_type(
            match extension {
                Some(e) => Some(e@),
                None => None,
            },
        ),
{
    match extension {
        Some(e) => {
            if e.eq("png") {
                "image/png"
            } else if e.eq("jpg") || e.eq("jpeg") {
                "image/jpeg"
            } else if e.eq("gif") {
                "image/gif"
            } else {
                "application/octet-stream"
            }
        },
        None => "application/octet-stream",
    }
}

/// Makes the data URL of a file's content.
pub fn data_url(extension: Option<&str>, content: &[u8]) -> (r: String)
    requires
        content@.len() <= usize::MAX / 2,
    ensures
        r@ == "data:"@ + media_type(
            match extension {
                Some(e) => Some(e@),
                None => None,
            },
        ) + ";base64,"@ + base64_text(content@),
{
    let encoded = encode_base64(content);
    String::from_str("data:").concat(mime_type(extension)).concat(";base64,").concat(
        encoded.as_str(),
    )
}

} // verus!
