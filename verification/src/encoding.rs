//! Base64 texts and compressed data.

use vstd::prelude::*;
use vstd::utf8::{decode_utf8, valid_utf8};

verus! {

/// The error of base64's `Engine::decode`.
#[verifier::external_type_specification]
#[verifier::external_body]
pub struct ExBase64DecodeError(base64::DecodeError);

/// The bytes that base64's engine `URL_SAFE` decodes a text to; nothing where it refuses the text.
pub uninterp spec fn url_safe_bytes(text: Seq<char>) -> Option<Seq<u8>>;

/// The bytes that base64's engine `URL_SAFE_NO_PAD` decodes a text to; nothing where it refuses the
/// text.
pub uninterp spec fn url_safe_no_pad_bytes(text: Seq<char>) -> Option<Seq<u8>>;

/// The bytes that base64's engine `STANDARD` decodes a text to; nothing where it refuses the text.
pub uninterp spec fn standard_bytes(text: Seq<char>) -> Option<Seq<u8>>;

/// The bytes that base64's engine `STANDARD_NO_PAD` decodes a text to; nothing where it refuses the
/// text.
pub uninterp spec fn standard_no_pad_bytes(text: Seq<char>) -> Option<Seq<u8>>;

/// `base64::Engine::decode` of `general_purpose::URL_SAFE`. The claim: whether a text is accepted,
/// and its bytes, depend on the text alone.
#[verifier::external_body]
pub(crate) fn decode_url_safe(text: &str) -> (r: Result<Vec<u8>, base64::DecodeError>)
    ensures
        match r {
            Ok(bytes) => url_safe_bytes(text@) == Some(bytes@),
            Err(_) => url_safe_bytes(text@) is None,
        },
{
    base64::Engine::decode(&base64::engine::general_purpose::URL_SAFE, text)
}

/// `base64::Engine::decode` of `general_purpose::URL_SAFE_NO_PAD`. The claim: whether a text is
/// accepted, and its bytes, depend on the text alone.
#[verifier::external_body]
pub(crate) fn decode_url_safe_no_pad(text: &str) -> (r: Result<Vec<u8>, base64::DecodeError>)
    ensures
        match r {
            Ok(bytes) => url_safe_no_pad_bytes(text@) == Some(bytes@),
            Err(_) => url_safe_no_pad_bytes(text@) is None,
        },
{
    base64::Engine::decode(&base64::engine::general_purpose::URL_SAFE_NO_PAD, text)
}

/// `base64::Engine::decode` of `general_purpose::STANDARD`. The claim: whether a text is accepted,
/// and its bytes, depend on the text alone.
#[verifier::external_body]
pub(crate) fn decode_standard(text: &str) -> (r: Result<Vec<u8>, base64::DecodeError>)
    ensures
        match r {
            Ok(bytes) => standard_bytes(text@) == Some(bytes@),
            Err(_) => standard_bytes(text@) is None,
        },
{
    base64::Engine::decode(&base64::engine::general_purpose::STANDARD, text)
}

/// `base64::Engine::decode` of `general_purpose::STANDARD_NO_PAD`. The claim: whether a text is
/// accepted, and its bytes, depend on the text alone.
#[verifier::external_body]
pub(crate) fn decode_standard_no_pad(text: &str) -> (r: Result<Vec<u8>, base64::DecodeError>)
    ensures
        match r {
            Ok(bytes) => standard_no_pad_bytes(text@) == Some(bytes@),
            Err(_) => standard_no_pad_bytes(text@) is None,
        },
{
    base64::Engine::decode(&base64::engine::general_purpose::STANDARD_NO_PAD, text)
}

/// The error of reading.
#[verifier::external_type_specification]
#[verifier::external_body]
pub struct ExIoError(std::io::Error);

/// The data that flate2's `ZlibDecoder` gives for compressed bytes when it is read to its end;
/// nothing where it reports an error on the way.
pub uninterp spec fn zlib_data(compressed: Seq<u8>) -> Option<Seq<u8>>;

/// The data that flate2's `DeflateDecoder` gives for compressed bytes when it is read to its end;
/// nothing where it reports an error on the way.
pub uninterp spec fn deflate_data(compressed: Seq<u8>) -> Option<Seq<u8>>;

/// Whether `read` can come from reading at most `limit` bytes of a stream that holds `whole`, or
/// that reports an error somewhere where `whole` is missing: the stream is read to its end or cut
/// off at the limit, and an error that stands behind the limit may go unseen.
pub open spec fn is_bounded_read(
    whole: Option<Seq<u8>>,
    limit: int,
    read: Result<Vec<u8>, std::io::Error>,
) -> bool {
    match whole {
        Some(all) => read matches Ok(data) && data@ == if all.len() <= limit {
            all
        } else {
            all.take(limit)
        },
        None => read matches Ok(data) ==> data@.len() == limit,
    }
}

/// `std::io::Read::read_to_end` on `std::io::Read::take` of a `flate2::read::ZlibDecoder`. The claim:
/// the whole data comes out, or its first `limit` bytes where it is longer; and where the decoder
/// reports an error on the way to the end, `limit` bytes come out before it or the error does.
#[verifier::external_body]
pub(crate) fn read_zlib(compressed: &Vec<u8>, limit: u64) -> (r: Result<Vec<u8>, std::io::Error>)
    ensures
        is_bounded_read(zlib_data(compressed@), limit as int, r),
{
    let decoder = flate2::read::ZlibDecoder::new(compressed.as_slice());
    let mut data = Vec::new();
    std::io::Read::read_to_end(&mut std::io::Read::take(decoder, limit), &mut data)?;
    Ok(data)
}

/// `std::io::Read::read_to_end` on `std::io::Read::take` of a `flate2::read::DeflateDecoder`. The
/// claim is that of [`read_zlib`], over the data of this decoder.
#[verifier::external_body]
pub(crate) fn read_deflate(compressed: &Vec<u8>, limit: u64) -> (r: Result<Vec<u8>, std::io::Error>)
    ensures
        is_bounded_read(deflate_data(compressed@), limit as int, r),
{
    let decoder = flate2::read::DeflateDecoder::new(compressed.as_slice());
    let mut data = Vec::new();
    std::io::Read::read_to_end(&mut std::io::Read::take(decoder, limit), &mut data)?;
    Ok(data)
}

/// The error of `String::from_utf8`.
#[verifier::external_type_specification]
#[verifier::external_body]
pub struct ExFromUtf8Error(std::string::FromUtf8Error);

/// `String::from_utf8` accepts what is UTF-8, and gives the text that it encodes.
pub assume_specification[ String::from_utf8 ](bytes: Vec<u8>) -> (r: Result<
    String,
    std::string::FromUtf8Error,
>)
    ensures
        match r {
            Ok(text) => valid_utf8(bytes@) && text@ == decode_utf8(bytes@),
            Err(_) => !valid_utf8(bytes@),
        },
;

} // verus!
