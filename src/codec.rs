use vstd::prelude::*;
use std::io::{Read, Write};
use crate::archive::ArchiveError;

verus! {

/// The gzip stream that flate2 produces for `data` at the default level.
pub uninterp spec fn gzip_of(data: Seq<u8>) -> Seq<u8>;

/// What flate2 decodes from the gzip stream `data`: `None` where it is not one.
pub uninterp spec fn gunzip_of(data: Seq<u8>) -> Option<Seq<u8>>;

/// Relies on flate2::write::GzEncoder (default level, writing into a `Vec`):
/// its output is the gzip stream of the bytes written to it, which
/// flate2::read::GzDecoder decodes back to those bytes. The header it writes
/// carries no time stamp and a fixed system byte, so the stream is a function
/// of the input alone. Writing into a `Vec` cannot fail, and deflate fails
/// only on a bad parameter, so the encoder always succeeds here.
#[verifier::external_body]
fn gzip(data: &[u8]) -> (r: Option<Vec<u8>>)
    ensures
        r is Some,
        r matches Some(b) ==> b@ == gzip_of(data@),
        r matches Some(b) ==> gunzip_of(b@) == Some(data@),
{
    let mut enc = flate2::write::GzEncoder::new(Vec::new(), flate2::Compression::default());
    match enc.write_all(data) {
        Ok(()) => enc.finish().ok(),
        Err(_) => None,
    }
}

/// Relies on flate2::read::GzDecoder with `read_to_end`: the bytes it hands
/// out are what it decodes from `data`; it fails on bytes it cannot decode.
#[verifier::external_body]
fn gunzip(data: &[u8]) -> (r: Option<Vec<u8>>)
    ensures
        r matches Some(b) ==> gunzip_of(data@) == Some(b@),
        r is None ==> gunzip_of(data@) is None,
{
    let mut out: Vec<u8> = Vec::new();
    match flate2::read::GzDecoder::new(data).read_to_end(&mut out) {
        Ok(_) => Some(out),
        Err(_) => None,
    }
}

/// Compresses the encoded store document into archive bytes, which
/// `unpack_archive` turns back into the document.
pub fn pack_archive(document: &[u8]) -> (r: Vec<u8>)
    ensures
        r@ == gzip_of(document@),
        gunzip_of(r@) == Some(document@),
{
    match gzip(document) {
        Some(b) => b,
        None => Vec::new(),  // never taken: `gzip` always succeeds
    }
}

/// Recovers the encoded store document from archive bytes; bytes that
/// flate2 cannot decode are refused as corrupt.
pub fn unpack_archive(bytes: &[u8]) -> (r: Result<Vec<u8>, ArchiveError>)
    ensures
        r is Ok <==> gunzip_of(bytes@) is Some,
        match r {
            Ok(b) => gunzip_of(bytes@) == Some(b@),
            Err(e) => e == ArchiveError::Corrupt,
        },
{
    match gunzip(bytes) {
        Some(b) => Ok(b),
        None => Err(ArchiveError::Corrupt),
    }
}

} // verus!
