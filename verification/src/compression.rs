//! Content-encoding codecs, their negotiation header, and decompression
//! through the `flate2` and `brotli` crates behind trusted wrappers.

use std::io::Read;
use vstd::prelude::*;
use crate::error::Error;
use crate::text;

verus! {

/// What a gzip stream inflates to, or `None` when it is malformed; a pure
/// function of the bytes.
pub uninterp spec fn gunzip_of(data: Seq<u8>) -> Option<Seq<u8>>;

/// What a raw deflate stream inflates to, or `None` when it is malformed;
/// a pure function of the bytes.
pub uninterp spec fn inflate_of(data: Seq<u8>) -> Option<Seq<u8>>;

/// What a brotli stream decompresses to, or `None` when it is malformed;
/// a pure function of the bytes.
pub uninterp spec fn unbrotli_of(data: Seq<u8>) -> Option<Seq<u8>>;

/// Inflates a gzip stream.
///
/// Relies on `flate2::read::GzDecoder` and `Read::read_to_end`: the
/// outcome depends on the bytes alone.
#[verifier::external_body]
fn gunzip(data: &[u8]) -> (r: Option<Vec<u8>>)
    ensures
        r matches Some(out) ==> gunzip_of(data@) == Some(out@),
        r is None ==> gunzip_of(data@) is None,
{
    let mut decoder = flate2::read::GzDecoder::new(data);
    let mut out = Vec::new();
    match decoder.read_to_end(&mut out) {
        Ok(_) => Some(out),
        Err(_) => None,
    }
}

/// Inflates a raw deflate stream.
///
/// Relies on `flate2::read::DeflateDecoder` and `Read::read_to_end`: the
/// outcome depends on the bytes alone.
#[verifier::external_body]
fn inflate(data: &[u8]) -> (r: Option<Vec<u8>>)
    ensures
        r matches Some(out) ==> inflate_of(data@) == Some(out@),
        r is None ==> inflate_of(data@) is None,
{
    let mut decoder = flate2::read::DeflateDecoder::new(data);
    let mut out = Vec::new();
    match decoder.read_to_end(&mut out) {
        Ok(_) => Some(out),
        Err(_) => None,
    }
}

/// Decompresses a brotli stream.
///
/// Relies on `brotli::Decompressor` and `Read::read_to_end`: the outcome
/// depends on the bytes alone.
#[verifier::external_body]
fn unbrotli(data: &[u8]) -> (r: Option<Vec<u8>>)
    ensures
        r matches Some(out) ==> unbrotli_of(data@) == Some(out@),
        r is None ==> unbrotli_of(data@) is None,
{
    let mut decompressor = brotli::Decompressor::new(data, 4096);
    let mut out = Vec::new();
    match decompressor.read_to_end(&mut out) {
        Ok(_) => Some(out),
        Err(_) => None,
    }
}

/// A content-encoding the client can accept.
#[derive(Debug, Clone, Copy, PartialEq, Eq, Structural)]
pub enum CompressionCodec {
    Gzip,
    Deflate,
    Brotli,
}

impl CompressionCodec {
    /// The token this codec uses in an `Accept-Encoding` header.
    pub open spec fn spec_header_value(self) -> Seq<char> {
        match self {
            CompressionCodec::Gzip => "gzip"@,
            CompressionCodec::Deflate => "deflate"@,
            CompressionCodec::Brotli => "br"@,
        }
    }

    /// Renders the codec's header token.
    pub fn as_header_value(&self) -> (r: &'static str)
        ensures
            r@ == self.spec_header_value(),
    {
        match self {
            CompressionCodec::Gzip => "gzip",
            CompressionCodec::Deflate => "deflate",
            CompressionCodec::Brotli => "br",
        }
    }

    /// The codec a header token names, after trimming and lower-casing.
    pub open spec fn spec_from_header(value: Seq<char>) -> Option<CompressionCodec> {
        let t = text::lower_spec(text::trim_spec(value));
        if t == "gzip"@ {
            Some(CompressionCodec::Gzip)
        } else if t == "deflate"@ {
            Some(CompressionCodec::Deflate)
        } else if t == "br"@ {
            Some(CompressionCodec::Brotli)
        } else {
            None
        }
    }

    /// Reads a codec out of a header token, case-insensitively.
    pub fn from_header_value(value: &str) -> (r: Option<CompressionCodec>)
        ensures
            r == Self::spec_from_header(value@),
    {
        let trimmed = text::trim(value);
        let lowered = text::lower_ascii(trimmed.as_str());
        if text::str_eq(lowered.as_str(), "gzip") {
            Some(CompressionCodec::Gzip)
        } else if text::str_eq(lowered.as_str(), "deflate") {
            Some(CompressionCodec::Deflate)
        } else if text::str_eq(lowered.as_str(), "br") {
            Some(CompressionCodec::Brotli)
        } else {
            None
        }
    }
}

/// Whether and how the client advertises compression support.
#[derive(Debug)]
pub struct CompressionConfig {
    pub enabled: bool,
    pub codecs: Vec<CompressionCodec>,
    pub min_size_bytes: usize,
}

/// The comma-joined header tokens of a codec list.
pub open spec fn joined_codecs(codecs: Seq<CompressionCodec>) -> Seq<char>
    decreases codecs.len(),
{
    if codecs.len() == 0 {
        Seq::empty()
    } else if codecs.len() == 1 {
        codecs[0].spec_header_value()
    } else {
        joined_codecs(codecs.drop_last()) + ", "@ + codecs.last().spec_header_value()
    }
}

impl CompressionConfig {
    /// Compression on, gzip only, bodies of a kilobyte or more.
    pub fn new() -> (r: CompressionConfig)
        ensures
            r.enabled,
            r.codecs@ == seq![CompressionCodec::Gzip],
            r.min_size_bytes == 1024,
    {
        let mut codecs = Vec::new();
        codecs.push(CompressionCodec::Gzip);
        let r = CompressionConfig { enabled: true, codecs, min_size_bytes: 1024 };
        proof {
            assert(r.codecs@ =~= seq![CompressionCodec::Gzip]);
        }
        r
    }

    /// This configuration with another codec list.
    pub fn with_codecs(self, codecs: Vec<CompressionCodec>) -> (r: CompressionConfig)
        ensures
            r.codecs@ == codecs@,
            r.enabled == self.enabled,
            r.min_size_bytes == self.min_size_bytes,
    {
        CompressionConfig { codecs, ..self }
    }

    /// This configuration with another size threshold.
    pub fn with_min_size(self, size: usize) -> (r: CompressionConfig)
        ensures
            r.min_size_bytes == size,
            r.enabled == self.enabled,
            r.codecs@ == self.codecs@,
    {
        CompressionConfig { min_size_bytes: size, ..self }
    }

    /// Compression switched off.
    pub fn disabled() -> (r: CompressionConfig)
        ensures
            !r.enabled,
            r.codecs@ == seq![CompressionCodec::Gzip],
            r.min_size_bytes == 1024,
    {
        CompressionConfig { enabled: false, ..Self::new() }
    }

    /// The `Accept-Encoding` value for the configured codecs.
    #[verifier::loop_isolation(false)]
    pub fn accept_encoding_header(&self) -> (r: String)
        ensures
            r@ == joined_codecs(self.codecs@),
    {
        let n = self.codecs.len();
        let mut out = String::new();
        let mut i: usize = 0;
        proof {
            assert(self.codecs@.subrange(0, 0) =~= Seq::<CompressionCodec>::empty());
        }
        while i < n
            invariant
                0 <= i <= n,
                n == self.codecs@.len(),
                out@ == joined_codecs(self.codecs@.subrange(0, i as int)),
            decreases n - i,
        {
            let ghost pref = self.codecs@.subrange(0, i + 1);
            proof {
                assert(pref.drop_last() =~= self.codecs@.subrange(0, i as int));
                assert(pref.last() == self.codecs@[i as int]);
            }
            if i > 0 {
                out.append(", ");
            }
            out.append(self.codecs[i].as_header_value());
            proof {
                assert(out@ =~= joined_codecs(pref));
            }
            i = i + 1;
        }
        proof {
            assert(self.codecs@.subrange(0, n as int) =~= self.codecs@);
        }
        out
    }
}

impl Default for CompressionConfig {
    fn default() -> (r: CompressionConfig)
        ensures
            r.enabled,
            r.codecs@ == seq![CompressionCodec::Gzip],
            r.min_size_bytes == 1024,
    {
        Self::new()
    }
}

/// What one codec decompresses some bytes to.
pub open spec fn decompressed(data: Seq<u8>, codec: CompressionCodec) -> Option<Seq<u8>> {
    match codec {
        CompressionCodec::Gzip => gunzip_of(data),
        CompressionCodec::Deflate => inflate_of(data),
        CompressionCodec::Brotli => unbrotli_of(data),
    }
}

/// Decompresses response bodies.
#[derive(Debug)]
pub struct Decompressor;

impl Decompressor {
    /// Decompresses `data` with the given codec; malformed input is an
    /// HTTP-level error.
    pub fn decompress(data: &[u8], codec: CompressionCodec) -> (r: Result<Vec<u8>, Error>)
        ensures
            match r {
                Ok(out) => decompressed(data@, codec) == Some(out@),
                Err(e) => decompressed(data@, codec) is None && e is Http,
            },
    {
        match codec {
            CompressionCodec::Gzip => match gunzip(data) {
                Some(out) => Ok(out),
                None => Err(Error::Http(String::from_str("gzip decompression failed"))),
            },
            CompressionCodec::Deflate => match inflate(data) {
                Some(out) => Ok(out),
                None => Err(Error::Http(String::from_str("deflate decompression failed"))),
            },
            CompressionCodec::Brotli => match unbrotli(data) {
                Some(out) => Ok(out),
                None => Err(Error::Http(String::from_str("brotli decompression failed"))),
            },
        }
    }

    /// Decompresses according to a `Content-Encoding` header: an unknown
    /// or absent encoding passes the bytes through untouched.
    pub fn auto_decompress(data: &[u8], content_encoding: Option<&str>) -> (r: Result<
        Vec<u8>,
        Error,
    >)
        ensures
            match content_encoding {
                Some(enc) => match CompressionCodec::spec_from_header(enc@) {
                    Some(codec) => match r {
                        Ok(out) => decompressed(data@, codec) == Some(out@),
                        Err(e) => decompressed(data@, codec) is None && e is Http,
                    },
                    None => r matches Ok(out) && out@ == data@,
                },
                None => r matches Ok(out) && out@ == data@,
            },
    {
        match content_encoding {
            Some(encoding) => {
                match CompressionCodec::from_header_value(encoding) {
                    Some(codec) => Self::decompress(data, codec),
                    None => Ok(slice_to_vec(data)),
                }
            },
            None => Ok(slice_to_vec(data)),
        }
    }
}

/// Copies a byte slice into a vector.
#[verifier::loop_isolation(false)]
fn slice_to_vec(data: &[u8]) -> (r: Vec<u8>)
    ensures
        r@ == data@,
{
    let n = data.len();
    let mut out: Vec<u8> = Vec::new();
    let mut i: usize = 0;
    while i < n
        invariant
            0 <= i <= n,
            n == data@.len(),
            out@ =~= data@.subrange(0, i as int),
        decreases n - i,
    {
        out.push(data[i]);
        proof {
            assert(out@ =~= data@.subrange(0, i + 1));
        }
        i = i + 1;
    }
    proof {
        assert(data@.subrange(0, n as int) =~= data@);
    }
    out
}

} // verus!
