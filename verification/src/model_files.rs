use vstd::prelude::*;
use vstd::slice::{slice_subrange, slice_to_vec};
use vstd::utf8::encode_utf8;

verus! {

#[verifier::external_type_specification]
#[verifier::external_body]
pub struct ExDecodeError(base64::DecodeError);

/// What standard base64 decoding makes of `encoded`: the bytes it encodes, or `None` when it is
/// not valid base64.
pub uninterp spec fn base64_decoding(encoded: Seq<u8>) -> Option<Seq<u8>>;

/// The digit of a 6-bit value in the standard base64 alphabet: 'A'–'Z' for 0–25, 'a'–'z' for
/// 26–51, '0'–'9' for 52–61, '+' for 62 and '/' for 63.
pub open spec fn base64_digit(value: int) -> u8 {
    if value < 26 {
        (65 + value) as u8
    } else if value < 52 {
        (97 + value - 26) as u8
    } else if value < 62 {
        (48 + value - 52) as u8
    } else if value == 62 {
        43u8
    } else {
        47u8
    }
}

/// The standard alphabet gives the 64 values 64 different digits, none of them the padding
/// '=': in particular '+' stands for 62 and '/' for 63, so no digit can be read as another.
pub proof fn lemma_base64_alphabet(v: int, w: int)
    requires
        0 <= v < 64,
        0 <= w < 64,
    ensures
        v != w ==> base64_digit(v) != base64_digit(w),
        base64_digit(v) != 61u8,
        base64_digit(v) == 43u8 <==> v == 62,
        base64_digit(v) == 47u8 <==> v == 63,
{
}

/// Standard base64 encoding with padding (RFC 4648): every three bytes become four digits of
/// six bits each, and a last group of one or two bytes is filled up with '='.
pub open spec fn standard_base64(bytes: Seq<u8>) -> Seq<u8>
    decreases bytes.len(),
{
    if bytes.len() == 0 {
        Seq::empty()
    } else if bytes.len() == 1 {
        seq![base64_digit(bytes[0] as int / 4), base64_digit((bytes[0] as int % 4) * 16), 61u8, 61u8]
    } else if bytes.len() == 2 {
        seq![
            base64_digit(bytes[0] as int / 4),
            base64_digit((bytes[0] as int % 4) * 16 + bytes[1] as int / 16),
            base64_digit((bytes[1] as int % 16) * 4),
            61u8,
        ]
    } else {
        seq![
            base64_digit(bytes[0] as int / 4),
            base64_digit((bytes[0] as int % 4) * 16 + bytes[1] as int / 16),
            base64_digit((bytes[1] as int % 16) * 4 + bytes[2] as int / 64),
            base64_digit(bytes[2] as int % 64),
        ] + standard_base64(bytes.skip(3))
    }
}

/// Decodes standard base64 by calling `base64::decode`. The contract claims that the outcome
/// depends on the input alone (the decoded bytes on success, an error exactly when the input is
/// not valid base64), and that decoding undoes standard encoding with padding: the encoding of
/// any bytes decodes to those bytes, as the crate's documentation and its round-trip tests
/// show. What other inputs (unpadded text, for one) decode to is left to the name
/// `base64_decoding`. `base64::decode` panics when the length of the input plus 7 overflows.
#[verifier::external_body]
fn decode_base64(encoded: &[u8]) -> (decoded: Result<Vec<u8>, base64::DecodeError>)
    requires
        encoded@.len() + 7 <= usize::MAX,
    ensures
        match decoded {
            Ok(bytes) => base64_decoding(encoded@) == Some(bytes@),
            Err(_) => base64_decoding(encoded@) is None,
        },
        match decoded {
            Ok(d) => forall|bytes: Seq<u8>| #[trigger] standard_base64(bytes) == encoded@ ==> d@
                == bytes,
            Err(_) => forall|bytes: Seq<u8>| #[trigger] standard_base64(bytes) != encoded@,
        },
{
    base64::decode(encoded)
}

/// Where a buffer of a model file keeps its bytes.
#[derive(Clone, Debug)]
pub enum BufferSource {
    /// A URI: only base64 data URIs of octet streams are supported.
    Uri(String),
    /// The binary chunk of a binary model file.
    Bin,
}

/// Why a buffer of a model file could not be loaded.
#[derive(PartialEq, Eq, Structural, Clone, Copy, Debug)]
pub enum BufferError {
    /// The URI is not a base64 data URI of an octet stream.
    UnsupportedUri,
    /// The data URI does not hold valid base64.
    InvalidBase64,
    /// The buffer is the binary chunk, but the file has none.
    MissingBlob,
}

/// The bytes "data:application/octet-stream;base64,".
pub open spec fn octet_stream_prefix() -> Seq<u8> {
    seq![
        100u8, 97, 116, 97, 58, 97, 112, 112, 108, 105, 99, 97, 116, 105, 111, 110, 47, 111, 99,
        116, 101, 116, 45, 115, 116, 114, 101, 97, 109, 59, 98, 97, 115, 101, 54, 52, 44,
    ]
}

/// The base64 text of a data URI of an octet stream, given the URI's bytes.
pub open spec fn payload_of(uri: Seq<u8>) -> Option<Seq<u8>> {
    if octet_stream_prefix().is_prefix_of(uri) {
        Some(uri.skip(octet_stream_prefix().len() as int))
    } else {
        None
    }
}

pub open spec fn blob_view(blob: Option<&[u8]>) -> Option<Seq<u8>> {
    match blob {
        Some(b) => Some(b@),
        None => None,
    }
}

/// The bytes of one buffer, given the file's binary chunk if it has one.
pub open spec fn buffer_bytes(source: BufferSource, blob: Option<Seq<u8>>) -> Result<
    Seq<u8>,
    BufferError,
> {
    match source {
        BufferSource::Uri(uri) => match payload_of(encode_utf8(uri@)) {
            Some(payload) => match base64_decoding(payload) {
                Some(bytes) => Ok(bytes),
                None => Err(BufferError::InvalidBase64),
            },
            None => Err(BufferError::UnsupportedUri),
        },
        BufferSource::Bin => match blob {
            Some(bytes) => Ok(bytes),
            None => Err(BufferError::MissingBlob),
        },
    }
}

/// The bytes of all buffers in order, or the error of the first one that cannot be loaded.
pub open spec fn loaded_buffers(sources: Seq<BufferSource>, blob: Option<Seq<u8>>) -> Result<
    Seq<Seq<u8>>,
    BufferError,
>
    decreases sources.len(),
{
    if sources.len() == 0 {
        Ok(Seq::empty())
    } else {
        match loaded_buffers(sources.drop_last(), blob) {
            Err(e) => Err(e),
            Ok(buffers) => match buffer_bytes(sources.last(), blob) {
                Ok(bytes) => Ok(buffers.push(bytes)),
                Err(e) => Err(e),
            },
        }
    }
}

pub open spec fn uris_fit(sources: Seq<BufferSource>) -> bool {
    forall|i: int|
        0 <= i < sources.len() ==> (#[trigger] sources[i] matches BufferSource::Uri(uri)
            ==> encode_utf8(uri@).len() + 7 <= usize::MAX)
}

fn octet_stream_prefix_bytes() -> (prefix: Vec<u8>)
    ensures
        prefix@ == octet_stream_prefix(),
{
    let prefix: Vec<u8> = vec![
        100u8, 97, 116, 97, 58, 97, 112, 112, 108, 105, 99, 97, 116, 105, 111, 110, 47, 111, 99,
        116, 101, 116, 45, 115, 116, 114, 101, 97, 109, 59, 98, 97, 115, 101, 54, 52, 44,
    ];
    assert(prefix@ =~= octet_stream_prefix());
    prefix
}

/// The base64 text of a data URI of an octet stream; `None` for any other URI.
pub fn data_uri_payload(uri: &str) -> (payload: Option<&[u8]>)
    ensures
        match payload {
            Some(p) => payload_of(encode_utf8(uri@)) == Some(p@),
            None => payload_of(encode_utf8(uri@)) is None,
        },
{
    let bytes = uri.as_bytes();
    let prefix = octet_stream_prefix_bytes();
    if bytes.len() < prefix.len() {
        return None;
    }
    let mut i: usize = 0;
    while i < prefix.len()
        invariant
            prefix@ == octet_stream_prefix(),
            bytes@ == encode_utf8(uri@),
            prefix@.len() <= bytes@.len(),
            i <= prefix@.len(),
            forall|j: int| 0 <= j < i ==> prefix@[j] == bytes@[j],
        decreases prefix@.len() - i,
    {
        if bytes[i] != prefix[i] {
            assert(!(octet_stream_prefix() =~= bytes@.subrange(0, prefix@.len() as int)));
            return None;
        }
        i = i + 1;
    }
    assert(octet_stream_prefix() =~= bytes@.subrange(0, prefix@.len() as int));
    let payload = slice_subrange(bytes, prefix.len(), bytes.len());
    assert(payload@ =~= bytes@.skip(prefix@.len() as int));
    Some(payload)
}

/// Loads the bytes of one buffer of a model file.
pub fn load_buffer(source: &BufferSource, blob: Option<&[u8]>) -> (bytes: Result<
    Vec<u8>,
    BufferError,
>)
    requires
        source matches BufferSource::Uri(uri) ==> encode_utf8(uri@).len() + 7 <= usize::MAX,
    ensures
        match bytes {
            Ok(b) => buffer_bytes(*source, blob_view(blob)) == Ok::<Seq<u8>, BufferError>(b@),
            Err(e) => buffer_bytes(*source, blob_view(blob)) == Err::<Seq<u8>, BufferError>(e),
        },
        forall|data: Seq<u8>|
            (source matches BufferSource::Uri(uri) && encode_utf8(uri@) == octet_stream_prefix()
                + #[trigger] standard_base64(data)) ==> (bytes matches Ok(b) && b@ == data),
{
    match source {
        BufferSource::Uri(uri) => {
            proof {
                let text = encode_utf8(uri@);
                assert forall|data: Seq<u8>| text == octet_stream_prefix() + #[trigger] standard_base64(
                    data,
                ) implies payload_of(text) == Some(standard_base64(data)) by {
                    assert(text.subrange(0, octet_stream_prefix().len() as int) =~= octet_stream_prefix());
                    assert(text.skip(octet_stream_prefix().len() as int) =~= standard_base64(data));
                }
            }
            match data_uri_payload(uri.as_str()) {
                Some(payload) => match decode_base64(payload) {
                    Ok(decoded) => Ok(decoded),
                    Err(_) => Err(BufferError::InvalidBase64),
                },
                None => Err(BufferError::UnsupportedUri),
            }
        },
        BufferSource::Bin => match blob {
            Some(b) => Ok(slice_to_vec(b)),
            None => Err(BufferError::MissingBlob),
        },
    }
}

/// Loads the bytes of every buffer of a model file, in order, stopping at the first one that
/// cannot be loaded. `blob` is the file's binary chunk, if it has one.
pub fn load_buffers(sources: &Vec<BufferSource>, blob: Option<&[u8]>) -> (buffers: Result<
    Vec<Vec<u8>>,
    BufferError,
>)
    requires
        uris_fit(sources@),
    ensures
        match buffers {
            Ok(b) => loaded_buffers(sources@, blob_view(blob)) == Ok::<Seq<Seq<u8>>, BufferError>(
                b@.map_values(|v: Vec<u8>| v@),
            ),
            Err(e) => loaded_buffers(sources@, blob_view(blob)) == Err::<Seq<Seq<u8>>, BufferError>(
                e,
            ),
        },
{
    let mut buffers: Vec<Vec<u8>> = Vec::new();
    let mut i: usize = 0;
    assert(sources@.take(0) =~= Seq::<BufferSource>::empty());
    assert(buffers@.map_values(|v: Vec<u8>| v@) =~= Seq::<Seq<u8>>::empty());
    while i < sources.len()
        invariant
            i <= sources@.len(),
            uris_fit(sources@),
            loaded_buffers(sources@.take(i as int), blob_view(blob)) == Ok::<
                Seq<Seq<u8>>,
                BufferError,
            >(buffers@.map_values(|v: Vec<u8>| v@)),
        decreases sources@.len() - i,
    {
        assert(sources@.take(i as int + 1).drop_last() =~= sources@.take(i as int));
        assert(sources@[i as int] matches BufferSource::Uri(uri) ==> encode_utf8(uri@).len() + 7
            <= usize::MAX);
        match load_buffer(&sources[i], blob) {
            Ok(bytes) => {
                let ghost before = buffers@;
                buffers.push(bytes);
                assert(buffers@.map_values(|v: Vec<u8>| v@) =~= before.map_values(
                    |v: Vec<u8>| v@,
                ).push(bytes@));
            },
            Err(e) => {
                proof {
                    lemma_error_persists(sources@, i as int + 1, blob_view(blob));
                }
                return Err(e);
            },
        }
        i = i + 1;
    }
    assert(sources@.take(sources@.len() as int) =~= sources@);
    Ok(buffers)
}

/// Once a buffer fails to load, loading all buffers fails with the same error.
proof fn lemma_error_persists(sources: Seq<BufferSource>, n: int, blob: Option<Seq<u8>>)
    requires
        0 < n <= sources.len(),
        loaded_buffers(sources.take(n), blob) is Err,
    ensures
        loaded_buffers(sources, blob) == loaded_buffers(sources.take(n), blob),
    decreases sources.len() - n,
{
    if n < sources.len() {
        assert(sources.take(n + 1).drop_last() =~= sources.take(n));
        lemma_error_persists(sources, n + 1, blob);
    } else {
        assert(sources.take(n) =~= sources);
    }
}

} // verus!
