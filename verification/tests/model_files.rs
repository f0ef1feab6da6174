use cheese::model_files::{data_uri_payload, load_buffer, load_buffers, BufferError, BufferSource};

fn uri(text: &str) -> BufferSource {
    BufferSource::Uri(text.to_string())
}

#[test]
fn data_uri_payload_is_the_text_after_the_prefix() {
    assert_eq!(
        data_uri_payload("data:application/octet-stream;base64,aGVsbG8="),
        Some(&b"aGVsbG8="[..])
    );
    assert_eq!(data_uri_payload("data:application/octet-stream;base64,"), Some(&b""[..]));
    assert_eq!(data_uri_payload("data:text/plain;base64,aGVsbG8="), None);
    assert_eq!(data_uri_payload("model.bin"), None);
    assert_eq!(data_uri_payload("data:application/octet-stream"), None);
}

#[test]
fn base64_data_uris_are_decoded() {
    assert_eq!(
        load_buffer(&uri("data:application/octet-stream;base64,aGVsbG8="), None),
        Ok(b"hello".to_vec())
    );
    assert_eq!(
        load_buffer(&uri("data:application/octet-stream;base64,AAEC/w=="), None),
        Ok(vec![0u8, 1, 2, 255])
    );
}

#[test]
fn other_uris_are_refused() {
    assert_eq!(load_buffer(&uri("model.bin"), None), Err(BufferError::UnsupportedUri));
    assert_eq!(
        load_buffer(&uri("data:text/plain;base64,aGVsbG8="), None),
        Err(BufferError::UnsupportedUri)
    );
}

#[test]
fn invalid_base64_is_refused() {
    assert_eq!(
        load_buffer(&uri("data:application/octet-stream;base64,a"), None),
        Err(BufferError::InvalidBase64)
    );
    assert_eq!(
        load_buffer(&uri("data:application/octet-stream;base64,a!b="), None),
        Err(BufferError::InvalidBase64)
    );
}

#[test]
fn the_binary_chunk_is_used_when_there_is_one() {
    let blob = [7u8, 8, 9];
    assert_eq!(load_buffer(&BufferSource::Bin, Some(&blob[..])), Ok(vec![7u8, 8, 9]));
    assert_eq!(load_buffer(&BufferSource::Bin, None), Err(BufferError::MissingBlob));
}

#[test]
fn all_buffers_load_in_order_or_the_first_error_is_returned() {
    let blob = [1u8, 2];
    let sources = vec![
        uri("data:application/octet-stream;base64,aGk="),
        BufferSource::Bin,
        uri("data:application/octet-stream;base64,"),
    ];
    assert_eq!(
        load_buffers(&sources, Some(&blob[..])),
        Ok(vec![b"hi".to_vec(), vec![1u8, 2], Vec::new()])
    );

    let failing = vec![
        uri("data:application/octet-stream;base64,aGk="),
        BufferSource::Bin,
        uri("model.bin"),
    ];
    assert_eq!(load_buffers(&failing, None), Err(BufferError::MissingBlob));
    assert_eq!(load_buffers(&failing, Some(&blob[..])), Err(BufferError::UnsupportedUri));
    assert_eq!(load_buffers(&Vec::new(), None), Ok(Vec::new()));
}
