//! The multipart codec: encoding, decoding, the round trip and the
//! no-boundary case.

use milvue_rs::multipart::Part;
use milvue_rs::multipart::decode;
use milvue_rs::multipart::decode_response;
use milvue_rs::multipart::encode;
use milvue_rs::multipart::close_line;
use milvue_rs::multipart::extract_boundary;
use milvue_rs::multipart::part_epilogue;
use milvue_rs::multipart::part_prologue;
use milvue_rs::multipart::part_name;
use milvue_rs::structs::MilvueError;

fn part(name: &[u8], content: &[u8]) -> Part {
    Part { name: name.to_vec(), content: content.to_vec() }
}

#[test]
fn encode_one_part_exact_bytes() {
    let boundary = b"B".to_vec();
    let parts = vec![part(b"n", b"hi")];
    let body = encode(&boundary, &parts);
    let expected: &[u8] = b"--B\r\nContent-Disposition: form-data; name=\"n\"\r\n\
        Content-Type: application/dicom\r\n\r\nhi\r\n--B--\r\n";
    assert_eq!(body, expected.to_vec());
}

#[test]
fn round_trip_two_parts() {
    let boundary = b"x9kq".to_vec();
    let parts = vec![
        part(b"a.dcm", &[0u8, 1, 2, 255, 13, 9, 10, 0]),
        part(b"b.dcm", b"DICM payload bytes"),
    ];
    let body = encode(&boundary, &parts);
    let decoded = decode(&boundary, &body).unwrap();
    assert_eq!(decoded.len(), 2);
    assert_eq!(decoded[0].name, parts[0].name);
    assert_eq!(decoded[0].content, parts[0].content);
    assert_eq!(decoded[1].name, parts[1].name);
    assert_eq!(decoded[1].content, parts[1].content);
}

#[test]
fn round_trip_empty_bundle() {
    let boundary = b"edge".to_vec();
    let parts: Vec<Part> = vec![];
    let body = encode(&boundary, &parts);
    let decoded = decode(&boundary, &body).unwrap();
    assert_eq!(decoded.len(), 0);
}

#[test]
fn round_trip_empty_name_and_content() {
    let boundary = b"bb".to_vec();
    let parts = vec![part(b"", b"")];
    let body = encode(&boundary, &parts);
    let decoded = decode(&boundary, &body).unwrap();
    assert_eq!(decoded.len(), 1);
    assert_eq!(decoded[0].name, b"".to_vec());
    assert_eq!(decoded[0].content, b"".to_vec());
}

#[test]
fn decode_garbage_is_malformed() {
    let boundary = b"B".to_vec();
    let r = decode(&boundary, &b"this is not a bundle".to_vec());
    assert!(matches!(r, Err(MilvueError::MalformedBundle)));
}

#[test]
fn decode_truncated_part_is_an_error() {
    let boundary = b"B".to_vec();
    let parts = vec![part(b"n", b"payload")];
    let mut body = encode(&boundary, &parts);
    body.truncate(body.len() - 9);
    let r = decode(&boundary, &body);
    assert!(matches!(r, Err(MilvueError::TruncatedPart)));
}

#[test]
fn no_boundary_is_empty_not_an_error() {
    let content_type = b"application/json".to_vec();
    let body = b"whatever the body holds".to_vec();
    let r = decode_response(&content_type, &body).unwrap();
    assert!(r.is_none());
}

#[test]
fn two_boundary_tokens_are_a_malformed_declaration() {
    let content_type = b"multipart/related; boundary=a; boundary=b".to_vec();
    let r = extract_boundary(&content_type);
    assert!(matches!(r, Err(MilvueError::MalformedBundle)));
    let parts = vec![part(b"n", b"payload")];
    let body = encode(&b"a".to_vec(), &parts);
    let r = decode_response(&content_type, &body);
    assert!(matches!(r, Err(MilvueError::MalformedBundle)));
}

#[test]
fn decode_response_with_boundary() {
    let boundary = b"frontier".to_vec();
    let parts = vec![part(b"r.dcm", b"result bytes")];
    let body = encode(&boundary, &parts);
    let content_type = b"multipart/related; boundary=frontier".to_vec();
    let r = decode_response(&content_type, &body).unwrap().unwrap();
    assert_eq!(r.len(), 1);
    assert_eq!(r[0].name, b"r.dcm".to_vec());
    assert_eq!(r[0].content, b"result bytes".to_vec());
}

#[test]
fn extract_boundary_takes_the_rest_of_the_value() {
    let content_type = b"multipart/related; boundary=abc123".to_vec();
    assert_eq!(extract_boundary(&content_type).unwrap().unwrap(), b"abc123".to_vec());
    assert!(extract_boundary(&b"application/json".to_vec()).unwrap().is_none());
}

#[test]
fn streamed_framing_equals_the_encoding() {
    let boundary = b"frame".to_vec();
    let parts = vec![part(b"a.dcm", b"first"), part(b"b.dcm", b"second")];
    let mut streamed: Vec<u8> = Vec::new();
    for p in &parts {
        streamed.extend_from_slice(&part_prologue(&boundary, &p.name));
        streamed.extend_from_slice(&p.content);
        streamed.extend_from_slice(&part_epilogue());
    }
    streamed.extend_from_slice(&close_line(&boundary));
    assert_eq!(streamed, encode(&boundary, &parts));
}

#[test]
fn part_name_appends_extension() {
    assert_eq!(part_name("a"), b"a.dcm".to_vec());
    assert_eq!(part_name("1.2.840.99"), b"1.2.840.99.dcm".to_vec());
}
