//! The full concrete scenario: one study of two files, uploaded as a
//! two-part bundle; two parameter sets, one returning a single result file
//! and the other no output; the worker still reaches its terminal
//! Downloaded event.  Also the fanout's paths and endpoints.

use dicom_core::DataElement;
use dicom_core::PrimitiveValue;
use dicom_core::Tag;
use dicom_core::VR;
use dicom_object::FileMetaTableBuilder;
use dicom_object::InMemDicomObject;

use milvue_rs::fanout::output_path;
use milvue_rs::fanout::plan_writes;
use milvue_rs::inventory::ScannedFile;
use milvue_rs::inventory::inventory_from_scans;
use milvue_rs::multipart::Part;
use milvue_rs::multipart::decode_response;
use milvue_rs::multipart::encode;
use milvue_rs::multipart::upload_parts;
use milvue_rs::request::status_url;
use milvue_rs::request::studies_url;
use milvue_rs::request::study_url;
use milvue_rs::structs::MilvueError;
use milvue_rs::worker::EventKind;
use milvue_rs::worker::WorkerEvent;
use milvue_rs::worker::WorkerState;
use milvue_rs::worker::run_worker;

/// A minimal in-memory DICOM file, preamble included, as the service sends
/// its results.
fn dicom_bytes(study_uid: &str, sop_uid: &str) -> Vec<u8> {
    let mut obj = InMemDicomObject::new_empty();
    obj.put(DataElement::new(
        Tag(0x0008, 0x0016),
        VR::UI,
        PrimitiveValue::from("1.2.840.10008.5.1.4.1.1.7"),
    ));
    obj.put(DataElement::new(Tag(0x0008, 0x0018), VR::UI, PrimitiveValue::from(sop_uid)));
    obj.put(DataElement::new(Tag(0x0020, 0x000D), VR::UI, PrimitiveValue::from(study_uid)));
    let file_obj = obj
        .with_meta(FileMetaTableBuilder::new().transfer_syntax("1.2.840.10008.1.2.1"))
        .unwrap();
    let mut buf = Vec::new();
    file_obj.write_all(&mut buf).unwrap();
    buf
}

#[test]
fn two_files_one_study_two_named_parts() {
    let files = vec![
        ScannedFile {
            path: String::from("one.dcm"),
            study_key: Some(String::from("1.2.3")),
            instance_key: Some(String::from("a")),
        },
        ScannedFile {
            path: String::from("two.dcm"),
            study_key: Some(String::from("1.2.3")),
            instance_key: Some(String::from("b")),
        },
    ];
    let inv = inventory_from_scans(&files).unwrap();
    assert_eq!(inv.len(), 1);
    let study = &inv[0];
    assert_eq!(study.study_key, "1.2.3");
    assert_eq!(study.entries.len(), 2);
    assert_eq!(study.entries[0].instance_key, "a");
    assert_eq!(study.entries[1].instance_key, "b");

    let instance_keys: Vec<String> =
        study.entries.iter().map(|e| e.instance_key.clone()).collect();
    let contents = vec![b"first file bytes".to_vec(), b"second file bytes".to_vec()];
    let parts = upload_parts(&instance_keys, &contents);
    assert_eq!(parts.len(), 2);
    assert_eq!(parts[0].name, b"a.dcm".to_vec());
    assert_eq!(parts[1].name, b"b.dcm".to_vec());

    let boundary = b"upload-boundary".to_vec();
    let body = encode(&boundary, &parts);
    assert!(body.starts_with(b"--upload-boundary\r\n"));
}

#[test]
fn one_result_one_empty_download_and_downloaded_still_fires() {
    // First parameter set: the service answers with one result file.
    let result = dicom_bytes("1.2.3", "1.2.826.0.1.3680043.10.457.7");
    let boundary = b"resp".to_vec();
    let bundle = encode(&boundary, &vec![Part {
        name: b"r.dcm".to_vec(),
        content: result.clone(),
    }]);
    let with_output = decode_response(&b"multipart/related; boundary=resp".to_vec(), &bundle)
        .unwrap()
        .unwrap();
    assert_eq!(with_output.len(), 1);
    let writes = plan_writes("out", "1.2.3", &with_output).unwrap();
    assert_eq!(writes.len(), 1);
    assert_eq!(writes[0].path, "out/1.2.3/1.2.826.0.1.3680043.10.457.7.dcm");
    assert_eq!(writes[0].content, result);

    // Second parameter set: no boundary declared, so no output and no error.
    let no_output = decode_response(&b"application/json".to_vec(), &b"".to_vec()).unwrap();
    assert!(no_output.is_none());

    // Both download tasks finished, so the study's Downloaded event fires.
    let evs = vec![
        WorkerEvent::UploadOk,
        WorkerEvent::PollDone,
        WorkerEvent::DownloadTaskFinished,
        WorkerEvent::DownloadTaskFinished,
    ];
    let (state, events) = run_worker(&evs, 2);
    assert!(matches!(state, WorkerState::Done));
    assert!(matches!(events[2], EventKind::Downloaded));
}

#[test]
fn unparsable_result_part_is_a_hard_error() {
    let parts = vec![Part { name: b"r.dcm".to_vec(), content: b"not a dicom file".to_vec() }];
    let r = plan_writes("out", "1.2.3", &parts);
    assert!(matches!(r, Err(MilvueError::DicomParseError)));
}

#[test]
fn output_path_shape() {
    assert_eq!(output_path("out", "1.2.3", "a"), "out/1.2.3/a.dcm");
}

#[test]
fn endpoint_urls() {
    assert_eq!(studies_url("https://example.test"), "https://example.test/v3/studies");
    assert_eq!(study_url("https://example.test", "1.2.3"), "https://example.test/v3/studies/1.2.3");
    assert_eq!(
        status_url("https://example.test", "1.2.3"),
        "https://example.test/v3/studies/1.2.3/status"
    );
}
