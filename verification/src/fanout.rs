//! The result fanout: turning one decoded download into the files to write.
//!
//! Each decoded part of a result bundle must itself parse as a DICOM file;
//! the instance key read from it names the output file, which is written
//! under the study's own output directory.  The parse is the file-format
//! reader's affair; everything around it is verified against the name given
//! to its result.

use vstd::prelude::*;

use crate::multipart::Part;
use crate::structs::MilvueError;

verus! {

/// What the file-format reader yields for an in-memory DICOM file: its
/// instance key, or nothing when the bytes do not parse or lack the key.
/// The outcome depends on the bytes alone.
pub uninterp spec fn dicom_instance_key(bytes: Seq<u8>) -> Option<Seq<char>>;

/// Relies on dicom_object's OpenFileOptions::from_reader (reading the
/// 128-byte preamble the service sends) and element_by_name for
/// "SOPInstanceUID": parses an in-memory DICOM file and reads its instance
/// key, a pure function of the bytes.
#[verifier::external_body]
fn parse_instance_key(bytes: &Vec<u8>) -> (r: Option<String>)
    ensures
        match r {
            Some(s) => dicom_instance_key(bytes@) == Option::Some(s@),
            None => dicom_instance_key(bytes@) is None,
        },
{
    let opts = dicom_object::OpenFileOptions::new().read_preamble(
        dicom_object::file::ReadPreamble::Always,
    );
    let obj = match opts.from_reader(std::io::Cursor::new(bytes.as_slice())) {
        Ok(o) => o,
        Err(_) => return None,
    };
    match obj.element_by_name("SOPInstanceUID") {
        Ok(e) => match e.to_str() {
            Ok(s) => Some(s.into_owned()),
            Err(_) => None,
        },
        Err(_) => None,
    }
}

/// The output path of one result file:
/// `<outputDir>/<studyKey>/<instanceKey>.dcm`.
pub open spec fn spec_output_path(
    output_dir: Seq<char>,
    study_key: Seq<char>,
    instance_key: Seq<char>,
) -> Seq<char> {
    output_dir + "/"@ + study_key + "/"@ + instance_key + ".dcm"@
}

/// Builds the output path of one result file.
pub fn output_path(output_dir: &str, study_key: &str, instance_key: &str) -> (r: String)
    ensures
        r@ == spec_output_path(output_dir@, study_key@, instance_key@),
{
    let r = String::from_str(output_dir).concat("/");
    let r = r.concat(study_key);
    let r = r.concat("/");
    let r = r.concat(instance_key);
    r.concat(".dcm")
}

/// One file to be written for a study: its full output path and its bytes.
#[derive(Clone, Debug)]
pub struct PlannedWrite {
    pub path: String,
    pub content: Vec<u8>,
}

/// Turns the decoded parts of one download into the files to write under
/// `<outputDir>/<studyKey>/`.  Every part's payload must parse as a DICOM
/// file, and the instance key read from it names the output file; one part
/// that does not parse is a hard error for this whole download, so that no
/// partial study is written.
pub fn plan_writes(output_dir: &str, study_key: &str, parts: &Vec<Part>) -> (r: Result<
    Vec<PlannedWrite>,
    MilvueError,
>)
    ensures
        match r {
            Ok(ws) => {
                &&& ws@.len() == parts@.len()
                &&& forall|i: int|
                    0 <= i < ws@.len() ==> (dicom_instance_key(#[trigger] parts@[i]@.content)
                        matches Option::Some(k) && ws@[i].path@ == spec_output_path(
                        output_dir@,
                        study_key@,
                        k,
                    ) && ws@[i].content@ == parts@[i]@.content)
            },
            Err(e) => e is DicomParseError && exists|i: int|
                0 <= i < parts@.len() && dicom_instance_key(#[trigger] parts@[i]@.content)
                    is None,
        },
{
    let n = parts.len();
    let mut ws: Vec<PlannedWrite> = Vec::new();
    let mut i: usize = 0;
    while i < n
        invariant
            n == parts@.len(),
            0 <= i <= n,
            ws@.len() == i,
            forall|j: int|
                0 <= j < i ==> (dicom_instance_key(#[trigger] parts@[j]@.content)
                    matches Option::Some(k) && ws@[j].path@ == spec_output_path(
                    output_dir@,
                    study_key@,
                    k,
                ) && ws@[j].content@ == parts@[j]@.content),
        decreases n - i,
    {
        match parse_instance_key(&parts[i].content) {
            Some(instance_key) => {
                let path = output_path(output_dir, study_key, instance_key.as_str());
                let content = parts[i].content.clone();
                assert(content@ == parts@[i as int]@.content);
                ws.push(PlannedWrite { path, content });
            },
            None => {
                proof {
                    assert(dicom_instance_key(parts@[i as int]@.content) is None);
                    assert(exists|j: int|
                        0 <= j < parts@.len() && dicom_instance_key(
                            #[trigger] parts@[j]@.content,
                        ) is None) by {
                        assert(0 <= i < parts@.len() && dicom_instance_key(
                            parts@[i as int]@.content,
                        ) is None);
                    }
                }
                return Err(MilvueError::DicomParseError);
            },
        }
        i += 1;
    }
    Ok(ws)
}

} // verus!
