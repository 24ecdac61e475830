use crate::text::{chars_eq_str, chars_of, ends_with, has_suffix};
use vstd::prelude::*;

verus! {

/// Why an uploaded part is refused.
#[derive(PartialEq, Eq, Structural, Clone, Copy, Debug)]
pub enum UploadRejection {
    /// The part has a content type other than `text/plain`.
    InvalidFileType,
    /// The part has no content type.
    UndeterminedFileType,
}

/// The file ending an upload of this content type is stored with: plain
/// text only.
pub fn upload_ending(content_type: Option<&str>) -> (ending: Result<&'static str, UploadRejection>)
    ensures
        match content_type {
            Some(t) => if t@ == "text/plain"@ {
                ending matches Ok(e) && e@ == "txt"@
            } else {
                ending == Err::<&'static str, UploadRejection>(UploadRejection::InvalidFileType)
            },
            None => ending == Err::<&'static str, UploadRejection>(
                UploadRejection::UndeterminedFileType,
            ),
        },
{
    match content_type {
        Some(t) => {
            let tc = chars_of(t);
            if chars_eq_str(tc.as_slice(), "text/plain") {
                Ok("txt")
            } else {
                Err(UploadRejection::InvalidFileType)
            }
        },
        None => Err(UploadRejection::UndeterminedFileType),
    }
}

/// Where an upload named `name` is stored: in the files folder, with `.txt`
/// added unless the name already ends in `txt`.
pub open spec fn upload_path_spec(files_dir: Seq<char>, name: Seq<char>) -> Seq<char> {
    if has_suffix(name, "txt"@) {
        files_dir + name
    } else {
        files_dir + name + "."@ + "txt"@
    }
}

/// Where an upload is stored, and under which name: the file name it came
/// with, or a fresh random identifier when that is empty.
pub fn upload_file_name(files_dir: &str, filename: &str) -> (r: (String, String))
    ensures
        filename@.len() > 0 ==> r.0@ == filename@,
        filename@.len() == 0 ==> crate::outside::is_hyphenated_id(r.0@),
        r.1@ == upload_path_spec(files_dir@, r.0@),
{
    let d = if filename.is_empty() {
        crate::outside::new_upload_id()
    } else {
        String::from_str(filename)
    };
    let dc = chars_of(d.as_str());
    let ending = chars_of("txt");
    let mut path = String::from_str(files_dir);
    path.append(d.as_str());
    if !ends_with(dc.as_slice(), ending.as_slice()) {
        path.append(".");
        path.append("txt");
    }
    (d, path)
}

/// The status code and message the file server answers a refused request
/// with: not found, payload too large, or an internal error for anything
/// else.
pub fn rejection_reply(not_found: bool, payload_too_large: bool) -> (reply: (u16, &'static str))
    ensures
        not_found ==> reply.0 == 404 && reply.1@ == "Not Found"@,
        !not_found && payload_too_large ==> reply.0 == 400 && reply.1@ == "Payload too large"@,
        !not_found && !payload_too_large ==> reply.0 == 500 && reply.1@ == "Internal Server Error"@,
{
    if not_found {
        (404, "Not Found")
    } else if payload_too_large {
        (400, "Payload too large")
    } else {
        (500, "Internal Server Error")
    }
}

} // verus!
