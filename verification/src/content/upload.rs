//! Uploaded images: which files are taken, and under which name they are kept.

use vstd::prelude::*;
use vstd::string::StringExecFns;

use crate::content::common::opt_text;
use crate::models::UploadResponse;
use crate::text::{str_eq, str_to_lowercase, text_of, unicode_lower};

verus! {

/// Most bytes of an uploaded file.
pub const MAX_FILE_SIZE: usize = 10485760;

/// Why an upload is refused.
#[derive(Clone, Copy, Debug, PartialEq, Eq, Structural)]
pub enum UploadError {
    /// The file name does not end in one of the extensions taken.
    Extension,
    /// The file has no content.
    Empty,
    /// The content is that of an image of another kind than the name says.
    Mismatch,
    /// The content is of no kind that is known.
    Unrecognized,
    /// The file is larger than the limit.
    TooLarge,
}

/// Trusted: `Path::extension` of the standard library, on a path written as text. How a
/// path falls into components differs between systems, so nothing is promised of the
/// result.
#[verifier::external_body]
pub(crate) fn file_extension(name: &str) -> (r: Option<String>) {
    std::path::Path::new(name).extension().and_then(|ext| ext.to_str()).map(|ext| ext.to_owned())
}

/// The extension that the first bytes of a file point to, by their magic numbers, if
/// they point to a kind of file that is known.
pub uninterp spec fn sniffed_extension(bytes: Seq<u8>) -> Option<Seq<char>>;

/// Trusted: `infer::get` on the bytes, and `Type::extension` of the kind it finds. The
/// result depends on the bytes alone.
#[verifier::external_body]
pub(crate) fn sniff_extension(bytes: &[u8]) -> (r: Option<String>)
    ensures
        opt_text(r) == sniffed_extension(bytes@),
{
    infer::get(bytes).map(|kind| kind.extension().to_owned())
}

/// The extension under which an uploaded file is judged and kept, given the one read
/// from its name: that one in lower case, and empty where the name has none.
pub open spec fn lowered_extension(raw: Option<Seq<char>>) -> Seq<char> {
    match raw {
        Some(ext) => unicode_lower(ext),
        None => unicode_lower(Seq::empty()),
    }
}

/// Brings the extension read from a file's name into the form in which it is judged.
pub fn lower_extension(raw: Option<&str>) -> (ext: String)
    ensures
        ext@ == lowered_extension(text_of(raw)),
{
    match raw {
        Some(ext) => str_to_lowercase(ext),
        None => {
            proof {
                reveal_strlit("");
                assert(""@ =~= Seq::<char>::empty());
            }
            str_to_lowercase("")
        },
    }
}

/// Reads the extension of an uploaded file from its name, as the system takes paths
/// apart, and brings it into the form in which it is judged.
pub fn upload_extension(file_name: &str) -> (ext: String)
    ensures
        exists|raw: Option<Seq<char>>| ext@ == #[trigger] lowered_extension(raw),
{
    let raw = file_extension(file_name);
    let ext = match &raw {
        Some(text) => lower_extension(Some(text.as_str())),
        None => lower_extension(None),
    };
    assert(ext@ == lowered_extension(opt_text(raw)));
    ext
}

/// The extensions of the images that are taken.
pub open spec fn is_allowed_extension(ext: Seq<char>) -> bool {
    ext == "jpg"@ || ext == "jpeg"@ || ext == "png"@ || ext == "gif"@ || ext == "webp"@
}

/// Checks the extension of an uploaded file.
pub fn validate_extension(ext: &str) -> (r: Result<(), UploadError>)
    ensures
        r == (if is_allowed_extension(ext@) {
            Ok::<(), UploadError>(())
        } else {
            Err::<(), UploadError>(UploadError::Extension)
        }),
{
    if str_eq(ext, "jpg") || str_eq(ext, "jpeg") || str_eq(ext, "png") || str_eq(ext, "gif") || str_eq(
        ext,
        "webp",
    ) {
        Ok(())
    } else {
        Err(UploadError::Extension)
    }
}

/// Finds the extension that the first bytes of a file point to.
pub fn detect_extension(first_bytes: &[u8]) -> (detected: Option<String>)
    ensures
        opt_text(detected) == sniffed_extension(first_bytes@),
{
    sniff_extension(first_bytes)
}

/// An extension with its two spellings for JPEG made one.
pub open spec fn same_kind(ext: Seq<char>) -> Seq<char> {
    if ext == "jpeg"@ {
        "jpg"@
    } else {
        ext
    }
}

/// What is asked of the content of an uploaded file, given the extension of its name
/// and the one its first bytes point to: the bytes have to point to some known kind,
/// and where that is a kind of image that is taken, it has to be the kind the name says.
pub open spec fn detection_verdict(ext: Seq<char>, detected: Option<Seq<char>>) -> Result<(), UploadError> {
    match detected {
        None => Err(UploadError::Unrecognized),
        Some(found) => if is_allowed_extension(same_kind(found)) && same_kind(found) != same_kind(ext) {
            Err(UploadError::Mismatch)
        } else {
            Ok(())
        },
    }
}

/// Checks the content of an uploaded file against the extension of its name.
pub fn validate_detection(ext: &str, detected: Option<&str>) -> (r: Result<(), UploadError>)
    ensures
        r == detection_verdict(ext@, text_of(detected)),
{
    match detected {
        None => Err(UploadError::Unrecognized),
        Some(found) => {
            proof {
                reveal_strlit("jpg");
                reveal_strlit("jpeg");
                reveal_strlit("png");
                reveal_strlit("gif");
                reveal_strlit("webp");
            }
            let found_kind = if str_eq(found, "jpeg") {
                "jpg"
            } else {
                found
            };
            let named_kind = if str_eq(ext, "jpeg") {
                "jpg"
            } else {
                ext
            };
            if validate_extension(found_kind).is_ok() && !str_eq(found_kind, named_kind) {
                Err(UploadError::Mismatch)
            } else {
                Ok(())
            }
        },
    }
}

/// Counts a further piece of an uploaded file: the new size, unless that is over the
/// limit.
pub fn add_chunk(size_so_far: usize, chunk_len: usize) -> (r: Result<usize, UploadError>)
    ensures
        r == (if size_so_far + chunk_len > MAX_FILE_SIZE {
            Err::<usize, UploadError>(UploadError::TooLarge)
        } else {
            Ok::<usize, UploadError>((size_so_far + chunk_len) as usize)
        }),
{
    if size_so_far > MAX_FILE_SIZE || chunk_len > MAX_FILE_SIZE - size_so_far {
        Err(UploadError::TooLarge)
    } else {
        Ok(size_so_far + chunk_len)
    }
}

/// The name under which an uploaded file is kept: its new identifier, a dot, and its
/// extension.
pub fn stored_file_name(id: &str, ext: &str) -> (name: String)
    ensures
        name@ == id@ + "."@ + ext@,
{
    let mut name = String::from_str(id);
    name.append(".");
    name.append(ext);
    name
}

/// The answer to an upload: the address under which the file is served.
pub fn upload_answer(stored_name: &str) -> (r: UploadResponse)
    ensures
        r.url@ == "/uploads/"@ + stored_name@,
{
    let mut url = String::from_str("/uploads/");
    url.append(stored_name);
    UploadResponse { url }
}

/// The text of each refusal, given the extension of the file's name and the one its
/// content points to.
pub open spec fn upload_error_text(e: UploadError, ext: Seq<char>, detected: Seq<char>) -> Seq<char> {
    match e {
        UploadError::Extension => "Invalid file extension. Allowed: [\"jpg\", \"jpeg\", \"png\", \"gif\", \"webp\"]"@,
        UploadError::Empty => "File is empty"@,
        UploadError::Mismatch => "File extension mismatch. Expected '"@ + ext + "', but detected '"@ + detected
            + "'"@,
        UploadError::Unrecognized => "Could not determine file type from magic bytes"@,
        UploadError::TooLarge => "File too large. Max size: 10485760 bytes"@,
    }
}

impl UploadError {
    /// The text sent to the client.
    pub fn message(&self, ext: &str, detected: &str) -> (text: String)
        ensures
            text@ == upload_error_text(*self, ext@, detected@),
    {
        match self {
            UploadError::Extension => String::from_str(
                "Invalid file extension. Allowed: [\"jpg\", \"jpeg\", \"png\", \"gif\", \"webp\"]",
            ),
            UploadError::Empty => String::from_str("File is empty"),
            UploadError::Mismatch => {
                let mut text = String::from_str("File extension mismatch. Expected '");
                text.append(ext);
                text.append("', but detected '");
                text.append(detected);
                text.append("'");
                text
            },
            UploadError::Unrecognized => String::from_str("Could not determine file type from magic bytes"),
            UploadError::TooLarge => String::from_str("File too large. Max size: 10485760 bytes"),
        }
    }
}

} // verus!
