use blog_backend::content::upload::{
    add_chunk, detect_extension, lower_extension, stored_file_name, upload_answer, upload_extension,
    validate_detection, validate_extension, UploadError, MAX_FILE_SIZE,
};

const PNG: [u8; 12] = [0x89, 0x50, 0x4E, 0x47, 0x0D, 0x0A, 0x1A, 0x0A, 0, 0, 0, 0x0D];
const JPEG: [u8; 4] = [0xFF, 0xD8, 0xFF, 0xAA];
const GIF: &[u8] = b"GIF89a\x01\x00\x01\x00";
const PDF: &[u8] = b"%PDF-1.7\n";

#[test]
fn the_extension_is_read_from_the_name_in_lower_case() {
    assert_eq!(upload_extension("photo.PNG"), "png");
    assert_eq!(upload_extension("archive.tar.GZ"), "gz");
    assert_eq!(upload_extension("dir.d/photo.Jpeg"), "jpeg");
    assert_eq!(upload_extension("unknown"), "");
    assert_eq!(upload_extension(".hidden"), "");
    assert_eq!(upload_extension(""), "");
    assert_eq!(lower_extension(Some("WebP")), "webp");
    assert_eq!(lower_extension(None), "");
}

#[test]
fn only_image_extensions_are_taken() {
    for ext in ["jpg", "jpeg", "png", "gif", "webp"] {
        assert_eq!(validate_extension(ext), Ok(()));
    }
    for ext in ["", "JPG", "svg", "exe", "png ", "jpg.exe"] {
        assert_eq!(validate_extension(ext), Err(UploadError::Extension));
    }
}

#[test]
fn the_content_is_recognised_by_its_first_bytes() {
    assert_eq!(detect_extension(&PNG), Some("png".to_string()));
    assert_eq!(detect_extension(&JPEG), Some("jpg".to_string()));
    assert_eq!(detect_extension(GIF), Some("gif".to_string()));
    assert_eq!(detect_extension(PDF), Some("pdf".to_string()));
    assert_eq!(detect_extension(b"just some text"), None);
    assert_eq!(detect_extension(b""), None);
}

#[test]
fn the_content_has_to_be_what_the_name_says() {
    assert_eq!(validate_detection("png", Some("png")), Ok(()));
    assert_eq!(validate_detection("jpeg", Some("jpg")), Ok(()));
    assert_eq!(validate_detection("jpg", Some("jpeg")), Ok(()));
    assert_eq!(validate_detection("png", Some("jpg")), Err(UploadError::Mismatch));
    assert_eq!(validate_detection("gif", Some("webp")), Err(UploadError::Mismatch));
    assert_eq!(validate_detection("png", None), Err(UploadError::Unrecognized));
    // content of a kind that is no image taken here passes this check
    assert_eq!(validate_detection("png", Some("pdf")), Ok(()));
    assert_eq!(validate_detection("png", detect_extension(&JPEG).as_deref()), Err(UploadError::Mismatch));
    assert_eq!(validate_detection("png", detect_extension(&PNG).as_deref()), Ok(()));
}

#[test]
fn the_size_is_counted_piece_by_piece() {
    assert_eq!(add_chunk(0, 0), Ok(0));
    assert_eq!(add_chunk(10, 5), Ok(15));
    assert_eq!(add_chunk(MAX_FILE_SIZE - 1, 1), Ok(MAX_FILE_SIZE));
    assert_eq!(add_chunk(MAX_FILE_SIZE, 1), Err(UploadError::TooLarge));
    assert_eq!(add_chunk(0, MAX_FILE_SIZE + 1), Err(UploadError::TooLarge));
    assert_eq!(add_chunk(usize::MAX, usize::MAX), Err(UploadError::TooLarge));
    assert_eq!(MAX_FILE_SIZE, 10 * 1024 * 1024);
}

#[test]
fn stored_names_and_addresses() {
    assert_eq!(stored_file_name("abc", "png"), "abc.png");
    assert_eq!(upload_answer("abc.png").url, "/uploads/abc.png");
}

#[test]
fn upload_refusals_have_their_texts() {
    assert_eq!(
        UploadError::Extension.message("exe", ""),
        "Invalid file extension. Allowed: [\"jpg\", \"jpeg\", \"png\", \"gif\", \"webp\"]"
    );
    assert_eq!(UploadError::Empty.message("png", ""), "File is empty");
    assert_eq!(
        UploadError::Mismatch.message("png", "jpg"),
        "File extension mismatch. Expected 'png', but detected 'jpg'"
    );
    assert_eq!(
        UploadError::Unrecognized.message("png", ""),
        "Could not determine file type from magic bytes"
    );
    assert_eq!(UploadError::TooLarge.message("png", ""), "File too large. Max size: 10485760 bytes");
}
