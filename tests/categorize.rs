use file_organizer::categorize_file;
use file_organizer::category::Category;
use file_organizer::category_for;

#[test]
fn test_categorize_image_files() {
    let mime_png = Some("image/png".to_string());
    let mime_jpeg = Some("image/jpeg".to_string());
    let mime_gif = Some("image/gif".to_string());

    assert_eq!(categorize_file(&mime_png), "Multimedia");
    assert_eq!(categorize_file(&mime_jpeg), "Multimedia");
    assert_eq!(categorize_file(&mime_gif), "Multimedia");
}

#[test]
fn test_categorize_video_files() {
    let mime_mp4 = Some("video/mp4".to_string());
    let mime_webm = Some("video/webm".to_string());

    assert_eq!(categorize_file(&mime_mp4), "Multimedia");
    assert_eq!(categorize_file(&mime_webm), "Multimedia");
}

#[test]
fn test_categorize_archive_files() {
    let mime_zip = Some("application/zip".to_string());
    let mime_7z = Some("application/x-7z-compressed".to_string());
    let mime_tar = Some("application/x-tar".to_string());

    assert_eq!(categorize_file(&mime_zip), "Compressed");
    assert_eq!(categorize_file(&mime_7z), "Compressed");
    assert_eq!(categorize_file(&mime_tar), "Compressed");
}

#[test]
fn test_categorize_document_files() {
    let mime_pdf = Some("application/pdf".to_string());
    let mime_docx = Some(
        "application/vnd.openxmlformats-officedocument.wordprocessingml.document".to_string(),
    );

    assert_eq!(categorize_file(&mime_pdf), "Docs");
    assert_eq!(categorize_file(&mime_docx), "Docs");
}

#[test]
fn test_categorize_code_files() {
    let mime_js = Some("text/javascript".to_string());
    let mime_json = Some("application/json".to_string());
    let mime_python = Some("text/x-python".to_string());

    assert_eq!(categorize_file(&mime_js), "Misc");
    assert_eq!(categorize_file(&mime_json), "Misc");
    assert_eq!(categorize_file(&mime_python), "Misc");
}

#[test]
fn test_categorize_unknown_files() {
    let mime_unknown = Some("application/x-unknown".to_string());
    let no_mime = None;

    assert_eq!(categorize_file(&mime_unknown), "Misc");
    assert_eq!(categorize_file(&no_mime), "Misc");
}

#[test]
fn classification_is_case_sensitive_and_exact() {
    assert_eq!(category_for(&Some("IMAGE/PNG".to_string())), Category::Misc);
    assert_eq!(category_for(&Some("image/png; charset=x".to_string())), Category::Misc);
    assert_eq!(category_for(&Some("image/".to_string())), Category::Misc);
    assert_eq!(category_for(&Some(String::new())), Category::Misc);
}

#[test]
fn classification_covers_every_group() {
    assert_eq!(category_for(&Some("text/plain".to_string())), Category::Docs);
    assert_eq!(category_for(&Some("text/csv".to_string())), Category::Docs);
    assert_eq!(category_for(&Some("audio/mpeg".to_string())), Category::Multimedia);
    assert_eq!(category_for(&Some("audio/ogg".to_string())), Category::Multimedia);
    assert_eq!(category_for(&Some("text/xml".to_string())), Category::Docs);
    assert_eq!(category_for(&Some("application/x-tar".to_string())), Category::Compressed);
}

#[test]
fn category_names_and_positions() {
    assert_eq!(Category::Multimedia.name(), "Multimedia");
    assert_eq!(Category::Docs.index(), 1);
    assert_eq!(Category::at(2), Some(Category::Compressed));
    assert_eq!(Category::at(4), None);
    assert_eq!(Category::from_name("Misc"), Some(Category::Misc));
    assert_eq!(Category::from_name("misc"), None);
}

#[test]
fn types_outside_the_table_are_misc() {
    for t in ["image/webp", "image/bmp", "audio/wav", "video/quicktime", "application/msword",
              "text/markdown", "application/gzip", "application/vnd.rar"] {
        assert_eq!(category_for(&Some(t.to_string())), Category::Misc);
    }
}
