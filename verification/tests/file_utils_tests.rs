use backlog_mcp::error::ToolErrorCode;
use backlog_mcp::file_utils::{
    DownloadedFile, FileFormat, FilePayload, FormatDetector, SerializableFile,
    SerializableFileContent,
};
use base64::Engine as _;

fn file(name: &str, content_type: &str, bytes: &[u8]) -> DownloadedFile {
    DownloadedFile {
        filename: name.to_string(),
        content_type: content_type.to_string(),
        bytes: bytes.to_vec(),
    }
}

#[test]
fn file_format_names() {
    assert_eq!("image".parse::<FileFormat>().unwrap(), FileFormat::Image);
    assert_eq!("text".parse::<FileFormat>().unwrap(), FileFormat::Text);
    assert_eq!("raw".parse::<FileFormat>().unwrap(), FileFormat::Raw);
    let err = "pdf".parse::<FileFormat>().unwrap_err();
    assert_eq!(err.code, ToolErrorCode::InvalidRequest);
    assert_eq!(err.message, "Invalid format 'pdf'. Valid options: 'image', 'text', 'raw'");
    assert!("Text".parse::<FileFormat>().is_err());
}

#[test]
fn text_content_types() {
    assert!(FormatDetector::is_text_content("text/plain"));
    assert!(FormatDetector::is_text_content("text/html; charset=utf-8"));
    assert!(FormatDetector::is_text_content("application/json"));
    assert!(FormatDetector::is_text_content("application/x-sh"));
    assert!(!FormatDetector::is_text_content("application/json; charset=utf-8"));
    assert!(!FormatDetector::is_text_content("application/octet-stream"));
    assert!(!FormatDetector::is_text_content("image/png"));
}

#[test]
fn likely_text_uses_the_first_512_bytes() {
    assert!(FormatDetector::is_likely_text(&vec![]));
    assert!(FormatDetector::is_likely_text(&b"hello world\n".to_vec()));
    assert!(!FormatDetector::is_likely_text(&vec![0u8; 10]));
    // 17 text bytes out of 20 is exactly 85%: not more than that.
    let mut edge = vec![b'a'; 17];
    edge.extend_from_slice(&[0, 0, 0]);
    assert!(!FormatDetector::is_likely_text(&edge));
    let mut above = vec![b'a'; 18];
    above.extend_from_slice(&[0, 0]);
    assert!(FormatDetector::is_likely_text(&above));
    // Binary bytes after the sample do not count.
    let mut long = vec![b'x'; 512];
    long.extend_from_slice(&[0u8; 4096]);
    assert!(FormatDetector::is_likely_text(&long));
}

#[test]
fn detects_formats() {
    let png = file("a.png", "image/png", &[0x89, 0x50, 0x4e, 0x47]);
    assert_eq!(FormatDetector::detect_format(&png, None).unwrap(), FileFormat::Image);
    let notes = file("a.txt", "application/octet-stream", b"plain words");
    assert_eq!(FormatDetector::detect_format(&notes, None).unwrap(), FileFormat::Text);
    let blob = file("a.bin", "application/octet-stream", &[0, 1, 2, 3, 4, 5]);
    assert_eq!(FormatDetector::detect_format(&blob, None).unwrap(), FileFormat::Raw);
    // An explicit format is kept when the file fits it.
    assert_eq!(
        FormatDetector::detect_format(&blob, Some(FileFormat::Raw)).unwrap(),
        FileFormat::Raw
    );
    let err = FormatDetector::detect_format(&blob, Some(FileFormat::Image)).unwrap_err();
    assert_eq!(err.code, ToolErrorCode::InvalidRequest);
    assert_eq!(
        err.message,
        "File 'a.bin' is not an image. Reported content type: application/octet-stream"
    );
    let bad = file("b.txt", "text/plain", &[0xff, 0xfe]);
    let err = FormatDetector::detect_format(&bad, Some(FileFormat::Text)).unwrap_err();
    assert_eq!(err.message, "File 'b.txt' is not a valid UTF-8 text file.");
}

#[test]
fn serializes_files() {
    let f = SerializableFile::auto(file("n.txt", "text/plain", "héllo".as_bytes())).unwrap();
    assert_eq!(f.filename, "n.txt");
    match &f.content {
        SerializableFileContent::Text(t) => assert_eq!(t, "héllo"),
        other => panic!("unexpected {other:?}"),
    }
    // A textual content type with bytes that are not UTF-8 is refused.
    let err = SerializableFile::auto(file("x.json", "application/json", &[0xc3])).unwrap_err();
    assert_eq!(err.message, "File 'x.json' is not a valid UTF-8 text file.");
    let raw = SerializableFile::raw(file("b.bin", "image/png", &[1, 2, 3]));
    assert!(matches!(raw.content, SerializableFileContent::Raw(ref b) if b == &vec![1, 2, 3]));
    assert!(SerializableFile::image(file("b.bin", "text/plain", b"x")).is_err());
    assert!(SerializableFile::text(file("b.bin", "image/png", b"ok")).is_ok());
    let img = SerializableFile::new(file("p.png", "image/png", &[9, 9]), None).unwrap();
    assert!(matches!(img.content, SerializableFileContent::Image(_)));
}

#[test]
fn payloads_encode_bytes_as_base64() {
    let bytes = [0u8, 1, 2, 250, 251, 252];
    let expected = base64::engine::general_purpose::STANDARD.encode(bytes);
    let img = SerializableFile::image(file("p.png", "image/png", &bytes)).unwrap();
    match img.into_payload() {
        FilePayload::Image { data, mime_type } => {
            assert_eq!(data, expected);
            assert_eq!(mime_type, "image/png");
        }
        other => panic!("unexpected {other:?}"),
    }
    let raw = SerializableFile::raw(file("d.bin", "application/octet-stream", &bytes));
    match raw.into_payload() {
        FilePayload::RawJson { filename, content_type, content } => {
            assert_eq!(filename, "d.bin");
            assert_eq!(content_type, "application/octet-stream");
            assert_eq!(content, "AAEC+vv8");
        }
        other => panic!("unexpected {other:?}"),
    }
    let text = SerializableFile::text(file("t.txt", "text/plain", b"abc")).unwrap();
    assert!(matches!(text.into_payload(), FilePayload::Text(ref s) if s == "abc"));
}
