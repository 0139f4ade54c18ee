//! Deciding how a downloaded file is handed to a tool client: as text, as an
//! image, or as raw bytes.

use base64::Engine as _;
use crate::error::{ToolError, ToolErrorCode};
use vstd::prelude::*;
use vstd::utf8::*;

verus! {

/// How a file's content is presented.
#[derive(Debug, Clone, Copy, PartialEq, Eq)]
pub enum FileFormat {
    Text,
    Image,
    Raw,
}

/// A file as downloaded: its name, the content type the server reported,
/// and its bytes.
#[derive(Debug)]
pub struct DownloadedFile {
    pub filename: String,
    pub content_type: String,
    pub bytes: Vec<u8>,
}

/// Wrapper around `str::starts_with` with a string pattern.
#[verifier::external_body]
pub(crate) fn starts_with(s: &str, prefix: &str) -> (r: bool)
    ensures
        r == (prefix@.len() <= s@.len() && s@.subrange(0, prefix@.len() as int) == prefix@),
{
    s.starts_with(prefix)
}

/// Wrapper around `std::str::from_utf8`, telling only whether it succeeds:
/// exactly when the bytes are UTF-8.
#[verifier::external_body]
fn is_utf8(bytes: &[u8]) -> (r: bool)
    ensures
        r == valid_utf8(bytes@),
{
    std::str::from_utf8(bytes).is_ok()
}

/// Wrapper around `String::from_utf8`: the decoded text when the bytes are
/// UTF-8.
#[verifier::external_body]
fn string_from_utf8(bytes: Vec<u8>) -> (r: Option<String>)
    ensures
        r is Some <==> valid_utf8(bytes@),
        r matches Some(s) ==> s@ == decode_utf8(bytes@),
{
    String::from_utf8(bytes).ok()
}

/// The character standing for a 6-bit value in the standard Base64
/// alphabet: `A`-`Z`, `a`-`z`, `0`-`9`, `+`, `/`.
pub open spec fn base64_digit(v: int) -> char {
    if v < 26 {
        (65 + v) as char
    } else if v < 52 {
        (97 + v - 26) as char
    } else if v < 62 {
        (48 + v - 52) as char
    } else if v == 62 {
        '+'
    } else {
        '/'
    }
}

/// The four characters of a 24-bit group `n`, the last `pad` of them `=`.
pub open spec fn base64_group(n: int, pad: int) -> Seq<char> {
    seq![
        base64_digit(n / 262144),
        base64_digit((n / 4096) % 64),
        if pad >= 2 { '=' } else { base64_digit((n / 64) % 64) },
        if pad >= 1 { '=' } else { base64_digit(n % 64) },
    ]
}

/// The text standard Base64 with padding gives for `bytes`: each group of
/// three bytes, read as a 24-bit number, gives four characters; a final
/// group of one or two bytes is filled with zero bits and padded with `=`.
pub open spec fn base64_standard(bytes: Seq<u8>) -> Seq<char>
    decreases bytes.len(),
{
    if bytes.len() == 0 {
        Seq::empty()
    } else if bytes.len() == 1 {
        base64_group(bytes[0] * 65536, 2)
    } else if bytes.len() == 2 {
        base64_group(bytes[0] * 65536 + bytes[1] * 256, 1)
    } else {
        base64_group(bytes[0] * 65536 + bytes[1] * 256 + bytes[2], 0) + base64_standard(
            bytes.subrange(3, bytes.len() as int),
        )
    }
}

/// Wrapper around `base64::engine::general_purpose::STANDARD.encode`: the
/// standard alphabet with `=` padding, as `base64_standard` spells it.
#[verifier::external_body]
fn encode_base64(bytes: &[u8]) -> (r: String)
    ensures
        r@ == base64_standard(bytes@),
{
    base64::engine::general_purpose::STANDARD.encode(bytes)
}

/// The format a name selects: `"image"`, `"text"` or `"raw"`.
pub open spec fn format_named(s: Seq<char>) -> Option<FileFormat> {
    if s == "image"@ {
        Some(FileFormat::Image)
    } else if s == "text"@ {
        Some(FileFormat::Text)
    } else if s == "raw"@ {
        Some(FileFormat::Raw)
    } else {
        None
    }
}

/// The message for a format name that selects nothing.
pub open spec fn invalid_format_message(s: Seq<char>) -> Seq<char> {
    "Invalid format '"@ + s + "'. Valid options: 'image', 'text', 'raw'"@
}

impl FileFormat {
    /// Reads a format name; any other name is an invalid request.
    pub fn parse(s: &str) -> (r: Result<FileFormat, ToolError>)
        ensures
            match format_named(s@) {
                Some(f) => r == Ok::<FileFormat, ToolError>(f),
                None => r is Err && r->Err_0.code == ToolErrorCode::InvalidRequest
                    && r->Err_0.message@ == invalid_format_message(s@),
            },
    {
        if crate::text::str_equal(s, "image") {
            Ok(FileFormat::Image)
        } else if crate::text::str_equal(s, "text") {
            Ok(FileFormat::Text)
        } else if crate::text::str_equal(s, "raw") {
            Ok(FileFormat::Raw)
        } else {
            let mut message = String::from_str("Invalid format '");
            message.append(s);
            message.append("'. Valid options: 'image', 'text', 'raw'");
            Err(ToolError { code: ToolErrorCode::InvalidRequest, message })
        }
    }
}

impl std::str::FromStr for FileFormat {
    type Err = ToolError;

    /// Reads a format name as `FileFormat::parse` does.
    fn from_str(s: &str) -> (r: Result<Self, Self::Err>)
        ensures
            match format_named(s@) {
                Some(f) => r == Ok::<FileFormat, ToolError>(f),
                None => r is Err && r->Err_0.code == ToolErrorCode::InvalidRequest
                    && r->Err_0.message@ == invalid_format_message(s@),
            },
    {
        FileFormat::parse(s)
    }
}

/// Whether a content type is one of the textual ones: any `text/` type and a
/// few application types that carry text.
pub open spec fn is_text_content_type(ct: Seq<char>) -> bool {
    ||| ("text/"@.len() <= ct.len() && ct.subrange(0, "text/"@.len() as int) == "text/"@)
    ||| ct == "application/json"@
    ||| ct == "application/xml"@
    ||| ct == "application/javascript"@
    ||| ct == "application/x-httpd-php"@
    ||| ct == "application/x-sh"@
}

/// Whether a content type is an image type.
pub open spec fn is_image_content_type(ct: Seq<char>) -> bool {
    "image/"@.len() <= ct.len() && ct.subrange(0, "image/"@.len() as int) == "image/"@
}

/// Whether a byte counts as text: printable ASCII, ASCII whitespace, or a
/// byte above 127 that is UTF-8 on its own.
pub open spec fn is_text_byte(b: u8) -> bool {
    ||| 0x21 <= b <= 0x7e
    ||| b == 0x20 || b == 0x09 || b == 0x0a || b == 0x0c || b == 0x0d
    ||| (b > 127 && valid_utf8(seq![b]))
}

/// How many bytes of `s` count as text.
pub open spec fn text_byte_count(s: Seq<u8>) -> nat
    decreases s.len(),
{
    if s.len() == 0 {
        0
    } else {
        text_byte_count(s.drop_last()) + if is_text_byte(s.last()) { 1nat } else { 0nat }
    }
}

/// The sample a content guess looks at: the first 512 bytes.
pub open spec fn text_sample(bytes: Seq<u8>) -> Seq<u8> {
    if bytes.len() <= 512 {
        bytes
    } else {
        bytes.subrange(0, 512)
    }
}

/// Whether bytes look like text: they are empty, or more than 85% of the
/// sample counts as text.
pub open spec fn looks_like_text(bytes: Seq<u8>) -> bool {
    bytes.len() == 0 || 20 * text_byte_count(text_sample(bytes)) > 17 * text_sample(bytes).len()
}

/// The format chosen when none is asked for: an image type gives an image,
/// a textual type or text-like bytes give text, anything else raw bytes.
pub open spec fn auto_format(content_type: Seq<char>, bytes: Seq<u8>) -> FileFormat {
    if is_image_content_type(content_type) {
        FileFormat::Image
    } else if is_text_content_type(content_type) || looks_like_text(bytes) {
        FileFormat::Text
    } else {
        FileFormat::Raw
    }
}

/// Whether a file can be shown in a format asked for: as an image only with
/// an image type, as text only when it is UTF-8.
pub open spec fn format_fits(file: DownloadedFile, format: FileFormat) -> bool {
    match format {
        FileFormat::Image => is_image_content_type(file.content_type@),
        FileFormat::Text => valid_utf8(file.bytes@),
        FileFormat::Raw => true,
    }
}

/// The message refusing a file as an image.
pub open spec fn not_an_image_message(filename: Seq<char>, content_type: Seq<char>) -> Seq<char> {
    "File '"@ + filename + "' is not an image. Reported content type: "@ + content_type
}

/// The message refusing a file as text.
pub open spec fn not_text_message(filename: Seq<char>) -> Seq<char> {
    "File '"@ + filename + "' is not a valid UTF-8 text file."@
}

/// The message for a file that does not fit a format.
pub open spec fn format_refusal(file: DownloadedFile, format: FileFormat) -> Seq<char> {
    match format {
        FileFormat::Image => not_an_image_message(file.filename@, file.content_type@),
        _ => not_text_message(file.filename@),
    }
}

/// Detects and checks the format of downloaded files.
pub struct FormatDetector;

impl FormatDetector {
    /// The format to present a file in: the one asked for, when the file fits
    /// it, or else the one its content type and bytes suggest.
    pub fn detect_format(downloaded_file: &DownloadedFile, explicit_format: Option<FileFormat>) -> (r:
        Result<FileFormat, ToolError>)
        ensures
            match explicit_format {
                Some(f) => if format_fits(*downloaded_file, f) {
                    r == Ok::<FileFormat, ToolError>(f)
                } else {
                    r is Err && r->Err_0.code == ToolErrorCode::InvalidRequest
                        && r->Err_0.message@ == format_refusal(*downloaded_file, f)
                },
                None => r == Ok::<FileFormat, ToolError>(
                    auto_format(downloaded_file.content_type@, downloaded_file.bytes@),
                ),
            },
    {
        if let Some(format) = explicit_format {
            Self::validate_format(downloaded_file, &format)?;
            return Ok(format);
        }
        if starts_with(downloaded_file.content_type.as_str(), "image/") {
            Ok(FileFormat::Image)
        } else if Self::is_text_content(downloaded_file.content_type.as_str())
            || Self::is_likely_text(&downloaded_file.bytes) {
            Ok(FileFormat::Text)
        } else {
            Ok(FileFormat::Raw)
        }
    }

    /// Checks that a file fits the format asked for.
    pub fn validate_format(downloaded_file: &DownloadedFile, format: &FileFormat) -> (r: Result<(), ToolError>)
        ensures
            format_fits(*downloaded_file, *format) ==> r is Ok,
            !format_fits(*downloaded_file, *format) ==> r is Err && r->Err_0.code
                == ToolErrorCode::InvalidRequest && r->Err_0.message@ == format_refusal(
                *downloaded_file,
                *format,
            ),
    {
        match format {
            FileFormat::Image => Self::ensure_image_type(
                downloaded_file.content_type.as_str(),
                downloaded_file.filename.as_str(),
            ),
            FileFormat::Text => match Self::ensure_text_type(downloaded_file) {
                Ok(_) => Ok(()),
                Err(e) => Err(e),
            },
            FileFormat::Raw => Ok(()),
        }
    }

    /// Whether a content type is textual.
    pub fn is_text_content(content_type: &str) -> (r: bool)
        ensures
            r == is_text_content_type(content_type@),
    {
        starts_with(content_type, "text/")
            || crate::text::str_equal(content_type, "application/json")
            || crate::text::str_equal(content_type, "application/xml")
            || crate::text::str_equal(content_type, "application/javascript")
            || crate::text::str_equal(content_type, "application/x-httpd-php")
            || crate::text::str_equal(content_type, "application/x-sh")
    }

    /// Whether a byte counts as text.
    fn is_text_byte_exec(byte: u8) -> (r: bool)
        ensures
            r == is_text_byte(byte),
    {
        let single = [byte];
        assert(single@ == seq![byte]);
        (0x21 <= byte && byte <= 0x7e) || byte == 0x20 || byte == 0x09 || byte == 0x0a || byte
            == 0x0c || byte == 0x0d || (byte > 127 && is_utf8(&single))
    }

    /// Whether bytes look like text.
    pub fn is_likely_text(bytes: &Vec<u8>) -> (r: bool)
        ensures
            r == looks_like_text(bytes@),
    {
        if bytes.len() == 0 {
            return true;
        }
        let sample_size: usize = if bytes.len() < 512 { bytes.len() } else { 512 };
        let ghost sample = text_sample(bytes@);
        let mut text_chars: u64 = 0;
        let mut total_chars: u64 = 0;
        let mut i: usize = 0;
        while i < sample_size
            invariant
                sample_size <= 512,
                sample_size <= bytes.len(),
                sample == bytes@.subrange(0, sample_size as int),
                i <= sample_size,
                total_chars == i,
                text_chars == text_byte_count(bytes@.subrange(0, i as int)),
                text_chars <= i,
            decreases sample_size - i,
        {
            assert(bytes@.subrange(0, i + 1).drop_last() =~= bytes@.subrange(0, i as int));
            total_chars += 1;
            if Self::is_text_byte_exec(bytes[i]) {
                text_chars += 1;
            }
            i += 1;
        }
        if total_chars == 0 {
            return true;
        }
        20 * text_chars > 17 * total_chars
    }

    /// Checks that a content type is an image type.
    pub fn ensure_image_type(content_type: &str, filename_for_error_message: &str) -> (r: Result<(), ToolError>)
        ensures
            is_image_content_type(content_type@) ==> r is Ok,
            !is_image_content_type(content_type@) ==> r is Err && r->Err_0.code
                == ToolErrorCode::InvalidRequest && r->Err_0.message@ == not_an_image_message(
                filename_for_error_message@,
                content_type@,
            ),
    {
        if !starts_with(content_type, "image/") {
            let mut message = String::from_str("File '");
            message.append(filename_for_error_message);
            message.append("' is not an image. Reported content type: ");
            message.append(content_type);
            return Err(ToolError { code: ToolErrorCode::InvalidRequest, message });
        }
        Ok(())
    }

    /// The text of a file that is UTF-8.
    pub fn ensure_text_type(downloaded_file: &DownloadedFile) -> (r: Result<String, ToolError>)
        ensures
            valid_utf8(downloaded_file.bytes@) ==> r is Ok && r->Ok_0@ == decode_utf8(
                downloaded_file.bytes@,
            ),
            !valid_utf8(downloaded_file.bytes@) ==> r is Err && r->Err_0.code
                == ToolErrorCode::InvalidRequest && r->Err_0.message@ == not_text_message(
                downloaded_file.filename@,
            ),
    {
        match string_from_utf8(downloaded_file.bytes.clone()) {
            Some(text_content) => Ok(text_content),
            None => {
                let mut message = String::from_str("File '");
                message.append(downloaded_file.filename.as_str());
                message.append("' is not a valid UTF-8 text file.");
                Err(ToolError { code: ToolErrorCode::InvalidRequest, message })
            },
        }
    }
}


/// The content of a file ready to hand out.
#[derive(Debug)]
pub enum SerializableFileContent {
    Image(Vec<u8>),
    Text(String),
    Raw(Vec<u8>),
}

/// A downloaded file with its content in the format it is presented in.
#[derive(Debug)]
pub struct SerializableFile {
    pub filename: String,
    pub content_type: String,
    pub content: SerializableFileContent,
}

/// The format a file is presented in, asked for or detected, when it fits.
pub open spec fn presented_format(file: DownloadedFile, explicit_format: Option<FileFormat>) -> Option<FileFormat> {
    match explicit_format {
        Some(f) => if format_fits(file, f) { Some(f) } else { None },
        None => Some(auto_format(file.content_type@, file.bytes@)),
    }
}

/// Whether `content` is what a file shows in `format`: its decoded text, or
/// its bytes.
pub open spec fn shows_as(file: DownloadedFile, format: FileFormat, content: SerializableFileContent) -> bool {
    match format {
        FileFormat::Text => content matches SerializableFileContent::Text(t) && valid_utf8(file.bytes@)
            && t@ == decode_utf8(file.bytes@),
        FileFormat::Image => content matches SerializableFileContent::Image(b) && b@ == file.bytes@,
        FileFormat::Raw => content matches SerializableFileContent::Raw(b) && b@ == file.bytes@,
    }
}

/// What `SerializableFile::new` gives for a file: its name and type, and its
/// content in the presented format; or the refusal of the format asked for,
/// or of a detected text format whose bytes are not UTF-8.
pub open spec fn serialized(file: DownloadedFile, explicit_format: Option<FileFormat>, r: Result<SerializableFile, ToolError>) -> bool {
    match presented_format(file, explicit_format) {
        Some(f) => if f == FileFormat::Text && !valid_utf8(file.bytes@) {
            r is Err && r->Err_0.code == ToolErrorCode::InvalidRequest && r->Err_0.message@
                == not_text_message(file.filename@)
        } else {
            r is Ok && r->Ok_0.filename@ == file.filename@ && r->Ok_0.content_type@
                == file.content_type@ && shows_as(file, f, r->Ok_0.content)
        },
        None => r is Err && r->Err_0.code == ToolErrorCode::InvalidRequest && r->Err_0.message@
            == format_refusal(file, explicit_format->0),
    }
}

impl SerializableFile {
    /// Presents a downloaded file in the format asked for, or the detected one.
    pub fn new(file: DownloadedFile, explicit_format: Option<FileFormat>) -> (r: Result<Self, ToolError>)
        ensures
            serialized(file, explicit_format, r),
    {
        let detected_format = FormatDetector::detect_format(&file, explicit_format)?;
        let filename = file.filename.clone();
        let content_type = file.content_type.clone();
        let content = match detected_format {
            FileFormat::Text => {
                let text = FormatDetector::ensure_text_type(&file)?;
                SerializableFileContent::Text(text)
            },
            FileFormat::Image => {
                FormatDetector::ensure_image_type(file.content_type.as_str(), file.filename.as_str())?;
                SerializableFileContent::Image(file.bytes)
            },
            FileFormat::Raw => SerializableFileContent::Raw(file.bytes),
        };
        Ok(SerializableFile { filename, content_type, content })
    }

    /// Presents a file as text.
    pub fn text(file: DownloadedFile) -> (r: Result<Self, ToolError>)
        ensures
            serialized(file, Some(FileFormat::Text), r),
    {
        Self::new(file, Some(FileFormat::Text))
    }

    /// Presents a file as an image.
    pub fn image(file: DownloadedFile) -> (r: Result<Self, ToolError>)
        ensures
            serialized(file, Some(FileFormat::Image), r),
    {
        Self::new(file, Some(FileFormat::Image))
    }

    /// Presents a file as raw bytes, which always succeeds.
    pub fn raw(file: DownloadedFile) -> (r: Self)
        ensures
            serialized(file, Some(FileFormat::Raw), Ok::<SerializableFile, ToolError>(r)),
    {
        match Self::new(file, Some(FileFormat::Raw)) {
            Ok(f) => f,
            Err(_) => vstd::pervasive::unreached(),
        }
    }

    /// Presents a file in the format its type and bytes suggest.
    pub fn auto(file: DownloadedFile) -> (r: Result<Self, ToolError>)
        ensures
            serialized(file, None, r),
    {
        Self::new(file, None)
    }

    /// The payload handed to the client: text as it is, an image as Base64
    /// with its content type, raw bytes as a JSON document with the name,
    /// the content type and the Base64 of the bytes.
    pub fn into_payload(self) -> (r: FilePayload)
        ensures
            match self.content {
                SerializableFileContent::Text(t) => r matches FilePayload::Text(s) && s@ == t@,
                SerializableFileContent::Image(b) => r matches FilePayload::Image { data, mime_type }
                    && data@ == base64_standard(b@) && mime_type@ == self.content_type@,
                SerializableFileContent::Raw(b) => r matches FilePayload::RawJson {
                    filename,
                    content_type,
                    content,
                } && filename@ == self.filename@ && content_type@ == self.content_type@ && content@
                    == base64_standard(b@),
            },
    {
        match self.content {
            SerializableFileContent::Text(text) => FilePayload::Text(text),
            SerializableFileContent::Image(bytes) => FilePayload::Image {
                data: encode_base64(bytes.as_slice()),
                mime_type: self.content_type,
            },
            SerializableFileContent::Raw(bytes) => FilePayload::RawJson {
                filename: self.filename,
                content_type: self.content_type,
                content: encode_base64(bytes.as_slice()),
            },
        }
    }
}

/// What a tool answers with for a file.
#[derive(Debug)]
pub enum FilePayload {
    /// Text content.
    Text(String),
    /// An image: Base64 data and its content type.
    Image { data: String, mime_type: String },
    /// Raw bytes: a JSON object with `filename`, `content_type` and the
    /// Base64 `content`.
    RawJson { filename: String, content_type: String, content: String },
}

/// Law: the textual content types are every `text/` type and exactly the
/// five application types JSON, XML, JavaScript, PHP and shell; a file of
/// such a type is shown as text when no format is asked for, whatever its
/// bytes.
pub proof fn law_textual_content_types(ct: Seq<char>, bytes: Seq<u8>)
    ensures
        is_text_content_type(ct) <==> (("text/"@.len() <= ct.len() && ct.take(5) == "text/"@)
            || ct == "application/json"@ || ct == "application/xml"@ || ct
            == "application/javascript"@ || ct == "application/x-httpd-php"@ || ct
            == "application/x-sh"@),
        (ct == "application/json"@ || ct == "application/xml"@ || ct == "application/javascript"@
            || ct == "application/x-httpd-php"@ || ct == "application/x-sh"@ || ("text/"@.len()
            <= ct.len() && ct.take(5) == "text/"@)) ==> auto_format(ct, bytes) == FileFormat::Text,
{
    reveal_strlit("text/");
    reveal_strlit("image/");
    reveal_strlit("application/json");
    reveal_strlit("application/xml");
    reveal_strlit("application/javascript");
    reveal_strlit("application/x-httpd-php");
    reveal_strlit("application/x-sh");
    assert(ct.take(5) =~= ct.subrange(0, 5));
    if "image/"@.len() <= ct.len() && ct.subrange(0, 6) == "image/"@ {
        assert(ct.subrange(0, 6)[0] == ct[0]);
        assert("image/"@[0] == 'i');
        if "text/"@.len() <= ct.len() && ct.take(5) == "text/"@ {
            assert(ct.take(5)[0] == ct[0]);
            assert("text/"@[0] == 't');
        }
        assert(ct != "application/json"@ && ct != "application/xml"@) by {
            assert("application/json"@[0] == 'a' && "application/xml"@[0] == 'a');
        }
        assert(ct != "application/javascript"@ && ct != "application/x-httpd-php"@
            && ct != "application/x-sh"@) by {
            assert("application/javascript"@[0] == 'a' && "application/x-httpd-php"@[0] == 'a'
                && "application/x-sh"@[0] == 'a');
        }
    }
}

} // verus!
