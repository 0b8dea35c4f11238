//! The handlers that are built in, and what a handler can report.

use vstd::prelude::*;
use vstd::string::StringSliceAdditionalSpecFns;
use image::ImageError;
use zip::result::ZipError;
use crate::text::str_eq;

verus! {

/// Why a handler could not vouch for a file.
#[derive(Debug, PartialEq, Eq)]
pub enum FailureType {
    /// The file is corrupted or breaks its format: the fallback chain ends
    InvalidContent(String),
    /// The handler cannot judge this file: the next handler is tried
    UnsupportedFormat(String),
    /// The file could not be read: the fallback chain ends, and nothing is said of the content
    IoError(String),
    /// The handler itself failed: the next handler is tried
    InternalError(String),
}

/// The mathematical value of a [`FailureType`].
pub enum FailureView {
    InvalidContent(Seq<char>),
    UnsupportedFormat(Seq<char>),
    IoError(Seq<char>),
    InternalError(Seq<char>),
}

impl DeepView for FailureType {
    type V = FailureView;

    open spec fn deep_view(&self) -> FailureView {
        match self {
            FailureType::InvalidContent(m) => FailureView::InvalidContent(m@),
            FailureType::UnsupportedFormat(m) => FailureView::UnsupportedFormat(m@),
            FailureType::IoError(m) => FailureView::IoError(m@),
            FailureType::InternalError(m) => FailureView::InternalError(m@),
        }
    }
}

impl View for FailureType {
    type V = FailureView;

    open spec fn view(&self) -> FailureView {
        self.deep_view()
    }
}

/// How much a handler's "no problems" is worth, from the weakest to the strongest.
#[derive(Debug, Clone, Copy, PartialEq, Eq, Structural)]
pub enum Confidence {
    /// The data is well formed; nothing more was checked
    WellFormed,
    /// Only weak protections such as parity bits were checked
    DataParity,
    /// A hash or checksum over the data was checked
    DataHash,
    /// A hash over the data was checked, and the metadata for consistency
    DataHashAndMetaParity,
    /// A hash over the whole file was checked
    FullHash,
}

impl Confidence {
    /// The place in the order of strength, from 0 for the weakest.
    pub open spec fn rank(self) -> nat {
        match self {
            Confidence::WellFormed => 0,
            Confidence::DataParity => 1,
            Confidence::DataHash => 2,
            Confidence::DataHashAndMetaParity => 3,
            Confidence::FullHash => 4,
        }
    }

    /// The place in the order of strength, from 0 for the weakest.
    pub fn strength(&self) -> (r: u8)
        ensures
            r == self.rank(),
    {
        match self {
            Confidence::WellFormed => 0,
            Confidence::DataParity => 1,
            Confidence::DataHash => 2,
            Confidence::DataHashAndMetaParity => 3,
            Confidence::FullHash => 4,
        }
    }

    /// Whether `self` is at least as strong as `other`.
    pub fn at_least(&self, other: &Confidence) -> (yes: bool)
        ensures
            yes == (self.rank() >= other.rank()),
    {
        self.strength() >= other.strength()
    }
}

/// A built-in handler as the registry lists it.
#[derive(Debug, PartialEq, Eq)]
pub struct Builtin {
    /// The id that a configuration names it by
    pub id: String,
    /// A description for the user
    pub description: String,
    /// What its "no problems" is worth
    pub confidence: Confidence,
}

/// The mathematical value of a [`Builtin`].
pub struct BuiltinView {
    pub id: Seq<char>,
    pub description: Seq<char>,
    pub confidence: Confidence,
}

impl DeepView for Builtin {
    type V = BuiltinView;

    open spec fn deep_view(&self) -> BuiltinView {
        BuiltinView {
            id: self.id@,
            description: self.description@,
            confidence: self.confidence,
        }
    }
}

impl View for Builtin {
    type V = BuiltinView;

    open spec fn view(&self) -> BuiltinView {
        self.deep_view()
    }
}

/// The registry of the built-in handlers, in the order of their ids.
pub open spec fn registry() -> Seq<BuiltinView> {
    seq![
        BuiltinView {
            id: "gzip"@,
            description: "GZip CRC check (built-in)"@,
            confidence: Confidence::DataHash,
        },
        BuiltinView {
            id: "image"@,
            description: "BMP/GIF/ICO/JPEG/PNG/PNM/TGA/TIFF handler (built-in)"@,
            confidence: Confidence::WellFormed,
        },
        BuiltinView {
            id: "json"@,
            description: "JSON well-formedness check (built-in)"@,
            confidence: Confidence::WellFormed,
        },
        BuiltinView {
            id: "toml"@,
            description: "TOML well-formedness check (built-in)"@,
            confidence: Confidence::WellFormed,
        },
        BuiltinView {
            id: "zip"@,
            description: "STORE/DEFLATE-compressed Zip CRC check (built-in)"@,
            confidence: Confidence::DataHash,
        },
    ]
}

/// The ids of the built-in handlers.
pub open spec fn builtin_ids() -> Seq<Seq<char>> {
    registry().map_values(|b: BuiltinView| b.id)
}

fn builtin(id: &str, description: &str, confidence: Confidence) -> (b: Builtin)
    ensures
        b@ == (BuiltinView { id: id@, description: description@, confidence }),
{
    Builtin { id: String::from_str(id), description: String::from_str(description), confidence }
}

/// The registry of the built-in handlers.
pub fn all() -> (list: Vec<Builtin>)
    ensures
        list.deep_view() == registry(),
{
    let mut list: Vec<Builtin> = Vec::new();
    list.push(builtin("gzip", "GZip CRC check (built-in)", Confidence::DataHash));
    list.push(
        builtin(
            "image",
            "BMP/GIF/ICO/JPEG/PNG/PNM/TGA/TIFF handler (built-in)",
            Confidence::WellFormed,
        ),
    );
    list.push(builtin("json", "JSON well-formedness check (built-in)", Confidence::WellFormed));
    list.push(builtin("toml", "TOML well-formedness check (built-in)", Confidence::WellFormed));
    list.push(
        builtin("zip", "STORE/DEFLATE-compressed Zip CRC check (built-in)", Confidence::DataHash),
    );
    assert(list.deep_view() =~= registry());
    list
}

/// The ids of the built-in handlers, in order.
pub fn all_ids() -> (ids: Vec<String>)
    ensures
        ids.deep_view() == builtin_ids(),
{
    let list = all();
    let mut ids: Vec<String> = Vec::new();
    let mut i: usize = 0;
    while i < list.len()
        invariant
            list.deep_view() == registry(),
            i <= list@.len(),
            ids@.len() == i,
            forall|j: int| 0 <= j < i ==> ids@[j]@ == list@[j].id@,
        decreases list@.len() - i,
    {
        ids.push(list[i].id.clone());
        i += 1;
    }
    assert(ids.deep_view() =~= builtin_ids());
    ids
}


/// Why reading through a stream stopped early.
#[derive(Debug, PartialEq, Eq)]
pub struct ReadFlaw {
    /// The data ended where more was expected
    pub unexpected_eof: bool,
    /// What the reader said
    pub message: String,
}

/// The mathematical value of a [`ReadFlaw`].
pub struct ReadFlawView {
    pub unexpected_eof: bool,
    pub message: Seq<char>,
}

impl DeepView for ReadFlaw {
    type V = ReadFlawView;

    open spec fn deep_view(&self) -> ReadFlawView {
        ReadFlawView { unexpected_eof: self.unexpected_eof, message: self.message@ }
    }
}

impl View for ReadFlaw {
    type V = ReadFlawView;

    open spec fn view(&self) -> ReadFlawView {
        self.deep_view()
    }
}

/// What reading a stream to its end amounts to: an unexpected end of the
/// data counts as the end; any other flaw is reported with its message.
pub open spec fn exhausted(read: Option<ReadFlawView>) -> Option<Seq<char>> {
    match read {
        None => None,
        Some(flaw) => if flaw.unexpected_eof {
            None
        } else {
            Some(flaw.message)
        },
    }
}

/// Judges the attempt to read a stream to its end.
pub fn exhaust_reader(read: Result<(), ReadFlaw>) -> (result: Result<(), String>)
    ensures
        match result {
            Ok(_) => exhausted(
                match read {
                    Ok(_) => None,
                    Err(flaw) => Some(flaw@),
                },
            ) is None,
            Err(message) => exhausted(
                match read {
                    Ok(_) => None,
                    Err(flaw) => Some(flaw@),
                },
            ) == Some(message@),
        },
{
    match read {
        Ok(_) => Ok(()),
        Err(flaw) => if flaw.unexpected_eof {
            Ok(())
        } else {
            Err(flaw.message)
        },
    }
}

/// The flaw that stops the decoding of gzip data, if one does.
pub uninterp spec fn gzip_flaw(data: Seq<u8>) -> Option<ReadFlawView>;

/// `flate2::bufread::MultiGzDecoder::new` on the data, read to the end with
/// `std::io::copy` into a sink: all members of the gzip stream are decoded and
/// their checksums compared. The first error of the decoder is handed back
/// with its `Display` text, and whether its kind is `UnexpectedEof`.
#[verifier::external_body]
fn gzip_read(data: &[u8]) -> (read: Result<(), ReadFlaw>)
    ensures
        match read {
            Ok(_) => gzip_flaw(data@) is None,
            Err(flaw) => gzip_flaw(data@) == Some(flaw@),
        },
{
    let mut decoder = flate2::bufread::MultiGzDecoder::new(data);
    match std::io::copy(&mut decoder, &mut std::io::sink()) {
        Ok(_) => Ok(()),
        Err(e) => Err(
            ReadFlaw {
                unexpected_eof: e.kind() == std::io::ErrorKind::UnexpectedEof,
                message: e.to_string(),
            },
        ),
    }
}

/// Checks a stream of one or more gzip members: decodes all of it, which
/// compares the checksums. A flaw means invalid content.
pub fn gzip(data: &[u8]) -> (result: Result<(), FailureType>)
    ensures
        match result {
            Ok(_) => gzip_verdict(data@) is None,
            Err(f) => gzip_verdict(data@) == Some(f@),
        },
{
    match exhaust_reader(gzip_read(data)) {
        Ok(_) => Ok(()),
        Err(message) => Err(FailureType::InvalidContent(message)),
    }
}

/// How the `image` crate classes an error.
#[derive(Debug, Clone, Copy, PartialEq, Eq, Structural)]
pub enum ImageFlawKind {
    /// The data does not conform to its format
    Decoding,
    /// The format, or a feature of it, is not supported
    Unsupported,
    /// The data could not be read
    Io,
    /// Anything else: a limit, a parameter
    Other,
}

/// An error of the `image` crate.
#[derive(Debug, PartialEq, Eq)]
pub struct ImageFlaw {
    pub kind: ImageFlawKind,
    /// What the crate said
    pub message: String,
}

/// The mathematical value of an [`ImageFlaw`].
pub struct ImageFlawView {
    pub kind: ImageFlawKind,
    pub message: Seq<char>,
}

impl DeepView for ImageFlaw {
    type V = ImageFlawView;

    open spec fn deep_view(&self) -> ImageFlawView {
        ImageFlawView { kind: self.kind, message: self.message@ }
    }
}

impl View for ImageFlaw {
    type V = ImageFlawView;

    open spec fn view(&self) -> ImageFlawView {
        self.deep_view()
    }
}

/// The failure that an error of the `image` crate is reported as.
pub open spec fn image_failure(flaw: ImageFlawView) -> FailureView {
    match flaw.kind {
        ImageFlawKind::Decoding => FailureView::InvalidContent(flaw.message),
        ImageFlawKind::Unsupported => FailureView::UnsupportedFormat(flaw.message),
        ImageFlawKind::Io => FailureView::IoError(flaw.message),
        ImageFlawKind::Other => FailureView::InternalError(flaw.message),
    }
}

/// Reports an error of the `image` crate.
pub fn classify_image(flaw: ImageFlaw) -> (failure: FailureType)
    ensures
        failure@ == image_failure(flaw@),
{
    match flaw.kind {
        ImageFlawKind::Decoding => FailureType::InvalidContent(flaw.message),
        ImageFlawKind::Unsupported => FailureType::UnsupportedFormat(flaw.message),
        ImageFlawKind::Io => FailureType::IoError(flaw.message),
        ImageFlawKind::Other => FailureType::InternalError(flaw.message),
    }
}

/// The format that the first bytes of the data are the signature of, if they
/// are one: the first of the extensions that the `image` crate lists for it.
pub uninterp spec fn image_signature(data: Seq<u8>) -> Option<Seq<char>>;

/// The format that a file extension stands for, if it stands for one: the
/// first of the extensions that the `image` crate lists for it.
pub uninterp spec fn image_format_of(extension: Seq<char>) -> Option<Seq<char>>;

/// The error that stops the decoding of the data as an image of the format
/// that `format` stands for, if one does.
pub uninterp spec fn image_flaw(data: Seq<u8>, format: Seq<char>) -> Option<ImageFlawView>;

/// `image::guess_format`: compares the first bytes with the signatures that
/// the crate knows. The format comes back as the first entry of
/// `ImageFormat::extensions_str`.
#[verifier::external_body]
fn guessed_format(data: &[u8]) -> (format: Option<String>)
    ensures
        format.deep_view() == image_signature(data@),
{
    let guess = image::guess_format(data).ok();
    guess.and_then(|f| f.extensions_str().first().map(|e| e.to_string()))
}

/// `image::ImageFormat::from_extension`: the format that an extension stands
/// for, whatever its case. The format comes back as the first entry of
/// `ImageFormat::extensions_str`.
#[verifier::external_body]
fn format_of_extension(extension: &str) -> (format: Option<String>)
    ensures
        format.deep_view() == image_format_of(extension@),
{
    let named = image::ImageFormat::from_extension(extension);
    named.and_then(|f| f.extensions_str().first().map(|e| e.to_string()))
}

/// `image::ImageReader::new` on a cursor over the data, `set_format` with
/// the format that `ImageFormat::from_extension` gives for `format`, and
/// `decode`: the whole image is decoded as that format. Without such a format
/// `decode` fails as unsupported. An error comes back as the variant of
/// `image::ImageError` that it is, with its `Display` text.
#[verifier::external_body]
fn image_decode(data: &[u8], format: &str) -> (decoded: Result<(), ImageFlaw>)
    ensures
        match decoded {
            Ok(_) => image_flaw(data@, format@) is None,
            Err(flaw) => image_flaw(data@, format@) == Some(flaw@),
        },
{
    let mut reader = image::ImageReader::new(std::io::Cursor::new(data));
    image::ImageFormat::from_extension(format).map(|f| reader.set_format(f));
    let (kind, message) = match reader.decode() {
        Ok(_) => return Ok(()),
        Err(ImageError::Decoding(e)) => (ImageFlawKind::Decoding, e.to_string()),
        Err(ImageError::Unsupported(e)) => (ImageFlawKind::Unsupported, e.to_string()),
        Err(ImageError::IoError(e)) => (ImageFlawKind::Io, e.to_string()),
        Err(e) => (ImageFlawKind::Other, e.to_string()),
    };
    Err(ImageFlaw { kind, message })
}

/// The format to decode an image as: that of its signature or, where the
/// data has none that is known, that of the extension of the file name.
pub open spec fn image_format(data: Seq<u8>, extension: Option<Seq<char>>) -> Option<Seq<char>> {
    match image_signature(data) {
        Some(format) => Some(format),
        None => match extension {
            Some(e) => image_format_of(e),
            None => None,
        },
    }
}

/// What is wrong with an image, if anything: that neither its content nor
/// the extension of its name tells its format, or what the decoder finds.
pub open spec fn image_verdict(data: Seq<u8>, extension: Option<Seq<char>>) -> Option<FailureView> {
    match image_format(data, extension) {
        None => Some(FailureView::UnsupportedFormat("The image format could not be determined"@)),
        Some(format) => match image_flaw(data, format) {
            Some(flaw) => Some(image_failure(flaw)),
            None => None,
        },
    }
}

/// Checks an image in one of the formats that the `image` crate decodes:
/// decodes all of it. The format is told by the signature at the start of the
/// data, and by the extension of the file name where the format has no
/// signature, as TGA has none.
pub fn image(data: &[u8], extension: Option<&str>) -> (result: Result<(), FailureType>)
    ensures
        match result {
            Ok(_) => image_verdict(data@, extension.deep_view()) is None,
            Err(f) => image_verdict(data@, extension.deep_view()) == Some(f@),
        },
{
    let format = match guessed_format(data) {
        Some(format) => Some(format),
        None => match extension {
            Some(e) => format_of_extension(e),
            None => None,
        },
    };
    match format {
        None => Err(
            FailureType::UnsupportedFormat(
                String::from_str("The image format could not be determined"),
            ),
        ),
        Some(format) => match image_decode(data, format.as_str()) {
            Ok(_) => Ok(()),
            Err(flaw) => Err(classify_image(flaw)),
        },
    }
}

/// Why bytes are no UTF-8 text, if they are none: the text of the error of
/// `std::str::from_utf8`.
pub uninterp spec fn utf8_flaw(data: Seq<u8>) -> Option<Seq<char>>;

/// `std::str::from_utf8`: the text whose bytes are the data, exactly where
/// the data is valid UTF-8; else the `Display` text of the error.
#[verifier::external_body]
fn utf8_text(data: &[u8]) -> (text: Result<&str, String>)
    ensures
        match text {
            Ok(s) => utf8_flaw(data@) is None && vstd::utf8::valid_utf8(data@) && s.spec_bytes()
                == data@,
            Err(message) => utf8_flaw(data@) == Some(message@) && !vstd::utf8::valid_utf8(data@),
        },
{
    std::str::from_utf8(data).map_err(|e| e.to_string())
}

/// The text whose bytes are `data` is the one that `data` decodes to.
proof fn lemma_text_of_bytes(data: Seq<u8>)
    ensures
        forall|text: Seq<char>|
            #[trigger] vstd::utf8::encode_utf8(text) == data ==> text == vstd::utf8::decode_utf8(
                data,
            ),
{
    assert forall|text: Seq<char>| #[trigger]
        vstd::utf8::encode_utf8(text) == data implies text == vstd::utf8::decode_utf8(data) by {
        vstd::utf8::encode_utf8_decode_utf8(text);
    }
}

/// What is wrong with a text as JSON, if anything.
pub uninterp spec fn json_flaw(text: Seq<char>) -> Option<Seq<char>>;

/// `json::parse`: parses the whole text as one JSON value. An error comes
/// back as its `Display` text.
#[verifier::external_body]
fn json_parse(text: &str) -> (parsed: Result<(), String>)
    ensures
        match parsed {
            Ok(_) => json_flaw(text@) is None,
            Err(message) => json_flaw(text@) == Some(message@),
        },
{
    json::parse(text).map(|_| ()).map_err(|e| e.to_string())
}

/// What is wrong with data as JSON, if anything: that it is no UTF-8 text,
/// or what the parser finds.
pub open spec fn json_verdict(data: Seq<u8>) -> Option<FailureView> {
    match utf8_flaw(data) {
        Some(message) => Some(FailureView::InvalidContent(message)),
        None => match json_flaw(vstd::utf8::decode_utf8(data)) {
            Some(message) => Some(FailureView::InvalidContent(message)),
            None => None,
        },
    }
}

/// Checks that the data is well-formed JSON. Data that is no UTF-8 text or
/// that does not parse is invalid content.
pub fn json(data: &[u8]) -> (result: Result<(), FailureType>)
    ensures
        match result {
            Ok(_) => json_verdict(data@) is None,
            Err(f) => json_verdict(data@) == Some(f@),
        },
        result is Ok ==> vstd::utf8::valid_utf8(data@),
{
    proof {
        lemma_text_of_bytes(data@);
    }
    match utf8_text(data) {
        Err(message) => Err(FailureType::InvalidContent(message)),
        Ok(text) => match json_parse(text) {
            Ok(_) => Ok(()),
            Err(message) => Err(FailureType::InvalidContent(message)),
        },
    }
}

/// What is wrong with a text as a TOML value, if anything.
pub uninterp spec fn toml_flaw(text: Seq<char>) -> Option<Seq<char>>;

/// `<toml_edit::Item as FromStr>::from_str`: parses the whole text as one
/// TOML value. An error comes back as its `Display` text.
#[verifier::external_body]
fn toml_parse(text: &str) -> (parsed: Result<(), String>)
    ensures
        match parsed {
            Ok(_) => toml_flaw(text@) is None,
            Err(message) => toml_flaw(text@) == Some(message@),
        },
{
    text.parse::<toml_edit::Item>().map(|_| ()).map_err(|e| e.to_string())
}

/// What is wrong with data as a TOML value, if anything: that it is no
/// UTF-8 text, or what the parser finds.
pub open spec fn toml_verdict(data: Seq<u8>) -> Option<FailureView> {
    match utf8_flaw(data) {
        Some(message) => Some(FailureView::InvalidContent(message)),
        None => match toml_flaw(vstd::utf8::decode_utf8(data)) {
            Some(message) => Some(FailureView::InvalidContent(message)),
            None => None,
        },
    }
}

/// Checks that the data is one well-formed TOML value. Data that is no UTF-8
/// text or that does not parse is invalid content.
pub fn toml(data: &[u8]) -> (result: Result<(), FailureType>)
    ensures
        match result {
            Ok(_) => toml_verdict(data@) is None,
            Err(f) => toml_verdict(data@) == Some(f@),
        },
        result is Ok ==> vstd::utf8::valid_utf8(data@),
{
    proof {
        lemma_text_of_bytes(data@);
    }
    match utf8_text(data) {
        Err(message) => Err(FailureType::InvalidContent(message)),
        Ok(text) => match toml_parse(text) {
            Ok(_) => Ok(()),
            Err(message) => Err(FailureType::InvalidContent(message)),
        },
    }
}

/// `zip::ZipArchive`, an archive opened on a reader. Nothing of what it
/// holds is visible here.
#[verifier::external_type_specification]
#[verifier::external_body]
#[verifier::reject_recursive_types(R)]
pub struct ExZipArchive<R>(zip::ZipArchive<R>);

/// `std::io::Cursor`, a reader over bytes in memory. Nothing of what it holds
/// is visible here.
#[verifier::external_type_specification]
#[verifier::external_body]
#[verifier::reject_recursive_types(T)]
pub struct ExCursor<T>(std::io::Cursor<T>);

/// `zip::result::ZipError`. Its variants are told apart by a function below.
#[verifier::external_type_specification]
#[verifier::external_body]
pub struct ExZipError(zip::result::ZipError);

/// An archive of the `zip` crate, opened on bytes in memory.
pub type Archive<'a> = zip::ZipArchive<std::io::Cursor<&'a [u8]>>;

/// How the `zip` crate classes an error.
#[derive(Debug, Clone, Copy, PartialEq, Eq, Structural)]
pub enum ZipFlawKind {
    /// The data could not be read
    Io,
    /// The data is no valid archive
    InvalidArchive,
    /// The archive uses something that is not supported
    UnsupportedArchive,
    /// A compression method is not supported
    Method,
    /// The archive has no such member
    FileNotFound,
    /// Anything else
    Other,
}

/// An error of the `zip` crate.
#[derive(Debug, PartialEq, Eq)]
pub struct ZipFlaw {
    pub kind: ZipFlawKind,
    /// What the crate said
    pub message: String,
}

/// The mathematical value of a [`ZipFlaw`].
pub struct ZipFlawView {
    pub kind: ZipFlawKind,
    pub message: Seq<char>,
}

impl DeepView for ZipFlaw {
    type V = ZipFlawView;

    open spec fn deep_view(&self) -> ZipFlawView {
        ZipFlawView { kind: self.kind, message: self.message@ }
    }
}

impl View for ZipFlaw {
    type V = ZipFlawView;

    open spec fn view(&self) -> ZipFlawView {
        self.deep_view()
    }
}

/// The failure that an error of the `zip` crate is reported as.
pub open spec fn zip_failure(flaw: ZipFlawView) -> FailureView {
    match flaw.kind {
        ZipFlawKind::Io => FailureView::IoError(flaw.message),
        ZipFlawKind::InvalidArchive => FailureView::InvalidContent(flaw.message),
        ZipFlawKind::UnsupportedArchive => FailureView::UnsupportedFormat(flaw.message),
        ZipFlawKind::Method => FailureView::UnsupportedFormat(flaw.message),
        ZipFlawKind::FileNotFound => FailureView::InternalError(
            "'file not found' when reading Zip file by bounded index"@,
        ),
        ZipFlawKind::Other => FailureView::InternalError(flaw.message),
    }
}

/// Reports an error of the `zip` crate.
pub fn classify_zip(flaw: ZipFlaw) -> (failure: FailureType)
    ensures
        failure@ == zip_failure(flaw@),
{
    match flaw.kind {
        ZipFlawKind::Io => FailureType::IoError(flaw.message),
        ZipFlawKind::InvalidArchive => FailureType::InvalidContent(flaw.message),
        ZipFlawKind::UnsupportedArchive => FailureType::UnsupportedFormat(flaw.message),
        ZipFlawKind::Method => FailureType::UnsupportedFormat(flaw.message),
        ZipFlawKind::FileNotFound => FailureType::InternalError(
            String::from_str("'file not found' when reading Zip file by bounded index"),
        ),
        ZipFlawKind::Other => FailureType::InternalError(flaw.message),
    }
}

/// The number of members of the archive that the data holds, or why it cannot be opened.
pub uninterp spec fn zip_opening(data: Seq<u8>) -> Result<nat, ZipFlawView>;

/// What comes of reading a member of the archive that the data holds: why
/// the member cannot be opened, or the flaw that stops the reading, if one does.
pub uninterp spec fn zip_member(data: Seq<u8>, index: nat) -> Result<
    Option<ReadFlawView>,
    ZipFlawView,
>;

/// The data that an archive was opened on.
pub uninterp spec fn zip_data(archive: Archive) -> Seq<u8>;

/// An error of the `zip` crate, as its class and text.
pub uninterp spec fn zip_flaw_of(error: ZipError) -> ZipFlawView;

/// `zip::ZipArchive::new` on a cursor over the data: reads the central directory.
#[verifier::external_body]
fn zip_open<'a>(data: &'a [u8]) -> (opened: Result<Archive<'a>, ZipError>)
    ensures
        match opened {
            Ok(archive) => zip_opening(data@) is Ok && zip_data(archive) == data@,
            Err(error) => zip_opening(data@) == Err::<nat, _>(zip_flaw_of(error)),
        },
{
    zip::ZipArchive::new(std::io::Cursor::new(data))
}

/// `zip::ZipArchive::len`: the number of members in the central directory.
#[verifier::external_body]
fn zip_len(archive: &Archive) -> (count: usize)
    ensures
        match zip_opening(zip_data(*archive)) {
            Ok(members) => count == members,
            Err(_) => false,
        },
{
    archive.len()
}

/// `zip::ZipArchive::by_index`, then `std::io::copy` of the member into a
/// sink: decompresses the member and compares its checksum. The archive holds
/// the same data afterwards.
#[verifier::external_body]
fn zip_read(archive: &mut Archive, index: usize) -> (read: Result<
    Result<(), ReadFlaw>,
    ZipError,
>)
    ensures
        zip_data(*final(archive)) == zip_data(*old(archive)),
        match read {
            Ok(Ok(_)) => zip_member(zip_data(*old(archive)), index as nat) == Ok::<
                _,
                ZipFlawView,
            >(None::<ReadFlawView>),
            Ok(Err(flaw)) => zip_member(zip_data(*old(archive)), index as nat) == Ok::<
                _,
                ZipFlawView,
            >(Some(flaw@)),
            Err(error) => zip_member(zip_data(*old(archive)), index as nat) == Err::<
                Option<ReadFlawView>,
                _,
            >(zip_flaw_of(error)),
        },
{
    let mut member = archive.by_index(index)?;
    Ok(
        match std::io::copy(&mut member, &mut std::io::sink()) {
            Ok(_) => Ok(()),
            Err(e) => Err(
                ReadFlaw {
                    unexpected_eof: e.kind() == std::io::ErrorKind::UnexpectedEof,
                    message: e.to_string(),
                },
            ),
        },
    )
}

/// Tells the variants of `zip::result::ZipError` apart. The text is that of
/// the variant's field where it has a text or an i/o error, and else the
/// error's `Display` text.
#[verifier::external_body]
fn zip_flaw(error: &ZipError) -> (flaw: ZipFlaw)
    ensures
        flaw@ == zip_flaw_of(*error),
{
    let (kind, message) = match error {
        ZipError::Io(e) => (ZipFlawKind::Io, e.to_string()),
        ZipError::InvalidArchive(m) => (ZipFlawKind::InvalidArchive, m.to_string()),
        ZipError::UnsupportedArchive(m) => (ZipFlawKind::UnsupportedArchive, m.to_string()),
        ZipError::CompressionMethodNotSupported(_) => (ZipFlawKind::Method, error.to_string()),
        ZipError::FileNotFound => (ZipFlawKind::FileNotFound, error.to_string()),
        _ => (ZipFlawKind::Other, error.to_string()),
    };
    ZipFlaw { kind, message }
}

/// The failure that the member at position `index` is reported with, if any.
pub open spec fn zip_member_failure(data: Seq<u8>, index: nat) -> Option<FailureView> {
    match zip_member(data, index) {
        Err(flaw) => Some(zip_failure(flaw)),
        Ok(read) => match exhausted(read) {
            Some(message) => Some(FailureView::IoError(message)),
            None => None,
        },
    }
}

/// The failure of the first of the `count` members, at or after `from`, that has one.
pub open spec fn zip_members_failure(data: Seq<u8>, count: nat, from: nat) -> Option<FailureView>
    decreases count - from,
{
    if from >= count {
        None
    } else {
        match zip_member_failure(data, from) {
            Some(failure) => Some(failure),
            None => zip_members_failure(data, count, from + 1),
        }
    }
}

/// What is wrong with a Zip archive, if anything: why it cannot be opened,
/// or the failure of its first member that has one.
pub open spec fn zip_verdict(data: Seq<u8>) -> Option<FailureView> {
    match zip_opening(data) {
        Err(flaw) => Some(zip_failure(flaw)),
        Ok(count) => zip_members_failure(data, count, 0),
    }
}

/// Checks a Zip archive: opens it and reads every member through, which
/// compares the checksums.
pub fn zip(data: &[u8]) -> (result: Result<(), FailureType>)
    ensures
        match result {
            Ok(_) => zip_verdict(data@) is None,
            Err(f) => zip_verdict(data@) == Some(f@),
        },
{
    let mut archive = match zip_open(data) {
        Ok(archive) => archive,
        Err(error) => {
            return Err(classify_zip(zip_flaw(&error)));
        },
    };
    let count = zip_len(&archive);
    let mut i: usize = 0;
    while i < count
        invariant
            zip_data(archive) == data@,
            zip_opening(data@) == Ok::<_, ZipFlawView>(count as nat),
            i <= count,
            zip_verdict(data@) == zip_members_failure(data@, count as nat, i as nat),
        decreases count - i,
    {
        match zip_read(&mut archive, i) {
            Err(error) => {
                return Err(classify_zip(zip_flaw(&error)));
            },
            Ok(read) => match exhaust_reader(read) {
                Err(message) => {
                    return Err(FailureType::IoError(message));
                },
                Ok(_) => {},
            },
        }
        i += 1;
    }
    Ok(())
}

/// What is wrong with gzip data, if anything.
pub open spec fn gzip_verdict(data: Seq<u8>) -> Option<FailureView> {
    match exhausted(gzip_flaw(data)) {
        Some(message) => Some(FailureView::InvalidContent(message)),
        None => None,
    }
}

/// The report of a handler that found `failure`, or nothing, and whose "no
/// problems" is worth `confidence`.
pub open spec fn report(failure: Option<FailureView>, confidence: Confidence) -> Result<
    Confidence,
    FailureView,
> {
    match failure {
        Some(f) => Err(f),
        None => Ok(confidence),
    }
}

/// The report of the built-in handler `id` on the data of a file whose name
/// has the extension `extension`; `None` where no built-in handler has that id.
pub open spec fn builtin_outcome(
    id: Seq<char>,
    data: Seq<u8>,
    extension: Option<Seq<char>>,
) -> Option<Result<Confidence, FailureView>> {
    if id == "gzip"@ {
        Some(report(gzip_verdict(data), Confidence::DataHash))
    } else if id == "image"@ {
        Some(report(image_verdict(data, extension), Confidence::WellFormed))
    } else if id == "json"@ {
        Some(report(json_verdict(data), Confidence::WellFormed))
    } else if id == "toml"@ {
        Some(report(toml_verdict(data), Confidence::WellFormed))
    } else if id == "zip"@ {
        Some(report(zip_verdict(data), Confidence::DataHash))
    } else {
        None
    }
}

fn to_report(result: Result<(), FailureType>, confidence: Confidence) -> (out: Result<
    Confidence,
    FailureType,
>)
    ensures
        crate::dispatch::outcome_view(out) == report(
            match result {
                Ok(_) => None,
                Err(f) => Some(f@),
            },
            confidence,
        ),
{
    match result {
        Ok(_) => Ok(confidence),
        Err(f) => Err(f),
    }
}

/// Runs the built-in handler `id` on the data of a file, whose name has the
/// extension `extension`, if it has one. `None` where no built-in handler has
/// that id.
pub fn run_builtin(id: &str, data: &[u8], extension: Option<&str>) -> (out: Option<
    Result<Confidence, FailureType>,
>)
    ensures
        match out {
            Some(outcome) => builtin_outcome(id@, data@, extension.deep_view()) == Some(
                crate::dispatch::outcome_view(outcome),
            ),
            None => builtin_outcome(id@, data@, extension.deep_view()) is None,
        },
{
    if str_eq(id, "gzip") {
        Some(to_report(gzip(data), Confidence::DataHash))
    } else if str_eq(id, "image") {
        Some(to_report(image(data, extension), Confidence::WellFormed))
    } else if str_eq(id, "json") {
        Some(to_report(json(data), Confidence::WellFormed))
    } else if str_eq(id, "toml") {
        Some(to_report(toml(data), Confidence::WellFormed))
    } else if str_eq(id, "zip") {
        Some(to_report(zip(data), Confidence::DataHash))
    } else {
        None
    }
}

} // verus!
