//! Text extraction from the contents of PDF, TXT and MD files.
//!
//! The file itself is loaded by the caller. [`source_of`] decides from the path how the
//! file is loaded (or refuses its format, before anything is read): a text file as its
//! bytes, a PDF as the outcome of `pdf_extract::extract_text_from_mem` on its bytes.
//! [`read_source`] decides, from what loading the file gave, which text the document
//! yields or which error it gives. [`extract_text`] does both when the loaded file is
//! already at hand.
//!
//! The call into `pdf-extract` is made by the caller and not here: that crate panics
//! on some malformed documents, with no property of the bytes that tells them apart
//! beforehand, and no function of this library makes a call that can panic.

use vstd::prelude::*;
use vstd::utf8::*;

use crate::path::{extension_in, path_extension_in, PathStyle};
use crate::text::{
    ascii_lower, decode_utf8_bytes, is_ascii_text, is_blank, is_blank_text, join2, lowercase,
    same_text, to_lowercase,
};

verus! {

/// The kind of a failed read, as `std::io::ErrorKind` classifies it. `Unlisted`
/// stands for the kinds that this list does not name.
#[derive(Debug, Clone, Copy, PartialEq, Eq, Structural)]
pub enum IoErrorKind {
    NotFound,
    PermissionDenied,
    ConnectionRefused,
    ConnectionReset,
    HostUnreachable,
    NetworkUnreachable,
    ConnectionAborted,
    NotConnected,
    AddrInUse,
    AddrNotAvailable,
    NetworkDown,
    BrokenPipe,
    AlreadyExists,
    WouldBlock,
    NotADirectory,
    IsADirectory,
    DirectoryNotEmpty,
    ReadOnlyFilesystem,
    StaleNetworkFileHandle,
    InvalidInput,
    InvalidData,
    TimedOut,
    WriteZero,
    StorageFull,
    NotSeekable,
    FileTooLarge,
    ResourceBusy,
    ExecutableFileBusy,
    Deadlock,
    CrossesDevices,
    TooManyLinks,
    InvalidFilename,
    ArgumentListTooLong,
    Interrupted,
    Unsupported,
    UnexpectedEof,
    OutOfMemory,
    Other,
    Unlisted,
}

/// A failed read: its kind and its message (what the error displays).
#[derive(Debug, PartialEq, Eq)]
pub struct IoFailure {
    pub kind: IoErrorKind,
    pub message: String,
}

/// The ways extracting text from a file can fail.
#[derive(Debug, PartialEq, Eq)]
pub enum Error {
    /// The file could not be read, or its text is unusable.
    Io(IoFailure),
    /// The PDF could not be processed; holds the message.
    Pdf(String),
    /// The file's extension is not one of the supported formats; holds the extension.
    UnsupportedFormat(String),
}

/// The mathematical value of an [`Error`].
pub enum ErrorModel {
    Io(IoErrorKind, Seq<char>),
    Pdf(Seq<char>),
    UnsupportedFormat(Seq<char>),
}

impl View for Error {
    type V = ErrorModel;

    open spec fn view(&self) -> ErrorModel {
        match self {
            Error::Io(f) => ErrorModel::Io(f.kind, f.message@),
            Error::Pdf(m) => ErrorModel::Pdf(m@),
            Error::UnsupportedFormat(e) => ErrorModel::UnsupportedFormat(e@),
        }
    }
}

/// How a file of a supported format is read.
#[derive(Debug, Clone, Copy, PartialEq, Eq, Structural)]
pub enum Source {
    /// UTF-8 text (`txt`, `md`).
    Text,
    /// A PDF document.
    Pdf,
}

/// What loading a file gave: for a text file the outcome of reading its bytes; for a
/// PDF the outcome of reading its bytes, and when they were read, the outcome of
/// `pdf_extract::extract_text_from_mem` on them (its text, or its error's message).
#[derive(Debug)]
pub enum Loaded {
    Text(Result<Vec<u8>, IoFailure>),
    Pdf(Result<Result<String, String>, IoFailure>),
}

/// The mathematical value of a [`Loaded`].
pub enum LoadedModel {
    Text(Result<Seq<u8>, (IoErrorKind, Seq<char>)>),
    Pdf(Result<Result<Seq<char>, Seq<char>>, (IoErrorKind, Seq<char>)>),
}

impl View for Loaded {
    type V = LoadedModel;

    open spec fn view(&self) -> LoadedModel {
        match self {
            Loaded::Text(c) => LoadedModel::Text(read_view(*c)),
            Loaded::Pdf(c) => LoadedModel::Pdf(pdf_read_view(*c)),
        }
    }
}

/// The value of the outcome of loading a PDF.
pub open spec fn pdf_read_view(c: Result<Result<String, String>, IoFailure>) -> Result<
    Result<Seq<char>, Seq<char>>,
    (IoErrorKind, Seq<char>),
> {
    match c {
        Ok(Ok(t)) => Ok(Ok(t@)),
        Ok(Err(m)) => Ok(Err(m@)),
        Err(f) => Err((f.kind, f.message@)),
    }
}

/// The message of the read error that reading a file that is not UTF-8 text gives.
pub open spec fn invalid_utf8_message() -> Seq<char> {
    "stream did not contain valid UTF-8"@
}

/// The message given for a text file that holds only whitespace.
pub open spec fn empty_text_message() -> Seq<char> {
    "El archivo de texto está vacío."@
}

/// The message given for a PDF from which no text could be extracted.
pub open spec fn no_pdf_text_message() -> Seq<char> {
    "No se pudo extraer texto del PDF (puede ser una imagen escaneada)."@
}

/// The text a user sees for an error.
pub open spec fn error_message(e: ErrorModel) -> Seq<char> {
    match e {
        ErrorModel::Io(_, m) => "Error al leer el archivo: "@ + m,
        ErrorModel::Pdf(m) => "Error al procesar el PDF: "@ + m,
        ErrorModel::UnsupportedFormat(ext) => "Formato no soportado: '."@ + ext
            + "'. Usá .pdf o .txt"@,
    }
}

/// The outcome of reading a file: its bytes or the read error's kind and message.
pub open spec fn read_view(c: Result<Vec<u8>, IoFailure>) -> Result<Seq<u8>, (IoErrorKind, Seq<char>)> {
    match c {
        Ok(b) => Ok(b@),
        Err(f) => Err((f.kind, f.message@)),
    }
}

/// The value of an extraction outcome.
pub open spec fn outcome_view(r: Result<String, Error>) -> Result<Seq<char>, ErrorModel> {
    match r {
        Ok(t) => Ok(t@),
        Err(e) => Err(e@),
    }
}

/// The extension of the file named by `path`, a path of `style`, as text (empty when it
/// has none or it is not UTF-8), before lowercasing.
pub open spec fn extension_text_in(style: PathStyle, path: Seq<u8>) -> Seq<char> {
    match path_extension_in(style, path) {
        Some(e) => if valid_utf8(e) {
            decode_utf8(e)
        } else {
            Seq::empty()
        },
        None => Seq::empty(),
    }
}

/// The lowercased extension that decides how the file at `path`, a path of `style`, is
/// read.
pub open spec fn format_key_in(style: PathStyle, path: Seq<u8>) -> Seq<char> {
    lowercase(extension_text_in(style, path))
}

/// The extension of the file named by the Unix path `path` as text.
pub open spec fn extension_text(path: Seq<u8>) -> Seq<char> {
    extension_text_in(PathStyle::Unix, path)
}

/// The lowercased extension that decides how the file at the Unix path `path` is read.
pub open spec fn format_key(path: Seq<u8>) -> Seq<char> {
    format_key_in(PathStyle::Unix, path)
}

/// What a text file yields: its UTF-8 text, unless unreadable, not UTF-8, or blank.
pub open spec fn text_file_outcome(contents: Result<Seq<u8>, (IoErrorKind, Seq<char>)>) -> Result<
    Seq<char>,
    ErrorModel,
> {
    match contents {
        Err((k, m)) => Err(ErrorModel::Io(k, m)),
        Ok(b) => if !valid_utf8(b) {
            Err(ErrorModel::Io(IoErrorKind::InvalidData, invalid_utf8_message()))
        } else if is_blank_text(decode_utf8(b)) {
            Err(ErrorModel::Io(IoErrorKind::InvalidData, empty_text_message()))
        } else {
            Ok(decode_utf8(b))
        },
    }
}

/// What the outcome of a PDF extraction yields: its text, unless it failed or is blank.
pub open spec fn pdf_text_outcome(extracted: Result<Seq<char>, Seq<char>>) -> Result<
    Seq<char>,
    ErrorModel,
> {
    match extracted {
        Err(m) => Err(ErrorModel::Pdf(m)),
        Ok(t) => if is_blank_text(t) {
            Err(ErrorModel::Pdf(no_pdf_text_message()))
        } else {
            Ok(t)
        },
    }
}

/// What a PDF file yields, given the outcome of reading it and extracting its text.
pub open spec fn pdf_file_outcome(
    loaded: Result<Result<Seq<char>, Seq<char>>, (IoErrorKind, Seq<char>)>,
) -> Result<Seq<char>, ErrorModel> {
    match loaded {
        Err((k, m)) => Err(ErrorModel::Io(k, m)),
        Ok(extracted) => pdf_text_outcome(extracted),
    }
}

/// How a file whose lowercased extension is `format` is read: `txt` and `md` as text,
/// `pdf` as a PDF, any other format not at all.
pub open spec fn format_source(format: Seq<char>) -> Option<Source> {
    if format == "txt"@ || format == "md"@ {
        Some(Source::Text)
    } else if format == "pdf"@ {
        Some(Source::Pdf)
    } else {
        None
    }
}

/// The decision about a format: how it is read, or its refusal.
pub open spec fn format_decision(format: Seq<char>) -> Result<Source, ErrorModel> {
    match format_source(format) {
        Some(src) => Ok(src),
        None => Err(ErrorModel::UnsupportedFormat(format)),
    }
}

/// What a loaded file yields.
pub open spec fn loaded_outcome(loaded: LoadedModel) -> Result<Seq<char>, ErrorModel> {
    match loaded {
        LoadedModel::Text(c) => text_file_outcome(c),
        LoadedModel::Pdf(c) => pdf_file_outcome(c),
    }
}

/// What a file yields once its lowercased extension is known: the refusal of an
/// unsupported format, whatever was loaded, or what the loaded file yields.
pub open spec fn format_outcome(format: Seq<char>, loaded: LoadedModel) -> Result<
    Seq<char>,
    ErrorModel,
> {
    match format_decision(format) {
        Ok(_) => loaded_outcome(loaded),
        Err(e) => Err(e),
    }
}

/// What the file at `path` yields, given what loading it gave.
pub open spec fn extraction(path: Seq<u8>, loaded: LoadedModel) -> Result<Seq<char>, ErrorModel> {
    format_outcome(format_key(path), loaded)
}

/// For an extension of ASCII characters, the format is the extension with its ASCII
/// letters lowercased.
pub open spec fn ascii_format_known_in(style: PathStyle, path: Seq<u8>) -> bool {
    is_ascii_text(extension_text_in(style, path)) ==> format_key_in(style, path)
        == extension_text_in(style, path).map_values(|c: char| ascii_lower(c))
}

/// For a Unix path whose extension is ASCII, the format is the extension with its ASCII
/// letters lowercased.
pub open spec fn ascii_format_known(path: Seq<u8>) -> bool {
    ascii_format_known_in(PathStyle::Unix, path)
}

impl Error {
    /// The text a user sees for this error.
    pub fn message(&self) -> (r: String)
        ensures
            r@ == error_message(self@),
    {
        match self {
            Error::Io(f) => join2("Error al leer el archivo: ", f.message.as_str()),
            Error::Pdf(m) => join2("Error al procesar el PDF: ", m.as_str()),
            Error::UnsupportedFormat(ext) => {
                let mut r = join2("Formato no soportado: '.", ext.as_str());
                r.append("'. Usá .pdf o .txt");
                r
            },
        }
    }
}

/// The lowercased extension of the file named by `path` (the raw bytes of a Unix path).
pub fn format_of(path: &[u8]) -> (r: String)
    ensures
        r@ == format_key(path@),
        is_ascii_text(extension_text(path@)) ==> r@ == extension_text(path@).map_values(
            |c: char| ascii_lower(c),
        ),
{
    format_of_in(PathStyle::Unix, path)
}

/// The lowercased extension of the file named by `path`, the bytes of a path of `style`.
pub fn format_of_in(style: PathStyle, path: &[u8]) -> (r: String)
    ensures
        r@ == format_key_in(style, path@),
        is_ascii_text(extension_text_in(style, path@)) ==> r@ == extension_text_in(
            style,
            path@,
        ).map_values(|c: char| ascii_lower(c)),
{
    let ext = match extension_in(style, path) {
        Some(e) => match decode_utf8_bytes(e.as_slice()) {
            Some(t) => t,
            None => String::new(),
        },
        None => String::new(),
    };
    to_lowercase(ext.as_str())
}

/// Reads a text file from the outcome of reading its bytes.
pub fn read_txt(contents: Result<Vec<u8>, IoFailure>) -> (r: Result<String, Error>)
    ensures
        outcome_view(r) == text_file_outcome(read_view(contents)),
{
    match contents {
        Err(f) => Err(Error::Io(f)),
        Ok(bytes) => match decode_utf8_bytes(bytes.as_slice()) {
            None => Err(
                Error::Io(
                    IoFailure {
                        kind: IoErrorKind::InvalidData,
                        message: String::from_str("stream did not contain valid UTF-8"),
                    },
                ),
            ),
            Some(content) => {
                if is_blank(content.as_str()) {
                    Err(
                        Error::Io(
                            IoFailure {
                                kind: IoErrorKind::InvalidData,
                                message: String::from_str("El archivo de texto está vacío."),
                            },
                        ),
                    )
                } else {
                    Ok(content)
                }
            },
        },
    }
}

/// Decides what the outcome of a PDF extraction yields.
pub fn check_pdf_text(extracted: Result<String, String>) -> (r: Result<String, Error>)
    ensures
        outcome_view(r) == pdf_text_outcome(
            match extracted {
                Ok(t) => Ok(t@),
                Err(m) => Err(m@),
            },
        ),
{
    match extracted {
        Err(m) => Err(Error::Pdf(m)),
        Ok(text) => {
            if is_blank(text.as_str()) {
                Err(
                    Error::Pdf(
                        String::from_str(
                            "No se pudo extraer texto del PDF (puede ser una imagen escaneada).",
                        ),
                    ),
                )
            } else {
                Ok(text)
            }
        },
    }
}

/// Reads a PDF file from the outcome of reading its bytes and extracting their text.
pub fn read_pdf(loaded: Result<Result<String, String>, IoFailure>) -> (r: Result<String, Error>)
    ensures
        outcome_view(r) == pdf_file_outcome(pdf_read_view(loaded)),
{
    match loaded {
        Err(f) => Err(Error::Io(f)),
        Ok(extracted) => check_pdf_text(extracted),
    }
}

/// How a file whose lowercased extension is `format` is read, or its refusal.
pub fn check_format(format: &str) -> (r: Result<Source, Error>)
    ensures
        match r {
            Ok(src) => format_decision(format@) == Ok::<Source, ErrorModel>(src),
            Err(e) => format_decision(format@) == Err::<Source, ErrorModel>(e@),
        },
{
    if same_text(format, "txt") || same_text(format, "md") {
        Ok(Source::Text)
    } else if same_text(format, "pdf") {
        Ok(Source::Pdf)
    } else {
        Err(Error::UnsupportedFormat(String::from_str(format)))
    }
}

/// How the file at `path` is loaded, decided from its extension before anything is
/// read, or the refusal of its format.
pub fn source_of(path: &[u8]) -> (r: Result<Source, Error>)
    ensures
        ascii_format_known(path@),
        match r {
            Ok(src) => format_decision(format_key(path@)) == Ok::<Source, ErrorModel>(src),
            Err(e) => format_decision(format_key(path@)) == Err::<Source, ErrorModel>(e@),
        },
{
    source_of_in(PathStyle::Unix, path)
}

/// How the file at `path`, the bytes of a path of `style`, is loaded, decided from its
/// extension before anything is read, or the refusal of its format.
pub fn source_of_in(style: PathStyle, path: &[u8]) -> (r: Result<Source, Error>)
    ensures
        ascii_format_known_in(style, path@),
        match r {
            Ok(src) => format_decision(format_key_in(style, path@)) == Ok::<Source, ErrorModel>(
                src,
            ),
            Err(e) => format_decision(format_key_in(style, path@)) == Err::<Source, ErrorModel>(
                e@,
            ),
        },
{
    let format = format_of_in(style, path);
    check_format(format.as_str())
}

/// The text of a loaded file, or its error.
pub fn read_source(loaded: Loaded) -> (r: Result<String, Error>)
    ensures
        outcome_view(r) == loaded_outcome(loaded@),
{
    match loaded {
        Loaded::Text(contents) => read_txt(contents),
        Loaded::Pdf(contents) => read_pdf(contents),
    }
}

/// Detects the format of the file at `path` from its extension and extracts its text,
/// given what loading the file as [`source_of`] says gave (which is not looked at when
/// the format is refused).
pub fn extract_text(path: &[u8], loaded: Loaded) -> (r: Result<String, Error>)
    ensures
        ascii_format_known(path@),
        outcome_view(r) == extraction(path@, loaded@),
{
    match source_of(path) {
        Ok(_) => read_source(loaded),
        Err(e) => Err(e),
    }
}

/// Text that a file yields is never blank, and only the supported formats yield text.
pub proof fn lemma_extracted_text_is_not_blank(path: Seq<u8>, loaded: LoadedModel)
    ensures
        extraction(path, loaded) matches Ok(t) ==> !is_blank_text(t) && (format_key(path)
            == "txt"@ || format_key(path) == "md"@ || format_key(path) == "pdf"@),
{
}

/// A file is refused as unsupported exactly when its format is none of `txt`, `md`
/// and `pdf`, whatever was loaded, and the refusal names that format.
pub proof fn lemma_unsupported_iff_unknown_format(path: Seq<u8>, loaded: LoadedModel)
    ensures
        (extraction(path, loaded) matches Err(ErrorModel::UnsupportedFormat(_))) <==> !(
        format_key(path) == "txt"@ || format_key(path) == "md"@ || format_key(path) == "pdf"@),
        extraction(path, loaded) matches Err(ErrorModel::UnsupportedFormat(e)) ==> e
            == format_key(path),
{
}

/// A text or Markdown file whose bytes are UTF-8 and not blank yields exactly its decoded
/// contents, every character of it; and whatever text a text file yields encodes back
/// to exactly the file's bytes.
pub proof fn lemma_text_file_yields_its_whole_contents(path: Seq<u8>, bytes: Seq<u8>)
    requires
        format_key(path) == "txt"@ || format_key(path) == "md"@,
    ensures
        valid_utf8(bytes) && !is_blank_text(decode_utf8(bytes)) ==> extraction(
            path,
            LoadedModel::Text(Ok(bytes)),
        ) == Ok::<Seq<char>, ErrorModel>(decode_utf8(bytes)),
        extraction(path, LoadedModel::Text(Ok(bytes))) matches Ok(t) ==> encode_utf8(t) == bytes,
        valid_utf8(bytes) && is_blank_text(decode_utf8(bytes)) ==> extraction(
            path,
            LoadedModel::Text(Ok(bytes)),
        ) == Err::<Seq<char>, ErrorModel>(
            ErrorModel::Io(IoErrorKind::InvalidData, "El archivo de texto está vacío."@),
        ),
        !valid_utf8(bytes) ==> extraction(path, LoadedModel::Text(Ok(bytes))) == Err::<
            Seq<char>,
            ErrorModel,
        >(ErrorModel::Io(IoErrorKind::InvalidData, "stream did not contain valid UTF-8"@)),
{
    if valid_utf8(bytes) {
        decode_utf8_encode_utf8(bytes);
    }
}

/// A PDF whose extracted text is not blank yields exactly that text; a PDF yields text
/// only when its extraction gave that very text.
pub proof fn lemma_pdf_file_yields_its_extracted_text(
    path: Seq<u8>,
    loaded: Result<Result<Seq<char>, Seq<char>>, (IoErrorKind, Seq<char>)>,
)
    requires
        format_key(path) == "pdf"@,
    ensures
        loaded matches Ok(Ok(t)) ==> (!is_blank_text(t) ==> extraction(
            path,
            LoadedModel::Pdf(loaded),
        ) == Ok::<Seq<char>, ErrorModel>(t)),
        extraction(path, LoadedModel::Pdf(loaded)) matches Ok(t) ==> loaded == Ok::<
            Result<Seq<char>, Seq<char>>,
            (IoErrorKind, Seq<char>),
        >(Ok(t)),
        loaded matches Ok(Err(m)) ==> extraction(path, LoadedModel::Pdf(loaded)) == Err::<
            Seq<char>,
            ErrorModel,
        >(ErrorModel::Pdf(m)),
{
}

/// A file of a supported format that could not be read gives the read error, its kind
/// and message unchanged.
pub proof fn lemma_read_errors_pass_through(path: Seq<u8>, kind: IoErrorKind, message: Seq<char>)
    requires
        format_key(path) == "txt"@ || format_key(path) == "md"@ || format_key(path) == "pdf"@,
    ensures
        extraction(path, LoadedModel::Text(Err((kind, message)))) == Err::<Seq<char>, ErrorModel>(
            ErrorModel::Io(kind, message),
        ),
        extraction(path, LoadedModel::Pdf(Err((kind, message)))) == Err::<Seq<char>, ErrorModel>(
            ErrorModel::Io(kind, message),
        ),
{
}

/// The text of each error: the read error's message, the PDF error's message and the
/// refused extension, each after its fixed opening.
pub proof fn lemma_error_messages(kind: IoErrorKind, m: Seq<char>)
    ensures
        error_message(ErrorModel::Io(kind, m)) == "Error al leer el archivo: "@ + m,
        error_message(ErrorModel::Pdf(m)) == "Error al procesar el PDF: "@ + m,
        error_message(ErrorModel::UnsupportedFormat(m)) == "Formato no soportado: '."@ + m
            + "'. Usá .pdf o .txt"@,
{
}

} // verus!
