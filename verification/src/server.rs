//! The decisions of the web endpoint that processes an uploaded document: reading
//! the form, extracting the text, building the prompt and answering. Receiving the
//! request, reading the environment, extracting the text of an uploaded PDF with
//! `pdf-extract` (which panics on some malformed documents) and calling the model
//! happen outside the library, which hands each outcome to the next step here.

use vstd::prelude::*;
use vstd::utf8::*;

use crate::gemini::{mode_prompt_text, prompt_for_mode, truncatable};
use crate::extractor::{no_pdf_text_message, pdf_file_outcome, ErrorModel};
use crate::text::{
    ascii_lower, decode_utf8_bytes, is_ascii_text, is_blank, is_blank_text, join2, lowercase,
    same_text, to_lowercase,
};

verus! {

/// HTTP status of a successful answer.
pub const STATUS_OK: u16 = 200;

/// HTTP status of a request that cannot be processed.
pub const STATUS_BAD_REQUEST: u16 = 400;

/// HTTP status of a failure on the server's side.
pub const STATUS_INTERNAL_ERROR: u16 = 500;

/// The body of every answer of the endpoint.
pub struct ApiResponse {
    pub success: bool,
    pub result: Option<String>,
    pub error: Option<String>,
    pub filename: Option<String>,
    pub char_count: Option<usize>,
}

impl ApiResponse {
    /// A successful answer carrying the model's text.
    pub fn ok(result: String, filename: String, char_count: usize) -> (r: Self)
        ensures
            r.success,
            r.result == Some(result),
            r.error is None,
            r.filename == Some(filename),
            r.char_count == Some(char_count),
    {
        Self {
            success: true,
            result: Some(result),
            error: None,
            filename: Some(filename),
            char_count: Some(char_count),
        }
    }

    /// A failed answer carrying an error message.
    pub fn err(error: String, filename: Option<String>) -> (r: Self)
        ensures
            !r.success,
            r.result is None,
            r.error == Some(error),
            r.filename == filename,
            r.char_count is None,
    {
        Self { success: false, result: None, error: Some(error), filename, char_count: None }
    }
}

/// An answer of the endpoint: its status and body.
pub struct Reply {
    pub status: u16,
    pub body: ApiResponse,
}

/// A well-formed answer: it succeeds exactly when its status is 200; a success
/// carries a result, the file name and the size and no error; a failure carries an
/// error and neither result nor size.
pub open spec fn well_formed_reply(r: Reply) -> bool {
    &&& (r.status == STATUS_OK) == r.body.success
    &&& r.body.success ==> {
        &&& r.body.result is Some
        &&& r.body.error is None
        &&& r.body.filename is Some
        &&& r.body.char_count is Some
    }
    &&& !r.body.success ==> {
        &&& r.body.result is None
        &&& r.body.error is Some
        &&& r.body.char_count is None
    }
}

/// The failed answer with `status` and `message`.
pub open spec fn failure(r: Reply, status: u16, message: Seq<char>, filename: Option<String>) -> bool {
    &&& r.status == status
    &&& !r.body.success
    &&& r.body.result is None
    &&& r.body.error matches Some(e) && e@ == message
    &&& r.body.filename == filename
    &&& r.body.char_count is None
}

/// The fields of the upload form.
pub struct FormData {
    pub file_bytes: Vec<u8>,
    pub filename: String,
    pub mode: String,
    pub idioma: String,
    pub largo: bool,
}

/// What a form field is, by its name.
#[derive(Debug, PartialEq, Eq, Structural)]
pub enum FieldKind {
    File,
    Mode,
    Idioma,
    Largo,
    Other,
}

/// The kind of a field named `name` (`None` when the field has no name).
pub open spec fn kind_of_field(name: Option<Seq<char>>) -> FieldKind {
    match name {
        Some(n) => if n == "file"@ {
            FieldKind::File
        } else if n == "mode"@ {
            FieldKind::Mode
        } else if n == "idioma"@ {
            FieldKind::Idioma
        } else if n == "largo"@ {
            FieldKind::Largo
        } else {
            FieldKind::Other
        },
        None => FieldKind::Other,
    }
}

/// The kind of the form field with the given name.
pub fn field_kind(name: Option<&str>) -> (k: FieldKind)
    ensures
        k == kind_of_field(
            match name {
                Some(n) => Some(n@),
                None => None,
            },
        ),
{
    match name {
        Some(n) => {
            if same_text(n, "file") {
                FieldKind::File
            } else if same_text(n, "mode") {
                FieldKind::Mode
            } else if same_text(n, "idioma") {
                FieldKind::Idioma
            } else if same_text(n, "largo") {
                FieldKind::Largo
            } else {
                FieldKind::Other
            }
        },
        None => FieldKind::Other,
    }
}

/// What asking the form for its next field gave.
#[derive(Debug, PartialEq, Eq, Structural)]
pub enum FieldEvent {
    /// A field arrived.
    Field,
    /// The form has no more fields.
    End,
    /// The next field could not be read.
    Failed,
}

/// Whether reading the form goes on after `event`: only an arrived field keeps it
/// going. The end of the form and a field that could not be read both stop it, and the
/// form is then finished with the fields read so far.
pub fn keeps_reading(event: FieldEvent) -> (b: bool)
    ensures
        b <==> event == FieldEvent::Field,
{
    match event {
        FieldEvent::Field => true,
        FieldEvent::End => false,
        FieldEvent::Failed => false,
    }
}

/// The form as its fields arrive: the file, if one came, and the other values, which
/// start at their defaults.
pub struct FormBuilder {
    pub file_bytes: Option<Vec<u8>>,
    pub filename: String,
    pub mode: String,
    pub idioma: String,
    pub largo: bool,
}

impl FormBuilder {
    /// A form with no file, named `"documento"`, in mode `"resumen"`, in `"español"`, short.
    pub fn new() -> (f: Self)
        ensures
            f.file_bytes is None,
            f.filename@ == "documento"@,
            f.mode@ == "resumen"@,
            f.idioma@ == "español"@,
            !f.largo,
    {
        FormBuilder {
            file_bytes: None,
            filename: String::from_str("documento"),
            mode: String::from_str("resumen"),
            idioma: String::from_str("español"),
            largo: false,
        }
    }

    /// Takes the file field: its file name (`"documento"` when it has none) and its
    /// bytes; a failure to read the bytes ends the form with that message.
    pub fn add_file(&mut self, file_name: Option<String>, bytes: Result<Vec<u8>, String>) -> (r:
        Result<(), String>)
        ensures
            final(self).filename@ == (match file_name {
                Some(n) => n@,
                None => "documento"@,
            }),
            final(self).mode == old(self).mode,
            final(self).idioma == old(self).idioma,
            final(self).largo == old(self).largo,
            match bytes {
                Ok(b) => r is Ok && final(self).file_bytes == Some(b),
                Err(m) => r == Err::<(), String>(m) && final(self).file_bytes == old(
                    self,
                ).file_bytes,
            },
    {
        self.filename = match file_name {
            Some(n) => n,
            None => String::from_str("documento"),
        };
        match bytes {
            Ok(b) => {
                self.file_bytes = Some(b);
                Ok(())
            },
            Err(m) => Err(m),
        }
    }

    /// Takes a text field of the given kind; a value that could not be read leaves
    /// the form unchanged. `largo` is set exactly when the value is `"true"`.
    pub fn add_text(&mut self, kind: FieldKind, value: Option<String>)
        ensures
            final(self).file_bytes == old(self).file_bytes,
            final(self).filename == old(self).filename,
            final(self).mode == (match (kind, value) {
                (FieldKind::Mode, Some(v)) => v,
                _ => old(self).mode,
            }),
            final(self).idioma == (match (kind, value) {
                (FieldKind::Idioma, Some(v)) => v,
                _ => old(self).idioma,
            }),
            final(self).largo == (match (kind, value) {
                (FieldKind::Largo, Some(v)) => v@ == "true"@,
                _ => old(self).largo,
            }),
    {
        match value {
            Some(v) => match kind {
                FieldKind::Mode => {
                    self.mode = v;
                },
                FieldKind::Idioma => {
                    self.idioma = v;
                },
                FieldKind::Largo => {
                    self.largo = same_text(v.as_str(), "true");
                },
                _ => {},
            },
            None => {},
        }
    }

    /// The complete form, or the error for a form without a file.
    pub fn finish(self) -> (r: Result<FormData, String>)
        ensures
            match self.file_bytes {
                Some(b) => r matches Ok(f) && f.file_bytes == b && f.filename == self.filename
                    && f.mode == self.mode && f.idioma == self.idioma && f.largo == self.largo,
                None => r matches Err(m) && m@ == "No se recibió ningún archivo."@,
            },
    {
        match self.file_bytes {
            Some(b) => Ok(
                FormData {
                    file_bytes: b,
                    filename: self.filename,
                    mode: self.mode,
                    idioma: self.idioma,
                    largo: self.largo,
                },
            ),
            None => Err(String::from_str("No se recibió ningún archivo.")),
        }
    }
}

/// What follows the last `.` of a file name, or the whole name when it has none.
pub open spec fn after_last_dot(s: Seq<char>) -> Seq<char>
    decreases s.len(),
{
    if s.len() == 0 {
        s
    } else if s.last() == '.' {
        Seq::empty()
    } else {
        after_last_dot(s.drop_last()).push(s.last())
    }
}

/// What follows the last `.` starts at `k` when `k` follows a `.` (or is 0) and no `.` comes after it.
proof fn lemma_after_last_dot(s: Seq<char>, k: int)
    requires
        0 <= k <= s.len(),
        forall|j: int| k <= j < s.len() ==> s[j] != '.',
        k == 0 || s[k - 1] == '.',
    ensures
        after_last_dot(s) == s.skip(k),
    decreases s.len(),
{
    if s.len() == k {
        if k == 0 {
            assert(s.skip(0) =~= s);
        } else {
            assert(s.skip(k) =~= Seq::<char>::empty());
        }
    } else {
        if k > 0 {
            assert(s.drop_last()[k - 1] == s[k - 1]);
        }
        lemma_after_last_dot(s.drop_last(), k);
        assert(s.drop_last().skip(k).push(s.last()) =~= s.skip(k));
    }
}

/// The lowercased extension of an uploaded file's name, which decides how it is read.
pub open spec fn upload_format(filename: Seq<char>) -> Seq<char> {
    lowercase(after_last_dot(filename))
}

/// The lowercased text after the last `.` of `filename`.
pub fn upload_extension(filename: &str) -> (r: String)
    ensures
        r@ == upload_format(filename@),
        is_ascii_text(after_last_dot(filename@)) ==> r@ == after_last_dot(filename@).map_values(
            |c: char| ascii_lower(c),
        ),
{
    let n = filename.unicode_len();
    let mut k: usize = 0;
    let mut i: usize = 0;
    for c in it: filename.chars()
        invariant
            it.seq() == filename@,
            n == filename@.len(),
            i == it.index(),
            k <= i,
            forall|j: int| k <= j < i ==> filename@[j] != '.',
            k == 0 || filename@[k - 1] == '.',
    {
        if c == '.' {
            k = i + 1;
        }
        i = i + 1;
    }
    proof {
        lemma_after_last_dot(filename@, k as int);
        assert(filename@.subrange(k as int, n as int) =~= filename@.skip(k as int));
    }
    let tail = filename.substring_char(k, n);
    to_lowercase(tail)
}

/// What the outcome of extracting an uploaded PDF yields.
pub open spec fn upload_pdf_outcome(extracted: Result<Seq<char>, Seq<char>>) -> Result<
    Seq<char>,
    Seq<char>,
> {
    match extracted {
        Err(m) => Err("Error al procesar el PDF: "@ + m),
        Ok(t) => if is_blank_text(t) {
            Err(no_pdf_text_message())
        } else {
            Ok(t)
        },
    }
}

/// What an uploaded file that is not a PDF yields, given its lowercased extension:
/// its UTF-8 text for `txt` and `md`, the refusal of any other format.
pub open spec fn upload_text_outcome(bytes: Seq<u8>, format: Seq<char>) -> Result<
    Seq<char>,
    Seq<char>,
> {
    if format == "txt"@ || format == "md"@ {
        if valid_utf8(bytes) {
            Ok(decode_utf8(bytes))
        } else {
            Err("El archivo de texto no tiene codificación UTF-8 válida."@)
        }
    } else {
        Err("Formato '."@ + format + "' no soportado. Usá PDF, TXT o MD."@)
    }
}

/// The value of a text-or-message outcome.
pub open spec fn text_view(r: Result<String, String>) -> Result<Seq<char>, Seq<char>> {
    match r {
        Ok(t) => Ok(t@),
        Err(m) => Err(m@),
    }
}

/// Decides what the outcome of extracting an uploaded PDF yields.
pub fn check_upload_pdf(extracted: Result<String, String>) -> (r: Result<String, String>)
    ensures
        text_view(r) == upload_pdf_outcome(text_view(extracted)),
{
    match extracted {
        Err(m) => Err(join2("Error al procesar el PDF: ", m.as_str())),
        Ok(text) => {
            if is_blank(text.as_str()) {
                Err(
                    String::from_str(
                        "No se pudo extraer texto del PDF (puede ser una imagen escaneada).",
                    ),
                )
            } else {
                Ok(text)
            }
        },
    }
}

/// What extracting the text of an uploaded file comes to.
pub enum TextStep {
    /// The text of the file, or the error message.
    Done(Result<String, String>),
    /// The file is a PDF: its text comes from `pdf_extract::extract_text_from_mem`,
    /// whose outcome [`check_upload_pdf`] takes.
    ExtractPdf,
}

/// Extracts the text of an uploaded file according to its lowercased extension `ext`,
/// or says that it is a PDF whose text `pdf-extract` gives.
pub fn extract_text(bytes: &[u8], ext: &str) -> (r: TextStep)
    ensures
        ext@ == "pdf"@ ==> r is ExtractPdf,
        ext@ != "pdf"@ ==> (r matches TextStep::Done(t) && text_view(t) == upload_text_outcome(
            bytes@,
            ext@,
        )),
{
    if same_text(ext, "pdf") {
        TextStep::ExtractPdf
    } else if same_text(ext, "txt") || same_text(ext, "md") {
        match decode_utf8_bytes(bytes) {
            Some(t) => TextStep::Done(Ok(t)),
            None => TextStep::Done(
                Err(String::from_str("El archivo de texto no tiene codificación UTF-8 válida.")),
            ),
        }
    } else {
        let mut m = join2("Formato '.", ext);
        m.append("' no soportado. Usá PDF, TXT o MD.");
        TextStep::Done(Err(m))
    }
}

/// The answer when the model's key is not configured.
pub fn check_api_key(key: Option<String>) -> (r: Result<String, Reply>)
    ensures
        match key {
            Some(k) => r == Ok::<String, Reply>(k),
            None => r matches Err(reply) && well_formed_reply(reply) && failure(
                reply,
                STATUS_INTERNAL_ERROR,
                "GEMINI_API_KEY no configurada."@,
                None,
            ),
        },
{
    match key {
        Some(k) => Ok(k),
        None => Err(
            Reply {
                status: STATUS_INTERNAL_ERROR,
                body: ApiResponse::err(String::from_str("GEMINI_API_KEY no configurada."), None),
            },
        ),
    }
}

/// An uploaded document whose text has been extracted, with what the prompt needs.
pub struct Upload {
    pub text: String,
    pub filename: String,
    pub char_count: usize,
    pub mode: String,
    pub idioma: String,
    pub largo: bool,
}

/// An uploaded PDF waiting for the outcome of extracting its text.
pub struct PendingPdf {
    pub bytes: Vec<u8>,
    pub filename: String,
    pub mode: String,
    pub idioma: String,
    pub largo: bool,
}

/// Where an upload stands once its form is read: its text is extracted, or it is a
/// PDF whose text `pdf_extract::extract_text_from_mem` is to give.
pub enum UploadStep {
    Done(Upload),
    ExtractPdf(PendingPdf),
}

/// `u` is the upload of the text `t` with the given name and settings; its size is the
/// UTF-8 length of `t` in bytes.
pub open spec fn upload_of(
    u: Upload,
    t: Seq<char>,
    filename: String,
    mode: String,
    idioma: String,
    largo: bool,
) -> bool {
    &&& u.text@ == t
    &&& u.filename == filename
    &&& u.char_count == encode_utf8(t).len()
    &&& u.mode == mode
    &&& u.idioma == idioma
    &&& u.largo == largo
}

/// For a file name whose extension is ASCII, the format is that extension with its
/// ASCII letters lowercased.
pub open spec fn ascii_upload_format_known(filename: Seq<char>) -> bool {
    is_ascii_text(after_last_dot(filename)) ==> upload_format(filename) == after_last_dot(
        filename,
    ).map_values(|c: char| ascii_lower(c))
}

/// The upload of `text`, or the failed answer for a text that could not be extracted.
fn text_upload(
    extracted: Result<String, String>,
    filename: String,
    mode: String,
    idioma: String,
    largo: bool,
) -> (r: Result<Upload, Reply>)
    ensures
        match text_view(extracted) {
            Err(m) => r matches Err(reply) && well_formed_reply(reply) && failure(
                reply,
                STATUS_BAD_REQUEST,
                m,
                Some(filename),
            ),
            Ok(t) => r matches Ok(u) && upload_of(u, t, filename, mode, idioma, largo),
        },
{
    match extracted {
        Err(e) => Err(Reply { status: STATUS_BAD_REQUEST, body: ApiResponse::err(e, Some(filename)) }),
        Ok(text) => {
            let char_count = text.as_str().as_bytes().len();
            Ok(Upload { text, filename, char_count, mode, idioma, largo })
        },
    }
}

/// Turns the parsed form into an extracted document, into a PDF whose text is still to
/// be extracted, or into the failed answer: a bad form is a 400 without file name; a
/// file whose text cannot be extracted is a 400 with its name.
pub fn read_upload(form: Result<FormData, String>) -> (r: Result<UploadStep, Reply>)
    ensures
        match form {
            Err(m) => r matches Err(reply) && well_formed_reply(reply) && failure(
                reply,
                STATUS_BAD_REQUEST,
                m@,
                None,
            ),
            Ok(f) => ascii_upload_format_known(f.filename@) && if upload_format(f.filename@)
                == "pdf"@ {
                (r matches Ok(UploadStep::ExtractPdf(p)) && p.bytes == f.file_bytes && p.filename
                    == f.filename && p.mode == f.mode && p.idioma == f.idioma && p.largo
                    == f.largo)
            } else {
                match upload_text_outcome(f.file_bytes@, upload_format(f.filename@)) {
                    Err(m) => r matches Err(reply) && well_formed_reply(reply) && failure(
                        reply,
                        STATUS_BAD_REQUEST,
                        m,
                        Some(f.filename),
                    ),
                    Ok(t) => r matches Ok(UploadStep::Done(u)) && upload_of(
                        u,
                        t,
                        f.filename,
                        f.mode,
                        f.idioma,
                        f.largo,
                    ),
                }
            },
        },
{
    match form {
        Err(e) => Err(Reply { status: STATUS_BAD_REQUEST, body: ApiResponse::err(e, None) }),
        Ok(f) => {
            let ext = upload_extension(f.filename.as_str());
            match extract_text(f.file_bytes.as_slice(), ext.as_str()) {
                TextStep::ExtractPdf => Ok(
                    UploadStep::ExtractPdf(
                        PendingPdf {
                            bytes: f.file_bytes,
                            filename: f.filename,
                            mode: f.mode,
                            idioma: f.idioma,
                            largo: f.largo,
                        },
                    ),
                ),
                TextStep::Done(extracted) => match text_upload(
                    extracted,
                    f.filename,
                    f.mode,
                    f.idioma,
                    f.largo,
                ) {
                    Ok(u) => Ok(UploadStep::Done(u)),
                    Err(reply) => Err(reply),
                },
            }
        },
    }
}

/// Finishes an uploaded PDF with the outcome of extracting its text: the document, or a
/// 400 with its name when the extraction failed or found no text.
pub fn finish_pdf_upload(pending: PendingPdf, extracted: Result<String, String>) -> (r: Result<
    Upload,
    Reply,
>)
    ensures
        match upload_pdf_outcome(text_view(extracted)) {
            Err(m) => r matches Err(reply) && well_formed_reply(reply) && failure(
                reply,
                STATUS_BAD_REQUEST,
                m,
                Some(pending.filename),
            ),
            Ok(t) => r matches Ok(u) && upload_of(
                u,
                t,
                pending.filename,
                pending.mode,
                pending.idioma,
                pending.largo,
            ),
        },
{
    text_upload(
        check_upload_pdf(extracted),
        pending.filename,
        pending.mode,
        pending.idioma,
        pending.largo,
    )
}

/// The prompt for an uploaded document.
pub fn upload_prompt(upload: &Upload) -> (r: String)
    requires
        truncatable(upload.text@),
    ensures
        r@ == mode_prompt_text(upload.mode@, upload.text@, upload.idioma@, upload.largo),
{
    prompt_for_mode(upload.mode.as_str(), upload.text.as_str(), upload.idioma.as_str(), upload.largo)
}

/// The answer once the model has replied: its text with a 200, or its error with a 500.
pub fn answer_reply(answer: Result<String, String>, filename: String, char_count: usize) -> (r: Reply)
    ensures
        well_formed_reply(r),
        match answer {
            Ok(t) => r.status == STATUS_OK && r.body.result == Some(t) && r.body.filename == Some(
                filename,
            ) && r.body.char_count == Some(char_count),
            Err(m) => failure(r, STATUS_INTERNAL_ERROR, m@, Some(filename)),
        },
{
    match answer {
        Ok(result) => Reply { status: STATUS_OK, body: ApiResponse::ok(result, filename, char_count) },
        Err(e) => Reply { status: STATUS_INTERNAL_ERROR, body: ApiResponse::err(e, Some(filename)) },
    }
}

/// An uploaded PDF and the same PDF read from disk, given the same outcome of
/// `pdf-extract`, give the same text, and fail together.
pub proof fn lemma_pdf_upload_agrees_with_file(extracted: Result<Seq<char>, Seq<char>>)
    ensures
        upload_pdf_outcome(extracted) is Ok <==> pdf_file_outcome(Ok(extracted)) is Ok,
        upload_pdf_outcome(extracted) matches Ok(t) ==> pdf_file_outcome(Ok(extracted)) == Ok::<
            Seq<char>,
            ErrorModel,
        >(t),
{
}

/// A `txt` or `md` upload whose bytes are UTF-8 yields exactly its decoded bytes, every
/// character of them; any text such an upload yields encodes back to exactly the
/// uploaded bytes, so the size reported for it is the number of bytes uploaded.
pub proof fn lemma_text_upload_is_its_whole_contents(bytes: Seq<u8>, format: Seq<char>)
    requires
        format == "txt"@ || format == "md"@,
    ensures
        valid_utf8(bytes) ==> upload_text_outcome(bytes, format) == Ok::<Seq<char>, Seq<char>>(
            decode_utf8(bytes),
        ),
        upload_text_outcome(bytes, format) matches Ok(t) ==> encode_utf8(t) == bytes
            && encode_utf8(t).len() == bytes.len(),
        !valid_utf8(bytes) ==> upload_text_outcome(bytes, format) == Err::<Seq<char>, Seq<char>>(
            "El archivo de texto no tiene codificación UTF-8 válida."@,
        ),
{
    if valid_utf8(bytes) {
        decode_utf8_encode_utf8(bytes);
    }
}

/// An upload whose format is none of `txt`, `md` and `pdf` is refused, naming its format.
pub proof fn lemma_other_uploads_are_refused(bytes: Seq<u8>, format: Seq<char>)
    requires
        format != "txt"@ && format != "md"@ && format != "pdf"@,
    ensures
        upload_text_outcome(bytes, format) == Err::<Seq<char>, Seq<char>>(
            "Formato '."@ + format + "' no soportado. Usá PDF, TXT o MD."@,
        ),
{
}

/// An uploaded PDF whose extracted text is not blank yields exactly that text; it
/// yields text only when the extraction gave that very text; a failed extraction is
/// reported with its message.
pub proof fn lemma_pdf_upload_yields_its_extracted_text(extracted: Result<Seq<char>, Seq<char>>)
    ensures
        extracted matches Ok(t) ==> (!is_blank_text(t) ==> upload_pdf_outcome(extracted) == Ok::<
            Seq<char>,
            Seq<char>,
        >(t)),
        upload_pdf_outcome(extracted) matches Ok(t) ==> extracted == Ok::<Seq<char>, Seq<char>>(t),
        extracted matches Err(m) ==> upload_pdf_outcome(extracted) == Err::<Seq<char>, Seq<char>>(
            "Error al procesar el PDF: "@ + m,
        ),
{
}

/// The extension of an uploaded file's name is what follows its last `.`: a suffix of
/// the name holding no `.`, which is the whole name when it has no `.` and otherwise
/// comes right after a `.`.
pub proof fn lemma_upload_extension_follows_the_last_dot(name: Seq<char>)
    ensures
        after_last_dot(name).len() <= name.len(),
        after_last_dot(name) == name.skip(name.len() - after_last_dot(name).len()),
        forall|j: int| 0 <= j < after_last_dot(name).len() ==> after_last_dot(name)[j] != '.',
        after_last_dot(name).len() < name.len() ==> name[name.len() - after_last_dot(name).len()
            - 1] == '.',
        after_last_dot(name).len() == name.len() ==> forall|j: int| 0 <= j < name.len() ==> name[j]
            != '.',
    decreases name.len(),
{
    if name.len() > 0 {
        if name.last() == '.' {
            assert(name.skip(name.len() as int) =~= Seq::<char>::empty());
        } else {
            let rest = name.drop_last();
            lemma_upload_extension_follows_the_last_dot(rest);
            let a = after_last_dot(rest);
            assert(after_last_dot(name) == a.push(name.last()));
            assert(name.skip(name.len() - a.len() - 1) =~= rest.skip(rest.len() - a.len()).push(
                name.last(),
            ));
            assert forall|j: int| 0 <= j < a.len() + 1 implies a.push(name.last())[j] != '.' by {
                if j < a.len() {
                    assert(a.push(name.last())[j] == a[j]);
                }
            }
            if a.len() < rest.len() {
                assert(name[name.len() - a.len() - 2] == rest[rest.len() - a.len() - 1]);
            } else {
                assert forall|j: int| 0 <= j < name.len() implies name[j] != '.' by {
                    if j < rest.len() {
                        assert(name[j] == rest[j]);
                    }
                }
            }
        }
    } else {
        assert(name.skip(0) =~= name);
    }
}

} // verus!
