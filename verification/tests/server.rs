use lexia::gemini::{keypoints_prompt, summary_prompt};
use lexia::server::{
    answer_reply, check_api_key, check_upload_pdf, extract_text, field_kind, finish_pdf_upload,
    keeps_reading, read_upload, upload_extension, upload_prompt, ApiResponse, FieldEvent, FieldKind,
    FormBuilder, FormData, TextStep, Upload, UploadStep, STATUS_BAD_REQUEST, STATUS_INTERNAL_ERROR,
    STATUS_OK,
};

/// The text of a file whose extraction is done.
fn done(step: TextStep) -> Result<String, String> {
    match step {
        TextStep::Done(r) => r,
        TextStep::ExtractPdf => panic!("unexpected PDF step"),
    }
}

/// The upload of a file whose text is extracted.
fn uploaded(step: UploadStep) -> Upload {
    match step {
        UploadStep::Done(u) => u,
        UploadStep::ExtractPdf(_) => panic!("unexpected PDF step"),
    }
}

fn form(filename: &str, bytes: &[u8]) -> FormData {
    FormData {
        file_bytes: bytes.to_vec(),
        filename: filename.to_string(),
        mode: "resumen".to_string(),
        idioma: "español".to_string(),
        largo: false,
    }
}

#[test]
fn ok_response_fields() {
    let r = ApiResponse::ok("resumen".to_string(), "a.txt".to_string(), 12);
    assert!(r.success);
    assert_eq!(r.result, Some("resumen".to_string()));
    assert_eq!(r.error, None);
    assert_eq!(r.filename, Some("a.txt".to_string()));
    assert_eq!(r.char_count, Some(12));
}

#[test]
fn err_response_fields() {
    let r = ApiResponse::err("falló".to_string(), None);
    assert!(!r.success);
    assert_eq!(r.result, None);
    assert_eq!(r.error, Some("falló".to_string()));
    assert_eq!(r.filename, None);
    assert_eq!(r.char_count, None);
}

#[test]
fn field_kinds() {
    assert_eq!(field_kind(Some("file")), FieldKind::File);
    assert_eq!(field_kind(Some("mode")), FieldKind::Mode);
    assert_eq!(field_kind(Some("idioma")), FieldKind::Idioma);
    assert_eq!(field_kind(Some("largo")), FieldKind::Largo);
    assert_eq!(field_kind(Some("otro")), FieldKind::Other);
    assert_eq!(field_kind(Some("File")), FieldKind::Other);
    assert_eq!(field_kind(None), FieldKind::Other);
}

#[test]
fn form_defaults() {
    let mut b = FormBuilder::new();
    assert_eq!(b.add_file(None, Ok(vec![1, 2, 3])), Ok(()));
    let f = b.finish().unwrap();
    assert_eq!(f.file_bytes, vec![1, 2, 3]);
    assert_eq!(f.filename, "documento");
    assert_eq!(f.mode, "resumen");
    assert_eq!(f.idioma, "español");
    assert!(!f.largo);
}

#[test]
fn form_without_file_is_refused() {
    let mut b = FormBuilder::new();
    b.add_text(FieldKind::Mode, Some("puntos-clave".to_string()));
    assert_eq!(b.finish().err(), Some("No se recibió ningún archivo.".to_string()));
}

#[test]
fn form_fields_are_taken() {
    let mut b = FormBuilder::new();
    b.add_text(FieldKind::Mode, Some("puntos-clave".to_string()));
    b.add_text(FieldKind::Idioma, Some("inglés".to_string()));
    b.add_text(FieldKind::Largo, Some("true".to_string()));
    b.add_text(FieldKind::Idioma, None);
    assert_eq!(b.add_file(Some("Informe.PDF".to_string()), Ok(vec![9])), Ok(()));
    let f = b.finish().unwrap();
    assert_eq!(f.mode, "puntos-clave");
    assert_eq!(f.idioma, "inglés");
    assert!(f.largo);
    assert_eq!(f.filename, "Informe.PDF");
}

#[test]
fn largo_only_for_exact_true() {
    let mut b = FormBuilder::new();
    b.add_text(FieldKind::Largo, Some("TRUE".to_string()));
    assert!(!b.largo);
    b.add_text(FieldKind::Largo, Some("true".to_string()));
    assert!(b.largo);
    b.add_text(FieldKind::Largo, Some("1".to_string()));
    assert!(!b.largo);
}

#[test]
fn failed_file_read_ends_the_form() {
    let mut b = FormBuilder::new();
    assert_eq!(b.add_file(Some("a.txt".to_string()), Err("corte".to_string())), Err("corte".to_string()));
    assert_eq!(b.file_bytes, None);
}

#[test]
fn upload_extensions() {
    assert_eq!(upload_extension("Informe.PDF"), "pdf");
    assert_eq!(upload_extension("documento"), "documento");
    assert_eq!(upload_extension("a.b.C"), "c");
    assert_eq!(upload_extension("fin."), "");
    assert_eq!(upload_extension(".env"), "env");
}

#[test]
fn upload_text_extraction() {
    assert_eq!(done(extract_text(b"hola", "txt")), Ok("hola".to_string()));
    assert_eq!(done(extract_text(b"   ", "md")), Ok("   ".to_string()));
    assert_eq!(
        done(extract_text(&[0xff, 0x00], "txt")),
        Err("El archivo de texto no tiene codificación UTF-8 válida.".to_string())
    );
    assert_eq!(
        done(extract_text(b"x", "docx")),
        Err("Formato '.docx' no soportado. Usá PDF, TXT o MD.".to_string())
    );
}

#[test]
fn upload_pdf_outcomes() {
    assert_eq!(check_upload_pdf(Err("PDF error: x".to_string())), Err("Error al procesar el PDF: PDF error: x".to_string()));
    assert_eq!(
        check_upload_pdf(Ok("\n".to_string())),
        Err("No se pudo extraer texto del PDF (puede ser una imagen escaneada).".to_string())
    );
    assert_eq!(check_upload_pdf(Ok("t".to_string())), Ok("t".to_string()));
    assert!(matches!(extract_text(b"no es pdf", "pdf"), TextStep::ExtractPdf));
}

#[test]
fn missing_key_is_a_server_error() {
    let reply = check_api_key(None).err().unwrap();
    assert_eq!(reply.status, STATUS_INTERNAL_ERROR);
    assert!(!reply.body.success);
    assert_eq!(reply.body.error, Some("GEMINI_API_KEY no configurada.".to_string()));
    assert_eq!(reply.body.filename, None);
    assert_eq!(check_api_key(Some("k".to_string())).ok(), Some("k".to_string()));
}

#[test]
fn bad_form_is_a_bad_request() {
    let reply = read_upload(Err("No se recibió ningún archivo.".to_string())).err().unwrap();
    assert_eq!(reply.status, STATUS_BAD_REQUEST);
    assert_eq!(reply.body.error, Some("No se recibió ningún archivo.".to_string()));
    assert_eq!(reply.body.filename, None);
}

#[test]
fn unreadable_upload_names_the_file() {
    let reply = read_upload(Ok(form("foto.jpg", b"x"))).err().unwrap();
    assert_eq!(reply.status, STATUS_BAD_REQUEST);
    assert_eq!(reply.body.error, Some("Formato '.jpg' no soportado. Usá PDF, TXT o MD.".to_string()));
    assert_eq!(reply.body.filename, Some("foto.jpg".to_string()));
    assert_eq!(reply.body.char_count, None);
}

#[test]
fn upload_size_counts_bytes() {
    let u = uploaded(read_upload(Ok(form("Notas.TXT", "héllo".as_bytes()))).ok().unwrap());
    assert_eq!(u.text, "héllo");
    assert_eq!(u.char_count, 6);
    assert_eq!(u.filename, "Notas.TXT");
    assert_eq!(upload_prompt(&u), summary_prompt("héllo", "español", false));
}

#[test]
fn upload_prompt_follows_mode() {
    let mut f = form("a.md", b"contenido");
    f.mode = "puntos-clave".to_string();
    let u = uploaded(read_upload(Ok(f)).ok().unwrap());
    assert_eq!(upload_prompt(&u), keypoints_prompt("contenido", "español"));
}

#[test]
fn answers() {
    let ok = answer_reply(Ok("resultado".to_string()), "a.pdf".to_string(), 40);
    assert_eq!(ok.status, STATUS_OK);
    assert!(ok.body.success);
    assert_eq!(ok.body.result, Some("resultado".to_string()));
    assert_eq!(ok.body.char_count, Some(40));
    let failed = answer_reply(Err("Error de API: x".to_string()), "a.pdf".to_string(), 40);
    assert_eq!(failed.status, STATUS_INTERNAL_ERROR);
    assert!(!failed.body.success);
    assert_eq!(failed.body.error, Some("Error de API: x".to_string()));
    assert_eq!(failed.body.filename, Some("a.pdf".to_string()));
    assert_eq!(failed.body.char_count, None);
}

#[test]
fn pdf_upload_waits_for_its_text() {
    let mut f = form("Informe.Pdf", b"%PDF-no");
    f.largo = true;
    let pending = match read_upload(Ok(f)).ok().unwrap() {
        UploadStep::ExtractPdf(p) => p,
        UploadStep::Done(_) => panic!("a PDF needs its text"),
    };
    assert_eq!(pending.bytes, b"%PDF-no".to_vec());
    assert_eq!(pending.filename, "Informe.Pdf");
    assert!(pending.largo);
    let extracted = pdf_extract::extract_text_from_mem(&pending.bytes).map_err(|e| e.to_string());
    let reply = finish_pdf_upload(pending, extracted).err().unwrap();
    assert_eq!(reply.status, STATUS_BAD_REQUEST);
    assert!(reply.body.error.unwrap().starts_with("Error al procesar el PDF: "));
    assert_eq!(reply.body.filename, Some("Informe.Pdf".to_string()));
}

#[test]
fn finished_pdf_uploads() {
    let pending = match read_upload(Ok(form("a.pdf", b"x"))).ok().unwrap() {
        UploadStep::ExtractPdf(p) => p,
        UploadStep::Done(_) => panic!("a PDF needs its text"),
    };
    let u = finish_pdf_upload(pending, Ok("año".to_string())).ok().unwrap();
    assert_eq!(u.text, "año");
    assert_eq!(u.char_count, 4);
    assert_eq!(u.filename, "a.pdf");
    let pending = match read_upload(Ok(form("b.PDF", b"x"))).ok().unwrap() {
        UploadStep::ExtractPdf(p) => p,
        UploadStep::Done(_) => panic!("a PDF needs its text"),
    };
    let reply = finish_pdf_upload(pending, Ok("  ".to_string())).err().unwrap();
    assert_eq!(reply.status, STATUS_BAD_REQUEST);
    assert_eq!(
        reply.body.error,
        Some("No se pudo extraer texto del PDF (puede ser una imagen escaneada).".to_string())
    );
    assert_eq!(reply.body.filename, Some("b.PDF".to_string()));
}

#[test]
fn only_an_arrived_field_keeps_the_form_going() {
    assert!(keeps_reading(FieldEvent::Field));
    assert!(!keeps_reading(FieldEvent::End));
    assert!(!keeps_reading(FieldEvent::Failed));
}
