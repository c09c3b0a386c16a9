use lexia::extractor::{
    check_format, check_pdf_text, extract_text, format_of, read_pdf, read_source, read_txt, source_of,
    Error, IoErrorKind, IoFailure, Loaded, Source, format_of_in, source_of_in,
};
use lexia::analysis::display_name_in;
use lexia::path::{extension_in, path_file_name_in, PathStyle};
use lexia::path::{extension, path_file_name};
use std::path::Path;

fn ok_bytes(s: &str) -> Result<Vec<u8>, IoFailure> {
    Ok(s.as_bytes().to_vec())
}

/// A text file whose bytes are those of `s`.
fn text(s: &str) -> Loaded {
    Loaded::Text(ok_bytes(s))
}

/// What `pdf-extract` makes of `bytes`.
fn pdf_outcome(bytes: &[u8]) -> Result<String, String> {
    pdf_extract::extract_text_from_mem(bytes).map_err(|e| e.to_string())
}

fn io(kind: IoErrorKind, message: &str) -> IoFailure {
    IoFailure { kind, message: message.to_string() }
}

/// A one-page PDF whose page shows `text` in Helvetica, with a correct cross-reference table.
fn minimal_pdf(text: &str) -> Vec<u8> {
    let content = format!("BT /F1 24 Tf 72 720 Td ({}) Tj ET", text);
    let objects = vec![
        "<< /Type /Catalog /Pages 2 0 R >>".to_string(),
        "<< /Type /Pages /Kids [3 0 R] /Count 1 >>".to_string(),
        "<< /Type /Page /Parent 2 0 R /MediaBox [0 0 612 792] /Contents 4 0 R /Resources << /Font << /F1 5 0 R >> >> >>".to_string(),
        format!("<< /Length {} >>\nstream\n{}\nendstream", content.len(), content),
        "<< /Type /Font /Subtype /Type1 /BaseFont /Helvetica >>".to_string(),
    ];
    let mut out = b"%PDF-1.4\n".to_vec();
    let mut offsets = Vec::new();
    for (i, body) in objects.iter().enumerate() {
        offsets.push(out.len());
        out.extend_from_slice(format!("{} 0 obj\n{}\nendobj\n", i + 1, body).as_bytes());
    }
    let xref = out.len();
    out.extend_from_slice(format!("xref\n0 {}\n0000000000 65535 f \n", objects.len() + 1).as_bytes());
    for off in offsets {
        out.extend_from_slice(format!("{:010} 00000 n \n", off).as_bytes());
    }
    out.extend_from_slice(
        format!("trailer\n<< /Size {} /Root 1 0 R >>\nstartxref\n{}\n%%EOF\n", objects.len() + 1, xref).as_bytes(),
    );
    out
}

#[test]
fn txt_file_gives_its_text() {
    assert_eq!(extract_text(b"notas.txt", text("Hola mundo")), Ok("Hola mundo".to_string()));
}

#[test]
fn md_file_gives_its_text() {
    assert_eq!(extract_text(b"docs/README.md", text("# Título\n")), Ok("# Título\n".to_string()));
}

#[test]
fn extension_case_is_ignored() {
    assert_eq!(extract_text(b"NOTAS.TXT", text("abc")), Ok("abc".to_string()));
    assert_eq!(extract_text(b"a/Guia.Md", text("abc")), Ok("abc".to_string()));
}

#[test]
fn blank_text_file_is_refused() {
    assert_eq!(
        extract_text(b"vacio.txt", text(" \n\t\r\u{a0}\u{3000}")),
        Err(Error::Io(io(IoErrorKind::InvalidData, "El archivo de texto está vacío.")))
    );
    assert_eq!(
        extract_text(b"vacio.txt", text("")),
        Err(Error::Io(io(IoErrorKind::InvalidData, "El archivo de texto está vacío.")))
    );
}

#[test]
fn invalid_utf8_text_file_is_refused() {
    assert_eq!(
        extract_text(b"latin1.txt", Loaded::Text(Ok(vec![0x48, 0x6f, 0x6c, 0xe1]))),
        Err(Error::Io(io(IoErrorKind::InvalidData, "stream did not contain valid UTF-8")))
    );
}

#[test]
fn read_error_is_reported() {
    assert_eq!(
        extract_text(b"falta.txt", Loaded::Text(Err(io(IoErrorKind::NotFound, "No such file or directory (os error 2)")))),
        Err(Error::Io(io(IoErrorKind::NotFound, "No such file or directory (os error 2)")))
    );
    assert_eq!(
        extract_text(b"falta.pdf", Loaded::Pdf(Err(io(IoErrorKind::PermissionDenied, "permiso denegado")))),
        Err(Error::Io(io(IoErrorKind::PermissionDenied, "permiso denegado")))
    );
    assert_eq!(
        read_txt(Err(io(IoErrorKind::IsADirectory, "Is a directory (os error 21)"))),
        Err(Error::Io(io(IoErrorKind::IsADirectory, "Is a directory (os error 21)")))
    );
}

#[test]
fn unsupported_formats_are_named() {
    assert_eq!(
        extract_text(b"foto.PNG", text("x")),
        Err(Error::UnsupportedFormat("png".to_string()))
    );
    assert_eq!(
        extract_text(b"archivo.tar.gz", text("x")),
        Err(Error::UnsupportedFormat("gz".to_string()))
    );
    assert_eq!(extract_text(b"Makefile", text("x")), Err(Error::UnsupportedFormat(String::new())));
    assert_eq!(extract_text(b".bashrc", text("x")), Err(Error::UnsupportedFormat(String::new())));
    assert_eq!(extract_text(b"fin.", text("x")), Err(Error::UnsupportedFormat(String::new())));
}

#[test]
fn unsupported_format_wins_over_read_error() {
    assert_eq!(
        extract_text(b"informe.docx", Loaded::Text(Err(io(IoErrorKind::NotFound, "boom")))),
        Err(Error::UnsupportedFormat("docx".to_string()))
    );
}

#[test]
fn non_utf8_extension_counts_as_none() {
    assert_eq!(
        extract_text(&[0x61, 0x2e, 0xff, 0xfe], text("x")),
        Err(Error::UnsupportedFormat(String::new()))
    );
}

#[test]
fn trailing_separators_and_dots_are_passed_over() {
    assert_eq!(extract_text(b"dir/notas.txt/", text("abc")), Ok("abc".to_string()));
    assert_eq!(extract_text(b"dir/notas.txt/.", text("abc")), Ok("abc".to_string()));
    assert_eq!(extract_text(b"dir/notas.txt/..", text("abc")), Err(Error::UnsupportedFormat(String::new())));
}

#[test]
fn format_lowercases_non_ascii_too() {
    assert_eq!(format_of(b"ARCHIVO.PDF"), "pdf");
    assert_eq!(format_of("x.ÉXT".as_bytes()), "éxt");
    assert_eq!(format_of(b"sin_extension"), "");
}

#[test]
fn garbage_pdf_is_a_pdf_error() {
    match extract_text(b"roto.pdf", Loaded::Pdf(Ok(pdf_outcome(b"esto no es un PDF")))) {
        Err(Error::Pdf(m)) => assert!(!m.is_empty()),
        other => panic!("unexpected outcome {:?}", other),
    }
}

#[test]
fn pdf_text_is_extracted() {
    let pdf = minimal_pdf("Hola mundo");
    match read_pdf(Ok(pdf_outcome(&pdf))) {
        Ok(t) => assert!(t.contains("Hola mundo"), "extracted {:?}", t),
        other => panic!("unexpected outcome {:?}", other),
    }
}

#[test]
fn blank_pdf_text_is_refused() {
    assert_eq!(
        check_pdf_text(Ok("  \n\n ".to_string())),
        Err(Error::Pdf("No se pudo extraer texto del PDF (puede ser una imagen escaneada).".to_string()))
    );
    assert_eq!(check_pdf_text(Err("PDF error: bad".to_string())), Err(Error::Pdf("PDF error: bad".to_string())));
    assert_eq!(check_pdf_text(Ok(" texto ".to_string())), Ok(" texto ".to_string()));
}

#[test]
fn read_txt_keeps_surrounding_whitespace() {
    assert_eq!(read_txt(ok_bytes("\n  hola  \n")), Ok("\n  hola  \n".to_string()));
}

#[test]
fn error_messages() {
    assert_eq!(
        Error::Io(io(IoErrorKind::PermissionDenied, "sin permiso")).message(),
        "Error al leer el archivo: sin permiso"
    );
    assert_eq!(Error::Pdf("dañado".to_string()).message(), "Error al procesar el PDF: dañado");
    assert_eq!(
        Error::UnsupportedFormat("png".to_string()).message(),
        "Formato no soportado: '.png'. Usá .pdf o .txt"
    );
}

#[test]
fn path_functions_agree_with_std() {
    let paths = [
        "a.txt", "dir/b.PDF", "/abs/c.md", "noext", ".hidden", "..", ".", "/", "", "a/b/", "a/./",
        "a/b/.", "a/..", "x.tar.gz", "trail.", "..double", "./rel.txt", "a//b.txt", "a.b/c",
        "dir.d/", "é.ÁB",
    ];
    for p in paths.iter() {
        let std_path = Path::new(p);
        let expected_ext = std_path.extension().map(|e| e.to_str().unwrap().as_bytes().to_vec());
        let expected_name = std_path.file_name().map(|n| n.to_str().unwrap().as_bytes().to_vec());
        assert_eq!(extension(p.as_bytes()), expected_ext, "extension of {:?}", p);
        assert_eq!(path_file_name(p.as_bytes()), expected_name, "file name of {:?}", p);
    }
}

#[test]
fn format_decision_comes_before_reading() {
    assert_eq!(source_of(b"a/b/notas.TXT"), Ok(Source::Text));
    assert_eq!(source_of(b"guia.md"), Ok(Source::Text));
    assert_eq!(source_of(b"informe.Pdf"), Ok(Source::Pdf));
    assert_eq!(source_of(b"tabla.csv"), Err(Error::UnsupportedFormat("csv".to_string())));
    assert_eq!(source_of(b"/dev/fifo"), Err(Error::UnsupportedFormat(String::new())));
}

#[test]
fn check_format_knows_three_formats() {
    assert_eq!(check_format("txt"), Ok(Source::Text));
    assert_eq!(check_format("md"), Ok(Source::Text));
    assert_eq!(check_format("pdf"), Ok(Source::Pdf));
    assert_eq!(check_format("TXT"), Err(Error::UnsupportedFormat("TXT".to_string())));
    assert_eq!(check_format(""), Err(Error::UnsupportedFormat(String::new())));
}

#[test]
fn read_source_follows_the_source() {
    assert_eq!(read_source(text("texto")), Ok("texto".to_string()));
    assert_eq!(
        read_source(text("   ")),
        Err(Error::Io(io(IoErrorKind::InvalidData, "El archivo de texto está vacío.")))
    );
    assert_eq!(
        read_source(Loaded::Pdf(Err(io(IoErrorKind::NotFound, "no existe")))),
        Err(Error::Io(io(IoErrorKind::NotFound, "no existe")))
    );
    match read_source(Loaded::Pdf(Ok(pdf_outcome(b"texto")))) {
        Err(Error::Pdf(m)) => assert!(!m.is_empty()),
        other => panic!("unexpected outcome {:?}", other),
    }
}

#[test]
fn pdf_outcomes_are_checked() {
    assert_eq!(read_pdf(Ok(Ok("Hola".to_string()))), Ok("Hola".to_string()));
    assert_eq!(read_pdf(Ok(Err("PDF error: x".to_string()))), Err(Error::Pdf("PDF error: x".to_string())));
    assert_eq!(
        read_pdf(Ok(Ok(" \n ".to_string()))),
        Err(Error::Pdf("No se pudo extraer texto del PDF (puede ser una imagen escaneada).".to_string()))
    );
    assert_eq!(
        extract_text(b"doc.pdf", Loaded::Pdf(Ok(Ok("texto del pdf".to_string())))),
        Ok("texto del pdf".to_string())
    );
}

#[test]
fn windows_file_names() {
    let cases: [(&str, Option<&str>); 20] = [
        (r"dir\nota.txt", Some("nota.txt")),
        (r"C:\docs\Informe.PDF", Some("Informe.PDF")),
        (r"C:nota.md", Some("nota.md")),
        (r"C:", None),
        (r"C:\", None),
        (r"\\server\share", None),
        (r"\\server\share\a.txt", Some("a.txt")),
        (r"//server/share/b.txt", Some("b.txt")),
        (r"\\?\C:\x\y.txt", Some("y.txt")),
        (r"\\?\C:\x/y.txt", Some("x/y.txt")),
        (r"\\?\UNC\srv\sh\z.pdf", Some("z.pdf")),
        (r"\\?\UNC\srv", None),
        (r"\\?\pipe", None),
        (r"\\.\COM1", None),
        (r"a\b\..", None),
        (r"a\b\.", Some("b")),
        (r"\\?\C:\a\.", None),
        (r"dir/sub\file.txt\", Some("file.txt")),
        (r"\\server", Some("server")),
        (r"1:foo", Some("1:foo")),
    ];
    for (path, expected) in cases.iter() {
        assert_eq!(
            path_file_name_in(PathStyle::Windows, path.as_bytes()),
            expected.map(|n| n.as_bytes().to_vec()),
            "file name of {:?}",
            path
        );
    }
}

#[test]
fn windows_formats_and_names() {
    assert_eq!(extension_in(PathStyle::Windows, br"C:\d\Informe.PDF"), Some(b"PDF".to_vec()));
    assert_eq!(format_of_in(PathStyle::Windows, br"C:\d\Informe.PDF"), "pdf");
    assert_eq!(source_of_in(PathStyle::Windows, br"dir\nota.txt"), Ok(Source::Text));
    assert_eq!(
        source_of_in(PathStyle::Unix, br"a.pdf\nota"),
        Err(Error::UnsupportedFormat(r"pdf\nota".to_string()))
    );
    assert_eq!(source_of_in(PathStyle::Windows, br"a.pdf\nota"), Err(Error::UnsupportedFormat(String::new())));
    assert_eq!(display_name_in(PathStyle::Windows, br"C:\docs\resumen.txt"), "resumen.txt");
    assert_eq!(display_name_in(PathStyle::Unix, br"C:\docs\resumen.txt"), r"C:\docs\resumen.txt");
    assert_eq!(display_name_in(PathStyle::Windows, br"C:\"), "desconocido");
}
