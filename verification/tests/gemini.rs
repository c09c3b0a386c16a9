use lexia::gemini::{
    build_request, can_truncate, connection_error, interpret_response, keypoints_prompt,
    prompt_for_mode, read_error, request_url, summary_prompt, truncate_document, ApiError,
    Candidate, ContentResponse, PartResponse, Response, API_URL, MAX_TEXT_LENGTH,
};

fn expected_summary(text: &str, idioma: &str, largo: bool) -> String {
    let longitud = if largo { "detallado (4-6 párrafos)" } else { "conciso (2-3 párrafos)" };
    let truncado = &text[..text.len().min(30_000)];
    format!(
        "Eres un asistente experto en análisis de documentos. \
        Generá un resumen {} del siguiente texto, en {}. \
        Capturá las ideas principales y conclusiones más relevantes. \
        Ir directo al contenido, sin frases introductorias.\n\n\
        === DOCUMENTO ===\n{}\n================",
        longitud, idioma, truncado
    )
}

fn expected_keypoints(text: &str, idioma: &str) -> String {
    let truncado = &text[..text.len().min(30_000)];
    format!(
        "Eres un asistente experto en análisis de documentos. \
        Extraé los puntos más importantes del siguiente texto en {}. \
        Presentalos como lista ordenada por importancia (máximo 10 puntos). \
        Formato exacto por punto: '• [punto clave]'\n\n\
        === DOCUMENTO ===\n{}\n================",
        idioma, truncado
    )
}

#[test]
fn short_summary_prompt() {
    let p = summary_prompt("El informe trata de ríos.", "español", false);
    assert_eq!(p, expected_summary("El informe trata de ríos.", "español", false));
    assert!(p.contains("conciso (2-3 párrafos)"));
}

#[test]
fn long_summary_prompt() {
    let p = summary_prompt("Texto", "inglés", true);
    assert_eq!(p, expected_summary("Texto", "inglés", true));
    assert!(p.contains("detallado (4-6 párrafos)"));
    assert!(p.ends_with("=== DOCUMENTO ===\nTexto\n================"));
}

#[test]
fn keypoints_prompt_text() {
    let p = keypoints_prompt("Uno. Dos. Tres.", "portugués");
    assert_eq!(p, expected_keypoints("Uno. Dos. Tres.", "portugués"));
}

#[test]
fn long_documents_are_cut_at_the_byte_limit() {
    let text = "a".repeat(MAX_TEXT_LENGTH + 5);
    let p = summary_prompt(&text, "español", false);
    assert_eq!(p, expected_summary(&text, "español", false));
    assert_eq!(truncate_document(&text).len(), 30_000);
    let k = keypoints_prompt(&text, "español");
    assert_eq!(k, expected_keypoints(&text, "español"));
}

#[test]
fn multibyte_documents_cut_on_a_boundary() {
    let text = "é".repeat(15_001);
    assert!(can_truncate(&text));
    assert_eq!(truncate_document(&text), "é".repeat(15_000));
    let fits = "é".repeat(15_000);
    assert_eq!(truncate_document(&fits), fits);
}

#[test]
fn cut_inside_a_character_is_detected() {
    let text = format!("a{}", "é".repeat(15_000));
    assert!(!can_truncate(&text));
    assert!(can_truncate("breve"));
    assert!(can_truncate(""));
}

#[test]
fn mode_selects_the_prompt() {
    assert_eq!(prompt_for_mode("puntos-clave", "doc", "español", true), expected_keypoints("doc", "español"));
    assert_eq!(prompt_for_mode("resumen", "doc", "español", true), expected_summary("doc", "español", true));
    assert_eq!(prompt_for_mode("otro", "doc", "español", false), expected_summary("doc", "español", false));
}

#[test]
fn request_url_carries_the_key() {
    assert_eq!(request_url("clave-de-prueba"), format!("{}?key={}", API_URL, "clave-de-prueba"));
    assert_eq!(
        request_url("k"),
        "https://generativelanguage.googleapis.com/v1beta/models/gemini-2.0-flash-lite:generateContent?key=k"
    );
}

#[test]
fn request_holds_the_prompt_once() {
    let r = build_request("pregunta");
    assert_eq!(r.contents.len(), 1);
    assert_eq!(r.contents[0].parts.len(), 1);
    assert_eq!(r.contents[0].parts[0].text, "pregunta");
}

fn candidate(texts: &[&str]) -> Candidate {
    Candidate {
        content: ContentResponse {
            parts: texts.iter().map(|t| PartResponse { text: t.to_string() }).collect(),
        },
    }
}

#[test]
fn reply_text_is_the_first_part_of_the_first_candidate() {
    let resp = Response { candidates: Some(vec![candidate(&["uno", "dos"]), candidate(&["tres"])]), error: None };
    assert_eq!(interpret_response(resp), Ok("uno".to_string()));
}

#[test]
fn api_error_wins() {
    let resp = Response {
        candidates: Some(vec![candidate(&["uno"])]),
        error: Some(ApiError { message: "cuota agotada".to_string() }),
    };
    assert_eq!(interpret_response(resp), Err("Error de API: cuota agotada".to_string()));
}

#[test]
fn reply_without_content() {
    let none = "La API no devolvió contenido.".to_string();
    assert_eq!(interpret_response(Response { candidates: None, error: None }), Err(none.clone()));
    assert_eq!(interpret_response(Response { candidates: Some(vec![]), error: None }), Err(none.clone()));
    assert_eq!(interpret_response(Response { candidates: Some(vec![candidate(&[])]), error: None }), Err(none));
}

#[test]
fn transport_error_messages() {
    assert_eq!(connection_error("timeout"), "Error de conexión: timeout");
    assert_eq!(read_error("EOF"), "Error al leer respuesta: EOF");
}

#[test]
fn largo_changes_only_the_length_wording() {
    for (text, idioma) in [("Un documento breve.", "español"), ("conciso (2-3 párrafos)", "inglés"), ("", "")] {
        assert_eq!(
            summary_prompt(text, idioma, true),
            summary_prompt(text, idioma, false).replacen("conciso (2-3 párrafos)", "detallado (4-6 párrafos)", 1)
        );
    }
}
