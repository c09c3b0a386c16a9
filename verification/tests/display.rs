use lexia::analysis::{display_name, missing_file_message, parse_port, result_title, select_port};
use lexia::display::{layout_line, result_lines, ResultLine};
use lexia::text::{is_blank, same_text, split_lines, trim, trim_start_matches, white_space};

#[test]
fn result_layout_of_a_key_point_list() {
    let content = "Intro\n\n• Punto uno \n••  Punto dos\r\n   \nFin";
    assert_eq!(
        result_lines(content),
        vec![
            ResultLine::Text("Intro".to_string()),
            ResultLine::Blank,
            ResultLine::Bullet("Punto uno".to_string()),
            ResultLine::Bullet("Punto dos".to_string()),
            ResultLine::Blank,
            ResultLine::Text("Fin".to_string()),
        ]
    );
}

#[test]
fn result_layout_edges() {
    assert_eq!(result_lines(""), vec![]);
    assert_eq!(result_lines("a\n"), vec![ResultLine::Text("a".to_string())]);
    assert_eq!(result_lines("\n"), vec![ResultLine::Blank]);
    assert_eq!(result_lines("a\rb"), vec![ResultLine::Text("a\rb".to_string())]);
    assert_eq!(layout_line(" • no es viñeta"), ResultLine::Text(" • no es viñeta".to_string()));
    assert_eq!(layout_line("•"), ResultLine::Bullet(String::new()));
}

#[test]
fn lines_agree_with_std() {
    let samples = [
        "", "a", "a\n", "a\r\n", "a\r", "\n\n", "\r\n\r\n", "a\nb\r\nc", "a\r\rb\n", " x \n y ",
        "é\n•\n", "\r", "\n\r",
    ];
    for s in samples.iter() {
        let expected: Vec<String> = s.lines().map(|l| l.to_string()).collect();
        assert_eq!(split_lines(s), expected, "lines of {:?}", s);
    }
}

#[test]
fn trimming_agrees_with_std() {
    let samples = [
        "", "  ", " a ", "\t\nx\r\n", "\u{a0}\u{2003}texto\u{3000}", "sin", "\u{85}a b\u{2029}",
        "\u{200b}z\u{200b}", "••x", "\u{1680}\u{180e}",
    ];
    for s in samples.iter() {
        assert_eq!(trim(s), s.trim(), "trim of {:?}", s);
        assert_eq!(is_blank(s), s.trim().is_empty(), "blank {:?}", s);
        assert_eq!(trim_start_matches(s, '•'), s.trim_start_matches('•'));
    }
    for c in ['\t', '\n', '\u{b}', '\u{c}', '\r', ' ', '\u{85}', '\u{a0}', '\u{1680}', '\u{2000}', '\u{200a}', '\u{2028}', '\u{2029}', '\u{202f}', '\u{205f}', '\u{3000}', 'a', '\u{200b}', '\u{180e}', '\u{feff}'] {
        assert_eq!(white_space(c), c.is_whitespace(), "{:?}", c);
    }
}

#[test]
fn text_comparison_and_lowercase() {
    assert!(same_text("puntos-clave", "puntos-clave"));
    assert!(!same_text("puntos-clave", "puntos-clav"));
    assert!(!same_text("Resumen", "resumen"));
}

#[test]
fn shown_names() {
    assert_eq!(display_name(b"/home/ana/informe.pdf"), "informe.pdf");
    assert_eq!(display_name(b"notas.txt"), "notas.txt");
    assert_eq!(display_name(b"dir/"), "dir");
    assert_eq!(display_name(b"/"), "desconocido");
    assert_eq!(display_name(b"dir/.."), "desconocido");
    assert_eq!(display_name(&[0x2f, 0x61, 0xff]), "desconocido");
}

#[test]
fn titles() {
    assert_eq!(result_title("puntos-clave", "a.pdf"), "📌 Puntos Clave — a.pdf");
    assert_eq!(result_title("resumen", "a.pdf"), "📝 Resumen — a.pdf");
    assert_eq!(missing_file_message("x/y.txt"), "No se encontró el archivo: x/y.txt");
}

#[test]
fn ports_agree_with_std() {
    let samples = [
        "8080", "0", "65535", "65536", "+80", "-1", "", "+", "007", "80a", " 80", "99999999999",
        "٣", "+-1", "1_000",
    ];
    for s in samples.iter() {
        assert_eq!(parse_port(s), s.parse::<u16>().ok(), "port {:?}", s);
    }
}

#[test]
fn port_selection() {
    assert_eq!(select_port(Some("10000".to_string()), 3000), 10000);
    assert_eq!(select_port(Some("abc".to_string()), 3000), 3000);
    assert_eq!(select_port(Some("70000".to_string()), 3000), 3000);
    assert_eq!(select_port(None, 3000), 3000);
}
