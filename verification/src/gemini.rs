//! Prompts for the Gemini API, the request sent to it and the interpretation of its
//! reply. The HTTP exchange itself happens outside the library.

use vstd::prelude::*;
use vstd::utf8::*;

use crate::text::{join2, same_text};

verus! {

broadcast use {encode_utf8_decode_utf8, encode_utf8_valid_utf8};

/// The endpoint of the model that the requests go to.
pub const API_URL: &'static str =
    "https://generativelanguage.googleapis.com/v1beta/models/gemini-2.0-flash-lite:generateContent";

/// The largest number of bytes of a document that a prompt carries.
pub const MAX_TEXT_LENGTH: usize = 30000;

/// The number of bytes of `s` that a prompt carries: all of them, up to the limit.
pub open spec fn truncation_point(s: Seq<char>) -> int {
    let n = encode_utf8(s).len() as int;
    if n < MAX_TEXT_LENGTH {
        n
    } else {
        MAX_TEXT_LENGTH as int
    }
}

/// Whether the first `truncation_point(s)` bytes of `s` end on a character boundary,
/// so that the document can be cut there.
pub open spec fn truncatable(s: Seq<char>) -> bool {
    is_char_boundary(encode_utf8(s), truncation_point(s))
}

/// The part of the document that a prompt carries: its first `truncation_point` bytes.
pub open spec fn truncated_text(s: Seq<char>) -> Seq<char> {
    decode_utf8(encode_utf8(s).take(truncation_point(s)))
}

/// The end of every prompt: the document marker, the part of the document that the
/// prompt carries and the closing rule.
pub open spec fn document_block(text: Seq<char>) -> Seq<char> {
    "=== DOCUMENTO ===\n"@ + truncated_text(text) + "\n================"@
}

/// The length wording of a summary prompt.
pub open spec fn summary_length(largo: bool) -> Seq<char> {
    if largo {
        "detallado (4-6 párrafos)"@
    } else {
        "conciso (2-3 párrafos)"@
    }
}

/// The words of a summary prompt before its length wording.
pub open spec fn summary_head() -> Seq<char> {
    "Eres un asistente experto en análisis de documentos. Generá un resumen "@
}

/// The words of a summary prompt after its length wording: the language, the
/// instructions and the document.
pub open spec fn summary_rest(text: Seq<char>, idioma: Seq<char>) -> Seq<char> {
    " del siguiente texto, en "@ + idioma
        + ". Capturá las ideas principales y conclusiones más relevantes. Ir directo al contenido, sin frases introductorias.\n\n"@
        + document_block(text)
}

/// The prompt that asks for a summary of `text` in the language `idioma`.
pub open spec fn summary_prompt_text(text: Seq<char>, idioma: Seq<char>, largo: bool) -> Seq<
    char,
> {
    summary_head() + summary_length(largo) + summary_rest(text, idioma)
}

/// The prompt that asks for the key points of `text` in the language `idioma`.
pub open spec fn keypoints_prompt_text(text: Seq<char>, idioma: Seq<char>) -> Seq<char> {
    "Eres un asistente experto en análisis de documentos. Extraé los puntos más importantes del siguiente texto en "@
        + idioma
        + ". Presentalos como lista ordenada por importancia (máximo 10 puntos). Formato exacto por punto: '• [punto clave]'\n\n"@
        + document_block(text)
}

/// The prompt for an analysis mode: key points for `"puntos-clave"`, a summary otherwise.
pub open spec fn mode_prompt_text(mode: Seq<char>, text: Seq<char>, idioma: Seq<char>, largo: bool) -> Seq<
    char,
> {
    if mode == "puntos-clave"@ {
        keypoints_prompt_text(text, idioma)
    } else {
        summary_prompt_text(text, idioma, largo)
    }
}

/// Whether `text` can be cut at the prompt's byte limit.
pub fn can_truncate(text: &str) -> (b: bool)
    ensures
        b == truncatable(text@),
{
    let n = text.as_bytes().len();
    let cut = if n < MAX_TEXT_LENGTH {
        n
    } else {
        MAX_TEXT_LENGTH
    };
    text.is_char_boundary(cut)
}

/// The part of `text` that a prompt carries.
pub fn truncate_document(text: &str) -> (r: &str)
    requires
        truncatable(text@),
    ensures
        r@ == truncated_text(text@),
{
    let n = text.as_bytes().len();
    let cut = if n < MAX_TEXT_LENGTH {
        n
    } else {
        MAX_TEXT_LENGTH
    };
    let (head, _) = text.split_at(cut);
    proof {
        assert(decode_utf8(encode_utf8(head@)) == head@);
    }
    head
}

/// Prompt that asks for a summary of the document, short or long, in `idioma`.
pub fn summary_prompt(text: &str, idioma: &str, largo: bool) -> (r: String)
    requires
        truncatable(text@),
    ensures
        r@ == summary_prompt_text(text@, idioma@, largo),
{
    let longitud = if largo {
        "detallado (4-6 párrafos)"
    } else {
        "conciso (2-3 párrafos)"
    };
    let truncado = truncate_document(text);
    let mut r = join2("Eres un asistente experto en análisis de documentos. Generá un resumen ", longitud);
    r.append(" del siguiente texto, en ");
    r.append(idioma);
    r.append(
        ". Capturá las ideas principales y conclusiones más relevantes. Ir directo al contenido, sin frases introductorias.\n\n",
    );
    r.append("=== DOCUMENTO ===\n");
    r.append(truncado);
    r.append("\n================");
    r
}

/// Prompt that asks for the key points of the document, in `idioma`.
pub fn keypoints_prompt(text: &str, idioma: &str) -> (r: String)
    requires
        truncatable(text@),
    ensures
        r@ == keypoints_prompt_text(text@, idioma@),
{
    let truncado = truncate_document(text);
    let mut r = join2(
        "Eres un asistente experto en análisis de documentos. Extraé los puntos más importantes del siguiente texto en ",
        idioma,
    );
    r.append(
        ". Presentalos como lista ordenada por importancia (máximo 10 puntos). Formato exacto por punto: '• [punto clave]'\n\n",
    );
    r.append("=== DOCUMENTO ===\n");
    r.append(truncado);
    r.append("\n================");
    r
}

/// The prompt for an analysis mode: key points for `"puntos-clave"`, a summary for
/// any other mode.
pub fn prompt_for_mode(mode: &str, text: &str, idioma: &str, largo: bool) -> (r: String)
    requires
        truncatable(text@),
    ensures
        r@ == mode_prompt_text(mode@, text@, idioma@, largo),
{
    if same_text(mode, "puntos-clave") {
        keypoints_prompt(text, idioma)
    } else {
        summary_prompt(text, idioma, largo)
    }
}

/// The document part of every prompt is a prefix of the document, at most
/// `MAX_TEXT_LENGTH` bytes long in UTF-8, and the whole document when it fits.
pub proof fn lemma_truncation_is_bounded_prefix(s: Seq<char>)
    requires
        truncatable(s),
    ensures
        truncated_text(s).is_prefix_of(s),
        encode_utf8(truncated_text(s)).len() <= MAX_TEXT_LENGTH,
        encode_utf8(truncated_text(s)).len() == truncation_point(s),
        encode_utf8(s).len() <= MAX_TEXT_LENGTH ==> truncated_text(s) == s,
{
    let bytes = encode_utf8(s);
    let k = truncation_point(s);
    decode_utf8_split(bytes, k);
    valid_utf8_split(bytes, k);
    assert(bytes.take(k) =~= bytes.subrange(0, k));
    let head = decode_utf8(bytes.subrange(0, k));
    let tail = decode_utf8(bytes.subrange(k, bytes.len() as int));
    assert(s == head + tail);
    assert(s.subrange(0, head.len() as int) =~= head);
    decode_utf8_encode_utf8(bytes.subrange(0, k));
    if bytes.len() <= MAX_TEXT_LENGTH {
        assert(bytes.take(k) =~= bytes);
    }
}

/// Whether `s` ends with `t`.
pub open spec fn ends_with(s: Seq<char>, t: Seq<char>) -> bool {
    t.len() <= s.len() && s.skip(s.len() - t.len()) == t
}

/// The part of a document that a prompt carries is exactly its first
/// `min(utf8 length, 30000)` bytes: a prefix of the document whose UTF-8 encoding is
/// that many first bytes of the document's encoding, whenever the cut falls on a
/// character boundary (which is when the prompt can be built).
pub proof fn lemma_document_part_is_its_first_bytes(s: Seq<char>)
    requires
        is_char_boundary(
            encode_utf8(s),
            if encode_utf8(s).len() < MAX_TEXT_LENGTH {
                encode_utf8(s).len() as int
            } else {
                MAX_TEXT_LENGTH as int
            },
        ),
    ensures
        MAX_TEXT_LENGTH == 30000,
        truncatable(s),
        truncated_text(s).is_prefix_of(s),
        encode_utf8(truncated_text(s)) == encode_utf8(s).take(
            if encode_utf8(s).len() < MAX_TEXT_LENGTH {
                encode_utf8(s).len() as int
            } else {
                MAX_TEXT_LENGTH as int
            },
        ),
        encode_utf8(truncated_text(s)).len() == (if encode_utf8(s).len() < MAX_TEXT_LENGTH {
            encode_utf8(s).len() as int
        } else {
            MAX_TEXT_LENGTH as int
        }),
        encode_utf8(s).len() <= MAX_TEXT_LENGTH ==> truncated_text(s) == s,
{
    let bytes = encode_utf8(s);
    let k = truncation_point(s);
    lemma_truncation_is_bounded_prefix(s);
    valid_utf8_split(bytes, k);
    assert(bytes.take(k) =~= bytes.subrange(0, k));
    decode_utf8_encode_utf8(bytes.subrange(0, k));
}

/// A document can be put into a prompt exactly when its first
/// `min(utf8 length, 30000)` bytes end on a character boundary.
pub proof fn lemma_truncatable_iff_cut_on_boundary(s: Seq<char>)
    ensures
        truncatable(s) <==> is_char_boundary(
            encode_utf8(s),
            if encode_utf8(s).len() < 30000 {
                encode_utf8(s).len() as int
            } else {
                30000
            },
        ),
{
}

/// Every prompt, of either kind, ends with the document marker, the part of the document
/// that it carries and the closing rule, and names the language asked for.
pub proof fn lemma_prompts_end_with_the_document(s: Seq<char>, idioma: Seq<char>, largo: bool)
    ensures
        ends_with(
            summary_prompt_text(s, idioma, largo),
            "=== DOCUMENTO ===\n"@ + truncated_text(s) + "\n================"@,
        ),
        ends_with(
            keypoints_prompt_text(s, idioma),
            "=== DOCUMENTO ===\n"@ + truncated_text(s) + "\n================"@,
        ),
{
    let block = "=== DOCUMENTO ===\n"@ + truncated_text(s) + "\n================"@;
    let p = summary_prompt_text(s, idioma, largo);
    let q = keypoints_prompt_text(s, idioma);
    assert(p.skip(p.len() - block.len()) =~= block);
    assert(q.skip(q.len() - block.len()) =~= block);
}

/// What the model's reply means: the API's error when it reports one; otherwise the
/// whole text of the first part of the first candidate, every character kept; and the
/// no-content error when there is no such part.
pub proof fn lemma_reply_is_the_whole_first_part(resp: Response)
    ensures
        no_content_message() == "La API no devolvió contenido."@,
        resp.error matches Some(e) ==> reply_answer(resp) == Err::<Seq<char>, Seq<char>>(
            "Error de API: "@ + e.message@,
        ),
        resp.error is None ==> match resp.candidates {
            Some(cs) => if cs.len() > 0 && cs[0].content.parts.len() > 0 {
                reply_answer(resp) == Ok::<Seq<char>, Seq<char>>(cs[0].content.parts[0].text@)
            } else {
                reply_answer(resp) == Err::<Seq<char>, Seq<char>>("La API no devolvió contenido."@)
            },
            None => reply_answer(resp) == Err::<Seq<char>, Seq<char>>(
                "La API no devolvió contenido."@,
            ),
        },
{
}

/// Whether `pat` occurs in `s` starting at index `i`.
pub open spec fn occurs_at(s: Seq<char>, pat: Seq<char>, i: int) -> bool {
    0 <= i && i + pat.len() <= s.len() && s.subrange(i, i + pat.len()) == pat
}

/// `s` with the first occurrence of `from` replaced by `to`, or `s` itself where `from`
/// does not occur: what `str::replacen(from, to, 1)` gives (for an empty `from`, `to`
/// goes in front).
pub open spec fn replace_first(s: Seq<char>, from: Seq<char>, to: Seq<char>) -> Seq<char>
    decreases s.len(),
{
    if from.len() == 0 {
        to + s
    } else if s.len() < from.len() {
        s
    } else if s.take(from.len() as int) == from {
        to + s.skip(from.len() as int)
    } else {
        seq![s[0]] + replace_first(s.skip(1), from, to)
    }
}

/// Replacing the first occurrence leaves a prefix in which the pattern does not start
/// untouched.
proof fn lemma_replace_first_after_prefix(h: Seq<char>, t: Seq<char>, from: Seq<char>, to: Seq<char>)
    requires
        from.len() > 0,
        forall|j: int| 0 <= j < h.len() ==> !occurs_at(h + t, from, j),
    ensures
        replace_first(h + t, from, to) == h + replace_first(t, from, to),
    decreases h.len(),
{
    let s = h + t;
    let n = from.len() as int;
    if h.len() == 0 {
        assert(s =~= t);
        assert(h + replace_first(t, from, to) =~= replace_first(t, from, to));
    } else if s.len() < n {
        assert(t.len() < n);
        assert(h + t =~= s);
    } else {
        assert(!occurs_at(s, from, 0));
        assert(s.take(n) =~= s.subrange(0, n));
        let h1 = h.skip(1);
        assert(s.skip(1) =~= h1 + t);
        assert forall|j: int| 0 <= j < h1.len() implies !occurs_at(h1 + t, from, j) by {
            assert(!occurs_at(s, from, j + 1));
            if j + n <= (h1 + t).len() {
                assert((h1 + t).subrange(j, j + n) =~= s.subrange(j + 1, j + 1 + n));
            }
        }
        lemma_replace_first_after_prefix(h1, t, from, to);
        assert(seq![s[0]] + (h1 + replace_first(t, from, to)) =~= h + replace_first(
            t,
            from,
            to,
        ));
    }
}

/// A long summary prompt is the short one with its length wording replaced by the
/// long wording, the first occurrence of the short wording being that wording itself:
/// `largo` changes nothing else in the prompt.
pub proof fn lemma_largo_changes_only_the_length_wording(text: Seq<char>, idioma: Seq<char>)
    ensures
        summary_prompt_text(text, idioma, true) == replace_first(
            summary_prompt_text(text, idioma, false),
            summary_length(false),
            summary_length(true),
        ),
{
    reveal_strlit("Eres un asistente experto en análisis de documentos. Generá un resumen ");
    reveal_strlit("conciso (2-3 párrafos)");
    let h = summary_head();
    let short = summary_length(false);
    let long = summary_length(true);
    let rest = summary_rest(text, idioma);
    let t = short + rest;
    assert(summary_prompt_text(text, idioma, false) =~= h + t);
    assert(summary_prompt_text(text, idioma, true) =~= h + (long + rest));
    assert forall|j: int| 0 <= j < h.len() implies !occurs_at(h + t, short, j) by {
        if occurs_at(h + t, short, j) {
            assert((h + t)[j] == (h + t).subrange(j, j + short.len())[0]);
            assert((h + t)[j + 1] == (h + t).subrange(j, j + short.len())[1]);
            assert(h[j] == 'c');
            assert(j == 43);
        }
    }
    lemma_replace_first_after_prefix(h, t, short, long);
    assert(t.take(short.len() as int) =~= short);
    assert(t.skip(short.len() as int) =~= rest);
}

/// The URL that a request with the key `api_key` goes to.
pub fn request_url(api_key: &str) -> (r: String)
    ensures
        r@ == API_URL@ + "?key="@ + api_key@,
{
    let mut r = join2(API_URL, "?key=");
    r.append(api_key);
    r
}

/// One piece of text in a request.
pub struct Part {
    pub text: String,
}

/// The content of a request: its pieces of text.
pub struct Content {
    pub parts: Vec<Part>,
}

/// The body of a request to the model.
pub struct Request {
    pub contents: Vec<Content>,
}

/// The request that asks the model about `prompt`: one content with one part.
pub fn build_request(prompt: &str) -> (r: Request)
    ensures
        r.contents.len() == 1,
        r.contents[0].parts.len() == 1,
        r.contents[0].parts[0].text@ == prompt@,
{
    let mut parts: Vec<Part> = Vec::new();
    parts.push(Part { text: String::from_str(prompt) });
    let mut contents: Vec<Content> = Vec::new();
    contents.push(Content { parts });
    Request { contents }
}

/// One piece of text in a reply.
pub struct PartResponse {
    pub text: String,
}

/// The content of a candidate answer.
pub struct ContentResponse {
    pub parts: Vec<PartResponse>,
}

/// A candidate answer of the model.
pub struct Candidate {
    pub content: ContentResponse,
}

/// An error that the API reports.
pub struct ApiError {
    pub message: String,
}

/// The body of the model's reply.
pub struct Response {
    pub candidates: Option<Vec<Candidate>>,
    pub error: Option<ApiError>,
}

/// The message given when the reply carries no text.
pub open spec fn no_content_message() -> Seq<char> {
    "La API no devolvió contenido."@
}

/// What a reply means: the API's error if it reports one, otherwise the text of the
/// first part of the first candidate, or the no-content error when there is none.
pub open spec fn reply_answer(resp: Response) -> Result<Seq<char>, Seq<char>> {
    match resp.error {
        Some(e) => Err("Error de API: "@ + e.message@),
        None => match resp.candidates {
            Some(cs) => if cs.len() > 0 && cs[0].content.parts.len() > 0 {
                Ok(cs[0].content.parts[0].text@)
            } else {
                Err(no_content_message())
            },
            None => Err(no_content_message()),
        },
    }
}

/// The value of an answer.
pub open spec fn answer_view(r: Result<String, String>) -> Result<Seq<char>, Seq<char>> {
    match r {
        Ok(t) => Ok(t@),
        Err(m) => Err(m@),
    }
}

/// Interprets the model's reply as the generated text or an error message.
pub fn interpret_response(resp: Response) -> (r: Result<String, String>)
    ensures
        answer_view(r) == reply_answer(resp),
{
    match resp.error {
        Some(err) => Err(join2("Error de API: ", err.message.as_str())),
        None => match resp.candidates {
            Some(mut cs) => {
                if cs.len() > 0 {
                    let first = cs.remove(0);
                    let mut parts = first.content.parts;
                    if parts.len() > 0 {
                        let part = parts.remove(0);
                        Ok(part.text)
                    } else {
                        Err(String::from_str("La API no devolvió contenido."))
                    }
                } else {
                    Err(String::from_str("La API no devolvió contenido."))
                }
            },
            None => Err(String::from_str("La API no devolvió contenido.")),
        },
    }
}

/// The message for a request that could not be sent or got no reply.
pub fn connection_error(detail: &str) -> (r: String)
    ensures
        r@ == "Error de conexión: "@ + detail@,
{
    join2("Error de conexión: ", detail)
}

/// The message for a reply whose body could not be read.
pub fn read_error(detail: &str) -> (r: String)
    ensures
        r@ == "Error al leer respuesta: "@ + detail@,
{
    join2("Error al leer respuesta: ", detail)
}

} // verus!
