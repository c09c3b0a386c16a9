//! The decisions of the command-line analysis: how the document is named in the
//! output and how the result is titled.

use vstd::prelude::*;
use vstd::utf8::*;

use crate::gemini::{keypoints_prompt_text, mode_prompt_text, summary_prompt_text};
use crate::path::{file_name_in, path_file_name_in, PathStyle};
use crate::text::{decode_utf8_bytes, join2, same_text};

verus! {

/// The name under which the document at `path`, a path of `style`, is shown: its file
/// name when it has a UTF-8 one, `"desconocido"` otherwise.
pub open spec fn shown_name_in(style: PathStyle, path: Seq<u8>) -> Seq<char> {
    match file_name_in(style, path) {
        Some(n) => if valid_utf8(n) {
            decode_utf8(n)
        } else {
            "desconocido"@
        },
        None => "desconocido"@,
    }
}

/// The name under which the document at the Unix path `path` is shown.
pub open spec fn shown_name(path: Seq<u8>) -> Seq<char> {
    shown_name_in(PathStyle::Unix, path)
}

/// The title of a result: key points for `"puntos-clave"`, a summary for any other mode.
pub open spec fn title_text(mode: Seq<char>, filename: Seq<char>) -> Seq<char> {
    if mode == "puntos-clave"@ {
        "📌 Puntos Clave — "@ + filename
    } else {
        "📝 Resumen — "@ + filename
    }
}

/// The name under which the document at `path` (the raw bytes of a Unix path) is shown.
pub fn display_name(path: &[u8]) -> (r: String)
    ensures
        r@ == shown_name(path@),
{
    display_name_in(PathStyle::Unix, path)
}

/// The name under which the document at `path`, the bytes of a path of `style`, is shown.
pub fn display_name_in(style: PathStyle, path: &[u8]) -> (r: String)
    ensures
        r@ == shown_name_in(style, path@),
{
    match path_file_name_in(style, path) {
        Some(n) => match decode_utf8_bytes(n.as_slice()) {
            Some(t) => t,
            None => String::from_str("desconocido"),
        },
        None => String::from_str("desconocido"),
    }
}

/// The title shown above the result of an analysis in `mode` of `filename`.
pub fn result_title(mode: &str, filename: &str) -> (r: String)
    ensures
        r@ == title_text(mode@, filename@),
{
    if same_text(mode, "puntos-clave") {
        join2("📌 Puntos Clave — ", filename)
    } else {
        join2("📝 Resumen — ", filename)
    }
}

/// The message for a document that does not exist, given the path as shown.
pub fn missing_file_message(shown_path: &str) -> (r: String)
    ensures
        r@ == "No se encontró el archivo: "@ + shown_path@,
{
    join2("No se encontró el archivo: ", shown_path)
}

/// Whether `c` is an ASCII decimal digit.
pub open spec fn is_digit(c: char) -> bool {
    '0' <= c <= '9'
}

/// The number that a sequence of decimal digits denotes.
pub open spec fn decimal_value(s: Seq<char>) -> int
    decreases s.len(),
{
    if s.len() == 0 {
        0
    } else {
        decimal_value(s.drop_last()) * 10 + ((s.last() as u32) - ('0' as u32))
    }
}

/// The digits of a port number: the text without one leading `+`.
pub open spec fn port_digits(s: Seq<char>) -> Seq<char> {
    if s.len() > 0 && s[0] == '+' {
        s.drop_first()
    } else {
        s
    }
}

/// The port that a text denotes, as `str::parse::<u16>` reads it: an optional `+` and
/// at least one decimal digit, with a value that fits in 16 bits.
pub open spec fn port_of(s: Seq<char>) -> Option<u16> {
    let d = port_digits(s);
    if d.len() > 0 && (forall|i: int| 0 <= i < d.len() ==> is_digit(#[trigger] d[i]))
        && decimal_value(d) <= u16::MAX {
        Some(decimal_value(d) as u16)
    } else {
        None
    }
}

/// The port the server listens on: the one the environment gives when it is a valid
/// port number, otherwise the default.
pub open spec fn chosen_port(env_port: Option<Seq<char>>, default_port: u16) -> u16 {
    match env_port {
        Some(s) => match port_of(s) {
            Some(p) => p,
            None => default_port,
        },
        None => default_port,
    }
}

/// Reads a port number as `str::parse::<u16>` does.
pub fn parse_port(s: &str) -> (r: Option<u16>)
    ensures
        r == port_of(s@),
{
    let n = s.unicode_len();
    let mut start: usize = 0;
    if n > 0 && s.get_char(0) == '+' {
        start = 1;
    }
    let ghost d = port_digits(s@);
    proof {
        assert(d =~= s@.skip(start as int));
    }
    if start == n {
        return None;
    }
    let mut value: u32 = 0;
    let mut i: usize = start;
    while i < n
        invariant
            start <= i <= n,
            n == s@.len(),
            d == s@.skip(start as int),
            d == port_digits(s@),
            forall|j: int| start <= j < i ==> is_digit(#[trigger] s@[j]),
            value as int == decimal_value(s@.subrange(start as int, i as int)),
            value <= u16::MAX,
        decreases n - i,
    {
        let c = s.get_char(i);
        proof {
            assert(s@.subrange(start as int, i + 1).drop_last() =~= s@.subrange(start as int, i as int));
        }
        if !('0' <= c && c <= '9') {
            proof {
                assert(d[i - start] == c);
                assert(!is_digit(d[i - start]));
            }
            return None;
        }
        let digit = (c as u32) - ('0' as u32);
        let next = value * 10 + digit;
        if next > 65535 {
            proof {
                assert(d.take(i - start + 1) =~= s@.subrange(start as int, i + 1));
                let pre = s@.subrange(start as int, i + 1);
                assert(pre.drop_last() =~= s@.subrange(start as int, i as int));
                assert(pre.last() == c);
                assert(decimal_value(pre) == value * 10 + digit);
                if forall|j: int| 0 <= j < d.len() ==> is_digit(#[trigger] d[j]) {
                    lemma_decimal_value_grows(d, (i - start + 1) as int);
                }
            }
            return None;
        }
        value = next;
        i = i + 1;
    }
    proof {
        assert(s@.subrange(start as int, n as int) =~= d);
        assert forall|j: int| 0 <= j < d.len() implies is_digit(#[trigger] d[j]) by {
            assert(d[j] == s@[start + j]);
        }
    }
    Some(value as u16)
}

/// A text of digits denotes at least what any of its prefixes denotes.
proof fn lemma_decimal_value_grows(d: Seq<char>, k: int)
    requires
        0 <= k <= d.len(),
        forall|i: int| 0 <= i < d.len() ==> is_digit(#[trigger] d[i]),
    ensures
        decimal_value(d) >= decimal_value(d.take(k)),
    decreases d.len(),
{
    if k < d.len() {
        assert(d.drop_last().take(k) =~= d.take(k));
        assert forall|i: int| 0 <= i < d.drop_last().len() implies is_digit(#[trigger] d.drop_last()[i]) by {
            assert(d.drop_last()[i] == d[i]);
        }
        lemma_decimal_value_grows(d.drop_last(), k);
        lemma_decimal_value_nonnegative(d.drop_last());
        assert(is_digit(d[d.len() - 1]));
    } else {
        assert(d.take(k) =~= d);
    }
}

/// A text of digits denotes a number that is not negative.
proof fn lemma_decimal_value_nonnegative(d: Seq<char>)
    requires
        forall|i: int| 0 <= i < d.len() ==> is_digit(#[trigger] d[i]),
    ensures
        decimal_value(d) >= 0,
    decreases d.len(),
{
    if d.len() > 0 {
        assert forall|i: int| 0 <= i < d.drop_last().len() implies is_digit(#[trigger] d.drop_last()[i]) by {
            assert(d.drop_last()[i] == d[i]);
        }
        lemma_decimal_value_nonnegative(d.drop_last());
        assert(is_digit(d[d.len() - 1]));
    }
}

/// The port the server listens on, given the `PORT` variable if it is set.
pub fn select_port(env_port: Option<String>, default_port: u16) -> (r: u16)
    ensures
        r == chosen_port(
            match env_port {
                Some(s) => Some(s@),
                None => None,
            },
            default_port,
        ),
{
    match env_port {
        Some(s) => match parse_port(s.as_str()) {
            Some(p) => p,
            None => default_port,
        },
        None => default_port,
    }
}

/// The title and the prompt of an analysis follow the same mode: key points for
/// `"puntos-clave"`, a summary for every other mode.
pub proof fn lemma_title_matches_prompt(
    mode: Seq<char>,
    filename: Seq<char>,
    text: Seq<char>,
    idioma: Seq<char>,
    largo: bool,
)
    ensures
        mode == "puntos-clave"@ ==> title_text(mode, filename) == "📌 Puntos Clave — "@ + filename
            && mode_prompt_text(mode, text, idioma, largo) == keypoints_prompt_text(text, idioma),
        mode != "puntos-clave"@ ==> title_text(mode, filename) == "📝 Resumen — "@ + filename
            && mode_prompt_text(mode, text, idioma, largo) == summary_prompt_text(
            text,
            idioma,
            largo,
        ),
{
}

/// The decimal digit that stands for `d`, for `d` below ten.
pub open spec fn digit_char(d: nat) -> char {
    if d == 0 {
        '0'
    } else if d == 1 {
        '1'
    } else if d == 2 {
        '2'
    } else if d == 3 {
        '3'
    } else if d == 4 {
        '4'
    } else if d == 5 {
        '5'
    } else if d == 6 {
        '6'
    } else if d == 7 {
        '7'
    } else if d == 8 {
        '8'
    } else {
        '9'
    }
}

/// `n` written in decimal, most significant digit first, without leading zeros.
pub open spec fn decimal_digits(n: nat) -> Seq<char>
    decreases n,
{
    if n < 10 {
        seq![digit_char(n)]
    } else {
        decimal_digits(n / 10).push(digit_char(n % 10))
    }
}

/// The digit that stands for `d` counts `d` above `'0'`.
proof fn lemma_digit_char_value(d: nat)
    requires
        d < 10,
    ensures
        is_digit(digit_char(d)),
        (digit_char(d) as u32) - ('0' as u32) == d,
{
}

/// The decimal writing of a number is a nonempty run of digits that denotes it.
proof fn lemma_decimal_digits_denote(n: nat)
    ensures
        decimal_digits(n).len() > 0,
        forall|i: int| 0 <= i < decimal_digits(n).len() ==> is_digit(#[trigger] decimal_digits(n)[i]),
        decimal_value(decimal_digits(n)) == n,
        decimal_digits(n)[0] != '+',
    decreases n,
{
    if n < 10 {
        lemma_digit_char_value(n);
        let s = decimal_digits(n);
        assert(s.drop_last() =~= Seq::<char>::empty());
        assert(decimal_value(s) == decimal_value(s.drop_last()) * 10 + ((s.last() as u32) - (
        '0' as u32)));
        assert(s.last() == digit_char(n));
    } else {
        lemma_digit_char_value(n % 10);
        lemma_decimal_digits_denote(n / 10);
        let d = decimal_digits(n / 10);
        let s = d.push(digit_char(n % 10));
        assert(s.drop_last() =~= d);
        assert forall|i: int| 0 <= i < s.len() implies is_digit(#[trigger] s[i]) by {
            if i < d.len() {
                assert(s[i] == d[i]);
            }
        }
        assert(s[0] == d[0]);
        assert(decimal_digits(n) == s);
        assert(decimal_value(s) == decimal_value(d) * 10 + ((s.last() as u32) - ('0' as u32)));
        assert(s.last() == digit_char(n % 10));
        assert(decimal_value(d) == n / 10);
        assert((n / 10) * 10 + n % 10 == n);
    }
}

/// Every port number written in decimal, with or without a leading `+`, reads back as
/// that very port, whatever its size; and a text reads as a port only when, after an
/// optional `+`, it is a run of digits that denotes that port.
pub proof fn lemma_ports_read_back(p: u16, s: Seq<char>)
    ensures
        port_of(decimal_digits(p as nat)) == Some(p),
        port_of(seq!['+'] + decimal_digits(p as nat)) == Some(p),
        port_of(s) matches Some(q) ==> port_digits(s).len() > 0 && (forall|i: int|
            0 <= i < port_digits(s).len() ==> is_digit(#[trigger] port_digits(s)[i]))
            && decimal_value(port_digits(s)) == q,
{
    lemma_decimal_digits_denote(p as nat);
    let d = decimal_digits(p as nat);
    assert(port_digits(d) == d);
    assert((seq!['+'] + d).drop_first() =~= d);
    assert(port_digits(seq!['+'] + d) == d);
    let ds = port_digits(s);
    if ds.len() > 0 && (forall|i: int| 0 <= i < ds.len() ==> is_digit(#[trigger] ds[i])) {
        lemma_decimal_value_nonnegative(ds);
    }
}

} // verus!
