//! Character-level text utilities and their mathematical models: whitespace,
//! trimming, line splitting, comparison, lowercasing and UTF-8 decoding.

use vstd::prelude::*;
use vstd::utf8::*;

verus! {

/// The Unicode `White_Space` property, the notion of whitespace that `str::trim`
/// and `char::is_whitespace` use.
pub open spec fn is_white_space(c: char) -> bool {
    ||| '\t' <= c <= '\r'
    ||| c == ' '
    ||| c == '\u{85}'
    ||| c == '\u{a0}'
    ||| c == '\u{1680}'
    ||| '\u{2000}' <= c <= '\u{200a}'
    ||| c == '\u{2028}'
    ||| c == '\u{2029}'
    ||| c == '\u{202f}'
    ||| c == '\u{205f}'
    ||| c == '\u{3000}'
}

/// A text is blank when every character in it is whitespace.
pub open spec fn is_blank_text(s: Seq<char>) -> bool {
    forall|i: int| 0 <= i < s.len() ==> is_white_space(#[trigger] s[i])
}

/// `s` without its leading whitespace.
pub open spec fn trim_start_text(s: Seq<char>) -> Seq<char>
    decreases s.len(),
{
    if s.len() > 0 && is_white_space(s[0]) {
        trim_start_text(s.drop_first())
    } else {
        s
    }
}

/// `s` without its trailing whitespace.
pub open spec fn trim_end_text(s: Seq<char>) -> Seq<char>
    decreases s.len(),
{
    if s.len() > 0 && is_white_space(s.last()) {
        trim_end_text(s.drop_last())
    } else {
        s
    }
}

/// `s` without leading and trailing whitespace, as `str::trim` gives it.
pub open spec fn trimmed_text(s: Seq<char>) -> Seq<char> {
    trim_end_text(trim_start_text(s))
}

/// `s` without the characters `c` at its start, as `str::trim_start_matches(c)` gives it.
pub open spec fn strip_leading(s: Seq<char>, c: char) -> Seq<char>
    decreases s.len(),
{
    if s.len() > 0 && s[0] == c {
        strip_leading(s.drop_first(), c)
    } else {
        s
    }
}

/// The index of the first line feed in `s`, or `s.len()` when there is none.
pub open spec fn first_line_feed(s: Seq<char>) -> int
    decreases s.len(),
{
    if s.len() == 0 {
        0
    } else if s[0] == '\n' {
        0
    } else {
        1 + first_line_feed(s.drop_first())
    }
}

/// A line without the carriage return that ended it, if any.
pub open spec fn strip_carriage_return(line: Seq<char>) -> Seq<char> {
    if line.len() > 0 && line.last() == '\r' {
        line.drop_last()
    } else {
        line
    }
}

/// The lines of `s`, as `str::lines` yields them: split at `\n` or `\r\n`,
/// with the final line ending optional and no empty line after it.
pub open spec fn text_lines(s: Seq<char>) -> Seq<Seq<char>>
    decreases s.len(),
{
    if s.len() == 0 {
        Seq::empty()
    } else {
        let k = first_line_feed(s);
        if k >= s.len() {
            seq![s]
        } else {
            proof {
                lemma_first_line_feed_bounds(s);
            }
            seq![strip_carriage_return(s.take(k))] + text_lines(s.skip(k + 1))
        }
    }
}

/// The views of a sequence of strings.
pub open spec fn string_views(v: Seq<String>) -> Seq<Seq<char>> {
    v.map_values(|x: String| x@)
}

/// The Unicode lowercase mapping of a text, as `str::to_lowercase` computes it.
pub uninterp spec fn lowercase(s: Seq<char>) -> Seq<char>;

/// A text made only of ASCII characters.
pub open spec fn is_ascii_text(s: Seq<char>) -> bool {
    forall|i: int| 0 <= i < s.len() ==> (#[trigger] s[i]) <= '\u{7f}'
}

/// ASCII lowercasing of one character.
pub open spec fn ascii_lower(c: char) -> char {
    if 'A' <= c <= 'Z' {
        ((c as u32) + 32) as char
    } else {
        c
    }
}

/// The first line feed lies within the text and none comes before it.
pub proof fn lemma_first_line_feed_bounds(s: Seq<char>)
    ensures
        0 <= first_line_feed(s) <= s.len(),
        forall|j: int| 0 <= j < first_line_feed(s) ==> s[j] != '\n',
        first_line_feed(s) < s.len() ==> s[first_line_feed(s)] == '\n',
    decreases s.len(),
{
    if s.len() > 0 && s[0] != '\n' {
        lemma_first_line_feed_bounds(s.drop_first());
        assert forall|j: int| 0 <= j < first_line_feed(s) implies s[j] != '\n' by {
            if j > 0 {
                assert(s[j] == s.drop_first()[j - 1]);
            }
        }
    }
}

/// The first line feed sits at `k` when none comes before it.
pub proof fn lemma_first_line_feed_at(s: Seq<char>, k: int)
    requires
        0 <= k <= s.len(),
        forall|j: int| 0 <= j < k ==> s[j] != '\n',
        k < s.len() ==> s[k] == '\n',
    ensures
        first_line_feed(s) == k,
    decreases k,
{
    if k > 0 {
        assert forall|j: int| 0 <= j < k - 1 implies s.drop_first()[j] != '\n' by {
            assert(s.drop_first()[j] == s[j + 1]);
        }
        lemma_first_line_feed_at(s.drop_first(), k - 1);
    }
}

/// No line of a text holds a line feed.
pub proof fn lemma_lines_hold_no_line_feed(s: Seq<char>)
    ensures
        forall|i: int, j: int|
            0 <= i < text_lines(s).len() && 0 <= j < text_lines(s)[i].len() ==> text_lines(
                s,
            )[i][j] != '\n',
    decreases s.len(),
{
    if s.len() > 0 {
        lemma_first_line_feed_bounds(s);
        let k = first_line_feed(s);
        if k < s.len() {
            lemma_lines_hold_no_line_feed(s.skip(k + 1));
            let head = strip_carriage_return(s.take(k));
            assert forall|j: int| 0 <= j < head.len() implies head[j] != '\n' by {
                assert(head[j] == s[j]);
            }
            let rest = text_lines(s.skip(k + 1));
            assert forall|i: int, j: int|
                0 <= i < text_lines(s).len() && 0 <= j < text_lines(s)[i].len() implies text_lines(
                s,
            )[i][j] != '\n' by {
                if i > 0 {
                    assert(text_lines(s)[i] == rest[i - 1]);
                }
            }
        }
    }
}

/// Lines put back together, with a line feed between each two.
pub open spec fn joined_lines(ls: Seq<Seq<char>>) -> Seq<char>
    decreases ls.len(),
{
    if ls.len() == 0 {
        Seq::empty()
    } else if ls.len() == 1 {
        ls[0]
    } else {
        ls[0] + seq!['\n'] + joined_lines(ls.drop_first())
    }
}

/// Splitting a text without carriage returns into lines loses nothing but the line
/// feeds between the lines and a final line feed: putting the lines back together
/// gives the text again.
pub proof fn lemma_lines_rejoin(s: Seq<char>)
    requires
        forall|i: int| 0 <= i < s.len() ==> s[i] != '\r',
    ensures
        s.len() > 0 && s.last() == '\n' ==> joined_lines(text_lines(s)) + seq!['\n'] == s,
        !(s.len() > 0 && s.last() == '\n') ==> joined_lines(text_lines(s)) == s,
    decreases s.len(),
{
    if s.len() > 0 {
        lemma_first_line_feed_bounds(s);
        let k = first_line_feed(s);
        if k < s.len() {
            let head = s.take(k);
            assert(strip_carriage_return(head) == head) by {
                if head.len() > 0 {
                    assert(head.last() == s[k - 1]);
                }
            }
            let r = s.skip(k + 1);
            assert forall|i: int| 0 <= i < r.len() implies r[i] != '\r' by {
                assert(r[i] == s[k + 1 + i]);
            }
            lemma_lines_rejoin(r);
            let lines = text_lines(s);
            assert(lines == seq![head] + text_lines(r));
            if r.len() == 0 {
                assert(text_lines(r) == Seq::<Seq<char>>::empty());
                assert(lines =~= seq![head]);
                assert(head + seq!['\n'] =~= s);
            } else {
                assert(text_lines(r).len() >= 1) by {
                    let kr = first_line_feed(r);
                    if kr >= r.len() {
                    } else {
                        assert(text_lines(r) == seq![strip_carriage_return(r.take(kr))] + text_lines(
                            r.skip(kr + 1),
                        ));
                    }
                }
                assert(lines.len() >= 2);
                assert(lines.drop_first() =~= text_lines(r));
                assert(joined_lines(lines) == head + seq!['\n'] + joined_lines(text_lines(r)));
                assert(s.last() == r.last());
                if r.last() == '\n' {
                    assert(head + seq!['\n'] + joined_lines(text_lines(r)) + seq!['\n'] =~= head
                        + seq!['\n'] + (joined_lines(text_lines(r)) + seq!['\n']));
                    assert(head + seq!['\n'] + r =~= s);
                } else {
                    assert(head + seq!['\n'] + r =~= s);
                }
            }
        }
    }
}

/// Trimming the start drops a run of leading whitespace: what is left is a suffix of
/// the text that does not start with whitespace.
proof fn lemma_trim_start_shape(s: Seq<char>)
    ensures
        trim_start_text(s).len() <= s.len(),
        trim_start_text(s) == s.skip(s.len() - trim_start_text(s).len()),
        forall|j: int| 0 <= j < s.len() - trim_start_text(s).len() ==> is_white_space(#[trigger] s[j]),
        trim_start_text(s).len() > 0 ==> !is_white_space(trim_start_text(s)[0]),
    decreases s.len(),
{
    if s.len() > 0 && is_white_space(s[0]) {
        let t = s.drop_first();
        lemma_trim_start_shape(t);
        assert(t.skip(t.len() - trim_start_text(t).len()) =~= s.skip(
            s.len() - trim_start_text(t).len(),
        ));
        assert forall|j: int| 0 <= j < s.len() - trim_start_text(s).len() implies is_white_space(
            #[trigger] s[j],
        ) by {
            if j > 0 {
                assert(s[j] == t[j - 1]);
            }
        }
    } else {
        assert(s.skip(0) =~= s);
    }
}

/// Trimming the end drops a run of trailing whitespace: what is left is a prefix of the
/// text that does not end with whitespace.
proof fn lemma_trim_end_shape(s: Seq<char>)
    ensures
        trim_end_text(s).len() <= s.len(),
        trim_end_text(s) == s.take(trim_end_text(s).len() as int),
        forall|j: int| trim_end_text(s).len() <= j < s.len() ==> is_white_space(#[trigger] s[j]),
        trim_end_text(s).len() > 0 ==> !is_white_space(trim_end_text(s).last()),
    decreases s.len(),
{
    if s.len() > 0 && is_white_space(s.last()) {
        let t = s.drop_last();
        lemma_trim_end_shape(t);
        assert(t.take(trim_end_text(t).len() as int) =~= s.take(trim_end_text(t).len() as int));
        assert forall|j: int| trim_end_text(s).len() <= j < s.len() implies is_white_space(
            #[trigger] s[j],
        ) by {
            if j < s.len() - 1 {
                assert(s[j] == t[j]);
            }
        }
    } else {
        assert(s.take(s.len() as int) =~= s);
    }
}

/// Trimming removes exactly the leading and the trailing whitespace of a text: what is
/// left is the part of the text between them, which neither starts nor ends with
/// whitespace, and everything removed is whitespace.
pub proof fn lemma_trim_keeps_the_middle(s: Seq<char>)
    ensures
        exists|a: int, b: int|
            #![trigger s.subrange(a, b)]
            0 <= a <= b <= s.len() && trimmed_text(s) == s.subrange(a, b) && (forall|j: int|
                0 <= j < a ==> is_white_space(#[trigger] s[j])) && (forall|j: int|
                b <= j < s.len() ==> is_white_space(#[trigger] s[j])) && (a < b ==> !is_white_space(
                s[a]) && !is_white_space(s[b - 1])),
{
    let t = trim_start_text(s);
    lemma_trim_start_shape(s);
    lemma_trim_end_shape(t);
    let a = s.len() - t.len();
    let u = trim_end_text(t);
    let b = a + u.len();
    assert(u =~= s.subrange(a, b));
    assert forall|j: int| b <= j < s.len() implies is_white_space(#[trigger] s[j]) by {
        assert(s[j] == t[j - a]);
    }
    if a < b {
        assert(s[a] == u[0]);
        assert(s[b - 1] == u.last());
        assert(u[0] == t[0]);
    }
    assert(trimmed_text(s) == s.subrange(a, b));
}

/// Stripping the leading `c`s drops exactly the run of `c` that starts the text: what
/// is left is a suffix of the text that does not start with `c`.
pub proof fn lemma_strip_leading_shape(s: Seq<char>, c: char)
    ensures
        strip_leading(s, c).len() <= s.len(),
        strip_leading(s, c) == s.skip(s.len() - strip_leading(s, c).len()),
        forall|j: int| 0 <= j < s.len() - strip_leading(s, c).len() ==> #[trigger] s[j] == c,
        strip_leading(s, c).len() > 0 ==> strip_leading(s, c)[0] != c,
    decreases s.len(),
{
    if s.len() > 0 && s[0] == c {
        let t = s.drop_first();
        lemma_strip_leading_shape(t, c);
        assert(t.skip(t.len() - strip_leading(t, c).len()) =~= s.skip(
            s.len() - strip_leading(t, c).len(),
        ));
        assert forall|j: int| 0 <= j < s.len() - strip_leading(s, c).len() implies #[trigger] s[j]
            == c by {
            if j > 0 {
                assert(s[j] == t[j - 1]);
            }
        }
    } else {
        assert(s.skip(0) =~= s);
    }
}

/// Leading whitespace before `k` does not change the start-trimmed text.
proof fn lemma_trim_start_skip(s: Seq<char>, k: int)
    requires
        0 <= k <= s.len(),
        forall|j: int| 0 <= j < k ==> is_white_space(#[trigger] s[j]),
    ensures
        trim_start_text(s) == trim_start_text(s.skip(k)),
    decreases k,
{
    if k > 0 {
        assert(is_white_space(s[0]));
        assert(s.drop_first().skip(k - 1) =~= s.skip(k));
        assert forall|j: int| 0 <= j < k - 1 implies is_white_space(#[trigger] s.drop_first()[j]) by {
            assert(s.drop_first()[j] == s[j + 1]);
        }
        lemma_trim_start_skip(s.drop_first(), k - 1);
    } else {
        assert(s.skip(0) =~= s);
    }
}

/// Trailing whitespace from `k` on does not change the end-trimmed text.
proof fn lemma_trim_end_take(s: Seq<char>, k: int)
    requires
        0 <= k <= s.len(),
        forall|j: int| k <= j < s.len() ==> is_white_space(#[trigger] s[j]),
    ensures
        trim_end_text(s) == trim_end_text(s.take(k)),
    decreases s.len() - k,
{
    if k < s.len() {
        assert(s.drop_last().take(k) == s.take(k));
        assert(is_white_space(s[s.len() - 1]));
        lemma_trim_end_take(s.drop_last(), k);
    } else {
        assert(s.take(k) == s);
    }
}

/// A text is blank exactly when trimming leaves nothing.
pub proof fn lemma_blank_iff_trimmed_empty(s: Seq<char>)
    ensures
        is_blank_text(s) <==> trimmed_text(s).len() == 0,
    decreases s.len(),
{
    if s.len() > 0 && is_white_space(s[0]) {
        lemma_blank_iff_trimmed_empty(s.drop_first());
        if is_blank_text(s.drop_first()) {
            assert forall|i: int| 0 <= i < s.len() implies is_white_space(#[trigger] s[i]) by {
                if i > 0 {
                    assert(s[i] == s.drop_first()[i - 1]);
                }
            }
        } else {
            let i = choose|i: int| 0 <= i < s.drop_first().len() && !is_white_space(#[trigger] s.drop_first()[i]);
            assert(s[i + 1] == s.drop_first()[i]);
        }
    } else if s.len() > 0 {
        assert(trim_start_text(s) == s);
        lemma_trim_end_keeps_first(s);
    }
}

/// Trimming the end of a text that starts with a non-whitespace character leaves it non-empty.
proof fn lemma_trim_end_keeps_first(s: Seq<char>)
    requires
        s.len() > 0,
        !is_white_space(s[0]),
    ensures
        trim_end_text(s).len() > 0,
    decreases s.len(),
{
    if is_white_space(s.last()) {
        assert(s.len() > 1);
        assert(s.drop_last()[0] == s[0]);
        lemma_trim_end_keeps_first(s.drop_last());
    }
}

/// Whether `c` is whitespace.
pub fn white_space(c: char) -> (b: bool)
    ensures
        b == is_white_space(c),
{
    ('\t' <= c && c <= '\r') || c == ' ' || c == '\u{85}' || c == '\u{a0}' || c == '\u{1680}'
        || ('\u{2000}' <= c && c <= '\u{200a}') || c == '\u{2028}' || c == '\u{2029}'
        || c == '\u{202f}' || c == '\u{205f}' || c == '\u{3000}'
}

/// Whether `s` holds nothing but whitespace (so that trimming it leaves it empty).
pub fn is_blank(s: &str) -> (b: bool)
    ensures
        b == is_blank_text(s@),
        b == (trimmed_text(s@).len() == 0),
{
    proof {
        lemma_blank_iff_trimmed_empty(s@);
    }
    for c in it: s.chars()
        invariant
            it.seq() == s@,
            is_blank_text(s@) <==> trimmed_text(s@).len() == 0,
            forall|j: int| 0 <= j < it.index() ==> is_white_space(#[trigger] s@[j]),
    {
        if !white_space(c) {
            return false;
        }
    }
    true
}

/// `s` with leading and trailing whitespace removed.
pub fn trim(s: &str) -> (r: String)
    ensures
        r@ == trimmed_text(s@),
{
    let n = s.unicode_len();
    // first non-whitespace position, and one past the last one
    let mut start: usize = n;
    let mut end: usize = 0;
    let mut found = false;
    let mut i: usize = 0;
    for c in it: s.chars()
        invariant
            it.seq() == s@,
            n == s@.len(),
            i == it.index(),
            found ==> start < end <= i,
            found ==> !is_white_space(s@[start as int]),
            found ==> !is_white_space(s@[end - 1]),
            found ==> forall|j: int| 0 <= j < start ==> is_white_space(#[trigger] s@[j]),
            found ==> forall|j: int| end <= j < i ==> is_white_space(#[trigger] s@[j]),
            !found ==> forall|j: int| 0 <= j < i ==> is_white_space(#[trigger] s@[j]),
            !found ==> start == n,
    {
        if !white_space(c) {
            if !found {
                start = i;
                found = true;
            }
            end = i + 1;
        }
        i = i + 1;
    }
    if !found {
        proof {
            lemma_trim_start_skip(s@, n as int);
            assert(s@.skip(n as int) =~= Seq::<char>::empty());
        }
        return String::new();
    }
    let r = s.substring_char(start, end);
    proof {
        lemma_trim_start_skip(s@, start as int);
        let t = s@.skip(start as int);
        assert(trim_start_text(t) == t);
        assert forall|j: int| end - start <= j < t.len() implies is_white_space(#[trigger] t[j]) by {
            assert(t[j] == s@[start + j]);
        }
        lemma_trim_end_take(t, end - start);
        assert(t.take(end - start) =~= s@.subrange(start as int, end as int));
        let u = t.take(end - start);
        assert(u.last() == s@[end - 1]);
        assert(trim_end_text(u) == u);
    }
    String::from_str(r)
}

/// `s` without the characters `c` at its start.
pub fn trim_start_matches(s: &str, c: char) -> (r: String)
    ensures
        r@ == strip_leading(s@, c),
{
    let n = s.unicode_len();
    let mut start: usize = 0;
    let mut done = false;
    for d in it: s.chars()
        invariant
            it.seq() == s@,
            n == s@.len(),
            start <= it.index(),
            !done ==> start == it.index(),
            done ==> start < n && s@[start as int] != c,
            forall|j: int| 0 <= j < start ==> s@[j] == c,
    {
        if !done {
            if d == c {
                start = start + 1;
            } else {
                done = true;
            }
        }
    }
    let r = s.substring_char(start, n);
    proof {
        lemma_strip_leading_skip(s@, c, start as int);
        assert(s@.subrange(start as int, n as int) =~= s@.skip(start as int));
    }
    String::from_str(r)
}

/// Stripping the leading `c`s removes exactly the first `k` characters when they are all `c` and the next is not.
proof fn lemma_strip_leading_skip(s: Seq<char>, c: char, k: int)
    requires
        0 <= k <= s.len(),
        forall|j: int| 0 <= j < k ==> s[j] == c,
        k < s.len() ==> s[k] != c,
    ensures
        strip_leading(s, c) == s.skip(k),
    decreases k,
{
    if k > 0 {
        assert(s.drop_first().skip(k - 1) =~= s.skip(k));
        assert forall|j: int| 0 <= j < k - 1 implies s.drop_first()[j] == c by {
            assert(s.drop_first()[j] == s[j + 1]);
        }
        if k - 1 < s.drop_first().len() {
            assert(s.drop_first()[k - 1] == s[k]);
        }
        lemma_strip_leading_skip(s.drop_first(), c, k - 1);
    } else {
        assert(s.skip(0) =~= s);
    }
}

/// The lines of `s` after the one starting at `start`, when no line feed lies in `s[start..i)`
/// and `s[i]` is one.
proof fn lemma_lines_step(s: Seq<char>, start: int, i: int)
    requires
        0 <= start <= i < s.len(),
        forall|j: int| start <= j < i ==> s[j] != '\n',
        s[i] == '\n',
    ensures
        text_lines(s.skip(start)) == seq![strip_carriage_return(s.subrange(start, i))] + text_lines(
            s.skip(i + 1),
        ),
{
    let u = s.skip(start);
    assert forall|j: int| 0 <= j < i - start implies u[j] != '\n' by {
        assert(u[j] == s[start + j]);
    }
    assert(u[i - start] == s[i]);
    lemma_first_line_feed_at(u, i - start);
    assert(u.take(i - start) =~= s.subrange(start, i));
    assert(u.skip(i - start + 1) =~= s.skip(i + 1));
}

/// The lines of the rest of `s` from `start` on, when it holds no line feed.
proof fn lemma_lines_last(s: Seq<char>, start: int)
    requires
        0 <= start <= s.len(),
        forall|j: int| start <= j < s.len() ==> s[j] != '\n',
    ensures
        start < s.len() ==> text_lines(s.skip(start)) == seq![s.skip(start)],
        start == s.len() ==> text_lines(s.skip(start)) == Seq::<Seq<char>>::empty(),
{
    let u = s.skip(start);
    assert forall|j: int| 0 <= j < u.len() implies u[j] != '\n' by {
        assert(u[j] == s[start + j]);
    }
    lemma_first_line_feed_at(u, u.len() as int);
}

/// Splits `s` into lines as `str::lines` does.
pub fn split_lines(s: &str) -> (r: Vec<String>)
    ensures
        string_views(r@) == text_lines(s@),
{
    let n = s.unicode_len();
    let mut out: Vec<String> = Vec::new();
    let mut start: usize = 0;
    let mut i: usize = 0;
    let mut last_cr = false;
    proof {
        assert(s@.skip(0) =~= s@);
    }
    for c in it: s.chars()
        invariant
            it.seq() == s@,
            n == s@.len(),
            i == it.index(),
            start <= i,
            forall|j: int| start <= j < i ==> s@[j] != '\n',
            last_cr == (i > start && s@[i - 1] == '\r'),
            text_lines(s@) == string_views(out@) + text_lines(s@.skip(start as int)),
    {
        if c == '\n' {
            let line_end = if last_cr { i - 1 } else { i };
            let line = String::from_str(s.substring_char(start, line_end));
            proof {
                lemma_lines_step(s@, start as int, i as int);
                let whole = s@.subrange(start as int, i as int);
                assert(line@ == strip_carriage_return(whole)) by {
                    if last_cr {
                        assert(whole.drop_last() =~= s@.subrange(start as int, i - 1));
                    }
                }
                assert(string_views(out@.push(line)) =~= string_views(out@).push(line@));
                assert(string_views(out@) + text_lines(s@.skip(start as int)) =~= string_views(
                    out@,
                ).push(line@) + text_lines(s@.skip(i + 1)));
            }
            out.push(line);
            start = i + 1;
            last_cr = false;
        } else {
            last_cr = c == '\r';
        }
        i = i + 1;
    }
    proof {
        lemma_lines_last(s@, start as int);
    }
    if start < n {
        let line = String::from_str(s.substring_char(start, n));
        proof {
            assert(s@.subrange(start as int, n as int) =~= s@.skip(start as int));
            assert(string_views(out@.push(line)) =~= string_views(out@).push(line@));
        }
        out.push(line);
    } else {
        proof {
            assert(string_views(out@) + Seq::<Seq<char>>::empty() =~= string_views(out@));
        }
    }
    out
}

/// Whether the two texts are the same sequence of characters.
pub fn same_text(a: &str, b: &str) -> (r: bool)
    ensures
        r == (a@ == b@),
{
    let n = a.unicode_len();
    let m = b.unicode_len();
    if n != m {
        return false;
    }
    let mut i: usize = 0;
    while i < n
        invariant
            n == a@.len(),
            m == b@.len(),
            n == m,
            i <= n,
            forall|j: int| 0 <= j < i ==> a@[j] == b@[j],
        decreases n - i,
    {
        if a.get_char(i) != b.get_char(i) {
            return false;
        }
        i = i + 1;
    }
    assert(a@ =~= b@);
    true
}

/// `str::to_lowercase`: the Unicode lowercase mapping of `s`.
///
/// Stated of it: the result is `lowercase(s@)`, a function of the text alone, and an
/// ASCII-only text is mapped character by character to its ASCII lowercase. The
/// Unicode tables for other characters are not written out here.
#[verifier::external_body]
pub(crate) fn to_lowercase(s: &str) -> (r: String)
    ensures
        r@ == lowercase(s@),
        is_ascii_text(s@) ==> r@ == s@.map_values(|c: char| ascii_lower(c)),
{
    s.to_lowercase()
}

/// `std::str::from_utf8`: the text that `bytes` encode in UTF-8, if they are valid UTF-8.
///
/// Stated of it: it succeeds exactly on valid UTF-8 and then yields the decoded
/// characters.
#[verifier::external_body]
pub(crate) fn decode_utf8_bytes(bytes: &[u8]) -> (r: Option<String>)
    ensures
        r is Some <==> valid_utf8(bytes@),
        r matches Some(t) ==> t@ == decode_utf8(bytes@),
{
    match std::str::from_utf8(bytes) {
        Ok(t) => Some(t.to_string()),
        Err(_) => None,
    }
}

/// A string made of `a` followed by `b`.
pub fn join2(a: &str, b: &str) -> (r: String)
    ensures
        r@ == a@ + b@,
{
    let mut r = String::from_str(a);
    r.append(b);
    r
}

} // verus!
