//! The layout of an analysis result on the terminal: which lines are blank, which
//! are bullet points and which are plain text. Colours and printing happen outside
//! the library.

use vstd::prelude::*;

use crate::text::{
    is_blank, is_blank_text, lemma_first_line_feed_at, lemma_strip_leading_shape, split_lines, string_views, strip_leading, text_lines, trim,
    trim_start_matches, trimmed_text,
};

verus! {

/// The bullet that marks a key point.
pub const BULLET: char = '•';

/// How one line of a result is shown.
#[derive(Debug, PartialEq, Eq)]
pub enum ResultLine {
    /// An empty line, for a line that is blank.
    Blank,
    /// A bullet point, with the text that follows its bullets, trimmed.
    Bullet(String),
    /// A line shown as it is.
    Text(String),
}

/// The mathematical value of a [`ResultLine`].
pub enum LineModel {
    Blank,
    Bullet(Seq<char>),
    Text(Seq<char>),
}

impl View for ResultLine {
    type V = LineModel;

    open spec fn view(&self) -> LineModel {
        match self {
            ResultLine::Blank => LineModel::Blank,
            ResultLine::Bullet(b) => LineModel::Bullet(b@),
            ResultLine::Text(t) => LineModel::Text(t@),
        }
    }
}

/// How a line is shown: blank lines as empty, lines starting with a bullet as bullet
/// points, the rest as they are.
pub open spec fn line_layout(line: Seq<char>) -> LineModel {
    if is_blank_text(line) {
        LineModel::Blank
    } else if line.len() > 0 && line[0] == BULLET {
        LineModel::Bullet(trimmed_text(strip_leading(line, BULLET)))
    } else {
        LineModel::Text(line)
    }
}

/// How a whole result is shown: one entry per line of it.
pub open spec fn result_layout(content: Seq<char>) -> Seq<LineModel> {
    text_lines(content).map_values(|l: Seq<char>| line_layout(l))
}

/// The values of a sequence of result lines.
pub open spec fn layout_views(v: Seq<ResultLine>) -> Seq<LineModel> {
    v.map_values(|l: ResultLine| l@)
}

/// How one line of a result is shown.
pub fn layout_line(line: &str) -> (r: ResultLine)
    ensures
        r@ == line_layout(line@),
{
    if is_blank(line) {
        ResultLine::Blank
    } else if line.unicode_len() > 0 && line.get_char(0) == BULLET {
        let body = trim_start_matches(line, BULLET);
        ResultLine::Bullet(trim(body.as_str()))
    } else {
        ResultLine::Text(String::from_str(line))
    }
}

/// How a result is shown, line by line.
pub fn result_lines(content: &str) -> (r: Vec<ResultLine>)
    ensures
        layout_views(r@) == result_layout(content@),
{
    let lines = split_lines(content);
    let ghost views = string_views(lines@);
    let mut out: Vec<ResultLine> = Vec::new();
    let mut i: usize = 0;
    while i < lines.len()
        invariant
            i <= lines@.len(),
            views == string_views(lines@),
            views == text_lines(content@),
            layout_views(out@) == views.take(i as int).map_values(|l: Seq<char>| line_layout(l)),
        decreases lines.len() - i,
    {
        let entry = layout_line(lines[i].as_str());
        proof {
            assert(lines@[i as int]@ == views[i as int]);
            assert(views.take(i + 1) =~= views.take(i as int).push(views[i as int]));
            assert(layout_views(out@.push(entry)) =~= layout_views(out@).push(entry@));
            assert(views.take(i + 1).map_values(|l: Seq<char>| line_layout(l)) =~= views.take(
                i as int,
            ).map_values(|l: Seq<char>| line_layout(l)).push(line_layout(views[i as int])));
        }
        out.push(entry);
        i = i + 1;
    }
    proof {
        assert(views.take(i as int) =~= views);
    }
    out
}


/// A line that is neither blank nor starts with a bullet is shown whole and unchanged,
/// whatever its length; a blank line is shown as a blank line; a line that starts with
/// a bullet is shown as a bullet point.
pub proof fn lemma_plain_lines_are_shown_whole(line: Seq<char>)
    ensures
        BULLET == '•',
        is_blank_text(line) ==> line_layout(line) == LineModel::Blank,
        !is_blank_text(line) && !(line.len() > 0 && line[0] == '•') ==> line_layout(line)
            == LineModel::Text(line),
        !is_blank_text(line) && line.len() > 0 && line[0] == '•' ==> line_layout(line) is Bullet,
{
}

/// A result of one line, without line feed or carriage return, is shown as that line
/// alone: whole when it is neither blank nor starts with a bullet.
pub proof fn lemma_one_line_result(content: Seq<char>)
    requires
        content.len() > 0,
        forall|i: int| 0 <= i < content.len() ==> content[i] != '\n' && content[i] != '\r',
    ensures
        result_layout(content).len() == 1,
        result_layout(content)[0] == line_layout(content),
        !is_blank_text(content) && content[0] != '•' ==> result_layout(content) == seq![
            LineModel::Text(content),
        ],
{
    lemma_first_line_feed_at(content, content.len() as int);
    assert(text_lines(content) == seq![content]);
    assert(result_layout(content) =~= seq![line_layout(content)]);
}

/// A result is shown with one entry per line of it, in order, each line laid out on
/// its own.
pub proof fn lemma_one_entry_per_line(content: Seq<char>)
    ensures
        result_layout(content).len() == text_lines(content).len(),
        forall|i: int|
            0 <= i < text_lines(content).len() ==> #[trigger] result_layout(content)[i]
                == line_layout(text_lines(content)[i]),
{
}

/// A line that starts with a bullet and is not blank is shown as a bullet point whose
/// text is the rest of the line after its run of leading bullets, trimmed.
pub proof fn lemma_bullet_lines_keep_their_text(line: Seq<char>)
    requires
        !is_blank_text(line),
        line.len() > 0,
        line[0] == '•',
    ensures
        exists|a: int|
            #![trigger line.skip(a)]
            0 < a <= line.len() && (forall|j: int| 0 <= j < a ==> #[trigger] line[j] == '•') && (a
                < line.len() ==> line[a] != '•') && line_layout(line) == LineModel::Bullet(
                trimmed_text(line.skip(a)),
            ),
{
    lemma_strip_leading_shape(line, BULLET);
    let a = line.len() - strip_leading(line, BULLET).len();
    if a == 0 {
        assert(strip_leading(line, BULLET) =~= line);
    }
    if a < line.len() {
        assert(line[a] == strip_leading(line, BULLET)[0]);
    }
    assert(line_layout(line) == LineModel::Bullet(trimmed_text(line.skip(a))));
}

} // verus!
