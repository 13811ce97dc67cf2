//! The state of the explorer's output panel: the table shown, its text, its
//! size, the viewport and the scroll position.
use vstd::prelude::*;
use crate::error::{DuckyError, error_message};
use crate::events::Key;
use crate::batch::Batch;
use crate::batch::rows_view;
use crate::table::{
    TablePreset, TableSpec, batches_error, drawn_at, error_table, header_view,
    spec_drawn_wrapped, is_drawing_of, no_cell_holds, is_empty_result_table,
    is_error_table, is_result_table,
    query_outcome_ok, render_table,
};
use crate::text::{
    contains_char, each_without_newlines, join_strings, join_with, lemma_without_newlines_join, lemma_join_with_concat,
    lemma_join_lines_gives_back, lemma_join_with_ends_with_last, lemma_lines_hold_char,
    lemma_without_newlines_has_none, some_line_holds, remove_newlines,
    spec_text_width, split_lines, strings_view, text_lines, text_width, without_newlines,
};

verus! {

/// How far one scroll key moves the output.
pub const SCROLL_STEP: u16 = 25;

/// The character that the header separator of a result table is drawn with.
pub open spec fn rule_char() -> char {
    '\u{2550}'
}

/// Index of the first line that holds the rule character, or `ls.len()`.
pub open spec fn first_rule_line(ls: Seq<Seq<char>>) -> nat
    decreases ls.len(),
{
    if ls.len() == 0 {
        0
    } else if ls[0].contains(rule_char()) {
        0
    } else {
        1 + first_rule_line(ls.drop_first())
    }
}

/// True when some line of `s` holds the rule character.
pub open spec fn has_rule_line(s: Seq<char>) -> bool {
    first_rule_line(text_lines(s)) < text_lines(s).len()
}

/// The lines of `s` up to and with the first one that holds the rule
/// character, joined with line feeds.
pub open spec fn header_part(s: Seq<char>) -> Seq<char> {
    let ls = text_lines(s);
    join_with(ls.take(first_rule_line(ls) + 1int), "\n"@)
}

/// The lines of `s` after the first one that holds the rule character, joined
/// with line feeds.
pub open spec fn content_part(s: Seq<char>) -> Seq<char> {
    let ls = text_lines(s);
    join_with(ls.skip(first_rule_line(ls) + 1int), "\n"@)
}

/// The width recorded for an output text: that of its first line, cut to 16 bits.
pub open spec fn output_width(s: Seq<char>) -> u16 {
    let ls = text_lines(s);
    if ls.len() > 0 {
        spec_text_width(ls[0]) as u16
    } else {
        0
    }
}

/// The height recorded for an output text: its number of lines, cut to 16 bits.
pub open spec fn output_height(s: Seq<char>) -> u16 {
    text_lines(s).len() as u16
}

/// `a - b`, or 0 when `b` is larger.
pub open spec fn sat_sub(a: u16, b: u16) -> u16 {
    if a >= b {
        (a - b) as u16
    } else {
        0
    }
}

/// `a + b`, or `u16::MAX` when that is larger.
pub open spec fn sat_add(a: u16, b: u16) -> u16 {
    if a + b <= u16::MAX {
        (a + b) as u16
    } else {
        u16::MAX
    }
}

/// `x`, or `max` when `x` is larger.
pub open spec fn at_most(x: u16, max: u16) -> u16 {
    if x > max {
        max
    } else {
        x
    }
}

/// How far the output can be scrolled along an axis: what of its length does
/// not fit in the viewport.
pub open spec fn scroll_limit(length: u16, viewport: Option<u16>) -> u16 {
    sat_sub(
        length,
        match viewport {
            Some(v) => v,
            None => 0,
        },
    )
}

/// The position after a step back: one step less, but at least 0 and at most `max`.
pub open spec fn step_back(x: u16, max: u16) -> u16 {
    at_most(sat_sub(x, SCROLL_STEP), max)
}

/// The position after a step forward: one step more, but at most `max`.
pub open spec fn step_forward(x: u16, max: u16) -> u16 {
    at_most(sat_add(x, SCROLL_STEP), max)
}

/// The user's query: the lines of the editor joined with spaces, without line feeds.
pub open spec fn user_query_text(lines: Seq<Seq<char>>) -> Seq<char> {
    without_newlines(join_with(lines, " "@))
}

/// The table shown for the outcome of a query: the result, or the error message.
pub open spec fn shows_outcome(t: TableSpec, outcome: Result<TableSpec, DuckyError>) -> bool {
    match outcome {
        Ok(r) => t == r,
        Err(e) => is_error_table(t, error_message(e)),
    }
}

/// What `first_rule_line` finds.
pub proof fn lemma_first_rule_line(ls: Seq<Seq<char>>)
    ensures
        first_rule_line(ls) <= ls.len(),
        forall|j: int| 0 <= j < first_rule_line(ls) ==> !(#[trigger] ls[j]).contains(rule_char()),
        first_rule_line(ls) < ls.len() ==> ls[first_rule_line(ls) as int].contains(rule_char()),
    decreases ls.len(),
{
    if ls.len() > 0 && !ls[0].contains(rule_char()) {
        lemma_first_rule_line(ls.drop_first());
        assert forall|j: int| 0 <= j < first_rule_line(ls) implies !(
        #[trigger] ls[j]).contains(rule_char()) by {
            if j > 0 {
                assert(ls[j] == ls.drop_first()[j - 1]);
            }
        }
    }
}

/// The header cut from an output always ends with the line that holds the
/// header separator, so the header holds the separator.
pub proof fn law_header_holds_separator(s: Seq<char>)
    requires
        has_rule_line(s),
    ensures
        header_part(s).contains(rule_char()),
{
    let ls = text_lines(s);
    let k = first_rule_line(ls);
    lemma_first_rule_line(ls);
    let parts = ls.take(k + 1int);
    assert(parts.last() == ls[k as int]);
    lemma_join_with_ends_with_last(parts, "\n"@);
    let j = join_with(parts, "\n"@);
    let off = j.len() - parts.last().len();
    let i = choose|i: int| 0 <= i < ls[k as int].len() && ls[k as int][i] == rule_char();
    assert(j[off + i] == j.skip(off)[i]);
}

/// Cutting the output loses no line: the header, a line feed and the content
/// give back all lines of the output joined with line feeds; when nothing
/// follows the separator line, the header is all of them and the content is empty.
pub proof fn law_cut_keeps_every_line(s: Seq<char>)
    requires
        has_rule_line(s),
    ensures
        first_rule_line(text_lines(s)) + 1 < text_lines(s).len() ==> header_part(s) + "\n"@
            + content_part(s) == join_with(text_lines(s), "\n"@),
        first_rule_line(text_lines(s)) + 1 == text_lines(s).len() ==> header_part(s)
            == join_with(text_lines(s), "\n"@) && content_part(s).len() == 0,
{
    let ls = text_lines(s);
    let k = first_rule_line(ls);
    let a = ls.take(k + 1int);
    let b = ls.skip(k + 1int);
    assert(a + b =~= ls);
    if k + 1 < ls.len() {
        lemma_join_with_concat(a, b, "\n"@);
    } else {
        assert(a =~= ls);
        assert(b.len() == 0);
    }
}

/// What the panel shows for the record batches of a query: the notice when no
/// batch came back, the reason given for the first column that cannot be
/// formatted, else the columns of the first batch and the rows of all batches.
pub proof fn law_panel_shows_query_result(
    batches: Seq<Batch>,
    outcome: Result<TableSpec, DuckyError>,
    shown: TableSpec,
)
    requires
        query_outcome_ok(batches, outcome),
        shows_outcome(shown, outcome),
    ensures
        batches.len() == 0 ==> is_empty_result_table(shown),
        batches.len() > 0 ==> match batches_error(batches) {
            Some(e) => is_error_table(shown, e),
            None => is_result_table(shown, batches),
        },
{
}

/// An output can be cut into header and content exactly when it holds the
/// header separator character somewhere.
pub proof fn law_rule_line_iff_separator(s: Seq<char>)
    ensures
        has_rule_line(s) <==> s.contains(rule_char()),
{
    let ls = text_lines(s);
    lemma_first_rule_line(ls);
    lemma_lines_hold_char(s, rule_char());
    if some_line_holds(ls, rule_char()) {
        let i = choose|i: int| 0 <= i < ls.len() && (#[trigger] ls[i]).contains(rule_char());
        assert(first_rule_line(ls) <= i);
    }
    if has_rule_line(s) {
        assert(ls[first_rule_line(ls) as int].contains(rule_char()));
    }
}

/// Cutting an output with no carriage return and no final line feed gives it
/// back: the header, a line feed and the content are the output; when nothing
/// follows the separator line, the header is the whole output.
pub proof fn law_cut_gives_back_output(s: Seq<char>)
    requires
        has_rule_line(s),
        !s.contains('\r'),
        s.last() != '\n',
    ensures
        first_rule_line(text_lines(s)) + 1 < text_lines(s).len() ==> header_part(s) + "\n"@
            + content_part(s) == s,
        first_rule_line(text_lines(s)) + 1 == text_lines(s).len() ==> header_part(s) == s,
{
    lemma_join_lines_gives_back(s);
    law_cut_keeps_every_line(s);
}

/// The text drawn for a bordered table whose header has a cell can be cut into
/// header and content, wrapped or not.
pub proof fn law_drawn_header_can_be_cut(t: TableSpec, wrap: bool, text: Seq<char>)
    requires
        is_drawing_of(t, wrap, text),
        t.preset != TablePreset::Nothing,
        t.header matches Some(h) && h@.len() > 0,
    ensures
        has_rule_line(text),
{
    law_rule_line_iff_separator(text);
}

/// The text drawn for an error table cannot be cut into header and content,
/// wrapped or not, unless the message itself holds the separator character.
pub proof fn law_drawn_error_cannot_be_cut(t: TableSpec, msg: Seq<char>, wrap: bool, text: Seq<char>)
    requires
        is_error_table(t, msg),
        !msg.contains(rule_char()),
        is_drawing_of(t, wrap, text),
    ensures
        !has_rule_line(text),
{
    assert(no_cell_holds(rows_view(t.rows@), rule_char())) by {
        assert(rows_view(t.rows@) == seq![seq![msg]]);
    }
    law_rule_line_iff_separator(text);
}

/// `text` is the drawing of `t`, wrapped or not, at some terminal width (or at
/// none, when no width is found).
pub open spec fn shows_drawing(t: TableSpec, wrap: bool, text: Seq<char>) -> bool {
    exists|w: Option<u16>|
        text == drawn_at(t.preset, header_view(t.header), rows_view(t.rows@), wrap, w)
}

/// Whatever is drawn for a table is its drawing at some terminal width (or at
/// none, when no width is found).
pub proof fn law_drawing_is_drawn_at_a_width(t: TableSpec, wrap: bool, text: Seq<char>)
    requires
        is_drawing_of(t, wrap, text),
    ensures
        shows_drawing(t, wrap, text),
{
    let h = header_view(t.header);
    let r = rows_view(t.rows@);
    if wrap {
        let w = choose|w: Option<u16>| text == spec_drawn_wrapped(t.preset, h, r, w);
        assert(text == drawn_at(t.preset, h, r, wrap, w));
    } else {
        assert(text == drawn_at(t.preset, h, r, wrap, None));
    }
}

/// Drawing the same table twice at the same terminal width gives the same text,
/// and so the same recorded size: drawing again changes nothing.
pub proof fn law_redraw_at_same_width_is_stable(
    t: TableSpec,
    wrap: bool,
    width: Option<u16>,
    s1: Seq<char>,
    s2: Seq<char>,
)
    requires
        s1 == drawn_at(t.preset, header_view(t.header), rows_view(t.rows@), wrap, width),
        s2 == drawn_at(t.preset, header_view(t.header), rows_view(t.rows@), wrap, width),
    ensures
        s1 == s2,
        output_width(s1) == output_width(s2),
        output_height(s1) == output_height(s2),
{
}

/// Drawing a table unwrapped gives the same text every time.
pub proof fn law_unwrapped_drawing_is_stable(t: TableSpec, s1: Seq<char>, s2: Seq<char>)
    requires
        is_drawing_of(t, false, s1),
        is_drawing_of(t, false, s2),
    ensures
        s1 == s2,
{
}

/// No character of the editor but its line feeds is lost: the query is every
/// line, each without its line feeds, in order, with one space between
/// neighbouring lines.
pub proof fn law_user_query_keeps_every_line(lines: Seq<Seq<char>>)
    ensures
        user_query_text(lines) == join_with(each_without_newlines(lines), " "@),
{
    lemma_without_newlines_join(lines);
}

/// The query taken from the editor is a single line: it holds no line feed,
/// whatever the editor holds.
pub proof fn law_user_query_is_one_line(lines: Seq<Seq<char>>)
    ensures
        !user_query_text(lines).contains('\n'),
{
    lemma_without_newlines_has_none(join_with(lines, " "@));
}

/// A scroll step never takes a position past the limit of its axis.
pub proof fn law_scroll_within_limit(x: u16, max: u16)
    ensures
        step_back(x, max) <= max,
        step_forward(x, max) <= max,
        step_back(x, max) <= x,
        x <= max ==> x <= step_forward(x, max),
{
}

/// A step forward and a step back undo each other when no limit cuts them.
pub proof fn law_scroll_steps_undo(x: u16, max: u16)
    ensures
        x + SCROLL_STEP <= max ==> step_back(step_forward(x, max), max) == x,
        SCROLL_STEP <= x <= max ==> step_forward(step_back(x, max), max) == x,
{
}

/// `x` brought into `min..=max`, as `Ord::clamp` does.
fn clamp_to(x: u16, min: u16, max: u16) -> (r: u16)
    requires
        min <= max,
    ensures
        r == if x < min {
            min
        } else if x > max {
            max
        } else {
            x
        },
{
    if x < min {
        min
    } else if x > max {
        max
    } else {
        x
    }
}

/// The output panel of the explorer.
pub struct App {
    /// The table shown.
    pub current_table: TableSpec,
    /// The width of the first line of the output, in terminal columns.
    pub current_output_width: u16,
    /// The number of lines of the output.
    pub current_output_height: u16,
    /// The width of the viewport, once known.
    pub viewport_width: Option<u16>,
    /// The height of the viewport, once known.
    pub viewport_height: Option<u16>,
    /// The current table drawn as text.
    pub current_output: String,
    /// Whether cells are wrapped to fit the terminal.
    pub wrap_output: bool,
    /// How far the output is scrolled: rows down, then columns right.
    pub scroll_coord: (u16, u16),
}

impl App {
    /// The size recorded for the output matches its text.
    pub open spec fn measured(self) -> bool {
        &&& self.current_output_width == output_width(self.current_output@)
        &&& self.current_output_height == output_height(self.current_output@)
    }

    /// The table to show for the outcome of a query.
    pub fn table_for_outcome(outcome: Result<TableSpec, DuckyError>) -> (t: TableSpec)
        ensures
            shows_outcome(t, outcome),
    {
        match outcome {
            Ok(t) => t,
            Err(e) => error_table(e.message()),
        }
    }

    /// The panel as it starts: showing the outcome of the first query, wrapped,
    /// not scrolled, with no viewport known yet.
    pub fn new(first: Result<TableSpec, DuckyError>) -> (app: App)
        ensures
            shows_outcome(app.current_table, first),
            app.wrap_output,
            app.scroll_coord == (0u16, 0u16),
            app.viewport_width is None,
            app.viewport_height is None,
            app.measured(),
            is_drawing_of(app.current_table, true, app.current_output@),
            shows_drawing(app.current_table, true, app.current_output@),
    {
        let mut app = App {
            current_table: App::table_for_outcome(first),
            current_output: String::new(),
            current_output_width: 0,
            current_output_height: 0,
            viewport_width: None,
            viewport_height: None,
            wrap_output: true,
            scroll_coord: (0, 0),
        };
        app.update_output();
        app
    }

    /// The user's query: the lines of the editor joined with spaces, without
    /// line feeds.
    pub fn get_user_query(lines: &Vec<String>) -> (r: String)
        ensures
            r@ == user_query_text(strings_view(lines@)),
            r@ == join_with(each_without_newlines(strings_view(lines@)), " "@),
    {
        proof {
            law_user_query_keeps_every_line(strings_view(lines@));
        }
        let joined = join_strings(lines, 0, lines.len(), " ");
        assert(strings_view(lines@).subrange(0, lines@.len() as int) =~= strings_view(lines@));
        remove_newlines(joined.as_str())
    }

    /// Shows the outcome of a query: its table, or its error in a single cell.
    pub fn update_query(&mut self, outcome: Result<TableSpec, DuckyError>)
        ensures
            shows_outcome(final(self).current_table, outcome),
            final(self).current_output == old(self).current_output,
            final(self).current_output_width == old(self).current_output_width,
            final(self).current_output_height == old(self).current_output_height,
            final(self).viewport_width == old(self).viewport_width,
            final(self).viewport_height == old(self).viewport_height,
            final(self).wrap_output == old(self).wrap_output,
            final(self).scroll_coord == old(self).scroll_coord,
    {
        self.current_table = App::table_for_outcome(outcome);
    }

    /// The width and height recorded for an output text.
    pub fn measure_output(text: &str) -> (r: (u16, u16))
        ensures
            r.0 == output_width(text@),
            r.1 == output_height(text@),
    {
        let lines = split_lines(text);
        let width: u16 = if lines.len() > 0 {
            assert(lines@[0]@ == text_lines(text@)[0]);
            text_width(lines[0].as_str()) as u16
        } else {
            0
        };
        (width, lines.len() as u16)
    }

    /// Draws the current table again, wrapped or not as `wrap_output` says, and
    /// records the size of the text.
    pub fn update_output(&mut self)
        ensures
            final(self).measured(),
            is_drawing_of(old(self).current_table, old(self).wrap_output, final(self).current_output@),
            shows_drawing(old(self).current_table, old(self).wrap_output, final(self).current_output@),
            final(self).current_table == old(self).current_table,
            final(self).viewport_width == old(self).viewport_width,
            final(self).viewport_height == old(self).viewport_height,
            final(self).wrap_output == old(self).wrap_output,
            final(self).scroll_coord == old(self).scroll_coord,
    {
        let out = render_table(&self.current_table, self.wrap_output);
        proof {
            law_drawing_is_drawn_at_a_width(self.current_table, self.wrap_output, out@);
        }
        let (w, h) = App::measure_output(out.as_str());
        self.current_output = out;
        self.current_output_width = w;
        self.current_output_height = h;
    }

    /// Switches wrapping on or off and draws the table again.
    pub fn toggle_wrap(&mut self)
        ensures
            final(self).wrap_output == !old(self).wrap_output,
            final(self).measured(),
            is_drawing_of(final(self).current_table, final(self).wrap_output, final(self).current_output@),
            shows_drawing(final(self).current_table, final(self).wrap_output, final(self).current_output@),
            final(self).current_table == old(self).current_table,
            final(self).viewport_width == old(self).viewport_width,
            final(self).viewport_height == old(self).viewport_height,
            final(self).scroll_coord == old(self).scroll_coord,
    {
        self.wrap_output = !self.wrap_output;
        self.update_output();
    }

    /// True when a line of the output holds the header separator, so that the
    /// output can be cut into header and content.
    pub fn has_header_rule(&self) -> (r: bool)
        ensures
            r == has_rule_line(self.current_output@),
    {
        let lines = split_lines(self.current_output.as_str());
        match App::rule_line_index(&lines) {
            Some(_) => true,
            None => false,
        }
    }

    /// Index of the first of `lines` that holds the rule character.
    fn rule_line_index(lines: &Vec<String>) -> (r: Option<usize>)
        ensures
            match r {
                Some(i) => i == first_rule_line(strings_view(lines@)) && i < lines@.len(),
                None => first_rule_line(strings_view(lines@)) == lines@.len(),
            },
    {
        let ghost ls = strings_view(lines@);
        proof {
            lemma_first_rule_line(ls);
        }
        let n = lines.len();
        let mut i: usize = 0;
        while i < n
            invariant
                n == lines@.len(),
                ls == strings_view(lines@),
                i <= n,
                forall|j: int| 0 <= j < i ==> !(#[trigger] ls[j]).contains(rule_char()),
                first_rule_line(ls) <= ls.len(),
                forall|j: int|
                    0 <= j < first_rule_line(ls) ==> !(#[trigger] ls[j]).contains(rule_char()),
                first_rule_line(ls) < ls.len() ==> ls[first_rule_line(ls) as int].contains(
                    rule_char(),
                ),
            decreases n - i,
        {
            if contains_char(lines[i].as_str(), '\u{2550}') {
                assert(ls[i as int].contains(rule_char()));
                return Some(i);
            }
            i = i + 1;
        }
        None
    }

    /// The output cut after the first line that holds the header separator:
    /// the header lines and the content lines, each joined with line feeds.
    pub fn output_header_and_content(&self) -> (r: (String, String))
        requires
            has_rule_line(self.current_output@),
        ensures
            r.0@ == header_part(self.current_output@),
            r.1@ == content_part(self.current_output@),
    {
        let lines = split_lines(self.current_output.as_str());
        let n = lines.len();
        let ghost ls = strings_view(lines@);
        match App::rule_line_index(&lines) {
            Some(pos) => {
                let header = join_strings(&lines, 0, pos + 1, "\n");
                let content = join_strings(&lines, pos + 1, n, "\n");
                assert(ls.subrange(0, pos + 1) =~= ls.take(pos + 1));
                assert(ls.subrange(pos + 1, lines@.len() as int) =~= ls.skip(pos + 1));
                (header, content)
            },
            None => {
                assert(false);
                (String::new(), String::new())
            },
        }
    }

    /// Records the size of the viewport the output is shown in.
    pub fn set_viewport_dims(&mut self, vh: u16, vw: u16)
        ensures
            final(self).viewport_height == Some(vh),
            final(self).viewport_width == Some(vw),
            final(self).current_table == old(self).current_table,
            final(self).current_output == old(self).current_output,
            final(self).current_output_width == old(self).current_output_width,
            final(self).current_output_height == old(self).current_output_height,
            final(self).wrap_output == old(self).wrap_output,
            final(self).scroll_coord == old(self).scroll_coord,
    {
        self.viewport_height = Some(vh);
        self.viewport_width = Some(vw);
    }

    /// Scrolls one step for a scroll key: up or `k`, down or `j` move the rows;
    /// left or `h`, right or `l` move the columns; any other key changes nothing.
    /// A position never goes past what does not fit in the viewport.
    pub fn update_scroll(&mut self, key: Key)
        ensures
            ({
                let max_height = scroll_limit(
                    old(self).current_output_height,
                    old(self).viewport_height,
                );
                let max_width = scroll_limit(
                    old(self).current_output_width,
                    old(self).viewport_width,
                );
                let (row, col) = old(self).scroll_coord;
                final(self).scroll_coord == match key {
                    Key::Up | Key::Char('k') => (step_back(row, max_height), col),
                    Key::Down | Key::Char('j') => (step_forward(row, max_height), col),
                    Key::Left | Key::Char('h') => (row, step_back(col, max_width)),
                    Key::Right | Key::Char('l') => (row, step_forward(col, max_width)),
                    _ => (row, col),
                }
            }),
            final(self).current_table == old(self).current_table,
            final(self).current_output == old(self).current_output,
            final(self).current_output_width == old(self).current_output_width,
            final(self).current_output_height == old(self).current_output_height,
            final(self).viewport_width == old(self).viewport_width,
            final(self).viewport_height == old(self).viewport_height,
            final(self).wrap_output == old(self).wrap_output,
    {
        let max_height = self.current_output_height.saturating_sub(
            self.viewport_height.unwrap_or(0),
        );
        let max_width = self.current_output_width.saturating_sub(self.viewport_width.unwrap_or(0));
        match key {
            Key::Up | Key::Char('k') => {
                self.scroll_coord.0 = clamp_to(self.scroll_coord.0.saturating_sub(SCROLL_STEP), 0, max_height)
            },
            Key::Down | Key::Char('j') => {
                self.scroll_coord.0 = clamp_to(self.scroll_coord.0.saturating_add(SCROLL_STEP), 0, max_height)
            },
            Key::Left | Key::Char('h') => {
                self.scroll_coord.1 = clamp_to(self.scroll_coord.1.saturating_sub(SCROLL_STEP), 0, max_width)
            },
            Key::Right | Key::Char('l') => {
                self.scroll_coord.1 = clamp_to(self.scroll_coord.1.saturating_add(SCROLL_STEP), 0, max_width)
            },
            _ => {},
        }
    }
}

} // verus!
