//! The opened file, the tables of cells shown to the user, and how a table is
//! drawn as text.
use vstd::prelude::*;
use std::time::SystemTime;
use comfy_table::Table as CTable;
use crate::batch::{
    ArrowRecordBatchUtils, Batch, field_names, field_types, first_column_error,
    rows_of_columns, rows_view,
};
use crate::error::DuckyError;
use crate::text::strings_view;

verus! {

/// `std::time::SystemTime`, carried through opaque.
#[verifier::external_type_specification]
#[verifier::external_body]
pub struct ExSystemTime(std::time::SystemTime);

/// `std::io::Error`, carried through opaque.
#[verifier::external_type_specification]
#[verifier::external_body]
pub struct ExIoError(std::io::Error);

/// `comfy_table::Table`, carried through opaque.
#[verifier::external_type_specification]
#[verifier::external_body]
pub struct ExComfyTable(CTable);

/// The border styles that tables are drawn with.
#[derive(Clone, Copy, Debug, PartialEq, Eq, Structural)]
pub enum TablePreset {
    /// No borders at all.
    Nothing,
    /// Full borders with lines between all rows.
    Utf8Full,
    /// Full borders with no lines between body rows.
    Utf8FullCondensed,
}

/// What a table shows: its border style, its header if it has one, and its rows.
#[derive(Clone, Debug)]
pub struct TableSpec {
    pub preset: TablePreset,
    pub header: Option<Vec<String>>,
    pub rows: Vec<Vec<String>>,
}

/// The view of a header.
pub open spec fn header_view(h: Option<Vec<String>>) -> Option<Seq<Seq<char>>> {
    match h {
        Some(v) => Some(strings_view(v@)),
        None => None,
    }
}

/// The header cell of a column: its name, a rule, and its type.
pub open spec fn header_cell(name: Seq<char>, dtype: Seq<char>) -> Seq<char> {
    name + "\n---\n"@ + dtype
}

/// The header cells for `names` and `dtypes`, paired one by one.
pub open spec fn header_cells_of(names: Seq<Seq<char>>, dtypes: Seq<Seq<char>>) -> Seq<Seq<char>> {
    Seq::new(
        if names.len() <= dtypes.len() {
            names.len()
        } else {
            dtypes.len()
        },
        |i: int| header_cell(names[i], dtypes[i]),
    )
}

/// The message shown when a query returns no batch at all.
pub open spec fn empty_result_text() -> Seq<char> {
    "Query returning 0 rows"@
}

/// A table that shows `msg` in a single cell.
pub open spec fn is_error_table(t: TableSpec, msg: Seq<char>) -> bool {
    &&& t.preset == TablePreset::Utf8Full
    &&& t.header is None
    &&& rows_view(t.rows@) == seq![seq![msg]]
}

/// The table shown for a query that returned no batch.
pub open spec fn is_empty_result_table(t: TableSpec) -> bool {
    &&& t.preset == TablePreset::Nothing
    &&& header_view(t.header) == Some(seq![empty_result_text()])
    &&& t.rows@.len() == 0
}

/// The reason given for the first column, batch by batch, that cannot be
/// formatted, if any.
pub open spec fn batches_error(bs: Seq<Batch>) -> Option<Seq<char>>
    decreases bs.len(),
{
    if bs.len() == 0 {
        None
    } else {
        match batches_error(bs.drop_last()) {
            Some(e) => Some(e),
            None => first_column_error(bs.last().spec_columns()),
        }
    }
}

/// The rows of all batches, batch after batch, each read across its columns.
pub open spec fn batches_rows(bs: Seq<Batch>) -> Seq<Seq<Seq<char>>>
    decreases bs.len(),
{
    if bs.len() == 0 {
        seq![]
    } else {
        batches_rows(bs.drop_last()) + rows_of_columns(
            bs.last().spec_columns(),
            bs.last().spec_num_rows() as nat,
        )
    }
}

/// The table shown for a query whose result is the batches `bs`, when all of
/// their columns could be formatted: the header names and types the columns of
/// the first batch, and the rows are those of all batches in order.
pub open spec fn is_result_table(t: TableSpec, bs: Seq<Batch>) -> bool {
    &&& t.preset == TablePreset::Utf8FullCondensed
    &&& header_view(t.header) == Some(
        header_cells_of(field_names(bs[0].spec_fields()), field_types(seq![], bs[0].spec_fields())),
    )
    &&& rows_view(t.rows@) == batches_rows(bs)
}

/// What a query with result `batches` shows.
pub open spec fn query_outcome_ok(batches: Seq<Batch>, r: Result<TableSpec, DuckyError>) -> bool {
    if batches.len() == 0 {
        r matches Ok(t) && is_empty_result_table(t)
    } else {
        match batches_error(batches) {
            Some(e) => r matches Err(DuckyError::Generic(m)) && m@ == e,
            None => r matches Ok(t) && is_result_table(t, batches),
        }
    }
}

/// An error found in the first `k` batches is the error of all of them.
proof fn lemma_batches_error_prefix(bs: Seq<Batch>, k: int)
    requires
        0 <= k <= bs.len(),
        batches_error(bs.take(k)) is Some,
    ensures
        batches_error(bs) == batches_error(bs.take(k)),
    decreases bs.len(),
{
    if k == bs.len() {
        assert(bs.take(k) =~= bs);
    } else {
        assert(bs.drop_last().take(k) =~= bs.take(k));
        lemma_batches_error_prefix(bs.drop_last(), k);
    }
}

/// When every batch has `n` columns, every row of the batches has `n` cells.
proof fn lemma_batches_rows_width(bs: Seq<Batch>, n: nat)
    requires
        forall|i: int| 0 <= i < bs.len() ==> (#[trigger] bs[i]).spec_columns().len() == n,
    ensures
        forall|r: int| 0 <= r < batches_rows(bs).len() ==> (#[trigger] batches_rows(bs)[r]).len() == n,
    decreases bs.len(),
{
    if bs.len() > 0 {
        let front = bs.drop_last();
        assert forall|i: int| 0 <= i < front.len() implies (#[trigger] front[i]).spec_columns().len() == n by {
            assert(front[i] == bs[i]);
        }
        lemma_batches_rows_width(front, n);
        assert(bs.last() == bs[bs.len() - 1]);
        let last_rows = rows_of_columns(bs.last().spec_columns(), bs.last().spec_num_rows() as nat);
        assert forall|r: int| 0 <= r < batches_rows(bs).len() implies (
        #[trigger] batches_rows(bs)[r]).len() == n by {
            if r < batches_rows(front).len() {
                assert(batches_rows(bs)[r] == batches_rows(front)[r]);
            } else {
                assert(batches_rows(bs)[r] == last_rows[r - batches_rows(front).len()]);
            }
        }
    }
}

/// The message for a path at which nothing exists.
pub open spec fn missing_path_message(path: Seq<char>) -> Seq<char> {
    "The provided path '"@ + path + "' does not exist"@
}

/// The message for a path that is not a regular file.
pub open spec fn not_a_file_message(path: Seq<char>) -> Seq<char> {
    "The provided path '"@ + path + "' is not a file"@
}

/// A result table has one header cell per column of the first batch, and,
/// when all batches have that many columns (as the batches of one query do),
/// one cell per header cell in each row.
pub proof fn law_result_rows_fit_header(t: TableSpec, bs: Seq<Batch>)
    requires
        bs.len() > 0,
        is_result_table(t, bs),
        forall|i: int|
            0 <= i < bs.len() ==> (#[trigger] bs[i]).spec_columns().len()
                == bs[0].spec_fields().len(),
    ensures
        header_view(t.header) matches Some(h) && h.len() == bs[0].spec_fields().len() && {
            let rows = rows_view(t.rows@);
            &&& rows.len() == batches_rows(bs).len()
            &&& forall|r: int| 0 <= r < rows.len() ==> (#[trigger] rows[r]).len() == h.len()
        },
{
    lemma_batches_rows_width(bs, bs[0].spec_fields().len());
}

/// The table that shows an error message in a single cell.
pub fn error_table(msg: String) -> (t: TableSpec)
    ensures
        is_error_table(t, msg@),
{
    let ghost m = msg@;
    let mut row: Vec<String> = Vec::new();
    row.push(msg);
    let mut rows: Vec<Vec<String>> = Vec::new();
    rows.push(row);
    let t = TableSpec { preset: TablePreset::Utf8Full, header: None, rows };
    assert(rows_view(t.rows@) =~= seq![seq![m]]) by {
        assert(strings_view(t.rows@[0]@) =~= seq![m]);
    }
    t
}

/// The table shown for a query that returned no batch.
pub fn empty_result_table() -> (t: TableSpec)
    ensures
        is_empty_result_table(t),
{
    let mut header: Vec<String> = Vec::new();
    header.push(String::from_str("Query returning 0 rows"));
    assert(strings_view(header@) =~= seq![empty_result_text()]);
    TableSpec { preset: TablePreset::Nothing, header: Some(header), rows: Vec::new() }
}

/// The header cells for the column names and types, paired one by one.
pub fn header_cells(names: &Vec<String>, dtypes: &Vec<String>) -> (r: Vec<String>)
    ensures
        strings_view(r@) == header_cells_of(strings_view(names@), strings_view(dtypes@)),
{
    let n = if names.len() <= dtypes.len() {
        names.len()
    } else {
        dtypes.len()
    };
    let mut r: Vec<String> = Vec::new();
    let mut i: usize = 0;
    while i < n
        invariant
            n <= names@.len(),
            n <= dtypes@.len(),
            i <= n,
            r@.len() == i,
            forall|j: int|
                0 <= j < i ==> #[trigger] r@[j]@ == header_cell(names@[j]@, dtypes@[j]@),
        decreases n - i,
    {
        let mut cell = String::new();
        cell.append(names[i].as_str());
        cell.append("\n---\n");
        cell.append(dtypes[i].as_str());
        r.push(cell);
        i = i + 1;
    }
    assert(strings_view(r@) =~= header_cells_of(strings_view(names@), strings_view(dtypes@)));
    r
}

/// How the columns of a drawn table are laid out.
#[derive(Clone, Copy, Debug, PartialEq, Eq, Structural)]
pub enum Arrangement {
    /// Every column as wide as its widest cell.
    Disabled,
    /// Cells wrapped so that the table fits the width of the terminal.
    Dynamic,
}

/// What a `comfy_table::Table` holds: its border style (`None` for the ASCII
/// style that a new table starts with), its header cells, the cells of its rows,
/// and its content arrangement.
pub uninterp spec fn comfy_contents(t: CTable) -> (
    Option<TablePreset>,
    Option<Seq<Seq<char>>>,
    Seq<Seq<Seq<char>>>,
    Arrangement,
);

/// The text `comfy-table` draws, with arrangement `Disabled`, for a table of
/// the given border style, header cells and rows.
pub uninterp spec fn spec_drawn(
    preset: TablePreset,
    header: Option<Seq<Seq<char>>>,
    rows: Seq<Seq<Seq<char>>>,
) -> Seq<char>;

/// The text `comfy-table` draws, with arrangement `Dynamic`, for a table of
/// the given border style, header cells and rows, when the terminal width it
/// finds is `width` (`None` when it finds none; it then lays the columns out
/// as with `Disabled`, which is left unsaid here).
pub uninterp spec fn spec_drawn_wrapped(
    preset: TablePreset,
    header: Option<Seq<Seq<char>>>,
    rows: Seq<Seq<Seq<char>>>,
    width: Option<u16>,
) -> Seq<char>;

/// The text drawn for a table, wrapped or not, when the terminal width that
/// `comfy-table` finds is `width` (`None` when it finds none); unwrapped, the
/// width plays no part.
pub open spec fn drawn_at(
    preset: TablePreset,
    header: Option<Seq<Seq<char>>>,
    rows: Seq<Seq<Seq<char>>>,
    wrap: bool,
    width: Option<u16>,
) -> Seq<char> {
    if wrap {
        spec_drawn_wrapped(preset, header, rows, width)
    } else {
        spec_drawn(preset, header, rows)
    }
}

/// True when no cell of `rows` holds `c`.
pub open spec fn no_cell_holds(rows: Seq<Seq<Seq<char>>>, c: char) -> bool {
    forall|i: int, j: int|
        0 <= i < rows.len() && 0 <= j < rows[i].len() ==> !(#[trigger] rows[i][j]).contains(c)
}

/// What holds of the text drawn for a table of border style `preset`, header
/// `header`, rows `rows` and arrangement `arrangement`:
/// - unwrapped, the text is `spec_drawn` of the table;
/// - wrapped, it is `spec_drawn_wrapped` of the table for the terminal width
///   found (or for none);
/// - with borders, the text is never empty (the top border is drawn);
/// - with borders and a header of at least one cell, the text holds the `═` of
///   the header separator;
/// - without a header, the text holds `═` only if a cell does.
pub open spec fn drawing_fits(
    preset: TablePreset,
    header: Option<Seq<Seq<char>>>,
    rows: Seq<Seq<Seq<char>>>,
    arrangement: Arrangement,
    text: Seq<char>,
) -> bool {
    &&& arrangement == Arrangement::Disabled ==> text == spec_drawn(preset, header, rows)
    &&& arrangement == Arrangement::Dynamic ==> exists|w: Option<u16>|
        text == spec_drawn_wrapped(preset, header, rows, w)
    &&& preset != TablePreset::Nothing ==> text.len() > 0
    &&& (preset != TablePreset::Nothing && header is Some && header->0.len() > 0) ==> text.contains(
        '\u{2550}',
    )
    &&& (header is None && no_cell_holds(rows, '\u{2550}')) ==> !text.contains('\u{2550}')
}

/// The arrangement used when cells are wrapped (or not).
pub open spec fn arrangement_for(wrap: bool) -> Arrangement {
    if wrap {
        Arrangement::Dynamic
    } else {
        Arrangement::Disabled
    }
}

/// What holds of the text drawn for `spec`, wrapped or not.
pub open spec fn is_drawing_of(spec: TableSpec, wrap: bool, text: Seq<char>) -> bool {
    drawing_fits(
        spec.preset,
        header_view(spec.header),
        rows_view(spec.rows@),
        arrangement_for(wrap),
        text,
    )
}

/// `comfy_table::Table::new`: a table with the ASCII style, no header, no rows
/// and arrangement `Disabled`.
#[verifier::external_body]
fn comfy_new() -> (t: CTable)
    ensures
        comfy_contents(t) == (
            Option::<TablePreset>::None,
            Option::<Seq<Seq<char>>>::None,
            Seq::<Seq<Seq<char>>>::empty(),
            Arrangement::Disabled,
        ),
{
    CTable::new()
}

/// `comfy_table::Table::load_style` with the border style of `preset`: the
/// style is replaced, the rest is kept.
#[verifier::external_body]
fn comfy_load_preset(t: &mut CTable, preset: TablePreset)
    ensures
        comfy_contents(*final(t)) == (
            Some(preset),
            comfy_contents(*old(t)).1,
            comfy_contents(*old(t)).2,
            comfy_contents(*old(t)).3,
        ),
{
    match preset {
        TablePreset::Nothing => t.load_style(comfy_table::presets::NOTHING),
        TablePreset::Utf8Full => t.load_style(comfy_table::presets::UTF8_FULL),
        TablePreset::Utf8FullCondensed => t.load_style(comfy_table::presets::UTF8_FULL_CONDENSED),
    };
}

/// `comfy_table::Table::set_header`: the header cells become `header`, the
/// rest is kept. Setting a header also adds columns, which are never taken
/// away again; so that the columns follow from the header and rows alone, a
/// header is set at most once.
#[verifier::external_body]
fn comfy_set_header(t: &mut CTable, header: Vec<String>)
    requires
        comfy_contents(*old(t)).1 is None,
    ensures
        comfy_contents(*final(t)) == (
            comfy_contents(*old(t)).0,
            Some(strings_view(header@)),
            comfy_contents(*old(t)).2,
            comfy_contents(*old(t)).3,
        ),
{
    t.set_header(header);
}

/// `comfy_table::Table::add_rows`: `rows` are appended to the rows, the rest
/// is kept.
#[verifier::external_body]
fn comfy_add_rows(t: &mut CTable, rows: Vec<Vec<String>>)
    ensures
        comfy_contents(*final(t)) == (
            comfy_contents(*old(t)).0,
            comfy_contents(*old(t)).1,
            comfy_contents(*old(t)).2 + rows_view(rows@),
            comfy_contents(*old(t)).3,
        ),
{
    t.add_rows(rows);
}

/// `comfy_table::Table::set_content_arrangement` with the arrangement of the
/// same name: the arrangement becomes `arrangement`, the rest is kept.
#[verifier::external_body]
fn comfy_set_content_arrangement(t: &mut CTable, arrangement: Arrangement)
    ensures
        comfy_contents(*final(t)) == (
            comfy_contents(*old(t)).0,
            comfy_contents(*old(t)).1,
            comfy_contents(*old(t)).2,
            arrangement,
        ),
{
    match arrangement {
        Arrangement::Disabled => t.set_content_arrangement(
            comfy_table::ContentArrangement::Disabled,
        ),
        Arrangement::Dynamic => t.set_content_arrangement(comfy_table::ContentArrangement::Dynamic),
    };
}

/// The table drawn as text, through its `Display`. With arrangement `Disabled`
/// the text is a function of the style, header and rows, named `spec_drawn`.
/// With `Dynamic` it is a function of those and of the terminal width that
/// `comfy-table` finds (or of finding none), named `spec_drawn_wrapped`. Which
/// width it finds is left unsaid: it depends on the terminal. What holds of every width is stated too (see `drawing_fits`).
/// Of a table still in the ASCII style nothing is stated.
#[verifier::external_body]
fn comfy_render(t: &CTable) -> (r: String)
    ensures
        comfy_contents(*t).0 is Some && comfy_contents(*t).3 == Arrangement::Disabled ==> r@
            == spec_drawn(comfy_contents(*t).0->0, comfy_contents(*t).1, comfy_contents(*t).2),
        comfy_contents(*t).0 is Some && comfy_contents(*t).3 == Arrangement::Dynamic ==> exists|
            w: Option<u16>,
        |
            r@ == spec_drawn_wrapped(
                comfy_contents(*t).0->0,
                comfy_contents(*t).1,
                comfy_contents(*t).2,
                w,
            ),
        comfy_contents(*t).0 matches Some(p) ==> drawing_fits(
            p,
            comfy_contents(*t).1,
            comfy_contents(*t).2,
            comfy_contents(*t).3,
            r@,
        ),
{
    t.to_string()
}

/// A copy of a row of strings.
pub fn copy_strings(v: &Vec<String>) -> (r: Vec<String>)
    ensures
        strings_view(r@) == strings_view(v@),
{
    let mut r: Vec<String> = Vec::new();
    let mut i: usize = 0;
    while i < v.len()
        invariant
            i <= v@.len(),
            r@.len() == i,
            forall|j: int| 0 <= j < i ==> #[trigger] r@[j]@ == v@[j]@,
        decreases v@.len() - i,
    {
        r.push(v[i].clone());
        i = i + 1;
    }
    assert(strings_view(r@) =~= strings_view(v@));
    r
}

/// A copy of rows of strings.
pub fn copy_rows(v: &Vec<Vec<String>>) -> (r: Vec<Vec<String>>)
    ensures
        rows_view(r@) == rows_view(v@),
{
    let mut r: Vec<Vec<String>> = Vec::new();
    let mut i: usize = 0;
    while i < v.len()
        invariant
            i <= v@.len(),
            r@.len() == i,
            forall|j: int| 0 <= j < i ==> #[trigger] strings_view(r@[j]@) == strings_view(v@[j]@),
        decreases v@.len() - i,
    {
        r.push(copy_strings(&v[i]));
        i = i + 1;
    }
    assert(rows_view(r@) =~= rows_view(v@));
    r
}

/// Wrapping draws a table with the wrapped drawing (for whatever terminal
/// width is found), and not wrapping with the plain drawing.
pub proof fn law_wrap_selects_the_drawing(t: TableSpec, wrap: bool, text: Seq<char>)
    requires
        is_drawing_of(t, wrap, text),
    ensures
        wrap ==> exists|w: Option<u16>|
            text == spec_drawn_wrapped(t.preset, header_view(t.header), rows_view(t.rows@), w),
        !wrap ==> text == spec_drawn(t.preset, header_view(t.header), rows_view(t.rows@)),
{
}

/// `spec` drawn as text; when `wrap` holds, cells are wrapped to fit the terminal.
pub fn render_table(spec: &TableSpec, wrap: bool) -> (r: String)
    ensures
        is_drawing_of(*spec, wrap, r@),
        wrap ==> exists|w: Option<u16>|
            r@ == spec_drawn_wrapped(spec.preset, header_view(spec.header), rows_view(spec.rows@), w),
        !wrap ==> r@ == spec_drawn(spec.preset, header_view(spec.header), rows_view(spec.rows@)),
{
    let mut t = comfy_new();
    comfy_load_preset(&mut t, spec.preset);
    match &spec.header {
        Some(h) => comfy_set_header(&mut t, copy_strings(h)),
        None => {},
    }
    comfy_add_rows(&mut t, copy_rows(&spec.rows));
    let arrangement = if wrap {
        Arrangement::Dynamic
    } else {
        Arrangement::Disabled
    };
    comfy_set_content_arrangement(&mut t, arrangement);
    assert(comfy_contents(t).2 =~= rows_view(spec.rows@));
    comfy_render(&t)
}

/// `Path::exists`: whether the path can be reached on disk. Nothing is stated
/// of the result, which depends on the disk.
#[verifier::external_body]
fn path_exists(path: &str) -> bool {
    std::path::Path::new(path).exists()
}

/// `Path::is_file`: whether the path reaches a regular file. Nothing is stated
/// of the result, which depends on the disk.
#[verifier::external_body]
fn path_is_file(path: &str) -> bool {
    std::path::Path::new(path).is_file()
}

/// The last modification time of the file at `path`, read through `Path::metadata`
/// and the `modified` method of its result (whose type cannot be named here).
/// Nothing is stated of the result, which depends on the disk.
#[verifier::external_body]
fn file_modified(path: &str) -> Result<SystemTime, std::io::Error> {
    std::path::Path::new(path).metadata()?.modified()
}

/// The text of an operating system error, through its `Display`. The text comes
/// from the operating system, so nothing is stated of it.
#[verifier::external_body]
fn io_error_text(e: &std::io::Error) -> String {
    e.to_string()
}

/// The opened file: where it is, when it was last changed, and the names and
/// types of its columns.
pub struct Table {
    path: String,
    /// When the file was last changed, to tell when it must be read again.
    modified: SystemTime,
    pub columns: Vec<String>,
    pub column_types: Vec<String>,
}

impl Table {
    pub closed spec fn spec_path(self) -> Seq<char> {
        self.path@
    }

    pub closed spec fn spec_modified(self) -> SystemTime {
        self.modified
    }

    pub closed spec fn spec_columns(self) -> Vec<String> {
        self.columns
    }

    pub closed spec fn spec_column_types(self) -> Vec<String> {
        self.column_types
    }

    /// A table for the file at `path`, changed last at `modified`, with the
    /// given column names and types.
    pub fn new(path: String, modified: SystemTime, columns: Vec<String>, column_types: Vec<
        String,
    >) -> (t: Table)
        ensures
            t.spec_path() == path@,
            t.spec_modified() == modified,
            t.spec_columns() == columns,
            t.spec_column_types() == column_types,
    {
        Table { path, modified, columns, column_types }
    }

    /// When the file was last changed, as read when the table was made.
    pub fn modified(&self) -> (r: SystemTime)
        ensures
            r == self.spec_modified(),
    {
        self.modified
    }

    /// Where the file is.
    pub fn path(&self) -> (r: &str)
        ensures
            r@ == self.spec_path(),
    {
        self.path.as_str()
    }

    /// When the file at `path` was last changed. An error of the operating
    /// system comes back as `DuckyError::Io`.
    pub fn get_modified_time(path: &str) -> (r: Result<SystemTime, DuckyError>)
        ensures
            r matches Err(e) ==> e is Io,
    {
        match file_modified(path) {
            Ok(t) => Ok(t),
            Err(e) => Err(DuckyError::Io(io_error_text(&e))),
        }
    }

    /// The answer to a path that exists (or not) and is a regular file (or not):
    /// the first check that fails gives its message.
    pub fn check_path(path: &str, exists: bool, is_file: bool) -> (r: Result<(), DuckyError>)
        ensures
            !exists ==> (r matches Err(DuckyError::Generic(m)) && m@ == missing_path_message(
                path@,
            )),
            exists && !is_file ==> (r matches Err(DuckyError::Generic(m)) && m@
                == not_a_file_message(path@)),
            exists && is_file ==> r is Ok,
    {
        if !exists {
            let mut m = String::from_str("The provided path '");
            m.append(path);
            m.append("' does not exist");
            Err(DuckyError::Generic(m))
        } else if !is_file {
            let mut m = String::from_str("The provided path '");
            m.append(path);
            m.append("' is not a file");
            Err(DuckyError::Generic(m))
        } else {
            Ok(())
        }
    }

    /// Checks that a regular file is at `path` and reads when it was last changed.
    pub fn inspect_path(path: &str) -> (r: Result<SystemTime, DuckyError>)
        ensures
            r matches Err(DuckyError::Generic(m)) ==> m@ == missing_path_message(path@) || m@
                == not_a_file_message(path@),
            r matches Err(e) ==> e is Generic || e is Io,
    {
        let exists = path_exists(path);
        let is_file = if exists {
            path_is_file(path)
        } else {
            false
        };
        match Table::check_path(path, exists, is_file) {
            Ok(()) => Table::get_modified_time(path),
            Err(e) => Err(e),
        }
    }

    /// The table to show for a query whose result is `batches`: a notice when
    /// there is no batch, else the columns of the first batch with their names
    /// and types in the header, and the rows of all batches in order.
    pub fn query_peek(&self, batches: Vec<Batch>) -> (r: Result<TableSpec, DuckyError>)
        ensures
            query_outcome_ok(batches@, r),
    {
        if batches.len() == 0 {
            return Ok(empty_result_table());
        }
        let ghost bs = batches@;
        let n = batches.len();
        let arbu = ArrowRecordBatchUtils::new(batches);
        let (cols, dtypes) = match arbu.batch_schema(0) {
            Ok(s) => s,
            Err(e) => {
                return Err(e);
            },
        };
        let mut rows: Vec<Vec<String>> = Vec::new();
        let mut i: usize = 0;
        assert(bs.take(0) =~= Seq::<Batch>::empty());
        while i < n
            invariant
                arbu.batches@ == bs,
                bs == batches@,
                n == bs.len(),
                i <= n,
                batches_error(bs.take(i as int)) is None,
                rows_view(rows@) == batches_rows(bs.take(i as int)),
            decreases n - i,
        {
            let ghost prefix = bs.take(i + 1);
            assert(prefix.drop_last() =~= bs.take(i as int));
            assert(prefix.last() == bs[i as int]);
            match arbu.batch_to_stringified_rows(i) {
                Ok(mut more) => {
                    let ghost before = rows@;
                    let ghost added = more@;
                    rows.append(&mut more);
                    assert(rows_view(rows@) =~= rows_view(before) + rows_view(added));
                },
                Err(e) => {
                    assert(first_column_error(bs[i as int].spec_columns()) is Some);
                    assert(batches_error(prefix) == first_column_error(bs[i as int].spec_columns()));
                    proof {
                        lemma_batches_error_prefix(bs, i + 1);
                    }
                    assert(batches_error(bs) == first_column_error(bs[i as int].spec_columns()));
                    return Err(e);
                },
            }
            i = i + 1;
        }
        assert(bs.take(n as int) =~= bs);
        let header = header_cells(&cols, &dtypes);
        assert(field_names(bs[0].spec_fields()).len() == field_types(seq![], bs[0].spec_fields()).len());
        assert(arbu.type_aliases@ =~= seq![]);
        Ok(TableSpec { preset: TablePreset::Utf8FullCondensed, header: Some(header), rows })
    }
}

} // verus!
