use ducktabe::app::App;
use ducktabe::batch::{null_marker, ArrowRecordBatchUtils, Batch, ColumnText, Field, TypeAlias};
use ducktabe::error::DuckyError;
use ducktabe::events::{key_action, Key, KeyAction, KeyInput};
use ducktabe::sql::{
    create_view_statement, data_view_name, limited_query, resolve_query, schema_statement,
    MAX_BATCHES, ROW_LIMIT,
};
use ducktabe::table::{
    empty_result_table, error_table, header_cells, render_table, Table, TablePreset, TableSpec,
};
use ducktabe::text::{
    contains_char, join_strings, prefix_before, remove_newlines, split_lines, string_from_chars,
    string_of,
};
use ducktabe::ui::{output_header_length, viewport_dims, wrap_label};

fn strings(v: &[&str]) -> Vec<String> {
    v.iter().map(|s| s.to_string()).collect()
}

fn field(name: &str, ty: &str) -> Field {
    Field { name: name.to_string(), data_type: ty.to_string() }
}

fn sample_batch() -> Batch {
    Batch::new(
        vec![field("id", "Int64"), field("name", "Utf8")],
        3,
        vec![
            ColumnText::Cells(strings(&["1", "2", "3"])),
            ColumnText::Cells(strings(&["a", "<NULL>", "c"])),
        ],
    )
    .unwrap()
}

fn generic_text(e: &DuckyError) -> String {
    match e {
        DuckyError::Generic(s) => s.clone(),
        other => panic!("expected a generic error, got {:?}", other),
    }
}

fn key(code: Key, ctrl_only: bool) -> KeyInput {
    KeyInput { code, ctrl_only, release: false }
}

// ---- SQL statements ----

#[test]
fn view_statement_exposes_file_as_df() {
    let s = create_view_statement(data_view_name(), "data/file.parquet");
    assert_eq!(s, "CREATE OR REPLACE VIEW df AS SELECT * FROM 'data/file.parquet'");
}

#[test]
fn schema_statement_reads_whole_file() {
    assert_eq!(schema_statement("a.csv"), "SELECT * FROM 'a.csv'");
}

#[test]
fn limited_query_wraps_user_query() {
    assert_eq!(limited_query("SELECT a FROM df"), "SELECT * FROM (SELECT a FROM df) LIMIT 2048");
    assert_eq!(ROW_LIMIT, 2048);
    assert_eq!(MAX_BATCHES, 5);
}

#[test]
fn resolve_query_defaults_to_whole_view() {
    assert_eq!(resolve_query(None), "SELECT * FROM df");
    assert_eq!(resolve_query(Some("SELECT 1")), "SELECT 1");
}

// ---- errors ----

#[test]
fn error_messages_carry_their_prefix() {
    assert_eq!(DuckyError::DuckDB("bad".to_string()).message(), "DuckDB error:\nbad");
    assert_eq!(DuckyError::Io("gone".to_string()).message(), "IO error:\ngone");
    assert_eq!(DuckyError::Generic("plain".to_string()).message(), "plain");
}

// ---- text ----

#[test]
fn split_lines_matches_str_lines() {
    let samples = [
        "",
        "a",
        "a\n",
        "a\nb",
        "a\r\nb\r\n",
        "\n",
        "\n\n",
        "a\n\nb",
        "a\r",
        "x\n\r",
        "\r\n",
        "a\rb\nc",
        "\u{2550}\u{2550}\n\u{6f22}\u{5b57}",
    ];
    for s in samples.iter() {
        let expected: Vec<String> = s.lines().map(|l| l.to_string()).collect();
        assert_eq!(split_lines(s), expected, "lines of {:?}", s);
    }
}

#[test]
fn join_strings_joins_a_range() {
    let parts = strings(&["a", "b", "c", "d"]);
    assert_eq!(join_strings(&parts, 0, 4, ", "), "a, b, c, d");
    assert_eq!(join_strings(&parts, 1, 3, "\n"), "b\nc");
    assert_eq!(join_strings(&parts, 2, 2, "-"), "");
    assert_eq!(join_strings(&parts, 3, 4, "-"), "d");
}

#[test]
fn remove_newlines_drops_only_line_feeds() {
    assert_eq!(remove_newlines("a\nb\r\nc\n"), "ab\rc");
    assert_eq!(remove_newlines(""), "");
}

#[test]
fn contains_char_finds_characters() {
    assert!(contains_char("a\u{2550}b", '\u{2550}'));
    assert!(!contains_char("abc", 'd'));
    assert!(!contains_char("", 'a'));
}

#[test]
fn prefix_before_cuts_at_first_occurrence() {
    assert_eq!(prefix_before("Timestamp(Microsecond, None)", '('), "Timestamp");
    assert_eq!(prefix_before("Int64", '('), "Int64");
    assert_eq!(prefix_before("(x)(y)", '('), "");
}

#[test]
fn string_helpers_copy_text() {
    assert_eq!(string_from_chars(&vec!['a', 'b', 'c'], 2), "ab");
    assert_eq!(string_of("h\u{e9}llo"), "h\u{e9}llo");
}

// ---- batches ----

#[test]
fn batch_new_refuses_inconsistent_parts() {
    assert!(Batch::new(vec![field("a", "Int64")], 2, vec![]).is_none());
    assert!(Batch::new(
        vec![field("a", "Int64")],
        2,
        vec![ColumnText::Cells(strings(&["1"]))]
    )
    .is_none());
    let unformattable =
        Batch::new(vec![field("a", "Map")], 7, vec![ColumnText::Unformattable("no".to_string())]);
    assert!(unformattable.is_some());
    let b = sample_batch();
    assert_eq!(b.num_rows(), 3);
    assert_eq!(b.num_columns(), 2);
}

#[test]
fn rows_are_read_across_columns() {
    let utils = ArrowRecordBatchUtils::new(vec![sample_batch()]);
    let rows = utils.batch_to_stringified_rows(0).unwrap();
    assert_eq!(
        rows,
        vec![strings(&["1", "a"]), strings(&["2", "<NULL>"]), strings(&["3", "c"])]
    );
}

#[test]
fn rows_out_of_bounds_is_an_error() {
    let utils = ArrowRecordBatchUtils::new(vec![sample_batch()]);
    let e = utils.batch_to_stringified_rows(1).unwrap_err();
    assert_eq!(generic_text(&e), "Out of bounds");
    let e = utils.batch_schema(3).unwrap_err();
    assert_eq!(generic_text(&e), "Out of bounds");
}

#[test]
fn first_unformattable_column_gives_the_error() {
    let b = Batch::new(
        vec![field("a", "Int64"), field("b", "Map"), field("c", "Union")],
        1,
        vec![
            ColumnText::Cells(strings(&["1"])),
            ColumnText::Unformattable("map has no text".to_string()),
            ColumnText::Unformattable("union has no text".to_string()),
        ],
    )
    .unwrap();
    let utils = ArrowRecordBatchUtils::new(vec![b]);
    let e = utils.batch_to_stringified_rows(0).unwrap_err();
    assert_eq!(generic_text(&e), "map has no text");
}

#[test]
fn batch_with_no_rows_gives_no_rows() {
    let b = Batch::new(vec![field("a", "Int64")], 0, vec![ColumnText::Cells(vec![])]).unwrap();
    let utils = ArrowRecordBatchUtils::new(vec![b]);
    assert_eq!(utils.batch_to_stringified_rows(0).unwrap(), Vec::<Vec<String>>::new());
}

#[test]
fn schema_lists_names_and_types() {
    let utils = ArrowRecordBatchUtils::new(vec![sample_batch()]);
    let (names, types) = utils.batch_schema(0).unwrap();
    assert_eq!(names, strings(&["id", "name"]));
    assert_eq!(types, strings(&["Int64", "Utf8"]));
}

#[test]
fn dtype_to_string_uses_alias_of_base_name() {
    let utils = ArrowRecordBatchUtils {
        batches: vec![],
        type_aliases: vec![
            TypeAlias { arrow_name: "Timestamp".to_string(), short_name: "TIMESTAMP".to_string() },
            TypeAlias { arrow_name: "Int64".to_string(), short_name: "BIGINT".to_string() },
            TypeAlias { arrow_name: "Int64".to_string(), short_name: "LATER".to_string() },
        ],
    };
    assert_eq!(utils.dtype_to_string("Timestamp(Microsecond, None)"), "TIMESTAMP");
    assert_eq!(utils.dtype_to_string("Int64"), "BIGINT");
    assert_eq!(utils.dtype_to_string("Utf8"), "Utf8");
    assert_eq!(utils.dtype_to_string("Decimal128(10, 2)"), "Decimal128(10, 2)");
    assert_eq!(utils.simplify_arrow_type("Int64"), Some("BIGINT".to_string()));
    assert_eq!(utils.simplify_arrow_type("Int32"), None);
}

// ---- tables ----

#[test]
fn error_table_shows_message_in_one_cell() {
    let t = error_table("boom".to_string());
    assert_eq!(t.preset, TablePreset::Utf8Full);
    assert!(t.header.is_none());
    assert_eq!(t.rows, vec![strings(&["boom"])]);
}

#[test]
fn empty_result_table_says_zero_rows() {
    let t = empty_result_table();
    assert_eq!(t.preset, TablePreset::Nothing);
    assert_eq!(t.header, Some(strings(&["Query returning 0 rows"])));
    assert!(t.rows.is_empty());
}

#[test]
fn header_cells_stack_name_and_type() {
    let h = header_cells(&strings(&["a", "b", "c"]), &strings(&["Int64", "Utf8"]));
    assert_eq!(h, strings(&["a\n---\nInt64", "b\n---\nUtf8"]));
}

// A regular file that exists wherever the tests run: the running test binary.
const EXISTING_FILE: &str = "/proc/self/exe";

fn sample_table() -> Table {
    let modified = Table::get_modified_time(EXISTING_FILE).unwrap();
    Table::new("data.csv".to_string(), modified, strings(&["id"]), strings(&["BIGINT"]))
}

#[test]
fn query_peek_without_batches_shows_notice() {
    let t = sample_table().query_peek(vec![]).unwrap();
    assert_eq!(t.preset, TablePreset::Nothing);
    assert_eq!(t.header, Some(strings(&["Query returning 0 rows"])));
}

#[test]
fn query_peek_shows_rows_of_all_batches() {
    let second = Batch::new(
        vec![field("id", "Int64"), field("name", "Utf8")],
        1,
        vec![ColumnText::Cells(strings(&["4"])), ColumnText::Cells(strings(&["d"]))],
    )
    .unwrap();
    let t = sample_table().query_peek(vec![sample_batch(), second]).unwrap();
    assert_eq!(t.preset, TablePreset::Utf8FullCondensed);
    assert_eq!(t.header, Some(strings(&["id\n---\nInt64", "name\n---\nUtf8"])));
    assert_eq!(t.rows.len(), 4);
    for row in t.rows.iter() {
        assert_eq!(row.len(), 2);
    }
    assert_eq!(t.rows[1], strings(&["2", "<NULL>"]));
    assert_eq!(t.rows[3], strings(&["4", "d"]));
}

#[test]
fn query_peek_two_one_row_batches_gives_two_rows() {
    let one = |v: &str| {
        Batch::new(vec![field("x", "Int32")], 1, vec![ColumnText::Cells(strings(&[v]))]).unwrap()
    };
    let t = sample_table().query_peek(vec![one("1"), one("2")]).unwrap();
    assert_eq!(t.rows, vec![strings(&["1"]), strings(&["2"])]);
}

#[test]
fn query_peek_reports_error_of_later_batch() {
    let bad = Batch::new(vec![field("id", "Int64"), field("name", "Utf8")], 1, vec![
        ColumnText::Cells(strings(&["5"])),
        ColumnText::Unformattable("later".into()),
    ])
    .unwrap();
    let e = sample_table().query_peek(vec![sample_batch(), bad]).unwrap_err();
    assert_eq!(generic_text(&e), "later");
}

#[test]
fn query_peek_reports_unformattable_column() {
    let b = Batch::new(vec![field("m", "Map")], 1, vec![ColumnText::Unformattable("nope".into())])
        .unwrap();
    let e = sample_table().query_peek(vec![b]).unwrap_err();
    assert_eq!(generic_text(&e), "nope");
}

#[test]
fn rendered_result_table_has_header_separator() {
    let t = sample_table().query_peek(vec![sample_batch()]).unwrap();
    let text = render_table(&t, false);
    assert!(text.contains('\u{2550}'));
    assert!(text.contains("<NULL>"));
    assert!(text.contains("Int64"));
}

#[test]
fn rendered_error_table_shows_message() {
    let text = render_table(&error_table("something failed".to_string()), true);
    assert!(text.contains("something failed"));
    assert!(!text.contains('\u{2550}'));
}

#[test]
fn table_keeps_its_parts() {
    let t = sample_table();
    assert_eq!(t.path(), "data.csv");
    assert_eq!(t.columns, strings(&["id"]));
    assert_eq!(t.column_types, strings(&["BIGINT"]));
}

// ---- paths ----

#[test]
fn check_path_messages() {
    let e = Table::check_path("x.csv", false, false).unwrap_err();
    assert_eq!(generic_text(&e), "The provided path 'x.csv' does not exist");
    let e = Table::check_path("dir", true, false).unwrap_err();
    assert_eq!(generic_text(&e), "The provided path 'dir' is not a file");
    assert!(Table::check_path("f.csv", true, true).is_ok());
}

#[test]
fn inspect_path_checks_the_disk() {
    assert!(Table::inspect_path(EXISTING_FILE).is_ok());
    let e = Table::inspect_path("/").unwrap_err();
    assert_eq!(generic_text(&e), "The provided path '/' is not a file");
    let e = Table::inspect_path("no/such/file.parquet").unwrap_err();
    assert_eq!(generic_text(&e), "The provided path 'no/such/file.parquet' does not exist");
}

#[test]
fn modified_time_of_missing_file_is_io_error() {
    match Table::get_modified_time("no/such/file.parquet") {
        Err(DuckyError::Io(text)) => assert!(!text.is_empty()),
        other => panic!("unexpected {:?}", other.map(|_| ())),
    }
}

// ---- output panel ----

fn panel_with_output(output: &str, height: u16, width: u16) -> App {
    let mut app = App::new(Ok(empty_result_table()));
    app.current_output = output.to_string();
    app.current_output_height = height;
    app.current_output_width = width;
    app
}

#[test]
fn new_panel_shows_first_outcome() {
    let app = App::new(Ok(error_table("x".to_string())));
    assert!(app.wrap_output);
    assert_eq!(app.scroll_coord, (0, 0));
    assert!(app.viewport_height.is_none() && app.viewport_width.is_none());
    assert_eq!(app.current_table.rows, vec![strings(&["x"])]);
    let (w, h) = App::measure_output(&app.current_output);
    assert_eq!((app.current_output_width, app.current_output_height), (w, h));
    assert!(h > 0);
}

#[test]
fn failed_query_shows_error_message() {
    let mut app = App::new(Ok(empty_result_table()));
    app.update_query(Err(DuckyError::DuckDB("syntax".to_string())));
    assert_eq!(app.current_table.preset, TablePreset::Utf8Full);
    assert_eq!(app.current_table.rows, vec![strings(&["DuckDB error:\nsyntax"])]);
    let t = TableSpec { preset: TablePreset::Nothing, header: None, rows: vec![] };
    app.update_query(Ok(t));
    assert!(app.current_table.rows.is_empty());
}

#[test]
fn measure_output_counts_lines_and_first_width() {
    assert_eq!(App::measure_output("ab\ncde\n"), (2, 2));
    assert_eq!(App::measure_output(""), (0, 0));
    assert_eq!(App::measure_output("\u{6f22}\u{5b57}x\nz"), (5, 2));
    let many = "x\n".repeat(70000);
    assert_eq!(App::measure_output(&many), (1, (70000u32 % 65536) as u16));
}

#[test]
fn update_output_records_size_of_text() {
    let mut app = App::new(Ok(error_table("hello".to_string())));
    app.update_output();
    assert!(app.current_output.contains("hello"));
    assert_eq!(
        (app.current_output_width, app.current_output_height),
        App::measure_output(&app.current_output)
    );
}

#[test]
fn toggle_wrap_twice_restores_wrapping() {
    let mut app = App::new(Ok(error_table("w".to_string())));
    let before = app.wrap_output;
    app.toggle_wrap();
    assert_eq!(app.wrap_output, !before);
    app.toggle_wrap();
    assert_eq!(app.wrap_output, before);
}

#[test]
fn header_and_content_are_cut_after_separator() {
    let app = panel_with_output("top\r\nname\n\u{2550}\u{2550}\u{2550}\nrow1\nrow2\n", 5, 4);
    assert!(app.has_header_rule());
    let (h, c) = app.output_header_and_content();
    assert_eq!(h, "top\nname\n\u{2550}\u{2550}\u{2550}");
    assert_eq!(c, "row1\nrow2");
    assert!(h.contains('\u{2550}'));
    let all: Vec<&str> = app.current_output.lines().collect();
    assert_eq!(format!("{}\n{}", h, c), all.join("\n"));
}

#[test]
fn header_without_content() {
    let app = panel_with_output("\u{2550}", 1, 1);
    let (h, c) = app.output_header_and_content();
    assert_eq!(h, "\u{2550}");
    assert_eq!(c, "");
}

#[test]
fn output_without_separator_has_no_header_rule() {
    let app = panel_with_output("just text\nmore", 2, 9);
    assert!(!app.has_header_rule());
}

#[test]
fn result_table_output_has_header_rule() {
    let t = sample_table().query_peek(vec![sample_batch()]).unwrap();
    let app = App::new(Ok(t));
    assert!(app.has_header_rule());
    let (h, c) = app.output_header_and_content();
    assert!(h.contains("id"));
    assert!(c.contains("<NULL>"));
}

#[test]
fn viewport_dims_are_recorded() {
    let mut app = panel_with_output("a", 1, 1);
    app.set_viewport_dims(10, 20);
    assert_eq!(app.viewport_height, Some(10));
    assert_eq!(app.viewport_width, Some(20));
}

#[test]
fn scrolling_stays_within_limits() {
    let mut app = panel_with_output("a", 100, 60);
    app.set_viewport_dims(30, 50);
    app.update_scroll(Key::Down);
    assert_eq!(app.scroll_coord, (25, 0));
    app.update_scroll(Key::Char('j'));
    assert_eq!(app.scroll_coord, (50, 0));
    app.update_scroll(Key::Down);
    assert_eq!(app.scroll_coord, (70, 0));
    app.update_scroll(Key::Up);
    assert_eq!(app.scroll_coord, (45, 0));
    app.update_scroll(Key::Char('k'));
    app.update_scroll(Key::Char('k'));
    assert_eq!(app.scroll_coord, (0, 0));
    app.update_scroll(Key::Right);
    assert_eq!(app.scroll_coord, (0, 10));
    app.update_scroll(Key::Char('h'));
    assert_eq!(app.scroll_coord, (0, 0));
    app.update_scroll(Key::Char('l'));
    assert_eq!(app.scroll_coord, (0, 10));
    app.update_scroll(Key::Esc);
    app.update_scroll(Key::Char('x'));
    assert_eq!(app.scroll_coord, (0, 10));
}

#[test]
fn scrolling_without_viewport_uses_whole_output() {
    let mut app = panel_with_output("a", 30, 0);
    app.update_scroll(Key::Down);
    app.update_scroll(Key::Down);
    assert_eq!(app.scroll_coord, (30, 0));
    app.update_scroll(Key::Right);
    assert_eq!(app.scroll_coord, (30, 0));
}

#[test]
fn scroll_step_down_then_up_returns() {
    let mut app = panel_with_output("a", 200, 0);
    app.set_viewport_dims(10, 0);
    app.scroll_coord = (40, 0);
    app.update_scroll(Key::Down);
    app.update_scroll(Key::Up);
    assert_eq!(app.scroll_coord, (40, 0));
}

#[test]
fn user_query_joins_editor_lines() {
    assert_eq!(App::get_user_query(&strings(&["SELECT * ", "FROM df"])), "SELECT *  FROM df");
    assert_eq!(App::get_user_query(&strings(&["a\nb", "c"])), "ab c");
    assert_eq!(App::get_user_query(&vec![]), "");
    assert!(!App::get_user_query(&strings(&["x\n", "\ny\n"])).contains('\n'));
}

// ---- key bindings ----

#[test]
fn key_bindings() {
    assert_eq!(key_action(&key(Key::Esc, false)), KeyAction::Quit);
    assert_eq!(key_action(&key(Key::Esc, true)), KeyAction::Quit);
    assert_eq!(key_action(&key(Key::Char('r'), true)), KeyAction::RunQuery);
    assert_eq!(key_action(&key(Key::Char('R'), true)), KeyAction::RunQuery);
    assert_eq!(key_action(&key(Key::Char('w'), true)), KeyAction::ToggleWrap);
    assert_eq!(key_action(&key(Key::Char('W'), true)), KeyAction::ToggleWrap);
    for k in [Key::Left, Key::Right, Key::Up, Key::Down, Key::Char('h'), Key::Char('j')] {
        assert_eq!(key_action(&key(k, true)), KeyAction::Scroll);
        assert_eq!(key_action(&key(k, false)), KeyAction::Edit);
    }
    assert_eq!(key_action(&key(Key::Char('k'), true)), KeyAction::Scroll);
    assert_eq!(key_action(&key(Key::Char('l'), true)), KeyAction::Scroll);
    assert_eq!(key_action(&key(Key::Char('r'), false)), KeyAction::Edit);
    assert_eq!(key_action(&key(Key::Char('x'), true)), KeyAction::Edit);
    assert_eq!(key_action(&key(Key::Other, true)), KeyAction::Edit);
}

#[test]
fn released_keys_are_ignored() {
    let k = KeyInput { code: Key::Esc, ctrl_only: false, release: true };
    assert_eq!(key_action(&k), KeyAction::Ignore);
    let k = KeyInput { code: Key::Char('r'), ctrl_only: true, release: true };
    assert_eq!(key_action(&k), KeyAction::Ignore);
}

// ---- layout figures ----

#[test]
fn wrap_label_names_next_state() {
    assert_eq!(wrap_label(true), "unwrap");
    assert_eq!(wrap_label(false), "wrap");
}

#[test]
fn header_length_counts_lines() {
    assert_eq!(output_header_length("a\nb\nc"), 3);
    assert_eq!(output_header_length(""), 0);
    assert_eq!(output_header_length(&"x\n".repeat(70000)), 65535);
}

#[test]
fn viewport_inside_border() {
    assert_eq!(viewport_dims(10, 40), (8, 38));
    assert_eq!(viewport_dims(2, 2), (0, 0));
    assert_eq!(viewport_dims(1, 0), (65535, 65534));
}

#[test]
fn panel_shows_reason_for_unformattable_column() {
    let b = Batch::new(vec![field("m", "Map")], 2, vec![ColumnText::Unformattable("no text".into())])
        .unwrap();
    let mut app = App::new(Ok(empty_result_table()));
    app.update_query(sample_table().query_peek(vec![b]));
    assert_eq!(app.current_table.preset, TablePreset::Utf8Full);
    assert_eq!(app.current_table.rows, vec![strings(&["no text"])]);
    app.update_query(sample_table().query_peek(vec![]));
    assert_eq!(app.current_table.header, Some(strings(&["Query returning 0 rows"])));
}

#[test]
fn unwrapped_drawing_is_the_same_each_time() {
    let t = sample_table().query_peek(vec![sample_batch()]).unwrap();
    assert_eq!(render_table(&t, false), render_table(&t, false));
    let mut app = App::new(Ok(t));
    app.toggle_wrap();
    let first = app.current_output.clone();
    app.update_output();
    assert_eq!(app.current_output, first);
}

#[test]
fn drawings_of_bordered_tables_are_not_empty() {
    assert!(!render_table(&error_table(String::new()), false).is_empty());
    assert!(!render_table(&error_table(String::new()), true).is_empty());
}

#[test]
fn error_drawing_has_no_header_rule() {
    for wrap in [false, true] {
        let mut app = App::new(Err(DuckyError::Generic("The provided path '/' is not a file".into())));
        if app.wrap_output != wrap {
            app.toggle_wrap();
        }
        assert!(app.current_output.contains("The provided path '/' is not a file"));
        assert!(!app.has_header_rule());
    }
}

#[test]
fn result_drawing_has_header_rule_both_ways() {
    let t = sample_table().query_peek(vec![sample_batch()]).unwrap();
    for wrap in [false, true] {
        assert!(render_table(&t, wrap).contains('\u{2550}'));
    }
}

#[test]
fn table_keeps_modification_time() {
    let modified = Table::get_modified_time(EXISTING_FILE).unwrap();
    let t = Table::new("f".to_string(), modified, vec![], vec![]);
    assert_eq!(t.modified(), modified);
}

#[test]
fn nulls_show_as_marker() {
    assert_eq!(null_marker(), "<NULL>");
}
