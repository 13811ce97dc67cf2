//! Record batches of a query result, held as the text the explorer shows of
//! them, and what is read out of them: the rows of cells and the schema.
use vstd::prelude::*;
use crate::error::DuckyError;
use crate::text::{
    first_index_of, prefix_before, string_of, strings_view,
};

verus! {

/// One column of a record batch: its name and the text of its data type
/// (for instance `Int64` or `Timestamp(Microsecond, None)`).
#[derive(Clone, Debug)]
pub struct Field {
    pub name: String,
    pub data_type: String,
}

/// The text that a null value shows as.
pub open spec fn spec_null_marker() -> Seq<char> {
    "<NULL>"@
}

/// The text that a null value shows as: `<NULL>`.
pub fn null_marker() -> (r: &'static str)
    ensures
        r@ == spec_null_marker(),
{
    "<NULL>"
}

/// The values of one column, each formatted as text (a null shows as `null_marker`),
/// or, for a column whose type has no text form, the reason given for it.
#[derive(Clone, Debug)]
pub enum ColumnText {
    Cells(Vec<String>),
    Unformattable(String),
}

/// A short name for a type, looked up by the type's base name.
#[derive(Clone, Debug)]
pub struct TypeAlias {
    pub arrow_name: String,
    pub short_name: String,
}

/// The cells of a column; none for a column that cannot be formatted.
pub open spec fn column_cells(c: ColumnText) -> Seq<Seq<char>> {
    match c {
        ColumnText::Cells(v) => strings_view(v@),
        ColumnText::Unformattable(_) => seq![],
    }
}

/// A formatted column holds one cell per row.
pub open spec fn cells_fit(c: ColumnText, num_rows: usize) -> bool {
    match c {
        ColumnText::Cells(v) => v@.len() == num_rows,
        ColumnText::Unformattable(_) => true,
    }
}

/// One column per field, and one cell per row in each formatted column.
pub open spec fn batch_consistent(
    fields: Seq<Field>,
    num_rows: usize,
    columns: Seq<ColumnText>,
) -> bool {
    &&& columns.len() == fields.len()
    &&& forall|i: int| 0 <= i < columns.len() ==> cells_fit(#[trigger] columns[i], num_rows)
}

/// The reason given for the first column that cannot be formatted, if any.
pub open spec fn first_column_error(cols: Seq<ColumnText>) -> Option<Seq<char>>
    decreases cols.len(),
{
    if cols.len() == 0 {
        None
    } else {
        match cols[0] {
            ColumnText::Unformattable(m) => Some(m@),
            ColumnText::Cells(_) => first_column_error(cols.drop_first()),
        }
    }
}

/// The short name that the first entry for `name` in `table` gives.
pub open spec fn lookup_alias(table: Seq<TypeAlias>, name: Seq<char>) -> Option<Seq<char>>
    decreases table.len(),
{
    if table.len() == 0 {
        None
    } else if table[0].arrow_name@ == name {
        Some(table[0].short_name@)
    } else {
        lookup_alias(table.drop_first(), name)
    }
}

/// The name of a type without its parameters: the text before the first `(`.
pub open spec fn type_base_name(t: Seq<char>) -> Seq<char> {
    t.take(first_index_of(t, '(') as int)
}

/// How a type is shown: the short name of its base name if `aliases` has one,
/// else the full text of the type.
pub open spec fn dtype_text(aliases: Seq<TypeAlias>, t: Seq<char>) -> Seq<char> {
    match lookup_alias(aliases, type_base_name(t)) {
        Some(s) => s,
        None => t,
    }
}

/// The names of the fields.
pub open spec fn field_names(fields: Seq<Field>) -> Seq<Seq<char>> {
    Seq::new(fields.len(), |i: int| fields[i].name@)
}

/// How the types of the fields are shown.
pub open spec fn field_types(aliases: Seq<TypeAlias>, fields: Seq<Field>) -> Seq<Seq<char>> {
    Seq::new(fields.len(), |i: int| dtype_text(aliases, fields[i].data_type@))
}

/// The views of a sequence of rows of strings.
pub open spec fn rows_view(rows: Seq<Vec<String>>) -> Seq<Seq<Seq<char>>> {
    Seq::new(rows.len(), |r: int| strings_view(rows[r]@))
}

/// The cells of `columns` read row by row.
pub open spec fn rows_of_columns(columns: Seq<ColumnText>, num_rows: nat) -> Seq<Seq<Seq<char>>> {
    Seq::new(
        num_rows,
        |r: int| Seq::new(columns.len(), |c: int| column_cells(columns[c])[r]),
    )
}

/// The rows read across columns: one row per row of the columns, and in row
/// `r` the cell `r` of each column, in column order.
pub proof fn law_rows_read_across(columns: Seq<ColumnText>, num_rows: nat)
    ensures
        rows_of_columns(columns, num_rows).len() == num_rows,
        forall|r: int|
            0 <= r < num_rows ==> (#[trigger] rows_of_columns(columns, num_rows)[r]).len()
                == columns.len(),
        forall|r: int, c: int|
            0 <= r < num_rows && 0 <= c < columns.len() ==> (#[trigger] rows_of_columns(
                columns,
                num_rows,
            )[r][c]) == column_cells(columns[c])[r],
{
}

/// A record batch of a query result: its fields, its number of rows and the
/// text of its columns, one column per field.
pub struct Batch {
    fields: Vec<Field>,
    num_rows: usize,
    columns: Vec<ColumnText>,
}

impl Batch {
    #[verifier::type_invariant]
    spec fn consistent(self) -> bool {
        batch_consistent(self.fields@, self.num_rows, self.columns@)
    }

    pub closed spec fn spec_fields(self) -> Seq<Field> {
        self.fields@
    }

    pub closed spec fn spec_num_rows(self) -> usize {
        self.num_rows
    }

    pub closed spec fn spec_columns(self) -> Seq<ColumnText> {
        self.columns@
    }

    /// A batch of the given parts, when they fit together.
    pub fn new(fields: Vec<Field>, num_rows: usize, columns: Vec<ColumnText>) -> (r: Option<
        Batch,
    >)
        ensures
            r is Some <==> batch_consistent(fields@, num_rows, columns@),
            r matches Some(b) ==> {
                &&& b.spec_fields() == fields@
                &&& b.spec_num_rows() == num_rows
                &&& b.spec_columns() == columns@
            },
    {
        if columns.len() != fields.len() {
            return None;
        }
        let mut i: usize = 0;
        while i < columns.len()
            invariant
                i <= columns@.len(),
                forall|j: int| 0 <= j < i ==> cells_fit(#[trigger] columns@[j], num_rows),
            decreases columns@.len() - i,
        {
            match &columns[i] {
                ColumnText::Cells(v) => {
                    if v.len() != num_rows {
                        assert(!cells_fit(columns@[i as int], num_rows));
                        return None;
                    }
                },
                ColumnText::Unformattable(_) => {},
            }
            i = i + 1;
        }
        Some(Batch { fields, num_rows, columns })
    }

    /// The number of rows.
    pub fn num_rows(&self) -> (r: usize)
        ensures
            r == self.spec_num_rows(),
    {
        self.num_rows
    }

    /// The number of columns.
    pub fn num_columns(&self) -> (r: usize)
        ensures
            r == self.spec_columns().len(),
            r == self.spec_fields().len(),
    {
        proof {
            use_type_invariant(self);
        }
        self.columns.len()
    }
}

/// Reads the rows and the schema out of the record batches of a query result.
pub struct ArrowRecordBatchUtils {
    pub batches: Vec<Batch>,
    /// Short names for types, by base name.
    pub type_aliases: Vec<TypeAlias>,
}

proof fn lemma_first_column_error_step(cols: Seq<ColumnText>, k: int)
    requires
        0 <= k < cols.len(),
    ensures
        first_column_error(cols.skip(k)) == match cols[k] {
            ColumnText::Unformattable(m) => Some(m@),
            ColumnText::Cells(_) => first_column_error(cols.skip(k + 1)),
        },
{
    assert(cols.skip(k)[0] == cols[k]);
    assert(cols.skip(k).drop_first() =~= cols.skip(k + 1));
}

impl ArrowRecordBatchUtils {
    /// Utilities over `batches`, with no short type names.
    pub fn new(batches: Vec<Batch>) -> (r: Self)
        ensures
            r.batches@ == batches@,
            r.type_aliases@.len() == 0,
    {
        ArrowRecordBatchUtils { batches, type_aliases: Vec::new() }
    }

    /// The short name given for the type named `name`, if any.
    pub fn simplify_arrow_type(&self, name: &str) -> (r: Option<String>)
        ensures
            match r {
                Some(s) => lookup_alias(self.type_aliases@, name@) == Some(s@),
                None => lookup_alias(self.type_aliases@, name@) is None,
            },
    {
        let key = string_of(name);
        let n = self.type_aliases.len();
        let mut i: usize = 0;
        assert(self.type_aliases@.skip(0) =~= self.type_aliases@);
        while i < n
            invariant
                n == self.type_aliases@.len(),
                i <= n,
                key@ == name@,
                lookup_alias(self.type_aliases@, name@) == lookup_alias(
                    self.type_aliases@.skip(i as int),
                    name@,
                ),
            decreases n - i,
        {
            let ghost rest = self.type_aliases@.skip(i as int);
            assert(rest[0] == self.type_aliases@[i as int]);
            assert(rest.drop_first() =~= self.type_aliases@.skip(i + 1));
            if self.type_aliases[i].arrow_name == key {
                return Some(self.type_aliases[i].short_name.clone());
            }
            i = i + 1;
        }
        None
    }

    /// How a type is shown, given the text of the type.
    pub fn dtype_to_string(&self, x: &str) -> (r: String)
        ensures
            r@ == dtype_text(self.type_aliases@, x@),
    {
        let name = prefix_before(x, '(');
        match self.simplify_arrow_type(name.as_str()) {
            Some(s) => s,
            None => string_of(x),
        }
    }

    /// The names of the fields of batch `batch_index` and how their types are shown.
    pub fn batch_schema(&self, batch_index: usize) -> (r: Result<
        (Vec<String>, Vec<String>),
        DuckyError,
    >)
        ensures
            batch_index >= self.batches@.len() ==> (r matches Err(DuckyError::Generic(m)) && m@
                == "Out of bounds"@),
            batch_index < self.batches@.len() ==> (r matches Ok((names, types)) && {
                let fields = self.batches@[batch_index as int].spec_fields();
                &&& strings_view(names@) == field_names(fields)
                &&& strings_view(types@) == field_types(self.type_aliases@, fields)
            }),
    {
        if batch_index >= self.batches.len() {
            return Err(DuckyError::Generic(String::from_str("Out of bounds")));
        }
        let batch = &self.batches[batch_index];
        let ghost fields = batch.fields@;
        let n = batch.fields.len();
        let mut names: Vec<String> = Vec::new();
        let mut types: Vec<String> = Vec::new();
        let mut i: usize = 0;
        while i < n
            invariant
                n == fields.len(),
                fields == batch.fields@,
                i <= n,
                names@.len() == i,
                types@.len() == i,
                forall|j: int| 0 <= j < i ==> #[trigger] names@[j]@ == fields[j].name@,
                forall|j: int|
                    0 <= j < i ==> #[trigger] types@[j]@ == dtype_text(
                        self.type_aliases@,
                        fields[j].data_type@,
                    ),
            decreases n - i,
        {
            names.push(batch.fields[i].name.clone());
            let t = self.dtype_to_string(batch.fields[i].data_type.as_str());
            types.push(t);
            i = i + 1;
        }
        assert(strings_view(names@) =~= field_names(fields));
        assert(strings_view(types@) =~= field_types(self.type_aliases@, fields));
        Ok((names, types))
    }

    /// The rows of batch `batch_index`, each cell formatted as text.
    pub fn batch_to_stringified_rows(&self, batch_index: usize) -> (r: Result<
        Vec<Vec<String>>,
        DuckyError,
    >)
        ensures
            batch_index >= self.batches@.len() ==> (r matches Err(DuckyError::Generic(m)) && m@
                == "Out of bounds"@),
            batch_index < self.batches@.len() ==> {
                let b = self.batches@[batch_index as int];
                match first_column_error(b.spec_columns()) {
                    Some(e) => r matches Err(DuckyError::Generic(m)) && m@ == e,
                    None => r matches Ok(rows) && rows_view(rows@) == rows_of_columns(
                        b.spec_columns(),
                        b.spec_num_rows() as nat,
                    ),
                }
            },
            r matches Ok(rows) ==> batch_index < self.batches@.len() && {
                let b = self.batches@[batch_index as int];
                &&& rows@.len() == b.spec_num_rows()
                &&& forall|i: int|
                    0 <= i < rows@.len() ==> (#[trigger] rows@[i])@.len()
                        == b.spec_columns().len()
                &&& forall|i: int, c: int|
                    0 <= i < rows@.len() && 0 <= c < b.spec_columns().len() ==> (
                    #[trigger] rows@[i]@[c])@ == column_cells(b.spec_columns()[c])[i]
            },
    {
        if batch_index >= self.batches.len() {
            return Err(DuckyError::Generic(String::from_str("Out of bounds")));
        }
        let batch = &self.batches[batch_index];
        proof {
            use_type_invariant(batch);
        }
        let ghost cols = batch.columns@;
        let ncols = batch.columns.len();
        let nrows = batch.num_rows;
        let mut k: usize = 0;
        assert(cols.skip(0) =~= cols);
        while k < ncols
            invariant
                batch_index < self.batches@.len(),
                *batch == self.batches@[batch_index as int],
                ncols == cols.len(),
                cols == batch.columns@,
                k <= ncols,
                first_column_error(cols) == first_column_error(cols.skip(k as int)),
                forall|j: int| 0 <= j < k ==> #[trigger] cols[j] is Cells,
            decreases ncols - k,
        {
            proof {
                lemma_first_column_error_step(cols, k as int);
            }
            match &batch.columns[k] {
                ColumnText::Unformattable(m) => {
                    return Err(DuckyError::Generic(m.clone()));
                },
                ColumnText::Cells(_) => {},
            }
            k = k + 1;
        }
        assert(cols.skip(ncols as int) =~= Seq::<ColumnText>::empty());
        let ghost expected = rows_of_columns(cols, nrows as nat);
        let mut out: Vec<Vec<String>> = Vec::new();
        let mut row: usize = 0;
        while row < nrows
            invariant
                ncols == cols.len(),
                cols == batch.columns@,
                nrows == batch.num_rows,
                batch_consistent(batch.fields@, batch.num_rows, batch.columns@),
                forall|j: int| 0 <= j < ncols ==> #[trigger] cols[j] is Cells,
                expected == rows_of_columns(cols, nrows as nat),
                row <= nrows,
                out@.len() == row,
                forall|r: int| 0 <= r < row ==> #[trigger] strings_view(out@[r]@) == expected[r],
            decreases nrows - row,
        {
            let mut row_vec: Vec<String> = Vec::new();
            let mut col: usize = 0;
            while col < ncols
                invariant
                    ncols == cols.len(),
                    cols == batch.columns@,
                    nrows == batch.num_rows,
                    batch_consistent(batch.fields@, batch.num_rows, batch.columns@),
                    forall|j: int| 0 <= j < ncols ==> #[trigger] cols[j] is Cells,
                    row < nrows,
                    col <= ncols,
                    row_vec@.len() == col,
                    forall|c: int|
                        0 <= c < col ==> #[trigger] row_vec@[c]@ == column_cells(cols[c])[row as int],
                decreases ncols - col,
            {
                assert(cells_fit(cols[col as int], nrows));
                match &batch.columns[col] {
                    ColumnText::Cells(v) => {
                        row_vec.push(v[row].clone());
                    },
                    ColumnText::Unformattable(_) => {
                        assert(cols[col as int] is Cells);
                    },
                }
                col = col + 1;
            }
            assert(strings_view(row_vec@) =~= expected[row as int]);
            out.push(row_vec);
            row = row + 1;
        }
        assert(rows_view(out@) =~= expected);
        proof {
            law_rows_read_across(cols, nrows as nat);
            assert forall|i: int| 0 <= i < out@.len() implies (#[trigger] out@[i])@.len()
                == cols.len() by {
                assert(rows_view(out@)[i] == strings_view(out@[i]@));
            }
            assert forall|i: int, c: int|
                0 <= i < out@.len() && 0 <= c < cols.len() implies (#[trigger] out@[i]@[c])@
                == column_cells(cols[c])[i] by {
                assert(rows_view(out@)[i] == strings_view(out@[i]@));
                assert(strings_view(out@[i]@)[c] == out@[i]@[c]@);
            }
        }
        Ok(out)
    }
}

} // verus!
