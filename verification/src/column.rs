//! Picking one column of a table and reading its fields as numbers.

use crate::decimal::{is_decimal_literal, is_decimal_text};
use crate::number::{all_finite, finite, is_finite};
use crate::search::{first_occurrence_absent, first_occurrence_found, first_occurrence_is_least};
use crate::table::{Table, TableView};
use vstd::prelude::*;

verus! {

/// The numbers of one column, one for each row of the table, in the order
/// of the rows. Every one of them is finite.
#[derive(Debug, PartialEq, Eq)]
pub struct NumericColumn {
    values: Vec<u64>,
}

impl View for NumericColumn {
    type V = Seq<u64>;

    closed spec fn view(&self) -> Seq<u64> {
        self.values@
    }
}

impl NumericColumn {
    #[verifier::type_invariant]
    spec fn finite_throughout(&self) -> bool {
        all_finite(self.values@)
    }

    /// Makes a column of the given bit patterns, if all of them are finite.
    pub fn new(values: Vec<u64>) -> (r: Option<NumericColumn>)
        ensures
            match r {
                Some(column) => column@ == values@ && all_finite(values@),
                None => !all_finite(values@),
            },
    {
        let mut i: usize = 0;
        while i < values.len()
            invariant
                i <= values@.len(),
                forall|j: int| 0 <= j < i ==> is_finite(#[trigger] values@[j]),
            decreases values@.len() - i,
        {
            if !finite(values[i]) {
                return None;
            }
            i = i + 1;
        }
        Some(NumericColumn { values })
    }

    /// The bit patterns of the numbers.
    pub fn values(&self) -> (r: &Vec<u64>)
        ensures
            r@ == self@,
            all_finite(self@),
    {
        proof {
            use_type_invariant(self);
        }
        &self.values
    }

    /// Gives the bit patterns up, and the column with them.
    pub fn into_values(self) -> (r: Vec<u64>)
        ensures
            r@ == self@,
            all_finite(r@),
    {
        proof {
            use_type_invariant(&self);
        }
        self.values
    }

    /// How many numbers the column holds.
    pub fn len(&self) -> (n: usize)
        ensures
            n == self@.len(),
    {
        self.values.len()
    }
}

/// Why a column could not be had as numbers.
#[derive(Debug, Clone, PartialEq, Eq)]
pub enum ExtractionError {
    /// No column has this name.
    ColumnNotFound { column_name: String },
    /// The field of this row (the first row has index 0) is not a finite
    /// number; `raw_value` is the field as it stands in the table.
    NumericParseError { row_index: usize, raw_value: String },
}

/// An `ExtractionError` with its texts as sequences.
pub enum ExtractionErrorView {
    ColumnNotFound { column_name: Seq<char> },
    NumericParseError { row_index: usize, raw_value: Seq<char> },
}

impl View for ExtractionError {
    type V = ExtractionErrorView;

    open spec fn view(&self) -> ExtractionErrorView {
        match self {
            ExtractionError::ColumnNotFound { column_name } => ExtractionErrorView::ColumnNotFound {
                column_name: column_name@,
            },
            ExtractionError::NumericParseError {
                row_index,
                raw_value,
            } => ExtractionErrorView::NumericParseError {
                row_index: *row_index,
                raw_value: raw_value@,
            },
        }
    }
}

/// The index of the column called `name`: the first, where several columns
/// share the name.
pub open spec fn column_index_of(table: TableView, name: Seq<char>) -> Option<int> {
    table.headers.index_of_first(name)
}

/// The fields of the column with the given index, one for each row.
pub open spec fn fields_at(table: TableView, index: int) -> Seq<Seq<char>> {
    table.rows.map_values(|row: Seq<Seq<char>>| row[index])
}

/// The fields of the column called `name`.
pub open spec fn column_fields_of(table: TableView, name: Seq<char>) -> Result<
    Seq<Seq<char>>,
    ExtractionErrorView,
> {
    match column_index_of(table, name) {
        Some(index) => Ok(fields_at(table, index)),
        None => Err(ExtractionErrorView::ColumnNotFound { column_name: name }),
    }
}

/// Whether a field gives a number, and `number` is that number: the field is
/// a decimal literal, and what it was converted to is finite.
pub open spec fn is_number_of(field: Seq<char>, number: Option<u64>) -> bool {
    &&& is_decimal_text(field)
    &&& number matches Some(bits) && is_finite(bits)
}

/// The conversion handed in for row `i`; none where `numbers` is too short.
pub open spec fn number_at(numbers: Seq<Option<u64>>, i: int) -> Option<u64> {
    if 0 <= i < numbers.len() {
        numbers[i]
    } else {
        None
    }
}

/// The index of the first field that gives no number, if there is one.
pub open spec fn first_unparseable(fields: Seq<Seq<char>>, numbers: Seq<Option<u64>>) -> Option<
    int,
> {
    Seq::new(fields.len(), |i: int| is_number_of(fields[i], number_at(numbers, i))).index_of_first(
        false,
    )
}

/// The fields as numbers, where `numbers[i]` is what `fields[i]` was
/// converted to. All fields give a number, or there are no numbers at all:
/// the first field that gives none is reported, with its row.
pub open spec fn numbers_of(fields: Seq<Seq<char>>, numbers: Seq<Option<u64>>) -> Result<
    Seq<u64>,
    ExtractionErrorView,
> {
    match first_unparseable(fields, numbers) {
        Some(i) => Err(
            ExtractionErrorView::NumericParseError { row_index: i as usize, raw_value: fields[i] },
        ),
        None => Ok(Seq::new(fields.len(), |i: int| numbers[i].unwrap())),
    }
}

/// The column called `name` as numbers.
pub open spec fn column_values_of(
    table: TableView,
    name: Seq<char>,
    numbers: Seq<Option<u64>>,
) -> Result<Seq<u64>, ExtractionErrorView> {
    match column_fields_of(table, name) {
        Ok(fields) => numbers_of(fields, numbers),
        Err(e) => Err(e),
    }
}

/// The outcome of fetching fields, with its texts as sequences.
pub open spec fn fields_view(r: Result<Vec<String>, ExtractionError>) -> Result<
    Seq<Seq<char>>,
    ExtractionErrorView,
> {
    match r {
        Ok(fields) => Ok(fields.deep_view()),
        Err(e) => Err(e@),
    }
}

/// The outcome of an extraction, with the column as its numbers.
pub open spec fn extraction_view(r: Result<NumericColumn, ExtractionError>) -> Result<
    Seq<u64>,
    ExtractionErrorView,
> {
    match r {
        Ok(column) => Ok(column@),
        Err(e) => Err(e@),
    }
}

/// The column that a name stands for is the first whose name it is, and a
/// name that no column has stands for none.
pub proof fn column_index_is_first_match(table: TableView, name: Seq<char>)
    ensures
        match column_index_of(table, name) {
            Some(index) => {
                &&& 0 <= index < table.headers.len()
                &&& table.headers[index] == name
                &&& forall|j: int| 0 <= j < index ==> #[trigger] table.headers[j] != name
            },
            None => forall|j: int| 0 <= j < table.headers.len() ==> #[trigger] table.headers[j] != name,
        },
{
    first_occurrence_is_least(table.headers, name);
}

/// What the first unparseable field is, where there is one: a field that
/// gives no number, below fields that all give one.
pub proof fn first_unparseable_is_least(fields: Seq<Seq<char>>, numbers: Seq<Option<u64>>)
    ensures
        match first_unparseable(fields, numbers) {
            Some(i) => {
                &&& 0 <= i < fields.len()
                &&& !is_number_of(fields[i], number_at(numbers, i))
                &&& forall|j: int|
                    0 <= j < i ==> is_number_of(#[trigger] fields[j], number_at(numbers, j))
            },
            None => forall|j: int|
                0 <= j < fields.len() ==> is_number_of(#[trigger] fields[j], number_at(numbers, j)),
        },
{
    let flags = Seq::new(fields.len(), |i: int| is_number_of(fields[i], number_at(numbers, i)));
    first_occurrence_is_least(flags, false);
    match first_unparseable(fields, numbers) {
        Some(i) => {
            assert(flags[i] == is_number_of(fields[i], number_at(numbers, i)));
            assert forall|j: int| 0 <= j < i implies is_number_of(
                #[trigger] fields[j],
                number_at(numbers, j),
            ) by {
                assert(flags[j] != false);
            }
        },
        None => {
            assert forall|j: int| 0 <= j < fields.len() implies is_number_of(
                #[trigger] fields[j],
                number_at(numbers, j),
            ) by {
                assert(flags[j] != false);
            }
        },
    }
}

/// A column whose fields all give a number is read in full: there is one
/// number for each row of the table, the number of row `r` is what the
/// field of row `r` was converted to, and all of them are finite.
pub proof fn numeric_fields_give_their_numbers(
    table: TableView,
    name: Seq<char>,
    numbers: Seq<Option<u64>>,
)
    requires
        column_index_of(table, name) matches Some(c) && forall|r: int|
            0 <= r < table.rows.len() ==> is_number_of(
                (#[trigger] table.rows[r])[c],
                number_at(numbers, r),
            ),
    ensures
        column_values_of(table, name, numbers) matches Ok(values) && {
            &&& values.len() == table.rows.len()
            &&& forall|r: int|
                0 <= r < table.rows.len() ==> number_at(numbers, r) == Some(#[trigger] values[r])
            &&& all_finite(values)
        },
{
    let c = column_index_of(table, name).unwrap();
    let fields = fields_at(table, c);
    assert forall|j: int| 0 <= j < fields.len() implies is_number_of(
        #[trigger] fields[j],
        number_at(numbers, j),
    ) by {
        assert(fields[j] == table.rows[j][c]);
    }
    first_unparseable_is_least(fields, numbers);
    let values = numbers_of(fields, numbers)->Ok_0;
    assert forall|r: int| 0 <= r < table.rows.len() implies number_at(numbers, r) == Some(
        #[trigger] values[r],
    ) && is_finite(values[r]) by {
        assert(is_number_of(fields[r], number_at(numbers, r)));
    }
}

/// A name that no column has is never found: whatever the rows hold and
/// whatever conversions are handed in, the outcome is `ColumnNotFound` with
/// that name, and no numbers.
pub proof fn missing_column_is_not_found(
    table: TableView,
    name: Seq<char>,
    numbers: Seq<Option<u64>>,
)
    requires
        forall|i: int| 0 <= i < table.headers.len() ==> #[trigger] table.headers[i] != name,
    ensures
        column_fields_of(table, name) == Err::<Seq<Seq<char>>, ExtractionErrorView>(
            ExtractionErrorView::ColumnNotFound { column_name: name },
        ),
        column_values_of(table, name, numbers) == Err::<Seq<u64>, ExtractionErrorView>(
            ExtractionErrorView::ColumnNotFound { column_name: name },
        ),
{
    first_occurrence_absent(table.headers, name);
}

/// Reading a column gives all its numbers or none. Numbers come only where
/// the column exists and every field gives one; otherwise the error names
/// the missing column, or the first row whose field gives no number, with
/// that field.
pub proof fn column_values_of_cases(table: TableView, name: Seq<char>, numbers: Seq<Option<u64>>)
    ensures
        match column_values_of(table, name, numbers) {
            Ok(values) => {
                &&& column_index_of(table, name) matches Some(c) && forall|r: int|
                    0 <= r < table.rows.len() ==> is_number_of(
                        (#[trigger] table.rows[r])[c],
                        number_at(numbers, r),
                    )
                &&& values.len() == table.rows.len()
                &&& forall|r: int|
                    0 <= r < table.rows.len() ==> number_at(numbers, r) == Some(#[trigger] values[r])
            },
            Err(ExtractionErrorView::ColumnNotFound { column_name }) => {
                &&& column_name == name
                &&& forall|i: int| 0 <= i < table.headers.len() ==> #[trigger] table.headers[i] != name
            },
            Err(ExtractionErrorView::NumericParseError { row_index, raw_value }) => {
                &&& column_index_of(table, name) matches Some(c) && first_unparseable(
                    fields_at(table, c),
                    numbers,
                ) matches Some(i) && {
                    &&& 0 <= i < table.rows.len()
                    &&& row_index == i as usize
                    &&& raw_value == table.rows[i][c]
                    &&& !is_number_of(table.rows[i][c], number_at(numbers, i))
                }
            },
        },
{
    column_index_is_first_match(table, name);
    match column_index_of(table, name) {
        Some(c) => {
            let fields = fields_at(table, c);
            first_unparseable_is_least(fields, numbers);
            match first_unparseable(fields, numbers) {
                Some(i) => {
                    assert(fields[i] == table.rows[i][c]);
                },
                None => {
                    assert forall|r: int| 0 <= r < table.rows.len() implies is_number_of(
                        (#[trigger] table.rows[r])[c],
                        number_at(numbers, r),
                    ) by {
                        assert(is_number_of(fields[r], number_at(numbers, r)));
                    }
                    numeric_fields_give_their_numbers(table, name, numbers);
                },
            }
        },
        None => {},
    }
}

/// Finds the column called `column_name`, comparing the names as they
/// stand. Where several columns share the name, the first is found.
pub fn column_index(table: &Table, column_name: &str) -> (r: Option<usize>)
    ensures
        match r {
            Some(index) => column_index_of(table@, column_name@) == Some(index as int) && index
                < table@.headers.len(),
            None => column_index_of(table@, column_name@) is None,
        },
{
    let headers = table.headers();
    let name: String = column_name.to_owned();
    let mut i: usize = 0;
    while i < headers.len()
        invariant
            i <= headers@.len(),
            name@ == column_name@,
            headers.deep_view() == table@.headers,
            forall|j: int| 0 <= j < i ==> #[trigger] table@.headers[j] != column_name@,
        decreases headers@.len() - i,
    {
        assert(headers.deep_view()[i as int] == headers@[i as int]@);
        if headers[i] == name {
            proof {
                first_occurrence_found(table@.headers, column_name@, i as int);
            }
            return Some(i);
        }
        i = i + 1;
    }
    proof {
        first_occurrence_absent(table@.headers, column_name@);
    }
    None
}

/// Copies out the fields of the column called `column_name`, one for each
/// row, in the order of the rows.
pub fn column_fields(table: &Table, column_name: &str) -> (r: Result<Vec<String>, ExtractionError>)
    ensures
        fields_view(r) == column_fields_of(table@, column_name@),
{
    let index = match column_index(table, column_name) {
        Some(index) => index,
        None => {
            return Err(ExtractionError::ColumnNotFound { column_name: column_name.to_owned() });
        },
    };
    let rows = table.rows();
    let mut fields: Vec<String> = Vec::new();
    let mut i: usize = 0;
    while i < rows.len()
        invariant
            i <= rows@.len(),
            index < table@.headers.len(),
            rows.deep_view() == table@.rows,
            table@.is_rectangular(),
            fields@.len() == i,
            forall|j: int| 0 <= j < i ==> (#[trigger] fields@[j])@ == table@.rows[j][index as int],
        decreases rows@.len() - i,
    {
        assert(rows.deep_view()[i as int] == rows@[i as int].deep_view());
        assert(table@.rows[i as int].len() == table@.headers.len());
        let row = &rows[i];
        assert(row.deep_view()[index as int] == row@[index as int]@);
        fields.push(row[index].clone());
        i = i + 1;
    }
    assert(fields.deep_view() =~= fields_at(table@, index as int));
    Ok(fields)
}

/// Reads fields as numbers. `numbers[i]` is what the caller converted
/// `fields[i]` to, as a bit pattern, or `None` where it could not. A field
/// counts as a number if it is a decimal literal and its conversion is
/// finite; a field for which `numbers` has no entry counts as unconverted.
pub fn numeric_column(fields: &Vec<String>, numbers: &Vec<Option<u64>>) -> (r: Result<
    NumericColumn,
    ExtractionError,
>)
    ensures
        extraction_view(r) == numbers_of(fields.deep_view(), numbers@),
{
    let ghost flags = Seq::new(
        fields.deep_view().len(),
        |i: int| is_number_of(fields.deep_view()[i], number_at(numbers@, i)),
    );
    let mut values: Vec<u64> = Vec::new();
    let mut i: usize = 0;
    while i < fields.len()
        invariant
            i <= fields@.len(),
            values@.len() == i,
            flags == Seq::new(
                fields.deep_view().len(),
                |i: int| is_number_of(fields.deep_view()[i], number_at(numbers@, i)),
            ),
            forall|j: int| 0 <= j < i ==> #[trigger] flags[j],
            forall|j: int| 0 <= j < i ==> j < numbers@.len() && numbers@[j] == Some(#[trigger] values@[j]),
            all_finite(values@),
        decreases fields@.len() - i,
    {
        assert(fields.deep_view()[i as int] == fields@[i as int]@);
        let number: Option<u64> = if i < numbers.len() {
            numbers[i]
        } else {
            None
        };
        let accepted: Option<u64> = match number {
            Some(bits) => if finite(bits) && is_decimal_literal(fields[i].as_str()) {
                Some(bits)
            } else {
                None
            },
            None => None,
        };
        match accepted {
            Some(bits) => {
                values.push(bits);
            },
            None => {
                proof {
                    assert(!flags[i as int]);
                    assert forall|j: int| 0 <= j < i implies #[trigger] flags[j] != false by {}
                    first_occurrence_found(flags, false, i as int);
                }
                return Err(
                    ExtractionError::NumericParseError { row_index: i, raw_value: fields[i].clone() },
                );
            },
        }
        i = i + 1;
    }
    proof {
        assert forall|j: int| 0 <= j < flags.len() implies #[trigger] flags[j] != false by {}
        first_occurrence_absent(flags, false);
        assert(values@ =~= Seq::new(fields.deep_view().len(), |i: int| numbers@[i].unwrap()));
    }
    Ok(NumericColumn { values })
}

/// Reads the column called `column_name` as numbers, where `numbers[i]` is
/// what the caller converted the field of row `i` to.
pub fn get_column_values(table: &Table, column_name: &str, numbers: &Vec<Option<u64>>) -> (r:
    Result<NumericColumn, ExtractionError>)
    ensures
        extraction_view(r) == column_values_of(table@, column_name@, numbers@),
{
    match column_fields(table, column_name) {
        Ok(fields) => numeric_column(&fields, numbers),
        Err(e) => Err(e),
    }
}

} // verus!
