//! A table of text: a line of column names and rows of fields beneath it.

use crate::reader::{csv_headers, csv_records, read_headers, read_records};
use crate::search::{first_occurrence_absent, first_occurrence_found, first_occurrence_is_least};
use vstd::prelude::*;

verus! {

/// What a table holds, as mathematical sequences of text.
pub struct TableView {
    /// The column names, in the order in which they were declared.
    pub headers: Seq<Seq<char>>,
    /// The rows, in the order in which they were read; each row is its fields.
    pub rows: Seq<Seq<Seq<char>>>,
}

impl TableView {
    /// Whether every row has one field for each column name.
    pub open spec fn is_rectangular(self) -> bool {
        forall|i: int| 0 <= i < self.rows.len() ==> (#[trigger] self.rows[i]).len() == self.headers.len()
    }
}

/// Column names and rows of fields. Every row has exactly one field for each
/// column name; a table is read-only once it is built.
#[derive(Debug, PartialEq, Eq)]
pub struct Table {
    headers: Vec<String>,
    rows: Vec<Vec<String>>,
}

impl View for Table {
    type V = TableView;

    closed spec fn view(&self) -> TableView {
        TableView { headers: self.headers.deep_view(), rows: self.rows.deep_view() }
    }
}

/// Why text could not be read as a table.
#[derive(Debug, Clone, Copy, PartialEq, Eq)]
pub enum ParseError {
    /// There is no line of column names.
    HeaderReadError,
    /// The row with this index (the first row below the column names has
    /// index 0) could not be read, or has another number of fields than
    /// there are column names.
    RecordReadError { row_index: usize },
}

/// Whether a record was read and has `width` fields.
pub open spec fn record_fits(width: nat, record: Option<Seq<Seq<char>>>) -> bool {
    record matches Some(fields) && fields.len() == width
}

/// The index of the first record that does not fit, if there is one.
pub open spec fn first_misfit(width: nat, records: Seq<Option<Seq<Seq<char>>>>) -> Option<int> {
    records.map_values(|record: Option<Seq<Seq<char>>>| record_fits(width, record)).index_of_first(
        false,
    )
}

/// The table that a header record and the records below it make.
///
/// `None` stands for a record that could not be read. Without a header
/// record, or with one that has no field, there is no table. Otherwise every
/// record has to fit the header; the first that does not is reported.
pub open spec fn table_of(
    headers: Option<Seq<Seq<char>>>,
    records: Seq<Option<Seq<Seq<char>>>>,
) -> Result<TableView, ParseError> {
    match headers {
        Some(names) if names.len() > 0 => match first_misfit(names.len(), records) {
            Some(i) => Err(ParseError::RecordReadError { row_index: i as usize }),
            None => Ok(
                TableView {
                    headers: names,
                    rows: records.map_values(|record: Option<Seq<Seq<char>>>| record.unwrap()),
                },
            ),
        },
        _ => Err(ParseError::HeaderReadError),
    }
}

/// The outcome of building a table, with the table as its view.
pub open spec fn built_view(r: Result<Table, ParseError>) -> Result<TableView, ParseError> {
    match r {
        Ok(table) => Ok(table@),
        Err(e) => Err(e),
    }
}

impl Table {
    #[verifier::type_invariant]
    spec fn rectangular(&self) -> bool {
        forall|i: int|
            0 <= i < self.rows@.len() ==> (#[trigger] self.rows@[i])@.len() == self.headers@.len()
    }

    /// The column names.
    pub fn headers(&self) -> (r: &Vec<String>)
        ensures
            r.deep_view() == self@.headers,
            self@.is_rectangular(),
    {
        proof {
            use_type_invariant(self);
            assert forall|i: int| 0 <= i < self@.rows.len() implies (#[trigger] self@.rows[i]).len()
                == self@.headers.len() by {
                assert(self.rows@[i]@.len() == self.headers@.len());
            }
        }
        &self.headers
    }

    /// The rows.
    pub fn rows(&self) -> (r: &Vec<Vec<String>>)
        ensures
            r.deep_view() == self@.rows,
            self@.is_rectangular(),
    {
        proof {
            use_type_invariant(self);
            assert forall|i: int| 0 <= i < self@.rows.len() implies (#[trigger] self@.rows[i]).len()
                == self@.headers.len() by {
                assert(self.rows@[i]@.len() == self.headers@.len());
            }
        }
        &self.rows
    }
}

/// A record that does not fit, with only fitting records before it, is the
/// first misfit.
proof fn misfit_found(width: nat, records: Seq<Option<Seq<Seq<char>>>>, i: int)
    requires
        0 <= i < records.len(),
        !record_fits(width, records[i]),
        forall|j: int| 0 <= j < i ==> record_fits(width, #[trigger] records[j]),
    ensures
        first_misfit(width, records) == Some(i),
{
    let fits = records.map_values(|record: Option<Seq<Seq<char>>>| record_fits(width, record));
    assert forall|j: int| 0 <= j < i implies #[trigger] fits[j] != false by {
        assert(record_fits(width, records[j]));
    }
    first_occurrence_found(fits, false, i);
}

/// Where every record fits, there is no misfit.
proof fn misfit_absent(width: nat, records: Seq<Option<Seq<Seq<char>>>>)
    requires
        forall|j: int| 0 <= j < records.len() ==> record_fits(width, #[trigger] records[j]),
    ensures
        first_misfit(width, records) is None,
{
    let fits = records.map_values(|record: Option<Seq<Seq<char>>>| record_fits(width, record));
    assert forall|j: int| 0 <= j < fits.len() implies #[trigger] fits[j] != false by {
        assert(record_fits(width, records[j]));
    }
    first_occurrence_absent(fits, false);
}

/// What the first misfit is, where there is one: a record that does not
/// fit, below records that all fit.
pub proof fn first_misfit_is_least(width: nat, records: Seq<Option<Seq<Seq<char>>>>)
    ensures
        match first_misfit(width, records) {
            Some(i) => {
                &&& 0 <= i < records.len()
                &&& !record_fits(width, records[i])
                &&& forall|j: int| 0 <= j < i ==> record_fits(width, #[trigger] records[j])
            },
            None => forall|j: int|
                0 <= j < records.len() ==> record_fits(width, #[trigger] records[j]),
        },
{
    let fits = records.map_values(|record: Option<Seq<Seq<char>>>| record_fits(width, record));
    first_occurrence_is_least(fits, false);
    match first_misfit(width, records) {
        Some(i) => {
            assert(fits[i] == record_fits(width, records[i]));
            assert forall|j: int| 0 <= j < i implies record_fits(width, #[trigger] records[j]) by {
                assert(fits[j] != false);
            }
        },
        None => {
            assert forall|j: int| 0 <= j < records.len() implies record_fits(
                width,
                #[trigger] records[j],
            ) by {
                assert(fits[j] != false);
            }
        },
    }
}

/// A header with one name or more, above records that were all read and
/// all have one field for each name, makes a table: its names are the
/// header, it has exactly one row for each record, and row `i` holds the
/// fields of record `i`. This is what `parse_csv` returns for text that
/// reads so.
pub proof fn fitting_records_make_a_table(
    names: Seq<Seq<char>>,
    records: Seq<Option<Seq<Seq<char>>>>,
)
    requires
        names.len() > 0,
        forall|i: int| 0 <= i < records.len() ==> record_fits(names.len(), #[trigger] records[i]),
    ensures
        table_of(Some(names), records) matches Ok(table) && {
            &&& table.headers == names
            &&& table.rows.len() == records.len()
            &&& forall|i: int|
                0 <= i < records.len() ==> records[i] == Some(#[trigger] table.rows[i])
            &&& forall|i: int|
                0 <= i < records.len() ==> (#[trigger] table.rows[i]).len() == names.len()
        },
{
    misfit_absent(names.len(), records);
    let table = table_of(Some(names), records).unwrap();
    assert forall|i: int| 0 <= i < records.len() implies records[i] == Some(
        #[trigger] table.rows[i],
    ) && table.rows[i].len() == names.len() by {
        assert(record_fits(names.len(), records[i]));
    }
}

/// Text whose first record has one field or more, and whose further
/// records are all read with as many fields as the first, parses: the table
/// has one row for each of those records, `k` rows for `k` records, each as
/// long as the header, in the order of the text.
pub proof fn well_formed_text_parses(text: Seq<char>)
    requires
        csv_headers(text) matches Some(names) && names.len() > 0 && forall|i: int|
            0 <= i < csv_records(text).len() ==> record_fits(
                names.len(),
                #[trigger] csv_records(text)[i],
            ),
    ensures
        table_of(csv_headers(text), csv_records(text)) matches Ok(table) && {
            &&& Some(table.headers) == csv_headers(text)
            &&& table.rows.len() == csv_records(text).len()
            &&& forall|i: int|
                0 <= i < table.rows.len() ==> csv_records(text)[i] == Some(#[trigger] table.rows[i])
            &&& forall|i: int|
                0 <= i < table.rows.len() ==> (#[trigger] table.rows[i]).len()
                    == table.headers.len()
        },
{
    fitting_records_make_a_table(csv_headers(text).unwrap(), csv_records(text));
}

/// Whatever is read, a table that comes of it has one row for each record,
/// in the order of the records, and one field in each row for each name;
/// and where none comes of it, the error says why: there are no names, or
/// the reported record is the first that was not read or does not fit.
pub proof fn table_of_cases(
    headers: Option<Seq<Seq<char>>>,
    records: Seq<Option<Seq<Seq<char>>>>,
)
    ensures
        match table_of(headers, records) {
            Ok(table) => {
                &&& headers == Some(table.headers)
                &&& table.headers.len() > 0
                &&& table.is_rectangular()
                &&& table.rows.len() == records.len()
                &&& forall|i: int|
                    0 <= i < records.len() ==> records[i] == Some(#[trigger] table.rows[i])
            },
            Err(ParseError::HeaderReadError) => headers is None || headers.unwrap().len() == 0,
            Err(ParseError::RecordReadError { row_index }) => {
                &&& headers is Some
                &&& headers.unwrap().len() > 0
                &&& first_misfit(headers.unwrap().len(), records) matches Some(i) && row_index
                    == i as usize
            },
        },
{
    match headers {
        Some(names) => {
            if names.len() > 0 {
                first_misfit_is_least(names.len(), records);
                if first_misfit(names.len(), records) is None {
                    fitting_records_make_a_table(names, records);
                }
            }
        },
        None => {},
    }
}

/// Builds the table of a header record and the records below it, where
/// `None` stands for a record that could not be read.
pub fn build_table(headers: Option<Vec<String>>, records: Vec<Option<Vec<String>>>) -> (r: Result<
    Table,
    ParseError,
>)
    ensures
        built_view(r) == table_of(headers.deep_view(), records.deep_view()),
{
    let names = match headers {
        Some(names) => names,
        None => { return Err(ParseError::HeaderReadError); },
    };
    if names.len() == 0 {
        return Err(ParseError::HeaderReadError);
    }
    let ghost all = records.deep_view();
    let ghost width = names@.len();
    let mut rows: Vec<Vec<String>> = Vec::new();
    for record in iter: records
        invariant
            width == names@.len(),
            width > 0,
            headers.deep_view() == Some(names.deep_view()),
            all == records.deep_view(),
            rows@.len() == iter.index(),
            forall|j: int| 0 <= j < rows@.len() ==> all[j] == Some((#[trigger] rows@[j]).deep_view()),
            forall|j: int| 0 <= j < rows@.len() ==> (#[trigger] rows@[j])@.len() == width,
    {
        assert(all[rows@.len() as int] == record.deep_view());
        match record {
            Some(fields) => {
                if fields.len() != names.len() {
                    proof {
                        assert forall|j: int| 0 <= j < rows@.len() implies record_fits(
                            width,
                            #[trigger] all[j],
                        ) by {
                            assert(all[j] == Some(rows@[j].deep_view()));
                        }
                        misfit_found(width, all, rows@.len() as int);
                    }
                    return Err(ParseError::RecordReadError { row_index: rows.len() });
                }
                rows.push(fields);
            },
            None => {
                proof {
                    assert forall|j: int| 0 <= j < rows@.len() implies record_fits(
                        width,
                        #[trigger] all[j],
                    ) by {
                        assert(all[j] == Some(rows@[j].deep_view()));
                    }
                    misfit_found(width, all, rows@.len() as int);
                }
                return Err(ParseError::RecordReadError { row_index: rows.len() });
            },
        }
    }
    proof {
        assert forall|j: int| 0 <= j < all.len() implies record_fits(width, #[trigger] all[j]) by {
            assert(all[j] == Some(rows@[j].deep_view()));
        }
        misfit_absent(width, all);
        assert(rows.deep_view() =~= all.map_values(
            |record: Option<Seq<Seq<char>>>| record.unwrap(),
        )) by {
            assert forall|j: int| 0 <= j < rows@.len() implies rows.deep_view()[j]
                == all[j].unwrap() by {
                assert(all[j] == Some(rows@[j].deep_view()));
            }
        }
    }
    Ok(Table { headers: names, rows })
}

/// Reads comma-separated text as a table. The first record is taken as the
/// column names whatever it holds, and fixes the number of fields of every
/// row; fields are kept as they stand, neither trimmed nor converted.
pub fn parse_csv(csv_content: &str) -> (r: Result<Table, ParseError>)
    ensures
        built_view(r) == table_of(csv_headers(csv_content@), csv_records(csv_content@)),
{
    let headers = match read_headers(csv_content) {
        Ok(names) => Some(names),
        Err(_) => None,
    };
    let items = read_records(csv_content);
    let ghost all = items@;
    let mut records: Vec<Option<Vec<String>>> = Vec::new();
    for item in iter: items
        invariant
            all == items@,
            records@.len() == iter.index(),
            forall|j: int|
                0 <= j < records@.len() ==> (#[trigger] records@[j]).deep_view() == csv_records(
                    csv_content@,
                )[j],
            all.len() == csv_records(csv_content@).len(),
            forall|i: int|
                0 <= i < all.len() ==> match #[trigger] all[i] {
                    Ok(fields) => csv_records(csv_content@)[i] == Some(fields.deep_view()),
                    Err(_) => csv_records(csv_content@)[i] is None,
                },
    {
        assert(item == all[records@.len() as int]);
        let record = match item {
            Ok(fields) => Some(fields),
            Err(_) => None,
        };
        records.push(record);
    }
    assert(records.deep_view() =~= csv_records(csv_content@));
    build_table(headers, records)
}

} // verus!
