//! Loading the catalog from delimiter-separated tabular data: the raw rows
//! come from the `csv` crate through one trusted wrapper, and the row-to-record
//! conversion is verified.

use vstd::prelude::*;
use crate::records::{Pokemon, PokemonView, cat_view};
use crate::strutil::{all_digits, digits_val, parse_u32};

verus! {

/// Failure to obtain a catalog from the data source.
#[derive(Clone, Copy, Debug, PartialEq, Eq, Structural)]
pub enum DataError {
    /// The source cannot be opened at all.
    Missing,
    /// Some row does not parse into the record shape.
    Malformed,
}

/// The rows (after the header row) that the `csv` crate reads out of the
/// given bytes, each a sequence of fields; `None` when the bytes are not a
/// well-formed table. The result depends on the bytes alone.
pub uninterp spec fn csv_rows(data: Seq<u8>) -> Option<Seq<Seq<Seq<char>>>>;

/// Relies on csv::Reader: with the default configuration it parses
/// comma-separated records, treats the first row as a header, and reports an
/// error on a structurally bad row. The rows depend on the input bytes alone.
#[verifier::external_body]
fn parse_rows(data: &[u8]) -> (r: Option<Vec<Vec<String>>>)
    ensures
        r matches Some(rows) ==> csv_rows(data@) == Some(rows.deep_view()),
        r is None ==> csv_rows(data@) is None,
{
    let mut out: Vec<Vec<String>> = Vec::new();
    let mut rdr = csv::Reader::from_reader(data);
    for rec in rdr.records() {
        match rec {
            Ok(rec) => out.push(rec.iter().map(|f| f.to_string()).collect()),
            Err(_) => return None,
        }
    }
    Some(out)
}

/// The record a row of fields denotes: four fields whose third is a numeral
/// that fits the height type; anything else is malformed.
pub open spec fn row_record(row: Seq<Seq<char>>) -> Option<PokemonView> {
    if row.len() == 4 && row[2].len() > 0 && all_digits(row[2]) && digits_val(row[2]) <= u32::MAX {
        Some(
            PokemonView {
                name: row[0],
                generation: row[1],
                height: digits_val(row[2]) as u32,
                typing: row[3],
            },
        )
    } else {
        None
    }
}

/// Every row denotes a record.
pub open spec fn rows_ok(rows: Seq<Seq<Seq<char>>>) -> bool {
    forall|i: int| 0 <= i < rows.len() ==> (#[trigger] row_record(rows[i])) is Some
}

/// The catalog a well-formed row sequence denotes.
pub open spec fn catalog_of_rows(rows: Seq<Seq<Seq<char>>>) -> Seq<PokemonView> {
    rows.map_values(|row: Seq<Seq<char>>| row_record(row)->Some_0)
}

/// Converts parsed rows into records, failing on the first malformed row.
pub fn build_catalog(rows: Vec<Vec<String>>) -> (r: Result<Vec<Pokemon>, DataError>)
    ensures
        match r {
            Ok(cat) => rows_ok(rows.deep_view()) && cat_view(cat@) == catalog_of_rows(
                rows.deep_view(),
            ),
            Err(e) => e == DataError::Malformed && !rows_ok(rows.deep_view()),
        },
{
    let ghost rowsv = rows.deep_view();
    let len = rows.len();
    let mut out: Vec<Pokemon> = Vec::new();
    let mut i: usize = 0;
    while i < len
        invariant
            len == rows@.len(),
            rowsv == rows.deep_view(),
            i <= len,
            forall|j: int| 0 <= j < i ==> (#[trigger] row_record(rowsv[j])) is Some,
            cat_view(out@) =~= catalog_of_rows(rowsv.take(i as int)),
        decreases len - i,
    {
        let row = &rows[i];
        proof {
            assert(rowsv[i as int] == row.deep_view());
            assert(forall|j: int|
                0 <= j < row@.len() ==> row.deep_view()[j] == (#[trigger] row@[j])@);
        }
        if row.len() != 4 {
            proof {
                assert(row_record(rowsv[i as int]) is None);
            }
            return Err(DataError::Malformed);
        }
        let height = match parse_u32(row[2].as_str()) {
            Some(h) => h,
            None => {
                proof {
                    assert(row_record(rowsv[i as int]) is None);
                }
                return Err(DataError::Malformed);
            },
        };
        let rec = Pokemon {
            name: row[0].clone(),
            generation: row[1].clone(),
            height,
            typing: row[3].clone(),
        };
        proof {
            assert(row_record(rowsv[i as int]) == Some(rec@));
            assert(rowsv.take(i + 1).drop_last() =~= rowsv.take(i as int));
            assert(catalog_of_rows(rowsv.take(i + 1)) =~= catalog_of_rows(
                rowsv.take(i as int),
            ).push(rec@));
        }
        out.push(rec);
        i += 1;
    }
    proof {
        assert(rowsv.take(len as int) =~= rowsv);
    }
    Ok(out)
}

/// Parses the data-source bytes into the catalog: the header row is skipped,
/// each remaining row must carry the four record fields with a numeric
/// height, and the first bad row fails the whole load.
pub fn load_catalog(data: &[u8]) -> (r: Result<Vec<Pokemon>, DataError>)
    ensures
        match r {
            Ok(cat) => csv_rows(data@) matches Some(rows) && rows_ok(rows) && cat_view(cat@)
                == catalog_of_rows(rows),
            Err(e) => e == DataError::Malformed && (csv_rows(data@) matches Some(rows)
                ==> !rows_ok(rows)),
        },
{
    match parse_rows(data) {
        Some(rows) => build_catalog(rows),
        None => Err(DataError::Malformed),
    }
}

} // verus!
