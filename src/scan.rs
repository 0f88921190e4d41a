use vstd::prelude::*;
use crate::table::{IdentModel, TableIdent, TableKind};

verus! {

/// One cell of a catalog row, read by ordinal position.
#[derive(Clone, Debug, PartialEq, Eq)]
pub enum CatalogValue {
    Text(String),
    Int(i64),
    Null,
}

/// The kind of value that an ordinal of a scan must hold.
#[derive(Clone, Copy, Debug, PartialEq, Eq, Structural)]
pub enum CellKind {
    Text,
    Int,
}

/// Which of the two catalog scans a row came from.
#[derive(Clone, Copy, Debug, PartialEq, Eq, Structural)]
pub enum ScanKind {
    Tables,
    ForeignKeys,
}

/// A row that lacks an ordinal, or holds a value of the wrong kind there.
#[derive(Clone, Copy, Debug, PartialEq, Eq, Structural)]
pub struct DecodeError {
    pub scan: ScanKind,
    /// Position of the offending row in its scan.
    pub row: usize,
    /// The first ordinal of that row that could not be decoded.
    pub ordinal: usize,
}

/// Number of ordinals of a table/column scan row.
pub const TABLE_SCAN_WIDTH: usize = 8;

/// Number of ordinals of a foreign-key scan row (three per endpoint).
pub const FK_SCAN_WIDTH: usize = 6;

/// What ordinal `i` of a table/column scan row holds: schema, table name,
/// kind, column name and column type as text; the nullable, primary-key and
/// updatable counters as integers.
pub open spec fn table_cell_kind(i: int) -> CellKind {
    if i < 5 {
        CellKind::Text
    } else {
        CellKind::Int
    }
}

/// Every ordinal of a foreign-key scan row holds text: me-schema, me-table,
/// me-column, other-schema, other-table, other-column.
pub open spec fn fk_cell_kind(i: int) -> CellKind {
    CellKind::Text
}

pub open spec fn cell_fits(row: Seq<CatalogValue>, i: int, kind: CellKind) -> bool {
    &&& 0 <= i < row.len()
    &&& match kind {
        CellKind::Text => row[i] is Text,
        CellKind::Int => row[i] is Int,
    }
}

pub open spec fn cell_kind_of(scan: ScanKind, i: int) -> CellKind {
    match scan {
        ScanKind::Tables => table_cell_kind(i),
        ScanKind::ForeignKeys => fk_cell_kind(i),
    }
}

pub open spec fn width_of(scan: ScanKind) -> int {
    match scan {
        ScanKind::Tables => TABLE_SCAN_WIDTH as int,
        ScanKind::ForeignKeys => FK_SCAN_WIDTH as int,
    }
}

/// The ordinals below `n` of `row` all hold what `scan` asks of them.
pub open spec fn fits_upto(scan: ScanKind, row: Seq<CatalogValue>, n: int) -> bool {
    forall|i: int| 0 <= i < n ==> cell_fits(row, i, #[trigger] cell_kind_of(scan, i))
}

pub open spec fn row_fits(scan: ScanKind, row: Seq<CatalogValue>) -> bool {
    fits_upto(scan, row, width_of(scan))
}

/// The first ordinal of `row` that does not hold what `scan` asks of it.
pub open spec fn first_misfit(scan: ScanKind, row: Seq<CatalogValue>, k: int) -> bool {
    &&& 0 <= k < width_of(scan)
    &&& fits_upto(scan, row, k)
    &&& !cell_fits(row, k, cell_kind_of(scan, k))
}

pub open spec fn text_of(v: CatalogValue) -> Seq<char> {
    match v {
        CatalogValue::Text(s) => s@,
        _ => Seq::empty(),
    }
}

pub open spec fn int_of(v: CatalogValue) -> int {
    match v {
        CatalogValue::Int(n) => n as int,
        _ => 0,
    }
}

/// One row of the table/column scan.
#[derive(Clone, Debug, PartialEq, Eq)]
pub struct TableScanRow {
    pub schema: String,
    pub table_name: String,
    /// Kind classifier: "table" for a base table, anything else for a view.
    pub ty: String,
    pub column_name: String,
    pub column_type: String,
    pub is_nullable: i64,
    pub is_primary_key: i64,
    pub is_updatable: i64,
}

/// One endpoint of a foreign key: a table and one of its columns.
#[derive(Clone, Debug, PartialEq, Eq)]
pub struct FkScanTableCol {
    pub ident: TableIdent,
    pub column: String,
}

/// One foreign key: the column holding the reference ("me") and the
/// referenced column ("other").
#[derive(Clone, Debug, PartialEq, Eq)]
pub struct FkScanRow {
    pub me: FkScanTableCol,
    pub other: FkScanTableCol,
}

pub open spec fn is_table_word(s: Seq<char>) -> bool {
    s == seq!['t', 'a', 'b', 'l', 'e']
}

/// The kind that a classifier string names.
pub open spec fn kind_of(s: Seq<char>) -> TableKind {
    if is_table_word(s) {
        TableKind::Table
    } else {
        TableKind::View
    }
}

impl TableScanRow {
    pub fn copy(&self) -> (r: TableScanRow)
        ensures
            r == *self,
    {
        TableScanRow {
            schema: self.schema.clone(),
            table_name: self.table_name.clone(),
            ty: self.ty.clone(),
            column_name: self.column_name.clone(),
            column_type: self.column_type.clone(),
            is_nullable: self.is_nullable,
            is_primary_key: self.is_primary_key,
            is_updatable: self.is_updatable,
        }
    }

    pub open spec fn spec_ident(&self) -> IdentModel {
        (self.schema@, self.table_name@)
    }

    pub fn ident(&self) -> (r: TableIdent)
        ensures
            r@ == self.spec_ident(),
    {
        TableIdent::new(self.schema.clone(), self.table_name.clone())
    }

    pub fn kind(&self) -> (r: TableKind)
        ensures
            r == kind_of(self.ty@),
    {
        let word = ['t', 'a', 'b', 'l', 'e'];
        let s = self.ty.as_str();
        if s.unicode_len() != 5 {
            return TableKind::View;
        }
        let mut i: usize = 0;
        while i < 5
            invariant
                0 <= i <= 5,
                s@ == self.ty@,
                s@.len() == 5,
                forall|j: int| 0 <= j < i ==> s@[j] == word@[j],
                word@ == seq!['t', 'a', 'b', 'l', 'e'],
            decreases 5 - i,
        {
            if s.get_char(i) != word[i] {
                assert(s@[i as int] != word@[i as int]);
                assert(s@ != seq!['t', 'a', 'b', 'l', 'e']);
                return TableKind::View;
            }
            i += 1;
        }
        assert(s@ =~= seq!['t', 'a', 'b', 'l', 'e']);
        TableKind::Table
    }
}

impl FkScanTableCol {
    pub fn new(schema: String, table: String, column: String) -> (r: FkScanTableCol)
        ensures
            r.ident.schema == schema,
            r.ident.name == table,
            r.column == column,
    {
        FkScanTableCol { ident: TableIdent::new(schema, table), column }
    }

    pub fn copy(&self) -> (r: FkScanTableCol)
        ensures
            r == *self,
    {
        FkScanTableCol { ident: self.ident.copy(), column: self.column.clone() }
    }
}

impl FkScanRow {
    pub fn copy(&self) -> (r: FkScanRow)
        ensures
            r == *self,
    {
        FkScanRow { me: self.me.copy(), other: self.other.copy() }
    }
}

/// `t` holds what a table/column scan row that fits carries; the three
/// counters are kept as read.
pub open spec fn decodes_table_row(row: Seq<CatalogValue>, t: TableScanRow) -> bool {
    &&& t.schema@ == text_of(row[0])
    &&& t.table_name@ == text_of(row[1])
    &&& t.ty@ == text_of(row[2])
    &&& t.column_name@ == text_of(row[3])
    &&& t.column_type@ == text_of(row[4])
    &&& t.is_nullable as int == int_of(row[5])
    &&& t.is_primary_key as int == int_of(row[6])
    &&& t.is_updatable as int == int_of(row[7])
}

/// `f` holds what a foreign-key scan row that fits carries.
pub open spec fn decodes_fk_row(row: Seq<CatalogValue>, f: FkScanRow) -> bool {
    &&& f.me.ident.schema@ == text_of(row[0])
    &&& f.me.ident.name@ == text_of(row[1])
    &&& f.me.column@ == text_of(row[2])
    &&& f.other.ident.schema@ == text_of(row[3])
    &&& f.other.ident.name@ == text_of(row[4])
    &&& f.other.column@ == text_of(row[5])
}

/// The error that row `index` of `scan` gives when it does not fit.
pub open spec fn misfit_error(scan: ScanKind, rows: Seq<Vec<CatalogValue>>, e: DecodeError) -> bool {
    &&& e.scan == scan
    &&& 0 <= e.row < rows.len()
    &&& forall|i: int| 0 <= i < e.row ==> row_fits(scan, #[trigger] rows[i]@)
    &&& first_misfit(scan, rows[e.row as int]@, e.ordinal as int)
}

fn cell_kind(scan: ScanKind, i: usize) -> (r: CellKind)
    ensures
        r == cell_kind_of(scan, i as int),
{
    match scan {
        ScanKind::Tables => if i < 5 {
            CellKind::Text
        } else {
            CellKind::Int
        },
        ScanKind::ForeignKeys => CellKind::Text,
    }
}

fn width(scan: ScanKind) -> (r: usize)
    ensures
        r as int == width_of(scan),
{
    match scan {
        ScanKind::Tables => TABLE_SCAN_WIDTH,
        ScanKind::ForeignKeys => FK_SCAN_WIDTH,
    }
}

/// Checks each ordinal of `row` against what `scan` asks of it, and returns
/// the first one that does not fit.
pub fn check_row(scan: ScanKind, row: &Vec<CatalogValue>) -> (r: Result<(), usize>)
    ensures
        r is Ok <==> row_fits(scan, row@),
        r matches Err(k) ==> first_misfit(scan, row@, k as int),
{
    let n = width(scan);
    let mut i: usize = 0;
    while i < n
        invariant
            0 <= i <= n,
            n as int == width_of(scan),
            fits_upto(scan, row@, i as int),
        decreases n - i,
    {
        let kind = cell_kind(scan, i);
        if i >= row.len() {
            return Err(i);
        }
        let fits = match (&row[i], kind) {
            (CatalogValue::Text(_), CellKind::Text) => true,
            (CatalogValue::Int(_), CellKind::Int) => true,
            _ => false,
        };
        if !fits {
            return Err(i);
        }
        assert(cell_fits(row@, i as int, cell_kind_of(scan, i as int)));
        i += 1;
    }
    Ok(())
}

fn text_cell(row: &Vec<CatalogValue>, i: usize) -> (r: String)
    requires
        i < row@.len(),
        row@[i as int] is Text,
    ensures
        r@ == text_of(row@[i as int]),
{
    match &row[i] {
        CatalogValue::Text(s) => s.clone(),
        _ => String::new(),
    }
}

fn int_cell(row: &Vec<CatalogValue>, i: usize) -> (r: i64)
    requires
        i < row@.len(),
        row@[i as int] is Int,
    ensures
        r as int == int_of(row@[i as int]),
{
    match &row[i] {
        CatalogValue::Int(n) => *n,
        _ => 0,
    }
}

/// Decodes row `index` of the table/column scan by ordinal position.
pub fn decode_table_row(row: &Vec<CatalogValue>, index: usize) -> (r: Result<TableScanRow, DecodeError>)
    ensures
        r is Ok <==> row_fits(ScanKind::Tables, row@),
        r matches Ok(t) ==> decodes_table_row(row@, t),
        r matches Err(e) ==> e.scan == ScanKind::Tables && e.row == index
            && first_misfit(ScanKind::Tables, row@, e.ordinal as int),
{
    match check_row(ScanKind::Tables, row) {
        Err(k) => Err(DecodeError { scan: ScanKind::Tables, row: index, ordinal: k }),
        Ok(()) => {
            assert(forall|i: int| 0 <= i < 8 ==> cell_fits(row@, i, #[trigger] cell_kind_of(ScanKind::Tables, i)));
            assert(cell_kind_of(ScanKind::Tables, 0) == CellKind::Text);
            assert(cell_kind_of(ScanKind::Tables, 1) == CellKind::Text);
            assert(cell_kind_of(ScanKind::Tables, 2) == CellKind::Text);
            assert(cell_kind_of(ScanKind::Tables, 3) == CellKind::Text);
            assert(cell_kind_of(ScanKind::Tables, 4) == CellKind::Text);
            assert(cell_kind_of(ScanKind::Tables, 5) == CellKind::Int);
            assert(cell_kind_of(ScanKind::Tables, 6) == CellKind::Int);
            assert(cell_kind_of(ScanKind::Tables, 7) == CellKind::Int);
            Ok(TableScanRow {
                schema: text_cell(row, 0),
                table_name: text_cell(row, 1),
                ty: text_cell(row, 2),
                column_name: text_cell(row, 3),
                column_type: text_cell(row, 4),
                is_nullable: int_cell(row, 5),
                is_primary_key: int_cell(row, 6),
                is_updatable: int_cell(row, 7),
            })
        },
    }
}

/// Decodes row `index` of the foreign-key scan by ordinal position.
pub fn decode_fk_row(row: &Vec<CatalogValue>, index: usize) -> (r: Result<FkScanRow, DecodeError>)
    ensures
        r is Ok <==> row_fits(ScanKind::ForeignKeys, row@),
        r matches Ok(f) ==> decodes_fk_row(row@, f),
        r matches Err(e) ==> e.scan == ScanKind::ForeignKeys && e.row == index
            && first_misfit(ScanKind::ForeignKeys, row@, e.ordinal as int),
{
    match check_row(ScanKind::ForeignKeys, row) {
        Err(k) => Err(DecodeError { scan: ScanKind::ForeignKeys, row: index, ordinal: k }),
        Ok(()) => {
            assert(forall|i: int| 0 <= i < 6 ==> cell_fits(row@, i, #[trigger] cell_kind_of(ScanKind::ForeignKeys, i)));
            assert(cell_kind_of(ScanKind::ForeignKeys, 0) == CellKind::Text);
            assert(cell_kind_of(ScanKind::ForeignKeys, 1) == CellKind::Text);
            assert(cell_kind_of(ScanKind::ForeignKeys, 2) == CellKind::Text);
            assert(cell_kind_of(ScanKind::ForeignKeys, 3) == CellKind::Text);
            assert(cell_kind_of(ScanKind::ForeignKeys, 4) == CellKind::Text);
            assert(cell_kind_of(ScanKind::ForeignKeys, 5) == CellKind::Text);
            let me = FkScanTableCol::new(text_cell(row, 0), text_cell(row, 1), text_cell(row, 2));
            let other = FkScanTableCol::new(text_cell(row, 3), text_cell(row, 4), text_cell(row, 5));
            Ok(FkScanRow { me, other })
        },
    }
}

/// Decodes every row of the table/column scan; the first row that does not
/// fit fails the whole scan.
pub fn decode_table_rows(rows: &Vec<Vec<CatalogValue>>) -> (r: Result<Vec<TableScanRow>, DecodeError>)
    ensures
        r is Ok <==> forall|i: int| 0 <= i < rows@.len() ==> row_fits(ScanKind::Tables, #[trigger] rows@[i]@),
        r matches Ok(v) ==> v@.len() == rows@.len()
            && forall|i: int| 0 <= i < rows@.len() ==> decodes_table_row(#[trigger] rows@[i]@, v@[i]),
        r matches Err(e) ==> misfit_error(ScanKind::Tables, rows@, e),
{
    let mut out: Vec<TableScanRow> = Vec::new();
    let mut i: usize = 0;
    while i < rows.len()
        invariant
            0 <= i <= rows@.len(),
            out@.len() == i,
            forall|j: int| 0 <= j < i ==> row_fits(ScanKind::Tables, #[trigger] rows@[j]@),
            forall|j: int| 0 <= j < i ==> decodes_table_row(#[trigger] rows@[j]@, out@[j]),
        decreases rows@.len() - i,
    {
        match decode_table_row(&rows[i], i) {
            Ok(t) => out.push(t),
            Err(e) => {
                assert(!row_fits(ScanKind::Tables, rows@[i as int]@));
                return Err(e);
            },
        }
        i += 1;
    }
    Ok(out)
}

/// Decodes every row of the foreign-key scan; the first row that does not fit
/// fails the whole scan.
pub fn decode_fk_rows(rows: &Vec<Vec<CatalogValue>>) -> (r: Result<Vec<FkScanRow>, DecodeError>)
    ensures
        r is Ok <==> forall|i: int| 0 <= i < rows@.len() ==> row_fits(ScanKind::ForeignKeys, #[trigger] rows@[i]@),
        r matches Ok(v) ==> v@.len() == rows@.len()
            && forall|i: int| 0 <= i < rows@.len() ==> decodes_fk_row(#[trigger] rows@[i]@, v@[i]),
        r matches Err(e) ==> misfit_error(ScanKind::ForeignKeys, rows@, e),
{
    let mut out: Vec<FkScanRow> = Vec::new();
    let mut i: usize = 0;
    while i < rows.len()
        invariant
            0 <= i <= rows@.len(),
            out@.len() == i,
            forall|j: int| 0 <= j < i ==> row_fits(ScanKind::ForeignKeys, #[trigger] rows@[j]@),
            forall|j: int| 0 <= j < i ==> decodes_fk_row(#[trigger] rows@[j]@, out@[j]),
        decreases rows@.len() - i,
    {
        match decode_fk_row(&rows[i], i) {
            Ok(f) => out.push(f),
            Err(e) => {
                assert(!row_fits(ScanKind::ForeignKeys, rows@[i as int]@));
                return Err(e);
            },
        }
        i += 1;
    }
    Ok(out)
}

} // verus!
