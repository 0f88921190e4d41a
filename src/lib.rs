//! Schema introspection: turns the rows of two catalog scans (tables with
//! their columns, and foreign keys) into a typed model of tables, columns and
//! the belongs-to / has-many relations between tables.
use vstd::prelude::*;

pub mod buckets;
pub mod detect;
pub mod laws;
pub mod scan;
pub mod seq_facts;
pub mod table;

pub use buckets::Buckets;
pub use detect::{
    build_cols, build_lookup, build_tables, find_tables, group_rows, group_tables,
    resolve_relations, FkEnd,
};
pub use scan::{
    check_row, decode_fk_row, decode_fk_rows, decode_table_row, decode_table_rows, CatalogValue,
    CellKind, DecodeError, FkScanRow, FkScanTableCol, ScanKind, TableScanRow, FK_SCAN_WIDTH,
    TABLE_SCAN_WIDTH,
};
pub use table::{ColumnDef, RelationDef, TableDef, TableIdent, TableKind};

verus! {

} // verus!
