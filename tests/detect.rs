use welds_detect::{
    build_lookup, build_tables, decode_fk_rows, decode_table_row, decode_table_rows, find_tables,
    group_tables, Buckets, CatalogValue, DecodeError, FkEnd, FkScanRow, FkScanTableCol, ScanKind,
    TableDef, TableIdent, TableKind, TableScanRow,
};

fn text(s: &str) -> CatalogValue {
    CatalogValue::Text(s.to_string())
}

fn col_row(schema: &str, table: &str, kind: &str, column: &str, ty: &str, flags: [i64; 3]) -> Vec<CatalogValue> {
    vec![
        text(schema),
        text(table),
        text(kind),
        text(column),
        text(ty),
        CatalogValue::Int(flags[0]),
        CatalogValue::Int(flags[1]),
        CatalogValue::Int(flags[2]),
    ]
}

fn fk_row(me: (&str, &str, &str), other: (&str, &str, &str)) -> Vec<CatalogValue> {
    vec![text(me.0), text(me.1), text(me.2), text(other.0), text(other.1), text(other.2)]
}

fn ident(schema: &str, name: &str) -> TableIdent {
    TableIdent::new(schema.to_string(), name.to_string())
}

fn table<'a>(tables: &'a [TableDef], schema: &str, name: &str) -> &'a TableDef {
    let id = ident(schema, name);
    tables.iter().find(|t| t.ident == id).expect("table present")
}

fn shop_catalog() -> (Vec<Vec<CatalogValue>>, Vec<Vec<CatalogValue>>) {
    let tables = vec![
        col_row("public", "orders", "table", "id", "int4", [0, 1, 0]),
        col_row("public", "customers", "table", "id", "int4", [0, 1, 0]),
        col_row("public", "orders", "table", "customer_id", "int4", [1, 0, 1]),
        col_row("public", "customers", "table", "name", "text", [0, 0, 1]),
    ];
    let fks = vec![fk_row(("public", "orders", "customer_id"), ("public", "customers", "id"))];
    (tables, fks)
}

#[test]
fn grouping_two_columns_into_one_table() {
    let rows = vec![
        col_row("public", "orders", "table", "id", "int4", [0, 1, 0]),
        col_row("public", "orders", "table", "customer_id", "int4", [1, 0, 1]),
    ];
    let tables = find_tables(&rows, &vec![]).unwrap();
    assert_eq!(tables.len(), 1);
    let t = &tables[0];
    assert_eq!(t.ident, ident("public", "orders"));
    assert_eq!(t.columns.len(), 2);
    assert_eq!(t.columns[0].name, "id");
    assert_eq!(t.columns[1].name, "customer_id");
    assert_eq!(t.ty, TableKind::Table);
}

#[test]
fn relation_resolution_orders_customers() {
    let (rows, fks) = shop_catalog();
    let tables = find_tables(&rows, &fks).unwrap();
    assert_eq!(tables.len(), 2);
    let orders = table(&tables, "public", "orders");
    let customers = table(&tables, "public", "customers");
    assert_eq!(orders.belongs_to.len(), 1);
    assert_eq!(orders.belongs_to[0].other_table, ident("public", "customers"));
    assert_eq!(orders.belongs_to[0].foreign_key, "customer_id");
    assert_eq!(orders.belongs_to[0].primary_key, "id");
    assert!(orders.has_many.is_empty());
    assert_eq!(customers.has_many.len(), 1);
    assert_eq!(customers.has_many[0].other_table, ident("public", "orders"));
    assert_eq!(customers.has_many[0].foreign_key, "customer_id");
    assert_eq!(customers.has_many[0].primary_key, "id");
    assert!(customers.belongs_to.is_empty());
}

#[test]
fn table_idents_are_unique() {
    let (rows, fks) = shop_catalog();
    let tables = find_tables(&rows, &fks).unwrap();
    for i in 0..tables.len() {
        for j in 0..tables.len() {
            if i != j {
                assert_ne!(tables[i].ident, tables[j].ident);
            }
        }
    }
}

#[test]
fn belongs_to_has_matching_has_many() {
    let rows = vec![
        col_row("public", "a", "table", "id", "int4", [0, 1, 0]),
        col_row("public", "a", "table", "b_id", "int4", [0, 0, 1]),
        col_row("public", "b", "table", "id", "int4", [0, 1, 0]),
    ];
    let fks = vec![
        fk_row(("public", "a", "b_id"), ("public", "b", "id")),
        fk_row(("public", "a", "c_id"), ("public", "c", "id")),
    ];
    let tables = find_tables(&rows, &fks).unwrap();
    for t in &tables {
        for r in &t.belongs_to {
            if let Some(b) = tables.iter().find(|x| x.ident == r.other_table) {
                assert!(b.has_many.iter().any(|h| h.other_table == t.ident
                    && h.foreign_key == r.foreign_key
                    && h.primary_key == r.primary_key));
            }
        }
    }
    assert_eq!(table(&tables, "public", "a").belongs_to.len(), 2);
}

#[test]
fn introspecting_twice_gives_same_tables() {
    let (rows, fks) = shop_catalog();
    let first = find_tables(&rows, &fks).unwrap();
    let second = find_tables(&rows, &fks).unwrap();
    assert_eq!(first.len(), second.len());
    for t in &first {
        assert!(second.contains(t));
    }
    for t in &second {
        assert!(first.contains(t));
    }
}

#[test]
fn dangling_reference_gives_no_relation() {
    let rows = vec![col_row("public", "orders", "table", "id", "int4", [0, 1, 0])];
    let fks = vec![fk_row(("public", "orders", "vendor_id"), ("other", "vendors", "id"))];
    let tables = find_tables(&rows, &fks).unwrap();
    assert_eq!(tables.len(), 1);
    assert!(tables[0].has_many.is_empty());
    assert_eq!(tables[0].belongs_to.len(), 1);
    assert_eq!(tables[0].belongs_to[0].other_table, ident("other", "vendors"));

    let fks = vec![fk_row(("other", "invoices", "order_id"), ("public", "orders", "id"))];
    let tables = find_tables(&rows, &fks).unwrap();
    assert!(tables[0].belongs_to.is_empty());
    assert_eq!(tables[0].has_many.len(), 1);
    assert_eq!(tables[0].has_many[0].other_table, ident("other", "invoices"));

    let fks = vec![fk_row(("x", "p", "q"), ("y", "r", "s"))];
    let tables = find_tables(&rows, &fks).unwrap();
    assert!(tables[0].belongs_to.is_empty());
    assert!(tables[0].has_many.is_empty());
}

#[test]
fn empty_scans_give_empty_model() {
    let tables = find_tables(&vec![], &vec![]).unwrap();
    assert!(tables.is_empty());
    let fks = vec![fk_row(("public", "orders", "customer_id"), ("public", "customers", "id"))];
    let tables = find_tables(&vec![], &fks).unwrap();
    assert!(tables.is_empty());
}

#[test]
fn empty_fk_scan_gives_no_relations() {
    let (rows, _) = shop_catalog();
    let tables = find_tables(&rows, &vec![]).unwrap();
    assert_eq!(tables.len(), 2);
    for t in &tables {
        assert!(t.belongs_to.is_empty());
        assert!(t.has_many.is_empty());
    }
}

#[test]
fn counters_above_zero_mean_true() {
    let rows = vec![
        col_row("s", "t", "table", "a", "int4", [2, 0, -1]),
        col_row("s", "t", "table", "b", "text", [0, 7, 1]),
    ];
    let tables = find_tables(&rows, &vec![]).unwrap();
    let cols = &tables[0].columns;
    assert!(cols[0].null);
    assert!(!cols[0].primary_key);
    assert!(!cols[0].updatable);
    assert!(!cols[1].null);
    assert!(cols[1].primary_key);
    assert!(cols[1].updatable);
    assert_eq!(cols[1].ty, "text");
}

#[test]
fn kind_comes_from_first_row() {
    let rows = vec![
        col_row("s", "v", "view", "a", "int4", [0, 0, 0]),
        col_row("s", "v", "table", "b", "int4", [0, 0, 0]),
        col_row("s", "t", "table", "a", "int4", [0, 0, 0]),
        col_row("s", "u", "tables", "a", "int4", [0, 0, 0]),
    ];
    let tables = find_tables(&rows, &vec![]).unwrap();
    assert_eq!(table(&tables, "s", "v").ty, TableKind::View);
    assert_eq!(table(&tables, "s", "t").ty, TableKind::Table);
    assert_eq!(table(&tables, "s", "u").ty, TableKind::View);
}

#[test]
fn same_name_in_two_schemas_is_two_tables() {
    let rows = vec![
        col_row("a", "t", "table", "x", "int4", [0, 0, 0]),
        col_row("b", "t", "table", "x", "int4", [0, 0, 0]),
    ];
    let tables = find_tables(&rows, &vec![]).unwrap();
    assert_eq!(tables.len(), 2);
}

#[test]
fn missing_ordinal_fails_decode() {
    let mut row = col_row("s", "t", "table", "a", "int4", [0, 0, 0]);
    row.pop();
    let rows = vec![col_row("s", "t", "table", "b", "int4", [0, 0, 0]), row];
    let err = find_tables(&rows, &vec![]).unwrap_err();
    assert_eq!(err, DecodeError { scan: ScanKind::Tables, row: 1, ordinal: 7 });
}

#[test]
fn wrong_kind_of_value_fails_decode() {
    let mut row = col_row("s", "t", "table", "a", "int4", [0, 0, 0]);
    row[5] = text("yes");
    assert_eq!(
        decode_table_row(&row, 3).unwrap_err(),
        DecodeError { scan: ScanKind::Tables, row: 3, ordinal: 5 }
    );
    let mut row = col_row("s", "t", "table", "a", "int4", [0, 0, 0]);
    row[0] = CatalogValue::Null;
    assert_eq!(decode_table_rows(&vec![row]).unwrap_err().ordinal, 0);
}

#[test]
fn fk_scan_error_comes_after_table_scan() {
    let bad_fk = vec![vec![text("s"), text("t"), CatalogValue::Int(1)]];
    let rows = vec![col_row("s", "t", "table", "a", "int4", [0, 0, 0])];
    let err = find_tables(&rows, &bad_fk).unwrap_err();
    assert_eq!(err, DecodeError { scan: ScanKind::ForeignKeys, row: 0, ordinal: 2 });

    let bad_rows = vec![vec![text("s")]];
    let err = find_tables(&bad_rows, &bad_fk).unwrap_err();
    assert_eq!(err, DecodeError { scan: ScanKind::Tables, row: 0, ordinal: 1 });

    let short_fk = vec![fk_row(("a", "b", "c"), ("d", "e", "f"))[..5].to_vec()];
    assert_eq!(decode_fk_rows(&short_fk).unwrap_err().ordinal, 5);
}

#[test]
fn lookup_groups_by_endpoint() {
    let fks = decode_fk_rows(&vec![
        fk_row(("s", "a", "x_id"), ("s", "x", "id")),
        fk_row(("s", "b", "x_id"), ("s", "x", "id")),
        fk_row(("s", "a", "y_id"), ("s", "y", "id")),
    ])
    .unwrap();
    let mut by_me = build_lookup(&fks, FkEnd::Me);
    let mut by_other = build_lookup(&fks, FkEnd::Other);
    assert_eq!(by_me.len(), 2);
    assert_eq!(by_other.len(), 2);
    let a = by_me.take(&ident("s", "a")).unwrap();
    assert_eq!(a.len(), 2);
    assert_eq!(a[0].me.column, "x_id");
    assert_eq!(a[1].me.column, "y_id");
    assert!(by_me.take(&ident("s", "a")).is_none());
    assert_eq!(by_me.len(), 1);
    let x = by_other.take(&ident("s", "x")).unwrap();
    assert_eq!(x.len(), 2);
    assert_eq!(x[1].me.ident, ident("s", "b"));
    assert!(by_other.take(&ident("s", "zzz")).is_none());
}

#[test]
fn buckets_keep_insertion_order() {
    let mut b: Buckets<u32> = Buckets::new();
    b.add(&ident("s", "a"), 1);
    b.add(&ident("s", "b"), 2);
    b.add(&ident("s", "a"), 3);
    assert_eq!(b.len(), 2);
    let (k, first) = b.pop_first().unwrap();
    assert_eq!(k, ident("s", "a"));
    assert_eq!(first, vec![1, 3]);
    assert_eq!(b.take(&ident("s", "b")), Some(vec![2]));
    assert!(b.pop_first().is_none());
}

#[test]
fn build_tables_from_records() {
    let rows = vec![TableScanRow {
        schema: "s".to_string(),
        table_name: "t".to_string(),
        ty: "table".to_string(),
        column_name: "id".to_string(),
        column_type: "int8".to_string(),
        is_nullable: 0,
        is_primary_key: 1,
        is_updatable: 0,
    }];
    let fks = vec![FkScanRow {
        me: FkScanTableCol::new("s".to_string(), "t".to_string(), "parent_id".to_string()),
        other: FkScanTableCol::new("s".to_string(), "t".to_string(), "id".to_string()),
    }];
    let grouped = group_tables(&rows);
    assert_eq!(grouped.len(), 1);
    assert!(grouped[0].belongs_to.is_empty());
    let tables = build_tables(&rows, &fks);
    assert_eq!(tables.len(), 1);
    assert_eq!(tables[0].belongs_to.len(), 1);
    assert_eq!(tables[0].has_many.len(), 1);
    assert_eq!(tables[0].has_many[0].other_table, ident("s", "t"));
    assert_eq!(tables[0].has_many[0].foreign_key, "parent_id");
}

#[test]
fn lookup_of_no_fks_is_empty() {
    let fks: Vec<FkScanRow> = vec![];
    assert_eq!(build_lookup(&fks, FkEnd::Me).len(), 0);
    assert_eq!(build_lookup(&fks, FkEnd::Other).len(), 0);
    let one = decode_fk_rows(&vec![fk_row(("public", "orders", "customer_id"), ("public", "customers", "id"))]).unwrap();
    let mut by_other = build_lookup(&one, FkEnd::Other);
    assert_eq!(by_other.len(), 1);
    let bucket = by_other.take(&ident("public", "customers")).unwrap();
    assert_eq!(bucket, one);
}
