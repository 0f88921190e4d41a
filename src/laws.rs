use vstd::prelude::*;
use crate::detect::{
    at_end, belongs_to_model, column_model, decoded_scans, describes, fks_at, has_many_model,
    has_table, models_scans, of_table, rows_of, table_model, FkEnd,
};
use crate::scan::{CatalogValue, FkScanRow, TableScanRow};
use crate::seq_facts::{lemma_filter_remove_unkept, lemma_filter_same_view};
use crate::table::{TableDef, TableModel};

verus! {

broadcast use vstd::seq_lib::group_filter_ensures;

/// The abstract tables of a model, as a set: the order of the tables is left
/// open.
pub open spec fn table_set(ts: Seq<TableDef>) -> Set<TableModel> {
    Set::new(|m: TableModel| exists|i: int| 0 <= i < ts.len() && (#[trigger] ts[i])@ == m)
}

/// The tables of a model are exactly those that its scan rows name.
proof fn lemma_table_of_row(rows: Seq<TableScanRow>, fks: Seq<FkScanRow>, ts: Seq<TableDef>, id: (Seq<char>, Seq<char>))
    requires
        describes(rows, fks, ts),
        rows_of(rows, id).len() > 0,
    ensures
        exists|t: int| 0 <= t < ts.len() && (#[trigger] ts[t])@ == table_model(rows, fks, id),
{
    let r = rows_of(rows, id)[0];
    assert(rows_of(rows, id).contains(r));
    rows.lemma_filter_contains_rev(of_table(id), r);
    let j = choose|j: int| 0 <= j < rows.len() && rows[j] == r;
    assert(has_table(ts, rows[j].spec_ident()));
    let t = choose|t: int| 0 <= t < ts.len() && (#[trigger] ts[t]).ident@ == rows[j].spec_ident();
    assert(ts[t]@ == table_model(rows, fks, id));
}

/// Introspecting the same scan records twice gives the same set of tables:
/// any two models of one pair of scans hold the same tables, whatever their
/// order.
pub proof fn lemma_model_deterministic(
    rows: Seq<TableScanRow>,
    fks: Seq<FkScanRow>,
    a: Seq<TableDef>,
    b: Seq<TableDef>,
)
    requires
        describes(rows, fks, a),
        describes(rows, fks, b),
    ensures
        table_set(a) == table_set(b),
{
    assert forall|m: TableModel| table_set(a).contains(m) implies table_set(b).contains(m) by {
        let i = choose|i: int| 0 <= i < a.len() && (#[trigger] a[i])@ == m;
        lemma_table_of_row(rows, fks, b, a[i].ident@);
    }
    assert forall|m: TableModel| table_set(b).contains(m) implies table_set(a).contains(m) by {
        let i = choose|i: int| 0 <= i < b.len() && (#[trigger] b[i])@ == m;
        lemma_table_of_row(rows, fks, a, b[i].ident@);
    }
    assert(table_set(a) =~= table_set(b));
}

/// Any two decodings of the same raw scans give the same table `id`.
proof fn lemma_decodings_agree(
    table_rows: Seq<Vec<CatalogValue>>,
    fk_rows: Seq<Vec<CatalogValue>>,
    rows1: Seq<TableScanRow>,
    fks1: Seq<FkScanRow>,
    rows2: Seq<TableScanRow>,
    fks2: Seq<FkScanRow>,
    id: (Seq<char>, Seq<char>),
)
    requires
        decoded_scans(table_rows, fk_rows, rows1, fks1),
        decoded_scans(table_rows, fk_rows, rows2, fks2),
    ensures
        rows_of(rows1, id).len() == rows_of(rows2, id).len(),
        rows_of(rows1, id).len() > 0 ==> table_model(rows1, fks1, id) == table_model(rows2, fks2, id),
{
    let rv = |r: TableScanRow| (column_model(r), r.ty@);
    assert forall|i: int| 0 <= i < rows1.len() implies of_table(id)(#[trigger] rows1[i]) == of_table(id)(rows2[i])
        && rv(rows1[i]) == rv(rows2[i]) by {
        assert(rows1[i].spec_ident() == rows2[i].spec_ident());
    }
    lemma_filter_same_view(rows1, rows2, of_table(id), rv);
    let fv = |f: FkScanRow| (belongs_to_model(f), has_many_model(f));
    assert forall|i: int| 0 <= i < fks1.len() implies at_end(FkEnd::Me, id)(#[trigger] fks1[i])
        == at_end(FkEnd::Me, id)(fks2[i]) && fv(fks1[i]) == fv(fks2[i]) by {}
    assert forall|i: int| 0 <= i < fks1.len() implies at_end(FkEnd::Other, id)(#[trigger] fks1[i])
        == at_end(FkEnd::Other, id)(fks2[i]) && fv(fks1[i]) == fv(fks2[i]) by {}
    lemma_filter_same_view(fks1, fks2, at_end(FkEnd::Me, id), fv);
    lemma_filter_same_view(fks1, fks2, at_end(FkEnd::Other, id), fv);
    if rows_of(rows1, id).len() > 0 {
        let (m1, m2) = (table_model(rows1, fks1, id), table_model(rows2, fks2, id));
        assert(rv(rows_of(rows1, id)[0]) == rv(rows_of(rows2, id)[0]));
        assert(m1.kind == m2.kind);
        assert(m1.columns =~= m2.columns) by {
            assert forall|k: int| 0 <= k < m1.columns.len() implies m1.columns[k] == m2.columns[k] by {
                assert(rv(rows_of(rows1, id)[k]) == rv(rows_of(rows2, id)[k]));
            }
        }
        assert(m1.belongs_to =~= m2.belongs_to) by {
            assert forall|k: int| 0 <= k < m1.belongs_to.len() implies m1.belongs_to[k] == m2.belongs_to[k] by {
                assert(fv(fks_at(fks1, FkEnd::Me, id)[k]) == fv(fks_at(fks2, FkEnd::Me, id)[k]));
            }
        }
        assert(m1.has_many =~= m2.has_many) by {
            assert forall|k: int| 0 <= k < m1.has_many.len() implies m1.has_many[k] == m2.has_many[k] by {
                assert(fv(fks_at(fks1, FkEnd::Other, id)[k]) == fv(fks_at(fks2, FkEnd::Other, id)[k]));
            }
        }
    }
}

/// Introspecting an unchanged catalog twice gives the same set of tables:
/// any two models of the same raw scan rows hold the same tables, whatever
/// their order.
pub proof fn lemma_catalog_deterministic(
    table_rows: Seq<Vec<CatalogValue>>,
    fk_rows: Seq<Vec<CatalogValue>>,
    a: Seq<TableDef>,
    b: Seq<TableDef>,
)
    requires
        models_scans(table_rows, fk_rows, a),
        models_scans(table_rows, fk_rows, b),
    ensures
        table_set(a) == table_set(b),
{
    let (rows1, fks1) = choose|rows: Seq<TableScanRow>, fks: Seq<FkScanRow>|
        #[trigger] decoded_scans(table_rows, fk_rows, rows, fks) && describes(rows, fks, a);
    let (rows2, fks2) = choose|rows: Seq<TableScanRow>, fks: Seq<FkScanRow>|
        #[trigger] decoded_scans(table_rows, fk_rows, rows, fks) && describes(rows, fks, b);
    assert forall|m: TableModel| table_set(a).contains(m) implies table_set(b).contains(m) by {
        let i = choose|i: int| 0 <= i < a.len() && (#[trigger] a[i])@ == m;
        lemma_decodings_agree(table_rows, fk_rows, rows1, fks1, rows2, fks2, a[i].ident@);
        lemma_table_of_row(rows2, fks2, b, a[i].ident@);
    }
    assert forall|m: TableModel| table_set(b).contains(m) implies table_set(a).contains(m) by {
        let i = choose|i: int| 0 <= i < b.len() && (#[trigger] b[i])@ == m;
        lemma_decodings_agree(table_rows, fk_rows, rows2, fks2, rows1, fks1, b[i].ident@);
        lemma_table_of_row(rows1, fks1, a, b[i].ident@);
    }
    assert(table_set(a) =~= table_set(b));
}

/// Every belongs-to edge from table `a` to a table `b` of the model is
/// matched by a has-many edge on `b` back to `a`, with the same foreign-key
/// and referenced columns.
pub proof fn lemma_relations_symmetric(
    rows: Seq<TableScanRow>,
    fks: Seq<FkScanRow>,
    ts: Seq<TableDef>,
    a: int,
    k: int,
    b: int,
)
    requires
        describes(rows, fks, ts),
        0 <= a < ts.len(),
        0 <= k < ts[a].belongs_to@.len(),
        0 <= b < ts.len(),
        ts[b].ident@ == ts[a].belongs_to@[k].other_table@,
    ensures
        exists|m: int|
            0 <= m < ts[b].has_many@.len() && (#[trigger] ts[b].has_many@[m]).other_table@ == ts[a].ident@
                && ts[b].has_many@[m].foreign_key@ == ts[a].belongs_to@[k].foreign_key@
                && ts[b].has_many@[m].primary_key@ == ts[a].belongs_to@[k].primary_key@,
{
    let ida = ts[a].ident@;
    let idb = ts[b].ident@;
    assert(ts[a]@ == table_model(rows, fks, ida));
    assert(ts[b]@ == table_model(rows, fks, idb));
    let mine = fks_at(fks, FkEnd::Me, ida);
    assert(ts[a]@.belongs_to.len() == ts[a].belongs_to@.len());
    assert(ts[a]@.belongs_to.len() == mine.len());
    assert(ts[a]@.belongs_to[k] == ts[a].belongs_to@[k]@);
    let f = mine[k];
    assert(at_end(FkEnd::Me, ida)(f));
    assert(mine.contains(f));
    fks.lemma_filter_contains_rev(at_end(FkEnd::Me, ida), f);
    let j = choose|j: int| 0 <= j < fks.len() && fks[j] == f;
    assert(at_end(FkEnd::Other, idb)(fks[j]));
    let theirs = fks_at(fks, FkEnd::Other, idb);
    assert(theirs.contains(fks[j]));
    let m = choose|m: int| 0 <= m < theirs.len() && theirs[m] == f;
    assert(ts[b]@.has_many.len() == theirs.len());
    assert(ts[b]@.has_many[m] == ts[b].has_many@[m]@);
}

/// A foreign key whose referenced table is not in the model gives no has-many
/// edge: every table's has-many list is what it would be without that key.
pub proof fn lemma_dangling_target_dropped(
    rows: Seq<TableScanRow>,
    fks: Seq<FkScanRow>,
    ts: Seq<TableDef>,
    j: int,
)
    requires
        describes(rows, fks, ts),
        0 <= j < fks.len(),
        !has_table(ts, fks[j].other.ident@),
    ensures
        forall|t: int|
            0 <= t < ts.len() ==> (#[trigger] ts[t])@.has_many == table_model(rows, fks.remove(j), ts[t].ident@).has_many,
{
    assert forall|t: int| 0 <= t < ts.len() implies (#[trigger] ts[t])@.has_many
        == table_model(rows, fks.remove(j), ts[t].ident@).has_many by {
        assert(ts[t].ident@ != fks[j].other.ident@);
        lemma_filter_remove_unkept(fks, at_end(FkEnd::Other, ts[t].ident@), j);
    }
}

/// A foreign key whose referencing table is not in the model gives no
/// belongs-to edge: every table's belongs-to list is what it would be without
/// that key.
pub proof fn lemma_dangling_source_dropped(
    rows: Seq<TableScanRow>,
    fks: Seq<FkScanRow>,
    ts: Seq<TableDef>,
    j: int,
)
    requires
        describes(rows, fks, ts),
        0 <= j < fks.len(),
        !has_table(ts, fks[j].me.ident@),
    ensures
        forall|t: int|
            0 <= t < ts.len() ==> (#[trigger] ts[t])@.belongs_to == table_model(rows, fks.remove(j), ts[t].ident@).belongs_to,
{
    assert forall|t: int| 0 <= t < ts.len() implies (#[trigger] ts[t])@.belongs_to
        == table_model(rows, fks.remove(j), ts[t].ident@).belongs_to by {
        assert(ts[t].ident@ != fks[j].me.ident@);
        lemma_filter_remove_unkept(fks, at_end(FkEnd::Me, ts[t].ident@), j);
    }
}

/// With no table/column rows the model holds no table.
pub proof fn lemma_no_rows_no_tables(fks: Seq<FkScanRow>, ts: Seq<TableDef>)
    requires
        describes(Seq::empty(), fks, ts),
    ensures
        ts.len() == 0,
{
    if ts.len() > 0 {
        assert(rows_of(Seq::empty(), ts[0].ident@).len() > 0);
    }
}

/// With no foreign-key rows every table of the model has empty relation lists.
pub proof fn lemma_no_fks_no_relations(rows: Seq<TableScanRow>, ts: Seq<TableDef>)
    requires
        describes(rows, Seq::empty(), ts),
    ensures
        forall|t: int|
            0 <= t < ts.len() ==> (#[trigger] ts[t]).belongs_to@.len() == 0 && ts[t].has_many@.len() == 0,
{
    assert forall|t: int| 0 <= t < ts.len() implies (#[trigger] ts[t]).belongs_to@.len() == 0
        && ts[t].has_many@.len() == 0 by {
        assert(ts[t]@ == table_model(rows, Seq::empty(), ts[t].ident@));
        assert(fks_at(Seq::empty(), FkEnd::Me, ts[t].ident@).len() == 0);
        assert(fks_at(Seq::empty(), FkEnd::Other, ts[t].ident@).len() == 0);
        assert(ts[t]@.belongs_to.len() == ts[t].belongs_to@.len());
        assert(ts[t]@.has_many.len() == ts[t].has_many@.len());
    }
}

} // verus!
