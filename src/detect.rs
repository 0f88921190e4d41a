use vstd::prelude::*;
use crate::buckets::{has_key, lemma_remove_keeps_key, Buckets};
use crate::scan::{
    decode_fk_rows, decode_table_rows, decodes_fk_row, decodes_table_row, kind_of, misfit_error,
    row_fits, CatalogValue, DecodeError, FkScanRow, ScanKind, TableScanRow,
};
use crate::seq_facts::{lemma_filter_none, lemma_filter_take_step};
use crate::table::{
    ColumnDef, ColumnModel, IdentModel, RelationDef, RelationModel, TableDef, TableIdent,
    TableModel,
};

verus! {

/// Which endpoint of a foreign key supplies the key of a lookup.
#[derive(Clone, Copy, Debug, PartialEq, Eq, Structural)]
pub enum FkEnd {
    /// The table holding the foreign-key column.
    Me,
    /// The referenced table.
    Other,
}

pub open spec fn end_ident(f: FkScanRow, end: FkEnd) -> IdentModel {
    match end {
        FkEnd::Me => f.me.ident@,
        FkEnd::Other => f.other.ident@,
    }
}

pub open spec fn of_table(id: IdentModel) -> spec_fn(TableScanRow) -> bool {
    |r: TableScanRow| r.spec_ident() == id
}

pub open spec fn at_end(end: FkEnd, id: IdentModel) -> spec_fn(FkScanRow) -> bool {
    |f: FkScanRow| end_ident(f, end) == id
}

/// The scan rows of table `id`, in scan order.
pub open spec fn rows_of(rows: Seq<TableScanRow>, id: IdentModel) -> Seq<TableScanRow> {
    rows.filter(of_table(id))
}

/// The foreign keys whose `end` endpoint lies in table `id`, in scan order.
pub open spec fn fks_at(fks: Seq<FkScanRow>, end: FkEnd, id: IdentModel) -> Seq<FkScanRow> {
    fks.filter(at_end(end, id))
}

/// The column that a scan row describes; a counter above zero means true.
pub open spec fn column_model(r: TableScanRow) -> ColumnModel {
    ColumnModel {
        name: r.column_name@,
        ty: r.column_type@,
        null: r.is_nullable > 0,
        primary_key: r.is_primary_key > 0,
        updatable: r.is_updatable > 0,
    }
}

/// The belongs-to edge of a foreign key, seen from the referencing table.
pub open spec fn belongs_to_model(f: FkScanRow) -> RelationModel {
    RelationModel {
        other_table: f.other.ident@,
        foreign_key: f.me.column@,
        primary_key: f.other.column@,
    }
}

/// The has-many edge of a foreign key, seen from the referenced table.
pub open spec fn has_many_model(f: FkScanRow) -> RelationModel {
    RelationModel {
        other_table: f.me.ident@,
        foreign_key: f.me.column@,
        primary_key: f.other.column@,
    }
}

/// The table `id` as the two scans describe it: the kind of its first row,
/// one column per row, and one relation per foreign key on either side.
pub open spec fn table_model(
    rows: Seq<TableScanRow>,
    fks: Seq<FkScanRow>,
    id: IdentModel,
) -> TableModel {
    TableModel {
        ident: id,
        kind: kind_of(rows_of(rows, id)[0].ty@),
        columns: rows_of(rows, id).map_values(|r: TableScanRow| column_model(r)),
        belongs_to: fks_at(fks, FkEnd::Me, id).map_values(|f: FkScanRow| belongs_to_model(f)),
        has_many: fks_at(fks, FkEnd::Other, id).map_values(|f: FkScanRow| has_many_model(f)),
    }
}

pub open spec fn idents_distinct(ts: Seq<TableDef>) -> bool {
    forall|i: int, j: int|
        0 <= i < ts.len() && 0 <= j < ts.len() && i != j ==> (#[trigger] ts[i]).ident@ != (#[trigger] ts[j]).ident@
}

pub open spec fn has_table(ts: Seq<TableDef>, id: IdentModel) -> bool {
    exists|t: int| 0 <= t < ts.len() && (#[trigger] ts[t]).ident@ == id
}

/// Every table that a scan row names is in `ts`.
pub open spec fn covers_rows(rows: Seq<TableScanRow>, ts: Seq<TableDef>) -> bool {
    forall|j: int| 0 <= j < rows.len() ==> has_table(ts, (#[trigger] rows[j]).spec_ident())
}

pub open spec fn columns_match(cols: Seq<ColumnDef>, rows: Seq<TableScanRow>) -> bool {
    &&& cols.len() == rows.len()
    &&& forall|i: int| 0 <= i < cols.len() ==> (#[trigger] cols[i])@ == column_model(rows[i])
}

pub open spec fn belongs_to_match(rels: Seq<RelationDef>, fks: Seq<FkScanRow>) -> bool {
    &&& rels.len() == fks.len()
    &&& forall|i: int| 0 <= i < rels.len() ==> (#[trigger] rels[i])@ == belongs_to_model(fks[i])
}

pub open spec fn has_many_match(rels: Seq<RelationDef>, fks: Seq<FkScanRow>) -> bool {
    &&& rels.len() == fks.len()
    &&& forall|i: int| 0 <= i < rels.len() ==> (#[trigger] rels[i])@ == has_many_model(fks[i])
}

/// `t` is the table that its rows describe, with no relations yet.
pub open spec fn table_grouped(rows: Seq<TableScanRow>, t: TableDef) -> bool {
    &&& rows_of(rows, t.ident@).len() > 0
    &&& t.ty == kind_of(rows_of(rows, t.ident@)[0].ty@)
    &&& columns_match(t.columns@, rows_of(rows, t.ident@))
    &&& t.belongs_to@.len() == 0
    &&& t.has_many@.len() == 0
}

/// `ts` holds one table per identity that the table/column scan names, and
/// nothing else.
pub open spec fn grouped(rows: Seq<TableScanRow>, ts: Seq<TableDef>) -> bool {
    &&& idents_distinct(ts)
    &&& covers_rows(rows, ts)
    &&& forall|t: int| 0 <= t < ts.len() ==> table_grouped(rows, #[trigger] ts[t])
}

/// `ts` is the model that the two scans describe: one table per identity
/// named by the table/column scan, each as `table_model` gives it.
pub open spec fn describes(rows: Seq<TableScanRow>, fks: Seq<FkScanRow>, ts: Seq<TableDef>) -> bool {
    &&& idents_distinct(ts)
    &&& covers_rows(rows, ts)
    &&& forall|t: int|
        0 <= t < ts.len() ==> rows_of(rows, (#[trigger] ts[t]).ident@).len() > 0
            && ts[t]@ == table_model(rows, fks, ts[t].ident@)
}

/// Turns the scan rows of one table into its columns, in order.
pub fn build_cols(rows: Vec<TableScanRow>) -> (r: Vec<ColumnDef>)
    ensures
        columns_match(r@, rows@),
{
    let mut cols: Vec<ColumnDef> = Vec::new();
    let mut i: usize = 0;
    while i < rows.len()
        invariant
            0 <= i <= rows@.len(),
            columns_match(cols@, rows@.take(i as int)),
        decreases rows@.len() - i,
    {
        let r = &rows[i];
        cols.push(
            ColumnDef {
                name: r.column_name.clone(),
                ty: r.column_type.clone(),
                null: r.is_nullable > 0,
                primary_key: r.is_primary_key > 0,
                updatable: r.is_updatable > 0,
            },
        );
        i += 1;
    }
    assert(rows@.take(rows@.len() as int) =~= rows@);
    cols
}

/// Places each scan row in the bucket of its table identity.
pub fn group_rows(rows: &Vec<TableScanRow>) -> (r: Buckets<TableScanRow>)
    ensures
        r.wf(),
        forall|k: int|
            0 <= k < r@.len() ==> (#[trigger] r@[k]).1 == rows_of(rows@, r@[k].0) && r@[k].1.len() > 0,
        forall|j: int| 0 <= j < rows@.len() ==> has_key(r@, (#[trigger] rows@[j]).spec_ident()),
{
    let mut b: Buckets<TableScanRow> = Buckets::new();
    let mut i: usize = 0;
    while i < rows.len()
        invariant
            0 <= i <= rows@.len(),
            b.wf(),
            forall|k: int|
                0 <= k < b@.len() ==> (#[trigger] b@[k]).1 == rows@.take(i as int).filter(of_table(b@[k].0))
                    && b@[k].1.len() > 0,
            forall|j: int| 0 <= j < i ==> has_key(b@, (#[trigger] rows@[j]).spec_ident()),
        decreases rows@.len() - i,
    {
        let row = rows[i].copy();
        let key = row.ident();
        let ghost old_b = b@;
        proof {
            assert forall|k: int| 0 <= k < old_b.len() implies
                rows@.take(i + 1).filter(of_table(#[trigger] old_b[k].0)) == if old_b[k].0 == key@ {
                    old_b[k].1.push(rows@[i as int])
                } else {
                    old_b[k].1
                } by {
                lemma_filter_take_step(rows@, of_table(old_b[k].0), i as int);
            }
            if !has_key(old_b, key@) {
                assert forall|j: int| 0 <= j < i implies !of_table(key@)(#[trigger] rows@.take(i as int)[j]) by {
                    assert(rows@.take(i as int)[j] == rows@[j]);
                    assert(has_key(old_b, rows@[j].spec_ident()));
                }
                lemma_filter_none(rows@.take(i as int), of_table(key@));
                lemma_filter_take_step(rows@, of_table(key@), i as int);
            }
        }
        b.add(&key, row);
        proof {
            assert forall|j: int| 0 <= j <= i implies has_key(b@, (#[trigger] rows@[j]).spec_ident()) by {
                if j < i {
                    let w = choose|w: int| 0 <= w < old_b.len() && (#[trigger] old_b[w]).0 == rows@[j].spec_ident();
                    assert(b@[w].0 == old_b[w].0);
                } else if has_key(old_b, key@) {
                    let w = choose|w: int| 0 <= w < old_b.len() && (#[trigger] old_b[w]).0 == key@;
                    assert(b@[w].0 == key@);
                } else {
                    assert(b@[old_b.len() as int].0 == key@);
                }
            }
        }
        i += 1;
    }
    assert(rows@.take(rows@.len() as int) =~= rows@);
    b
}

fn end_of(f: &FkScanRow, end: FkEnd) -> (r: &TableIdent)
    ensures
        r@ == end_ident(*f, end),
{
    match end {
        FkEnd::Me => &f.me.ident,
        FkEnd::Other => &f.other.ident,
    }
}

/// Groups the foreign keys under the table of their `end` endpoint.
pub fn build_lookup(fks: &Vec<FkScanRow>, end: FkEnd) -> (r: Buckets<FkScanRow>)
    ensures
        r.wf(),
        forall|k: int|
            0 <= k < r@.len() ==> (#[trigger] r@[k]).1 == fks_at(fks@, end, r@[k].0) && r@[k].1.len() > 0,
        forall|j: int| 0 <= j < fks@.len() ==> has_key(r@, end_ident(#[trigger] fks@[j], end)),
{
    let mut b: Buckets<FkScanRow> = Buckets::new();
    let mut i: usize = 0;
    while i < fks.len()
        invariant
            0 <= i <= fks@.len(),
            b.wf(),
            forall|k: int|
                0 <= k < b@.len() ==> (#[trigger] b@[k]).1 == fks@.take(i as int).filter(at_end(end, b@[k].0))
                    && b@[k].1.len() > 0,
            forall|j: int| 0 <= j < i ==> has_key(b@, end_ident(#[trigger] fks@[j], end)),
        decreases fks@.len() - i,
    {
        let fk = fks[i].copy();
        let key = end_of(&fks[i], end).copy();
        let ghost old_b = b@;
        proof {
            assert forall|k: int| 0 <= k < old_b.len() implies
                fks@.take(i + 1).filter(at_end(end, #[trigger] old_b[k].0)) == if old_b[k].0 == key@ {
                    old_b[k].1.push(fks@[i as int])
                } else {
                    old_b[k].1
                } by {
                lemma_filter_take_step(fks@, at_end(end, old_b[k].0), i as int);
            }
            if !has_key(old_b, key@) {
                assert forall|j: int| 0 <= j < i implies !at_end(end, key@)(#[trigger] fks@.take(i as int)[j]) by {
                    assert(fks@.take(i as int)[j] == fks@[j]);
                    assert(has_key(old_b, end_ident(fks@[j], end)));
                }
                lemma_filter_none(fks@.take(i as int), at_end(end, key@));
                lemma_filter_take_step(fks@, at_end(end, key@), i as int);
            }
        }
        b.add(&key, fk);
        proof {
            assert forall|j: int| 0 <= j <= i implies has_key(b@, end_ident(#[trigger] fks@[j], end)) by {
                if j < i {
                    let w = choose|w: int| 0 <= w < old_b.len() && (#[trigger] old_b[w]).0 == end_ident(fks@[j], end);
                    assert(b@[w].0 == old_b[w].0);
                } else if has_key(old_b, key@) {
                    let w = choose|w: int| 0 <= w < old_b.len() && (#[trigger] old_b[w]).0 == key@;
                    assert(b@[w].0 == key@);
                } else {
                    assert(b@[old_b.len() as int].0 == key@);
                }
            }
        }
        i += 1;
    }
    assert(fks@.take(fks@.len() as int) =~= fks@);
    b
}

/// Builds one table per bucket of scan rows, with empty relation lists; the
/// kind of a table is that of its first row.
pub fn group_tables(rows: &Vec<TableScanRow>) -> (r: Vec<TableDef>)
    ensures
        grouped(rows@, r@),
{
    let mut buckets = group_rows(rows);
    let mut tables: Vec<TableDef> = Vec::new();
    while buckets.len() > 0
        invariant
            buckets.wf(),
            forall|k: int|
                0 <= k < buckets@.len() ==> (#[trigger] buckets@[k]).1 == rows_of(rows@, buckets@[k].0)
                    && buckets@[k].1.len() > 0,
            idents_distinct(tables@),
            forall|t: int| 0 <= t < tables@.len() ==> table_grouped(rows@, #[trigger] tables@[t]),
            forall|t: int, k: int|
                0 <= t < tables@.len() && 0 <= k < buckets@.len()
                    ==> (#[trigger] tables@[t]).ident@ != (#[trigger] buckets@[k]).0,
            forall|j: int|
                0 <= j < rows@.len() ==> has_key(buckets@, (#[trigger] rows@[j]).spec_ident())
                    || has_table(tables@, rows@[j].spec_ident()),
        decreases buckets@.len(),
    {
        let ghost old_b = buckets@;
        let ghost old_t = tables@;
        let popped = buckets.pop_first();
        if let Some((ident, bucket)) = popped {
            let ghost id = ident@;
            assert(bucket@ == old_b[0].1);
            let ty = bucket[0].kind();
            let columns = build_cols(bucket);
            tables.push(TableDef { ident, ty, columns, has_many: Vec::new(), belongs_to: Vec::new() });
            proof {
                assert(tables@[old_t.len() as int].ident@ == id);
                assert forall|k: int| 0 <= k < buckets@.len() implies (#[trigger] buckets@[k]) == old_b[k + 1] by {}
                assert forall|t: int| 0 <= t < tables@.len() implies table_grouped(rows@, #[trigger] tables@[t]) by {
                    if t < old_t.len() {
                        assert(tables@[t] == old_t[t]);
                    }
                }
                assert forall|t1: int, t2: int|
                    0 <= t1 < tables@.len() && 0 <= t2 < tables@.len() && t1 != t2
                    implies (#[trigger] tables@[t1]).ident@ != (#[trigger] tables@[t2]).ident@ by {
                    if t1 < old_t.len() && t2 < old_t.len() {
                        assert(tables@[t1] == old_t[t1]);
                        assert(tables@[t2] == old_t[t2]);
                    } else if t1 < old_t.len() {
                        assert(tables@[t1] == old_t[t1]);
                        assert(old_t[t1].ident@ != old_b[0].0);
                    } else {
                        assert(tables@[t2] == old_t[t2]);
                        assert(old_t[t2].ident@ != old_b[0].0);
                    }
                }
                assert forall|t: int, k: int|
                    0 <= t < tables@.len() && 0 <= k < buckets@.len()
                    implies (#[trigger] tables@[t]).ident@ != (#[trigger] buckets@[k]).0 by {
                    assert(buckets@[k] == old_b[k + 1]);
                    if t < old_t.len() {
                        assert(tables@[t] == old_t[t]);
                        assert(old_t[t].ident@ != old_b[k + 1].0);
                    } else {
                        assert(old_b[0].0 != old_b[k + 1].0);
                    }
                }
                assert forall|j: int| 0 <= j < rows@.len() implies has_key(buckets@, (#[trigger] rows@[j]).spec_ident())
                    || has_table(tables@, rows@[j].spec_ident()) by {
                    let key = rows@[j].spec_ident();
                    if has_key(old_b, key) {
                        let w = choose|w: int| 0 <= w < old_b.len() && (#[trigger] old_b[w]).0 == key;
                        if w == 0 {
                            assert(tables@[old_t.len() as int].ident@ == key);
                        } else {
                            assert(buckets@[w - 1].0 == key);
                        }
                    } else {
                        let t = choose|t: int| 0 <= t < old_t.len() && (#[trigger] old_t[t]).ident@ == key;
                        assert(tables@[t] == old_t[t]);
                    }
                }
            }
        }
    }
    tables
}

/// The buckets of `b` hold, for their key, the foreign keys whose `end`
/// endpoint lies in that table.
pub open spec fn lookup_sound(b: Seq<(IdentModel, Seq<FkScanRow>)>, fks: Seq<FkScanRow>, end: FkEnd) -> bool {
    forall|k: int| 0 <= k < b.len() ==> (#[trigger] b[k]).1 == fks_at(fks, end, b[k].0)
}

/// Fetches and removes the foreign keys of table `id` from `index`; none when
/// the table has no bucket.
fn take_matches(
    index: &mut Buckets<FkScanRow>,
    id: &TableIdent,
    Ghost(fks): Ghost<Seq<FkScanRow>>,
    Ghost(end): Ghost<FkEnd>,
) -> (r: Vec<FkScanRow>)
    requires
        old(index).wf(),
        lookup_sound(old(index)@, fks, end),
        forall|j: int| 0 <= j < fks.len() && end_ident(#[trigger] fks[j], end) == id@ ==> has_key(old(index)@, id@),
    ensures
        r@ == fks_at(fks, end, id@),
        final(index).wf(),
        lookup_sound(final(index)@, fks, end),
        forall|key: IdentModel| key != id@ && has_key(old(index)@, key) ==> #[trigger] has_key(final(index)@, key),
{
    let ghost old_b = index@;
    let found = index.take(id);
    proof {
        if has_key(old_b, id@) {
            let w = choose|w: int| 0 <= w < old_b.len() && (#[trigger] old_b[w]).0 == id@;
            assert(old_b[w].0 == id@);
            assert forall|k: int| 0 <= k < index@.len() implies (#[trigger] index@[k]).1 == fks_at(fks, end, index@[k].0) by {
                if k < w {
                    assert(index@[k] == old_b[k]);
                } else {
                    assert(index@[k] == old_b[k + 1]);
                }
            }
            assert forall|key: IdentModel| key != id@ && has_key(old_b, key) implies #[trigger] has_key(index@, key) by {
                lemma_remove_keeps_key(old_b, w, key);
            }
        } else {
            assert forall|j: int| 0 <= j < fks.len() implies !at_end(end, id@)(#[trigger] fks[j]) by {}
            lemma_filter_none(fks, at_end(end, id@));
        }
    }
    match found {
        Some(v) => v,
        None => Vec::new(),
    }
}

/// The belongs-to edges of the foreign keys of one referencing table.
fn belongs_to_defs(matched: &Vec<FkScanRow>) -> (r: Vec<RelationDef>)
    ensures
        belongs_to_match(r@, matched@),
{
    let mut rels: Vec<RelationDef> = Vec::new();
    let mut i: usize = 0;
    while i < matched.len()
        invariant
            0 <= i <= matched@.len(),
            belongs_to_match(rels@, matched@.take(i as int)),
        decreases matched@.len() - i,
    {
        let x = &matched[i];
        let other_table = x.other.ident.copy();
        rels.push(RelationDef::new(other_table, x.me.column.as_str(), x.other.column.as_str()));
        i += 1;
    }
    assert(matched@.take(matched@.len() as int) =~= matched@);
    rels
}

/// The has-many edges of the foreign keys that reference one table.
fn has_many_defs(matched: &Vec<FkScanRow>) -> (r: Vec<RelationDef>)
    ensures
        has_many_match(r@, matched@),
{
    let mut rels: Vec<RelationDef> = Vec::new();
    let mut i: usize = 0;
    while i < matched.len()
        invariant
            0 <= i <= matched@.len(),
            has_many_match(rels@, matched@.take(i as int)),
        decreases matched@.len() - i,
    {
        let x = &matched[i];
        let other_table = x.me.ident.copy();
        rels.push(RelationDef::new(other_table, x.me.column.as_str(), x.other.column.as_str()));
        i += 1;
    }
    assert(matched@.take(matched@.len() as int) =~= matched@);
    rels
}

/// `after` is `before` with its relation lists filled from `fks`.
pub open spec fn relations_resolved(before: TableDef, fks: Seq<FkScanRow>, after: TableDef) -> bool {
    &&& after.ident == before.ident
    &&& after.ty == before.ty
    &&& after.columns == before.columns
    &&& belongs_to_match(after.belongs_to@, fks_at(fks, FkEnd::Me, after.ident@))
    &&& has_many_match(after.has_many@, fks_at(fks, FkEnd::Other, after.ident@))
}

/// Fills each table's belongs-to list from the foreign keys that it holds,
/// and its has-many list from those that reference it. A foreign key whose
/// table is not among `tables` gives no relation on that side.
pub fn resolve_relations(tables: Vec<TableDef>, fks: &Vec<FkScanRow>) -> (r: Vec<TableDef>)
    requires
        idents_distinct(tables@),
    ensures
        r@.len() == tables@.len(),
        forall|t: int| 0 <= t < r@.len() ==> relations_resolved(tables@[t], fks@, #[trigger] r@[t]),
{
    let mut belongs_to = build_lookup(fks, FkEnd::Me);
    let mut has_many = build_lookup(fks, FkEnd::Other);
    let ghost all = tables@;
    let mut rest = tables;
    let mut out: Vec<TableDef> = Vec::new();
    while rest.len() > 0
        invariant
            out@.len() + rest@.len() == all.len(),
            rest@ == all.skip(out@.len() as int),
            idents_distinct(all),
            forall|t: int| 0 <= t < out@.len() ==> relations_resolved(all[t], fks@, #[trigger] out@[t]),
            belongs_to.wf(),
            has_many.wf(),
            lookup_sound(belongs_to@, fks@, FkEnd::Me),
            lookup_sound(has_many@, fks@, FkEnd::Other),
            forall|j: int, t: int|
                0 <= j < fks@.len() && out@.len() <= t < all.len()
                    && end_ident(#[trigger] fks@[j], FkEnd::Me) == (#[trigger] all[t]).ident@
                    ==> has_key(belongs_to@, all[t].ident@),
            forall|j: int, t: int|
                0 <= j < fks@.len() && out@.len() <= t < all.len()
                    && end_ident(#[trigger] fks@[j], FkEnd::Other) == (#[trigger] all[t]).ident@
                    ==> has_key(has_many@, all[t].ident@),
        decreases rest@.len(),
    {
        let ghost n = out@.len() as int;
        let ghost old_out = out@;
        let mut table = rest.remove(0);
        assert(table == all[n]);
        let ghost id = table.ident@;
        let bt = take_matches(&mut belongs_to, &table.ident, Ghost(fks@), Ghost(FkEnd::Me));
        let hm = take_matches(&mut has_many, &table.ident, Ghost(fks@), Ghost(FkEnd::Other));
        table.belongs_to = belongs_to_defs(&bt);
        table.has_many = has_many_defs(&hm);
        out.push(table);
        proof {
            assert(rest@ =~= all.skip(out@.len() as int));
            assert forall|t: int| 0 <= t < out@.len() implies relations_resolved(all[t], fks@, #[trigger] out@[t]) by {
                if t < n {
                    assert(out@[t] == old_out[t]);
                }
            }
            assert forall|j: int, t: int|
                0 <= j < fks@.len() && out@.len() <= t < all.len()
                    && end_ident(#[trigger] fks@[j], FkEnd::Me) == (#[trigger] all[t]).ident@
                    implies has_key(belongs_to@, all[t].ident@) by {
                assert(all[t].ident@ != all[n].ident@);
            }
            assert forall|j: int, t: int|
                0 <= j < fks@.len() && out@.len() <= t < all.len()
                    && end_ident(#[trigger] fks@[j], FkEnd::Other) == (#[trigger] all[t]).ident@
                    implies has_key(has_many@, all[t].ident@) by {
                assert(all[t].ident@ != all[n].ident@);
            }
        }
    }
    out
}

/// A table whose columns and relations match the scans is the table that
/// `table_model` gives.
pub proof fn lemma_table_model(rows: Seq<TableScanRow>, fks: Seq<FkScanRow>, t: TableDef)
    requires
        t.ty == kind_of(rows_of(rows, t.ident@)[0].ty@),
        columns_match(t.columns@, rows_of(rows, t.ident@)),
        belongs_to_match(t.belongs_to@, fks_at(fks, FkEnd::Me, t.ident@)),
        has_many_match(t.has_many@, fks_at(fks, FkEnd::Other, t.ident@)),
    ensures
        t@ == table_model(rows, fks, t.ident@),
{
    let m = table_model(rows, fks, t.ident@);
    assert(t@.columns =~= m.columns);
    assert(t@.belongs_to =~= m.belongs_to);
    assert(t@.has_many =~= m.has_many);
}

/// Builds the model of the two decoded scans: one table per identity of the
/// table/column scan, with its columns and its relations in both directions.
pub fn build_tables(rows: &Vec<TableScanRow>, fks: &Vec<FkScanRow>) -> (r: Vec<TableDef>)
    ensures
        describes(rows@, fks@, r@),
        rows@.len() == 0 ==> r@.len() == 0,
{
    let tables = group_tables(rows);
    let ghost g = tables@;
    let r = resolve_relations(tables, fks);
    proof {
        assert forall|t: int| 0 <= t < r@.len() implies rows_of(rows@, (#[trigger] r@[t]).ident@).len() > 0
            && r@[t]@ == table_model(rows@, fks@, r@[t].ident@) by {
            assert(table_grouped(rows@, g[t]));
            lemma_table_model(rows@, fks@, r@[t]);
        }
        assert forall|i: int, j: int|
            0 <= i < r@.len() && 0 <= j < r@.len() && i != j implies (#[trigger] r@[i]).ident@ != (#[trigger] r@[j]).ident@ by {
            assert(g[i].ident@ != g[j].ident@);
        }
        assert forall|j: int| 0 <= j < rows@.len() implies has_table(r@, (#[trigger] rows@[j]).spec_ident()) by {
            let t = choose|t: int| 0 <= t < g.len() && (#[trigger] g[t]).ident@ == rows@[j].spec_ident();
            assert(r@[t].ident@ == g[t].ident@);
        }
        if rows@.len() == 0 && r@.len() > 0 {
            assert(table_grouped(rows@, g[0]));
            lemma_filter_none(rows@, of_table(g[0].ident@));
        }
    }
    r
}

/// `rows` and `fks` are what the two scans decode to.
pub open spec fn decoded_scans(
    table_rows: Seq<Vec<CatalogValue>>,
    fk_rows: Seq<Vec<CatalogValue>>,
    rows: Seq<TableScanRow>,
    fks: Seq<FkScanRow>,
) -> bool {
    &&& rows.len() == table_rows.len()
    &&& fks.len() == fk_rows.len()
    &&& forall|i: int| 0 <= i < rows.len() ==> decodes_table_row(table_rows[i]@, #[trigger] rows[i])
    &&& forall|i: int| 0 <= i < fks.len() ==> decodes_fk_row(fk_rows[i]@, #[trigger] fks[i])
}

/// `ts` is the model of what the two raw scans decode to.
pub open spec fn models_scans(
    table_rows: Seq<Vec<CatalogValue>>,
    fk_rows: Seq<Vec<CatalogValue>>,
    ts: Seq<TableDef>,
) -> bool {
    exists|rows: Seq<TableScanRow>, fks: Seq<FkScanRow>|
        #[trigger] decoded_scans(table_rows, fk_rows, rows, fks) && describes(rows, fks, ts)
}

/// Decodes both catalog scans by ordinal position and builds the model from
/// them. The first row of either scan that does not decode fails the whole
/// call, the table/column scan being read first; no partial model is
/// returned.
pub fn find_tables(
    table_rows: &Vec<Vec<CatalogValue>>,
    fk_rows: &Vec<Vec<CatalogValue>>,
) -> (r: Result<Vec<TableDef>, DecodeError>)
    ensures
        r is Ok <==> (forall|i: int| 0 <= i < table_rows@.len() ==> row_fits(ScanKind::Tables, #[trigger] table_rows@[i]@))
            && (forall|i: int| 0 <= i < fk_rows@.len() ==> row_fits(ScanKind::ForeignKeys, #[trigger] fk_rows@[i]@)),
        r matches Err(e) ==> misfit_error(ScanKind::Tables, table_rows@, e)
            || ((forall|i: int| 0 <= i < table_rows@.len() ==> row_fits(ScanKind::Tables, #[trigger] table_rows@[i]@))
                && misfit_error(ScanKind::ForeignKeys, fk_rows@, e)),
        r matches Ok(ts) ==> models_scans(table_rows@, fk_rows@, ts@),
        table_rows@.len() == 0 ==> (r matches Ok(ts) ==> ts@.len() == 0),
{
    let rows = match decode_table_rows(table_rows) {
        Ok(rows) => rows,
        Err(e) => return Err(e),
    };
    let fks = match decode_fk_rows(fk_rows) {
        Ok(fks) => fks,
        Err(e) => return Err(e),
    };
    let tables = build_tables(&rows, &fks);
    assert(forall|i: int| 0 <= i < rows@.len() ==> decodes_table_row(table_rows@[i]@, #[trigger] rows@[i]));
    assert(forall|i: int| 0 <= i < fks@.len() ==> decodes_fk_row(fk_rows@[i]@, #[trigger] fks@[i]));
    assert(describes(rows@, fks@, tables@));
    assert(models_scans(table_rows@, fk_rows@, tables@)) by {
        assert(decoded_scans(table_rows@, fk_rows@, rows@, fks@));
    }
    Ok(tables)
}

} // verus!
