use vstd::prelude::*;

verus! {

/// The abstract value of a table identity: (schema name, table name).
pub type IdentModel = (Seq<char>, Seq<char>);

/// Composite identity of a table or view: (schema name, table name).
#[derive(Debug)]
pub struct TableIdent {
    pub schema: String,
    pub name: String,
}

impl View for TableIdent {
    type V = IdentModel;

    open spec fn view(&self) -> IdentModel {
        (self.schema@, self.name@)
    }
}

impl TableIdent {
    pub fn new(schema: String, name: String) -> (r: TableIdent)
        ensures
            r.schema == schema,
            r.name == name,
    {
        TableIdent { schema, name }
    }

    /// A field-by-field copy.
    pub fn copy(&self) -> (r: TableIdent)
        ensures
            r == *self,
    {
        TableIdent { schema: self.schema.clone(), name: self.name.clone() }
    }

    /// Two identities are the same iff both components are equal.
    pub fn same(&self, other: &TableIdent) -> (r: bool)
        ensures
            r == (self@ == other@),
    {
        self.schema == other.schema && self.name == other.name
    }
}

impl Clone for TableIdent {
    fn clone(&self) -> (r: TableIdent)
        ensures
            r == *self,
    {
        self.copy()
    }
}

impl PartialEq for TableIdent {
    fn eq(&self, other: &TableIdent) -> (r: bool) {
        self.same(other)
    }
}

impl vstd::std_specs::cmp::PartialEqSpecImpl for TableIdent {
    open spec fn obeys_eq_spec() -> bool {
        true
    }

    open spec fn eq_spec(&self, other: &TableIdent) -> bool {
        self@ == other@
    }
}

impl Eq for TableIdent {
}

/// Whether a catalog object is a base table or a view.
#[derive(Clone, Copy, Debug, PartialEq, Eq, Structural)]
pub enum TableKind {
    Table,
    View,
}

/// One column of a table.
#[derive(Clone, Debug, PartialEq, Eq)]
pub struct ColumnDef {
    pub name: String,
    /// Backend-specific type descriptor.
    pub ty: String,
    pub null: bool,
    pub primary_key: bool,
    /// False for generated or identity columns.
    pub updatable: bool,
}

/// The abstract value of a column.
pub struct ColumnModel {
    pub name: Seq<char>,
    pub ty: Seq<char>,
    pub null: bool,
    pub primary_key: bool,
    pub updatable: bool,
}

impl View for ColumnDef {
    type V = ColumnModel;

    open spec fn view(&self) -> ColumnModel {
        ColumnModel {
            name: self.name@,
            ty: self.ty@,
            null: self.null,
            primary_key: self.primary_key,
            updatable: self.updatable,
        }
    }
}

/// A directed edge to another table: the other table's identity, the
/// foreign-key column and the referenced (primary-key) column.
#[derive(Clone, Debug, PartialEq, Eq)]
pub struct RelationDef {
    pub other_table: TableIdent,
    pub foreign_key: String,
    pub primary_key: String,
}

/// The abstract value of a relation.
pub struct RelationModel {
    pub other_table: IdentModel,
    pub foreign_key: Seq<char>,
    pub primary_key: Seq<char>,
}

impl View for RelationDef {
    type V = RelationModel;

    open spec fn view(&self) -> RelationModel {
        RelationModel {
            other_table: self.other_table@,
            foreign_key: self.foreign_key@,
            primary_key: self.primary_key@,
        }
    }
}

impl RelationDef {
    pub fn new(other_table: TableIdent, foreign_key: &str, primary_key: &str) -> (r: RelationDef)
        ensures
            r.other_table == other_table,
            r.foreign_key@ == foreign_key@,
            r.primary_key@ == primary_key@,
    {
        RelationDef {
            other_table,
            foreign_key: foreign_key.to_string(),
            primary_key: primary_key.to_string(),
        }
    }
}

/// A table with its columns and its relations in both directions.
#[derive(Clone, Debug, PartialEq, Eq)]
pub struct TableDef {
    pub ident: TableIdent,
    pub ty: TableKind,
    pub columns: Vec<ColumnDef>,
    pub has_many: Vec<RelationDef>,
    pub belongs_to: Vec<RelationDef>,
}

/// The abstract value of a table.
pub struct TableModel {
    pub ident: IdentModel,
    pub kind: TableKind,
    pub columns: Seq<ColumnModel>,
    pub belongs_to: Seq<RelationModel>,
    pub has_many: Seq<RelationModel>,
}

impl View for TableDef {
    type V = TableModel;

    open spec fn view(&self) -> TableModel {
        TableModel {
            ident: self.ident@,
            kind: self.ty,
            columns: self.columns@.map_values(|c: ColumnDef| c@),
            belongs_to: self.belongs_to@.map_values(|r: RelationDef| r@),
            has_many: self.has_many@.map_values(|r: RelationDef| r@),
        }
    }
}

impl TableDef {
    pub fn ident(&self) -> (r: &TableIdent)
        ensures
            r == &self.ident,
    {
        &self.ident
    }

    pub fn columns(&self) -> (r: &Vec<ColumnDef>)
        ensures
            r == &self.columns,
    {
        &self.columns
    }

    pub fn belongs_to(&self) -> (r: &Vec<RelationDef>)
        ensures
            r == &self.belongs_to,
    {
        &self.belongs_to
    }

    pub fn has_many(&self) -> (r: &Vec<RelationDef>)
        ensures
            r == &self.has_many,
    {
        &self.has_many
    }
}

} // verus!
