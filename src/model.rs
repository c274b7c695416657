use vstd::prelude::*;

verus! {

/// The closed set of primitive value kinds a field may hold.
#[derive(Clone, Copy, Debug, PartialEq, Eq, Structural)]
pub enum ScalarType {
    Id,
    String,
    Int,
    Float,
    Bool,
    DateTime,
    Json,
}

#[derive(Clone, Copy, Debug, PartialEq, Eq, Structural)]
pub enum RelationKind {
    OneToMany,
    ManyToOne,
    ManyToMany,
}

/// A link from one model to another.
#[derive(Clone, Debug)]
pub struct RelationDef {
    pub kind: RelationKind,
    pub target_model: String,
    pub fk_column: String,
}

/// One attribute of a model: its logical name, its storage column, its
/// scalar type (absent for relation-only fields) and its capabilities.
#[derive(Clone, Debug)]
pub struct FieldDef {
    pub name: String,
    pub column: String,
    pub scalar: Option<ScalarType>,
    pub is_primary_key: bool,
    pub is_filterable: bool,
    pub is_sortable: bool,
    pub is_writable: bool,
    pub has_default: bool,
    pub relation: Option<RelationDef>,
}

/// One logical entity backed by one table.
#[derive(Clone, Debug)]
pub struct ModelDef {
    pub name: String,
    pub table: String,
    pub fields: Vec<FieldDef>,
}

/// The content of a `RelationDef`.
pub struct RelationView {
    pub kind: RelationKind,
    pub target_model: Seq<char>,
    pub fk_column: Seq<char>,
}

/// The content of a `FieldDef`.
pub struct FieldView {
    pub name: Seq<char>,
    pub column: Seq<char>,
    pub scalar: Option<ScalarType>,
    pub is_primary_key: bool,
    pub is_filterable: bool,
    pub is_sortable: bool,
    pub is_writable: bool,
    pub has_default: bool,
    pub relation: Option<RelationView>,
}

/// The content of a `ModelDef`.
pub struct ModelView {
    pub name: Seq<char>,
    pub table: Seq<char>,
    pub fields: Seq<FieldView>,
}

impl View for RelationDef {
    type V = RelationView;

    open spec fn view(&self) -> RelationView {
        RelationView { kind: self.kind, target_model: self.target_model@, fk_column: self.fk_column@ }
    }
}

impl View for FieldDef {
    type V = FieldView;

    open spec fn view(&self) -> FieldView {
        FieldView {
            name: self.name@,
            column: self.column@,
            scalar: self.scalar,
            is_primary_key: self.is_primary_key,
            is_filterable: self.is_filterable,
            is_sortable: self.is_sortable,
            is_writable: self.is_writable,
            has_default: self.has_default,
            relation: match self.relation {
                Some(r) => Some(r@),
                None => None,
            },
        }
    }
}

/// The views of a sequence of fields, in order.
pub open spec fn fields_view(fields: Seq<FieldDef>) -> Seq<FieldView> {
    fields.map_values(|f: FieldDef| f@)
}

impl View for ModelDef {
    type V = ModelView;

    open spec fn view(&self) -> ModelView {
        ModelView { name: self.name@, table: self.table@, fields: fields_view(self.fields@) }
    }
}

/// The first field of `fields` whose logical name is `name`.
pub open spec fn first_named(fields: Seq<FieldDef>, name: Seq<char>) -> Option<FieldDef>
    decreases fields.len(),
{
    if fields.len() == 0 {
        None
    } else if fields[0].name@ == name {
        Some(fields[0])
    } else {
        first_named(fields.drop_first(), name)
    }
}

impl ModelDef {
    /// The field with the given logical name, if the model declares one.
    pub open spec fn spec_field(&self, name: Seq<char>) -> Option<FieldDef> {
        first_named(self.fields@, name)
    }

    /// Exactly one field is the primary key.
    pub open spec fn wf(&self) -> bool {
        exists|i: int|
            0 <= i < self.fields@.len() && #[trigger] self.fields@[i].is_primary_key && forall|j: int|
                0 <= j < self.fields@.len() && j != i ==> !(#[trigger] self.fields@[j].is_primary_key)
    }

    /// The primary-key field of a well-formed model.
    pub open spec fn spec_pk_field(&self) -> FieldDef
        recommends
            self.wf(),
    {
        let i = choose|i: int| 0 <= i < self.fields@.len() && #[trigger] self.fields@[i].is_primary_key;
        self.fields@[i]
    }

    /// The field with the given logical name, by exact comparison.
    pub fn field(&self, name: &str) -> (r: Option<&FieldDef>)
        ensures
            r matches Some(f) ==> self.spec_field(name@) == Some(*f),
            r is None ==> self.spec_field(name@) is None,
    {
        let key = name.to_owned();
        let n = self.fields.len();
        let mut i: usize = 0;
        assert(self.fields@.subrange(0, n as int) =~= self.fields@);
        while i < n
            invariant
                n == self.fields@.len(),
                i <= n,
                key@ == name@,
                first_named(self.fields@, name@) == first_named(self.fields@.subrange(i as int, n as int), name@),
            decreases n - i,
        {
            let ghost rest = self.fields@.subrange(i as int, n as int);
            assert(rest.drop_first() =~= self.fields@.subrange(i + 1, n as int));
            if self.fields[i].name == key {
                return Some(&self.fields[i]);
            }
            i = i + 1;
        }
        assert(self.fields@.subrange(n as int, n as int).len() == 0);
        None
    }

    /// The primary-key field; a well-formed model always has one.
    pub fn pk_field(&self) -> (r: &FieldDef)
        requires
            self.wf(),
        ensures
            r.is_primary_key,
            *r == self.spec_pk_field(),
    {
        let n = self.fields.len();
        let mut i: usize = 0;
        while i < n
            invariant
                n == self.fields@.len(),
                i <= n,
                self.wf(),
                forall|j: int| 0 <= j < i ==> !(#[trigger] self.fields@[j].is_primary_key),
            decreases n - i,
        {
            if self.fields[i].is_primary_key {
                proof {
                    let k = choose|k: int| 0 <= k < self.fields@.len() && #[trigger] self.fields@[k].is_primary_key;
                    let w = choose|w: int|
                        0 <= w < self.fields@.len() && #[trigger] self.fields@[w].is_primary_key && forall|j: int|
                            0 <= j < self.fields@.len() && j != w ==> !(#[trigger] self.fields@[j].is_primary_key);
                    assert(k == w);
                    assert(i == w);
                }
                return &self.fields[i];
            }
            i = i + 1;
        }
        proof {
            let w = choose|w: int|
                0 <= w < self.fields@.len() && #[trigger] self.fields@[w].is_primary_key && forall|j: int|
                    0 <= j < self.fields@.len() && j != w ==> !(#[trigger] self.fields@[j].is_primary_key);
            assert(!self.fields@[w].is_primary_key);
        }
        &self.fields[0]
    }
}

} // verus!
