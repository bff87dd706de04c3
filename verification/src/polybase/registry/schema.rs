//! Schema shapes (name + data-type pairs per table) of the local mirror or the remote
//! schema, and the type-name normalisation used when comparing them.

use vstd::prelude::*;
use crate::polybase::errors::RegistryError;
use crate::text::{
    chars_of, lemma_lower_seq, lemma_trim_ws_ends, lemma_trim_ws_fixed, lower_chars, lower_seq, seq_eq,
    str_eq, string_from_chars, trim_chars, trim_ws,
};

verus! {

/// Single column entry in a [`TableShape`].
#[derive(Debug, PartialEq, Eq)]
pub struct ColumnShape {
    /// Column name as reported by the source (SQLite or PostgREST).
    pub name: String,
    /// Data type as reported by the source, compared through [`normalize_type`].
    pub data_type: String,
}

impl ColumnShape {
    /// Build a column shape.
    pub fn new(name: &str, data_type: &str) -> (r: Self)
        ensures
            r.name@ == name@,
            r.data_type@ == data_type@,
    {
        ColumnShape { name: name.to_owned(), data_type: data_type.to_owned() }
    }

    /// A copy of this column shape.
    pub fn duplicate(&self) -> (r: Self)
        ensures
            r.name@ == self.name@,
            r.data_type@ == self.data_type@,
    {
        ColumnShape { name: self.name.clone(), data_type: self.data_type.clone() }
    }
}

/// The columns of one table.
#[derive(Debug, PartialEq, Eq, Default)]
pub struct TableShape {
    /// Columns in source-reported order. Order is informational; validation is set-based.
    pub columns: Vec<ColumnShape>,
}

/// The name → type map of a column list: a later column of the same name replaces an
/// earlier one.
pub open spec fn columns_map(cols: Seq<ColumnShape>) -> Map<Seq<char>, Seq<char>>
    decreases cols.len(),
{
    if cols.len() == 0 {
        Map::empty()
    } else {
        columns_map(cols.drop_last()).insert(cols.last().name@, cols.last().data_type@)
    }
}

/// A name → type index over the columns of a [`TableShape`].
pub struct ColumnMap<'a> {
    entries: Vec<(&'a str, &'a str)>,
}

/// The map an entry list stands for.
pub open spec fn entries_map<'a>(entries: Seq<(&'a str, &'a str)>) -> Map<Seq<char>, Seq<char>>
    decreases entries.len(),
{
    if entries.len() == 0 {
        Map::empty()
    } else {
        entries_map(entries.drop_last()).insert(entries.last().0@, entries.last().1@)
    }
}

/// No two entries share a name.
pub open spec fn distinct_names<'a>(entries: Seq<(&'a str, &'a str)>) -> bool {
    forall|i: int, j: int| 0 <= i < j < entries.len() ==> entries[i].0@ != entries[j].0@
}

proof fn lemma_entries_map_index<'a>(entries: Seq<(&'a str, &'a str)>, k: int)
    requires
        distinct_names(entries),
        0 <= k < entries.len(),
    ensures
        entries_map(entries).contains_key(entries[k].0@),
        entries_map(entries)[entries[k].0@] == entries[k].1@,
    decreases entries.len(),
{
    if k < entries.len() - 1 {
        lemma_entries_map_index(entries.drop_last(), k);
    }
}

proof fn lemma_entries_map_dom<'a>(entries: Seq<(&'a str, &'a str)>, name: Seq<char>)
    ensures
        entries_map(entries).contains_key(name) <==> exists|k: int| 0 <= k < entries.len() && entries[k].0@ == name,
    decreases entries.len(),
{
    if entries.len() > 0 {
        lemma_entries_map_dom(entries.drop_last(), name);
        if entries_map(entries).contains_key(name) && entries.last().0@ != name {
            let k = choose|k: int| 0 <= k < entries.len() - 1 && entries.drop_last()[k].0@ == name;
            assert(entries[k].0@ == name);
        }
        if exists|k: int| 0 <= k < entries.len() && entries[k].0@ == name {
            let k = choose|k: int| 0 <= k < entries.len() && entries[k].0@ == name;
            if k < entries.len() - 1 {
                assert(entries.drop_last()[k].0@ == name);
            }
        }
    }
}

proof fn lemma_entries_map_len<'a>(entries: Seq<(&'a str, &'a str)>)
    requires
        distinct_names(entries),
    ensures
        entries_map(entries).dom().finite(),
        entries_map(entries).dom().len() == entries.len(),
    decreases entries.len(),
{
    if entries.len() > 0 {
        let prev = entries.drop_last();
        lemma_entries_map_len(prev);
        lemma_entries_map_dom(prev, entries.last().0@);
        assert(!entries_map(prev).contains_key(entries.last().0@));
    }
}

impl<'a> ColumnMap<'a> {
    /// The name → type map.
    pub closed spec fn view(&self) -> Map<Seq<char>, Seq<char>> {
        entries_map(self.entries@)
    }

    /// The type recorded for `name`.
    pub fn get(&self, name: &str) -> (r: Option<&'a str>)
        ensures
            match r {
                Some(t) => self.view().contains_key(name@) && self.view()[name@] == t@,
                None => !self.view().contains_key(name@),
            },
    {
        let mut i: usize = self.entries.len();
        while i > 0
            invariant
                i <= self.entries@.len(),
                forall|j: int| i <= j < self.entries@.len() ==> self.entries@[j].0@ != name@,
            decreases i,
        {
            i = i - 1;
            if str_eq(self.entries[i].0, name) {
                proof {
                    self.lemma_last_occurrence(i as int);
                }
                return Some(self.entries[i].1);
            }
        }
        proof {
            lemma_entries_map_dom(self.entries@, name@);
        }
        None
    }

    proof fn lemma_last_occurrence(&self, i: int)
        requires
            0 <= i < self.entries@.len(),
            forall|j: int| i < j < self.entries@.len() ==> self.entries@[j].0@ != self.entries@[i].0@,
        ensures
            self.view().contains_key(self.entries@[i].0@),
            self.view()[self.entries@[i].0@] == self.entries@[i].1@,
    {
        lemma_last_wins(self.entries@, i);
    }

    /// Number of distinct column names.
    pub fn len(&self) -> (r: usize)
        requires
            self.well_formed(),
        ensures
            r == self.view().dom().len(),
    {
        proof {
            lemma_entries_map_len(self.entries@);
        }
        self.entries.len()
    }

    /// The entries are free of duplicate names (the index keeps one entry per name).
    pub closed spec fn well_formed(&self) -> bool {
        distinct_names(self.entries@)
    }
}

proof fn lemma_last_wins<'a>(entries: Seq<(&'a str, &'a str)>, i: int)
    requires
        0 <= i < entries.len(),
        forall|j: int| i < j < entries.len() ==> entries[j].0@ != entries[i].0@,
    ensures
        entries_map(entries).contains_key(entries[i].0@),
        entries_map(entries)[entries[i].0@] == entries[i].1@,
    decreases entries.len(),
{
    if i < entries.len() - 1 {
        lemma_last_wins(entries.drop_last(), i);
    }
}

impl TableShape {
    /// Build a table shape from a column list.
    pub fn new(columns: Vec<ColumnShape>) -> (r: Self)
        ensures
            r.columns@ == columns@,
    {
        TableShape { columns }
    }

    /// A copy of this table shape.
    pub fn duplicate(&self) -> (r: Self)
        ensures
            r.columns@.len() == self.columns@.len(),
            forall|i: int| 0 <= i < self.columns@.len() ==> #[trigger] r.columns@[i].name@ == self.columns@[i].name@
                && r.columns@[i].data_type@ == self.columns@[i].data_type@,
            columns_map(r.columns@) == columns_map(self.columns@),
    {
        let mut out: Vec<ColumnShape> = Vec::new();
        let mut i: usize = 0;
        while i < self.columns.len()
            invariant
                i <= self.columns@.len(),
                out@.len() == i,
                forall|k: int| 0 <= k < i ==> #[trigger] out@[k].name@ == self.columns@[k].name@
                    && out@[k].data_type@ == self.columns@[k].data_type@,
            decreases self.columns.len() - i,
        {
            out.push(self.columns[i].duplicate());
            i = i + 1;
        }
        proof {
            lemma_columns_map_same(out@, self.columns@);
        }
        TableShape { columns: out }
    }

    /// Index the columns by name (a later column of the same name replaces an earlier one).
    pub fn column_map(&self) -> (r: ColumnMap<'_>)
        ensures
            r.view() == columns_map(self.columns@),
            r.well_formed(),
    {
        let mut entries: Vec<(&str, &str)> = Vec::new();
        let mut i: usize = 0;
        while i < self.columns.len()
            invariant
                i <= self.columns@.len(),
                distinct_names(entries@),
                entries_map(entries@) == columns_map(self.columns@.take(i as int)),
            decreases self.columns.len() - i,
        {
            let name = self.columns[i].name.as_str();
            let ty = self.columns[i].data_type.as_str();
            let mut k: usize = 0;
            while k < entries.len() && !str_eq(entries[k].0, name)
                invariant
                    k <= entries@.len(),
                    forall|j: int| 0 <= j < k ==> entries@[j].0@ != name@,
                decreases entries.len() - k,
            {
                k = k + 1;
            }
            let found = k < entries.len();
            let ghost old_entries = entries@;
            proof {
                assert(self.columns@.take(i + 1).drop_last() =~= self.columns@.take(i as int));
            }
            if found {
                entries.set(k, (name, ty));
                proof {
                    lemma_replace_entry(old_entries, k as int, name, ty);
                }
            } else {
                entries.push((name, ty));
                proof {
                    lemma_push_entry(old_entries, name, ty);
                }
            }
            i = i + 1;
        }
        proof {
            assert(self.columns@.take(self.columns@.len() as int) =~= self.columns@);
        }
        ColumnMap { entries }
    }
}

proof fn lemma_columns_map_same(a: Seq<ColumnShape>, b: Seq<ColumnShape>)
    requires
        a.len() == b.len(),
        forall|i: int| 0 <= i < a.len() ==> #[trigger] a[i].name@ == b[i].name@ && a[i].data_type@ == b[i].data_type@,
    ensures
        columns_map(a) == columns_map(b),
    decreases a.len(),
{
    if a.len() > 0 {
        lemma_columns_map_same(a.drop_last(), b.drop_last());
        assert(a.last().name@ == b.last().name@);
    }
}

proof fn lemma_push_entry<'a>(entries: Seq<(&'a str, &'a str)>, name: &'a str, ty: &'a str)
    requires
        distinct_names(entries),
        forall|j: int| 0 <= j < entries.len() ==> entries[j].0@ != name@,
    ensures
        distinct_names(entries.push((name, ty))),
        entries_map(entries.push((name, ty))) == entries_map(entries).insert(name@, ty@),
{
    assert(entries.push((name, ty)).drop_last() =~= entries);
}

proof fn lemma_replace_entry<'a>(entries: Seq<(&'a str, &'a str)>, k: int, name: &'a str, ty: &'a str)
    requires
        distinct_names(entries),
        0 <= k < entries.len(),
        entries[k].0@ == name@,
    ensures
        distinct_names(entries.update(k, (name, ty))),
        entries_map(entries.update(k, (name, ty))) == entries_map(entries).insert(name@, ty@),
{
    let e2 = entries.update(k, (name, ty));
    assert(distinct_names(e2));
    let m1 = entries_map(e2);
    let m2 = entries_map(entries).insert(name@, ty@);
    assert forall|key: Seq<char>| m1.contains_key(key) <==> m2.contains_key(key) by {
        lemma_entries_map_dom(e2, key);
        lemma_entries_map_dom(entries, key);
        assert(e2[k].0@ == name@);
        assert(entries[k].0@ == name@);
        if m2.contains_key(key) && key != name@ {
            let j = choose|j: int| 0 <= j < entries.len() && entries[j].0@ == key;
            assert(e2[j].0@ == key);
        }
        if m1.contains_key(key) {
            let j = choose|j: int| 0 <= j < e2.len() && e2[j].0@ == key;
            if j != k {
                assert(entries[j].0@ == key);
            }
        }
    }
    assert forall|key: Seq<char>| m1.contains_key(key) implies m1[key] == m2[key] by {
        lemma_entries_map_dom(e2, key);
        let j = choose|j: int| 0 <= j < e2.len() && e2[j].0@ == key;
        lemma_entries_map_index(e2, j);
        if j != k {
            lemma_entries_map_index(entries, j);
        }
    }
    assert(m1 =~= m2);
}

/// Snapshot of every table of a database or remote schema: table name and column shapes,
/// as reported by the source.
#[derive(Debug, PartialEq, Eq, Default)]
pub struct SchemaSnapshot {
    /// Per-table column shapes, keyed by table name.
    pub tables: Vec<(String, TableShape)>,
}

/// The first entry of `tables` named `name`.
pub open spec fn find_table(tables: Seq<(String, TableShape)>, name: Seq<char>) -> Option<int> {
    if exists|i: int| 0 <= i < tables.len() && tables[i].0@ == name {
        Some(choose|i: int| 0 <= i < tables.len() && tables[i].0@ == name
            && forall|j: int| 0 <= j < i ==> tables[j].0@ != name)
    } else {
        None
    }
}

impl SchemaSnapshot {
    /// Build a snapshot from a table list.
    pub fn new(tables: Vec<(String, TableShape)>) -> (r: Self)
        ensures
            r.tables@ == tables@,
    {
        SchemaSnapshot { tables }
    }

    /// The shape recorded for `name` (the first entry of that name).
    pub fn table(&self, name: &str) -> (r: Option<&TableShape>)
        ensures
            match find_table(self.tables@, name@) {
                Some(i) => r == Some(&self.tables@[i].1),
                None => r is None,
            },
    {
        let mut i: usize = 0;
        while i < self.tables.len()
            invariant
                i <= self.tables@.len(),
                forall|j: int| 0 <= j < i ==> self.tables@[j].0@ != name@,
            decreases self.tables.len() - i,
        {
            if str_eq(self.tables[i].0.as_str(), name) {
                proof {
                    let w = choose|w: int| 0 <= w < self.tables@.len() && self.tables@[w].0@ == name@
                        && forall|j: int| 0 <= j < w ==> self.tables@[j].0@ != name@;
                    if w < i {
                    } else if w > i {
                        assert(self.tables@[i as int].0@ == name@);
                    }
                }
                return Some(&self.tables[i].1);
            }
            i = i + 1;
        }
        None
    }
}

/// The canonical spelling of a column type: surrounding whitespace removed, ASCII lower-cased,
/// and the common aliases collapsed to `integer`, `real`, `boolean` or `string`.
pub open spec fn normalized_type(value: Seq<char>) -> Seq<char> {
    let t = lower_seq(trim_ws(value));
    if t == "int"@ || t == "integer"@ || t == "int8"@ || t == "bigint"@ {
        "integer"@
    } else if t == "real"@ || t == "float"@ || t == "double"@ || t == "double precision"@ {
        "real"@
    } else if t == "bool"@ || t == "boolean"@ {
        "boolean"@
    } else if t == "text"@ || t == "varchar"@ || t == "character varying"@ || t == "string"@ {
        "string"@
    } else {
        t
    }
}

fn is_word(t: &Vec<char>, w: &str) -> (r: bool)
    ensures
        r == (t@ == w@),
{
    let wc = chars_of(w);
    seq_eq(t, &wc)
}

/// Normalise a column data-type spelling so comparisons are symmetric across SQLite,
/// PostgREST and the registry's own type names.
pub fn normalize_type(value: &str) -> (r: String)
    ensures
        r@ == normalized_type(value@),
{
    let raw = chars_of(value);
    let trimmed = trim_chars(&raw);
    let t = lower_chars(&trimmed);
    if is_word(&t, "int") || is_word(&t, "integer") || is_word(&t, "int8") || is_word(&t, "bigint") {
        "integer".to_owned()
    } else if is_word(&t, "real") || is_word(&t, "float") || is_word(&t, "double") || is_word(&t, "double precision") {
        "real".to_owned()
    } else if is_word(&t, "bool") || is_word(&t, "boolean") {
        "boolean".to_owned()
    } else if is_word(&t, "text") || is_word(&t, "varchar") || is_word(&t, "character varying") || is_word(&t, "string") {
        "string".to_owned()
    } else {
        string_from_chars(&t)
    }
}

/// Every alias of a type family collapses to the family's canonical name, whatever its case
/// and surrounding whitespace: `int`, `integer`, `int8` and `bigint` to `integer`; `real`,
/// `float`, `double` and `double precision` to `real`; `bool` and `boolean` to `boolean`;
/// `text`, `varchar`, `character varying` and `string` to `string`.
pub proof fn lemma_type_aliases_collapse(value: Seq<char>)
    ensures
        ({
            let t = lower_seq(trim_ws(value));
            &&& (t == "int"@ || t == "integer"@ || t == "int8"@ || t == "bigint"@)
                ==> normalized_type(value) == "integer"@
            &&& (t == "real"@ || t == "float"@ || t == "double"@ || t == "double precision"@)
                ==> normalized_type(value) == "real"@
            &&& (t == "bool"@ || t == "boolean"@) ==> normalized_type(value) == "boolean"@
            &&& (t == "text"@ || t == "varchar"@ || t == "character varying"@ || t == "string"@)
                ==> normalized_type(value) == "string"@
        }),
{
    reveal_strlit("int");
    reveal_strlit("integer");
    reveal_strlit("int8");
    reveal_strlit("bigint");
    reveal_strlit("real");
    reveal_strlit("float");
    reveal_strlit("double");
    reveal_strlit("double precision");
    reveal_strlit("bool");
    reveal_strlit("boolean");
    reveal_strlit("text");
    reveal_strlit("varchar");
    reveal_strlit("character varying");
    reveal_strlit("string");
    // names of different families differ in length or in their first letter
    assert("int"@.len() == 3 && "int"@[0] == 'i');
    assert("integer"@.len() == 7 && "integer"@[0] == 'i');
    assert("int8"@.len() == 4 && "int8"@[0] == 'i');
    assert("bigint"@.len() == 6 && "bigint"@[0] == 'b');
    assert("real"@.len() == 4 && "real"@[0] == 'r');
    assert("float"@.len() == 5 && "float"@[0] == 'f');
    assert("double"@.len() == 6 && "double"@[0] == 'd');
    assert("double precision"@.len() == 16 && "double precision"@[0] == 'd');
    assert("bool"@.len() == 4 && "bool"@[0] == 'b');
    assert("boolean"@.len() == 7 && "boolean"@[0] == 'b');
    assert("text"@.len() == 4 && "text"@[0] == 't');
    assert("varchar"@.len() == 7 && "varchar"@[0] == 'v');
    assert("character varying"@.len() == 17 && "character varying"@[0] == 'c');
    assert("string"@.len() == 6 && "string"@[0] == 's');
}

/// A canonical name is already in its canonical spelling.
proof fn lemma_canonical_name_fixed(name: Seq<char>)
    requires
        name == "integer"@ || name == "real"@ || name == "boolean"@ || name == "string"@,
    ensures
        normalized_type(name) == name,
{
    reveal_strlit("integer");
    reveal_strlit("real");
    reveal_strlit("boolean");
    reveal_strlit("string");
    lemma_trim_ws_fixed(name);
    assert(lower_seq(name) =~= name);
    lemma_type_aliases_collapse(name);
}

/// Normalising a normalised spelling changes nothing, so comparing normalised spellings is
/// symmetric however often either side was normalised.
pub proof fn lemma_normalize_idempotent(value: Seq<char>)
    ensures
        normalized_type(normalized_type(value)) == normalized_type(value),
{
    let u = trim_ws(value);
    let t = lower_seq(u);
    lemma_trim_ws_ends(value);
    lemma_lower_seq(u);
    if t.len() > 0 {
        assert(t.last() == t[t.len() - 1]);
        assert(u.last() == u[u.len() - 1]);
    }
    lemma_trim_ws_fixed(t);
    assert(lower_seq(trim_ws(t)) == t);
    let n = normalized_type(value);
    if n == "integer"@ || n == "real"@ || n == "boolean"@ || n == "string"@ {
        lemma_canonical_name_fixed(n);
    } else {
        assert(n == t);
    }
}

// ---------------------------------------------------------------------------------------
// The PostgREST OpenAPI description.

/// What an OpenAPI property says of one column: its `type` and its `format`, each when it is
/// a string.
#[derive(Debug)]
pub struct OpenApiProperty {
    /// The property (column) name.
    pub name: String,
    /// The property's `type`, when it is a string.
    pub declared_type: Option<String>,
    /// The property's `format`, when it is a string.
    pub format: Option<String>,
}

/// One entry of `components.schemas`: its `properties`, when it has an object of them.
#[derive(Debug)]
pub struct OpenApiSchema {
    /// The schema (table) name.
    pub name: String,
    /// The properties in document order, or `None` when the entry has no `properties` object.
    pub properties: Option<Vec<OpenApiProperty>>,
}

/// The column type a property reports: its `type`, else its `format`, else `unknown`.
pub open spec fn property_type(p: OpenApiProperty) -> Seq<char> {
    match p.declared_type {
        Some(t) => t@,
        None => match p.format {
            Some(f) => f@,
            None => "unknown"@,
        },
    }
}

/// A column list as `(name, type)` pairs.
pub open spec fn shape_pairs(cols: Seq<ColumnShape>) -> Seq<(Seq<char>, Seq<char>)> {
    cols.map_values(|c: ColumnShape| (c.name@, c.data_type@))
}

/// The `(name, type)` pairs a property list describes, in order.
pub open spec fn property_pairs(props: Seq<OpenApiProperty>) -> Seq<(Seq<char>, Seq<char>)> {
    props.map_values(|p: OpenApiProperty| (p.name@, property_type(p)))
}

/// A table list as names with `(name, type)` column pairs.
pub open spec fn tables_pairs(tables: Seq<(String, TableShape)>) -> Seq<(Seq<char>, Seq<(Seq<char>, Seq<char>)>)> {
    tables.map_values(|t: (String, TableShape)| (t.0@, shape_pairs(t.1.columns@)))
}

/// The tables an OpenAPI schema list describes: each entry with properties, in order.
pub open spec fn openapi_tables(schemas: Seq<OpenApiSchema>) -> Seq<(Seq<char>, Seq<(Seq<char>, Seq<char>)>)>
    decreases schemas.len(),
{
    if schemas.len() == 0 {
        Seq::empty()
    } else {
        let rest = openapi_tables(schemas.drop_last());
        match schemas.last().properties {
            Some(props) => rest.push((schemas.last().name@, property_pairs(props@))),
            None => rest,
        }
    }
}

fn property_type_of(p: &OpenApiProperty) -> (r: String)
    ensures
        r@ == property_type(*p),
{
    match &p.declared_type {
        Some(t) => t.clone(),
        None => match &p.format {
            Some(f) => f.clone(),
            None => "unknown".to_owned(),
        },
    }
}

fn shape_of(props: &Vec<OpenApiProperty>) -> (r: TableShape)
    ensures
        shape_pairs(r.columns@) == property_pairs(props@),
{
    let mut columns: Vec<ColumnShape> = Vec::new();
    let mut i: usize = 0;
    while i < props.len()
        invariant
            i <= props@.len(),
            shape_pairs(columns@) == property_pairs(props@.take(i as int)),
        decreases props.len() - i,
    {
        let t = property_type_of(&props[i]);
        let c = ColumnShape::new(props[i].name.as_str(), t.as_str());
        let ghost before = columns@;
        columns.push(c);
        proof {
            assert(shape_pairs(columns@) =~= shape_pairs(before).push((props@[i as int].name@, property_type(props@[i as int]))));
            assert(property_pairs(props@.take(i + 1)) =~= property_pairs(props@.take(i as int)).push(
                (props@[i as int].name@, property_type(props@[i as int])),
            ));
        }
        i = i + 1;
    }
    proof {
        assert(props@.take(props@.len() as int) =~= props@);
    }
    TableShape::new(columns)
}

impl SchemaSnapshot {
    /// The snapshot a PostgREST OpenAPI document describes, given its `components.schemas`
    /// entries (`None` when the document has no such object): every entry with `properties`
    /// becomes a table whose columns carry the property's `type`, else its `format`, else
    /// `unknown`. A document without `components.schemas` is an invalid remote schema.
    pub fn from_openapi(schemas: Option<&[OpenApiSchema]>) -> (r: Result<SchemaSnapshot, RegistryError>)
        ensures
            match schemas {
                None => r matches Err(RegistryError::InvalidRemoteSchema(m)) && m@ == "missing components.schemas"@,
                Some(s) => r matches Ok(snap) && tables_pairs(snap.tables@) == openapi_tables(s@),
            },
    {
        let schemas = match schemas {
            None => {
                return Err(RegistryError::InvalidRemoteSchema("missing components.schemas".to_owned()));
            },
            Some(s) => s,
        };
        let mut tables: Vec<(String, TableShape)> = Vec::new();
        let mut i: usize = 0;
        while i < schemas.len()
            invariant
                i <= schemas@.len(),
                tables_pairs(tables@) == openapi_tables(schemas@.take(i as int)),
            decreases schemas.len() - i,
        {
            proof {
                assert(schemas@.take(i + 1).drop_last() =~= schemas@.take(i as int));
                assert(schemas@.take(i + 1).last() == schemas@[i as int]);
            }
            match &schemas[i].properties {
                Some(props) => {
                    let shape = shape_of(props);
                    let ghost before = tables@;
                    tables.push((schemas[i].name.clone(), shape));
                    proof {
                        assert(tables_pairs(tables@) =~= tables_pairs(before).push(
                            (schemas@[i as int].name@, property_pairs(props@)),
                        ));
                    }
                },
                None => {},
            }
            i = i + 1;
        }
        proof {
            assert(schemas@.take(schemas@.len() as int) =~= schemas@);
        }
        Ok(SchemaSnapshot::new(tables))
    }
}

} // verus!
