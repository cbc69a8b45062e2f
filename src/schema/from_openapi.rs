use vstd::prelude::*;
use vstd::string::*;
use convert_case::{Case, Casing};
use crate::query::insert::{contains_name, contains_string};
use crate::schema::column::Column;
use crate::schema::column_type::Type;
use crate::schema::table::Table;
use crate::schema::Schema;
use crate::util::{pkey_column_names, str_eq, str_to_string};

verus! {

/// The type of a schema in an OpenAPI document.
#[derive(Copy, Clone, Debug, PartialEq, Eq, Structural)]
pub enum OpenApiKind {
    String,
    Integer,
    Boolean,
    Number,
    Array,
    Object,
}

/// A property of an object schema in an OpenAPI document, with what its column is
/// made from.
#[derive(Debug, PartialEq, Eq)]
pub struct OpenApiProperty {
    pub name: String,
    pub kind: OpenApiKind,
    /// The `format` of a string property.
    pub format: String,
    /// The `x-format` extension, when it is a string.
    pub x_format: Option<String>,
    /// The `x-null-as-zero` extension is `true`.
    pub null_as_zero: bool,
    /// The property is listed as required.
    pub required: bool,
}

/// A named schema of an OpenAPI document; `properties` is `None` for a schema that
/// is not an object.
#[derive(Debug, PartialEq, Eq)]
pub struct OpenApiSchema {
    pub name: String,
    pub properties: Option<Vec<OpenApiProperty>>,
}

/// How OpenAPI schemas become tables.
#[derive(Copy, Clone, Debug, PartialEq, Eq, Structural)]
pub struct FromOpenApiOptions {
    /// Store array properties as `jsonb` columns; without it they are left out.
    pub include_arrays: bool,
}

/// The snake-case form of a name.
pub uninterp spec fn snake_case_of(s: Seq<char>) -> Seq<char>;

/// Relies on convert_case's `Casing::to_case` with `Case::Snake`: the name split
/// into words, lowercased and joined by `_`; the result depends on the name alone.
#[verifier::external_body]
fn to_snake_case(s: &str) -> (r: String)
    ensures
        r@ == snake_case_of(s@),
{
    s.to_case(Case::Snake)
}

/// `suffix` ends `s`.
fn str_ends_with(s: &str, suffix: &str) -> (r: bool)
    ensures
        r == (suffix@.len() <= s@.len() && s@.subrange(s@.len() - suffix@.len(), s@.len() as int)
            == suffix@),
{
    let n = s.unicode_len();
    let m = suffix.unicode_len();
    if m > n {
        return false;
    }
    let ghost tail = s@.subrange(n - m, n as int);
    let mut k: usize = 0;
    while k < m
        invariant
            k <= m <= n,
            n == s@.len(),
            m == suffix@.len(),
            tail == s@.subrange(n - m, n as int),
            forall|q: int| 0 <= q < k ==> tail[q] == suffix@[q],
        decreases m - k,
    {
        if s.get_char(n - m + k) != suffix.get_char(k) {
            assert(tail[k as int] != suffix@[k as int]);
            return false;
        }
        k += 1;
    }
    assert(tail =~= suffix@);
    true
}

pub open spec fn is_date(f: Option<String>) -> bool {
    f matches Some(s) && s@ == "date"@
}

/// The column type of a property, or `None` for an array when arrays are left out.
pub open spec fn openapi_type(p: OpenApiProperty, include_arrays: bool) -> Option<Type> {
    match p.kind {
        OpenApiKind::String => Some(
            if p.format@ == "currency"@ {
                Type::Numeric(19, 4)
            } else if p.format@ == "decimal"@ {
                Type::Decimal
            } else if p.format@ == "date"@ {
                Type::Date
            } else if p.format@ == "date-time"@ {
                Type::DateTime
            } else {
                Type::Text
            },
        ),
        OpenApiKind::Integer => Some(
            if is_date(p.x_format) {
                Type::Date
            } else {
                Type::I32
            },
        ),
        OpenApiKind::Boolean => Some(Type::Boolean),
        OpenApiKind::Number => Some(Type::F64),
        OpenApiKind::Array => if include_arrays {
            Some(Type::Jsonb)
        } else {
            None
        },
        OpenApiKind::Object => Some(Type::Jsonb),
    }
}

/// A property's column is nullable unless it is the `id` or required; a date given
/// as an integer, or an integer whose null reads as zero, is nullable in any case.
pub open spec fn openapi_nullable(p: OpenApiProperty) -> bool {
    is_date(p.x_format) || p.null_as_zero || (!p.required && p.name@ != "id"@)
}

/// The properties that become columns.
pub open spec fn typed_properties(v: Seq<OpenApiProperty>, include_arrays: bool) -> Seq<OpenApiProperty>
    decreases v.len(),
{
    if v.len() == 0 {
        Seq::empty()
    } else {
        let prev = typed_properties(v.drop_last(), include_arrays);
        if openapi_type(v.last(), include_arrays) is Some {
            prev.push(v.last())
        } else {
            prev
        }
    }
}

/// `c` is the column of property `p`; `chosen` says it was picked as the primary key.
pub open spec fn column_of_property(p: OpenApiProperty, c: Column, include_arrays: bool, chosen: bool) -> bool {
    &&& openapi_type(p, include_arrays) == Some(c.typ)
    &&& c.name@ == snake_case_of(p.name@)
    &&& c.nullable == openapi_nullable(p)
    &&& c.primary_key == (p.name@ == "id"@ || chosen)
    &&& c.default is None
    &&& c.constraint is None
}

/// The names a primary key of a table from the schema named `name` may have.
pub open spec fn key_candidates(name: Seq<char>) -> Seq<Seq<char>> {
    seq![name + "_id"@, name + "_uuid"@, "id"@, "uuid"@]
}

/// The position of the first property whose column name is a key candidate, if any.
pub open spec fn first_candidate(v: Seq<OpenApiProperty>, cands: Seq<Seq<char>>) -> int
    decreases v.len(),
{
    if v.len() == 0 {
        -1
    } else {
        let prev = first_candidate(v.drop_last(), cands);
        if prev >= 0 {
            prev
        } else if cands.contains(snake_case_of(v.last().name@)) {
            v.len() - 1
        } else {
            -1
        }
    }
}

/// The schemas that become tables: objects whose name does not end in `Response`.
pub open spec fn kept_schema(s: OpenApiSchema) -> bool {
    &&& s.properties is Some
    &&& !("Response"@.len() <= s.name@.len() && s.name@.subrange(s.name@.len() - "Response"@.len(), s.name@.len() as int) == "Response"@)
}

pub open spec fn kept_schemas(v: Seq<OpenApiSchema>) -> Seq<OpenApiSchema>
    decreases v.len(),
{
    if v.len() == 0 {
        Seq::empty()
    } else {
        let prev = kept_schemas(v.drop_last());
        if kept_schema(v.last()) {
            prev.push(v.last())
        } else {
            prev
        }
    }
}

/// `t` is the table of schema `s`.
pub open spec fn table_of_schema(t: Table, s: OpenApiSchema, include_arrays: bool) -> bool {
    let typed = typed_properties(s.properties->0@, include_arrays);
    let k = first_candidate(typed, key_candidates(s.name@));
    &&& t.schema is None
    &&& t.name@ == snake_case_of(s.name@)
    &&& t.indexes@.len() == 0
    &&& t.columns@.len() == typed.len()
    &&& forall|j: int| 0 <= j < typed.len() ==> column_of_property(typed[j], #[trigger] t.columns@[j], include_arrays, j == k)
}

impl Default for FromOpenApiOptions {
    fn default() -> (r: Self)
        ensures
            !r.include_arrays,
    {
        FromOpenApiOptions { include_arrays: false }
    }
}

fn property_type(p: &OpenApiProperty, include_arrays: bool) -> (r: Option<Type>)
    ensures
        r == openapi_type(*p, include_arrays),
{
    proof {
        reveal_strlit("currency"); reveal_strlit("decimal"); reveal_strlit("date");
        reveal_strlit("date-time");
    }
    let date_format = match &p.x_format {
        Some(f) => str_eq(f.as_str(), "date"),
        None => false,
    };
    match p.kind {
        OpenApiKind::String => {
            let f = p.format.as_str();
            Some(
                if str_eq(f, "currency") {
                    Type::Numeric(19, 4)
                } else if str_eq(f, "decimal") {
                    Type::Decimal
                } else if str_eq(f, "date") {
                    Type::Date
                } else if str_eq(f, "date-time") {
                    Type::DateTime
                } else {
                    Type::Text
                },
            )
        },
        OpenApiKind::Integer => Some(if date_format { Type::Date } else { Type::I32 }),
        OpenApiKind::Boolean => Some(Type::Boolean),
        OpenApiKind::Number => Some(Type::F64),
        OpenApiKind::Array => if include_arrays {
            Some(Type::Jsonb)
        } else {
            None
        },
        OpenApiKind::Object => Some(Type::Jsonb),
    }
}

/// The columns of an object schema's properties, in order; a property of no column
/// type is left out, and none is a primary key unless it is named `id`.
pub fn columns_from_properties(props: &Vec<OpenApiProperty>, options: &FromOpenApiOptions) -> (r: Vec<Column>)
    ensures
        r@.len() == typed_properties(props@, options.include_arrays).len(),
        forall|j: int|
            0 <= j < r@.len() ==> column_of_property(
                typed_properties(props@, options.include_arrays)[j],
                #[trigger] r@[j],
                options.include_arrays,
                false,
            ),
{
    proof { reveal_strlit("id"); reveal_strlit("date"); }
    let ia = options.include_arrays;
    let mut r: Vec<Column> = Vec::new();
    let mut i: usize = 0;
    assert(props@.take(0) =~= Seq::<OpenApiProperty>::empty());
    while i < props.len()
        invariant
            i <= props.len(),
            ia == options.include_arrays,
            r@.len() == typed_properties(props@.take(i as int), ia).len(),
            forall|j: int|
                0 <= j < r@.len() ==> column_of_property(
                    typed_properties(props@.take(i as int), ia)[j],
                    #[trigger] r@[j],
                    ia,
                    false,
                ),
        decreases props.len() - i,
    {
        proof {
            assert(props@.take(i as int + 1).drop_last() =~= props@.take(i as int));
            assert(props@.take(i as int + 1).last() == props@[i as int]);
        }
        let p = &props[i];
        let ghost r0 = r@;
        if let Some(typ) = property_type(p, ia) {
            let is_id = str_eq(p.name.as_str(), "id");
            let date_format = match &p.x_format {
                Some(f) => str_eq(f.as_str(), "date"),
                None => false,
            };
            let nullable = date_format || p.null_as_zero || (!p.required && !is_id);
            r.push(
                Column {
                    name: to_snake_case(p.name.as_str()),
                    typ,
                    nullable,
                    primary_key: is_id,
                    default: None,
                    constraint: None,
                },
            );
            proof {
                let typed = typed_properties(props@.take(i as int + 1), ia);
                assert forall|j: int| 0 <= j < r@.len() implies column_of_property(typed[j], #[trigger] r@[j], ia, false) by {
                    if j < r0.len() {
                        assert(r@[j] == r0[j]);
                    }
                }
            }
        }
        i += 1;
    }
    proof { assert(props@.take(i as int) =~= props@); }
    r
}

impl Schema {
    /// The schema that OpenAPI schemas describe: a table, named in snake
    /// case, for each object schema whose name does not end in `Response`. Its first
    /// column named as a key candidate of the schema name is made the primary key.
    pub fn from_openapi(schemas: Vec<OpenApiSchema>, options: &FromOpenApiOptions) -> (r: Schema)
        ensures
            r.tables@.len() == kept_schemas(schemas@).len(),
            forall|i: int|
                0 <= i < r.tables@.len() ==> table_of_schema(
                    #[trigger] r.tables@[i],
                    kept_schemas(schemas@)[i],
                    options.include_arrays,
                ),
    {
        proof { reveal_strlit("Response"); reveal_strlit("_id"); reveal_strlit("_uuid"); reveal_strlit("id"); reveal_strlit("uuid"); }
        let ia = options.include_arrays;
        let mut tables: Vec<Table> = Vec::new();
        let mut i: usize = 0;
        assert(schemas@.take(0) =~= Seq::<OpenApiSchema>::empty());
        while i < schemas.len()
            invariant
                i <= schemas.len(),
                ia == options.include_arrays,
                tables@.len() == kept_schemas(schemas@.take(i as int)).len(),
                forall|t: int|
                    0 <= t < tables@.len() ==> table_of_schema(
                        #[trigger] tables@[t],
                        kept_schemas(schemas@.take(i as int))[t],
                        ia,
                    ),
            decreases schemas.len() - i,
        {
            proof {
                assert(schemas@.take(i as int + 1).drop_last() =~= schemas@.take(i as int));
                assert(schemas@.take(i as int + 1).last() == schemas@[i as int]);
            }
            let s = &schemas[i];
            let ghost t0 = tables@;
            if !str_ends_with(s.name.as_str(), "Response") {
                if let Some(props) = &s.properties {
                    let mut columns = columns_from_properties(props, options);
                    let cands = pkey_column_names(s.name.as_str());
                    let ghost typed = typed_properties(props@, ia);
                    let ghost cv = key_candidates(s.name@);
                    proof {
                        assert(Seq::new(4, |q: int| cands@[q]@) =~= cv);
                    }
                    let ghost c0 = columns@;
                    let mut j: usize = 0;
                    let mut chosen: bool = false;
                    while j < columns.len() && !chosen
                        invariant
                            j <= columns@.len(),
                            columns@.len() == typed.len(),
                            c0.len() == typed.len(),
                            typed == typed_properties(props@, ia),
                            cv == key_candidates(s.name@),
                            cv.len() == 4,
                            cands@.len() == 4,
                            forall|q: int| 0 <= q < c0.len() ==> column_of_property(typed[q], #[trigger] c0[q], ia, false),
                            forall|q: int| 0 <= q < 4 ==> (#[trigger] cands@[q])@ == cv[q],
                            forall|q: int| 0 <= q < columns@.len() ==> (#[trigger] columns@[q]).name@ == snake_case_of(typed[q].name@),
                            !chosen ==> first_candidate(typed.take(j as int), cv) == -1 && columns@ == c0,
                            chosen ==> 0 < j && first_candidate(typed, cv) == j - 1 && columns@ == c0.update(j - 1, Column { primary_key: true, ..c0[j - 1] }),
                        decreases columns@.len() - j,
                    {
                        proof {
                            assert(typed.take(j as int + 1).drop_last() =~= typed.take(j as int));
                            assert(typed.take(j as int + 1).last() == typed[j as int]);
                        }
                        let hit = contains_string(&cands, &columns[j].name);
                        proof {
                            let x = snake_case_of(typed[j as int].name@);
                            if hit {
                                let q = choose|q: int| 0 <= q < cands@.len() && (#[trigger] cands@[q])@ == columns@[j as int].name@;
                                assert(cv[q] == x);
                                assert(cv.contains(x));
                            }
                            if cv.contains(x) {
                                let q = choose|q: int| 0 <= q < cv.len() && cv[q] == x;
                                assert(cands@[q]@ == x);
                            }
                        }
                        if hit {
                            let mut c = columns.remove(j);
                            c.primary_key = true;
                            columns.insert(j, c);
                            chosen = true;
                            proof {
                                assert(columns@ =~= c0.update(j as int, Column { primary_key: true, ..c0[j as int] }));
                                lemma_first_candidate_prefix(typed, cv, j as int + 1);
                            }
                        }
                        j += 1;
                    }
                    proof {
                        if !chosen {
                            assert(typed.take(j as int) =~= typed);
                        }
                    }
                    let name = to_snake_case(s.name.as_str());
                    tables.push(Table { schema: None, name, columns, indexes: Vec::new() });
                    proof {
                        let k = first_candidate(typed, cv);
                        let t = tables@[tables@.len() - 1];
                        assert forall|q: int| 0 <= q < typed.len() implies column_of_property(typed[q], #[trigger] t.columns@[q], ia, q == k) by {
                            assert(column_of_property(typed[q], c0[q], ia, false));
                        }
                        assert forall|q: int| 0 <= q < tables@.len() implies table_of_schema(#[trigger] tables@[q], kept_schemas(schemas@.take(i as int + 1))[q], ia) by {
                            if q < t0.len() {
                                assert(tables@[q] == t0[q]);
                            }
                        }
                    }
                }
            }
            i += 1;
        }
        proof { assert(schemas@.take(i as int) =~= schemas@); }
        Schema { tables }
    }
}

/// Once a candidate is found, it stays the first one in every longer prefix.
proof fn lemma_first_candidate_prefix(v: Seq<OpenApiProperty>, cands: Seq<Seq<char>>, n: int)
    requires
        0 < n <= v.len(),
        first_candidate(v.take(n), cands) >= 0,
    ensures
        first_candidate(v, cands) == first_candidate(v.take(n), cands),
    decreases v.len() - n,
{
    if n < v.len() {
        assert(v.take(n + 1).drop_last() =~= v.take(n));
        lemma_first_candidate_prefix(v, cands, n + 1);
    } else {
        assert(v.take(n) =~= v);
    }
}

} // verus!
