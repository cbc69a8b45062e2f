use vstd::prelude::*;
use vstd::string::*;
use crate::to_sql::Dialect;
use crate::util::{decimal, push_decimal, str_eq, str_to_string};

verus! {

/// The type of a column.
#[derive(Debug, PartialEq, Eq)]
pub enum Type {
    Boolean,
    I16,
    I32,
    I64,
    F32,
    F64,
    Decimal,
    Numeric(u8, u8),
    Bytes,
    Time,
    Date,
    DateTime,
    NaiveDateTime,
    Duration,
    Json,
    Jsonb,
    Uuid,
    Text,
    Array(Box<Type>),
    /// A native type that has no modelled equivalent, by its name.
    Other(String),
}

/// Why a native type name could not be read.
#[derive(Copy, Clone, Debug, PartialEq, Eq, Structural)]
pub enum TypeError {
    /// `ARRAY` names no type by itself: its element type is needed.
    BareArray,
    /// An array column whose element type is not given.
    MissingArrayElement,
}

/// The type a native type name stands for.
pub open spec fn type_of_name(s: Seq<char>) -> Type {
    if s == "numeric"@ { Type::Decimal }
    else if s == "bigint"@ || s == "int8"@ { Type::I64 }
    else if s == "double precision"@ { Type::F64 }
    else if s == "real"@ { Type::F32 }
    else if s == "bool"@ || s == "boolean"@ { Type::Boolean }
    else if s == "date"@ { Type::Date }
    else if s == "bytea"@ { Type::Bytes }
    else if s == "timestamp with time zone"@ { Type::DateTime }
    else if s == "timestamp without time zone"@ { Type::NaiveDateTime }
    else if s == "interval"@ { Type::Duration }
    else if s == "json"@ { Type::Json }
    else if s == "jsonb"@ { Type::Jsonb }
    else if s == "uuid"@ { Type::Uuid }
    else if s == "smallint"@ { Type::I16 }
    else if s == "text"@ || s == "character varying"@ || s == "varchar"@ { Type::Text }
    else if s == "integer"@ { Type::I32 }
    else { Type::Other(arbitrary()) }
}

/// `t` is what the native type name `s` reads as: the modelled type it names,
/// or `Other` holding the name itself.
pub open spec fn names_type(s: Seq<char>, t: Type) -> bool {
    match type_of_name(s) {
        Type::Other(_) => t is Other && t->Other_0@ == s,
        k => t == k,
    }
}

/// Two types are the same, comparing names by their text.
pub open spec fn same_type(a: Type, b: Type) -> bool
    decreases a,
{
    match (a, b) {
        (Type::Numeric(p, s), Type::Numeric(q, t)) => p == q && s == t,
        (Type::Array(x), Type::Array(y)) => same_type(*x, *y),
        (Type::Other(x), Type::Other(y)) => x@ == y@,
        (Type::Numeric(_, _), _) => false,
        (Type::Array(_), _) => false,
        (Type::Other(_), _) => false,
        _ => a == b,
    }
}

/// Lossy equality: an unmodelled type, on either side, matches any type.
pub open spec fn lossy_same(a: Type, b: Type) -> bool {
    a is Other || b is Other || same_type(a, b)
}

/// The SQL text of a type.
pub open spec fn type_sql(t: Type, d: Dialect) -> Seq<char>
    decreases t,
{
    match t {
        Type::Boolean => "boolean"@,
        Type::I16 => "smallint"@,
        Type::I32 => "integer"@,
        Type::I64 => "bigint"@,
        Type::Bytes => "bytea"@,
        Type::Time => "time without time zone"@,
        Type::Date => "date"@,
        Type::DateTime => "timestamptz"@,
        Type::NaiveDateTime => "timestamp without time zone"@,
        Type::Duration => "interval"@,
        Type::Json => "json"@,
        Type::Jsonb => "jsonb"@,
        Type::F32 => "real"@,
        Type::F64 => "double precision"@,
        Type::Decimal => "numeric"@,
        Type::Numeric(p, s) => "numeric("@ + decimal(p as nat) + ", "@ + decimal(s as nat) + ")"@,
        Type::Uuid => "uuid"@,
        Type::Text => "character varying"@,
        Type::Array(inner) => type_sql(*inner, d) + (if d == Dialect::Postgres {
            "[]"@
        } else {
            " ARRAY"@
        }),
        Type::Other(z) => "/* Unknown type: "@ + z@ + " */"@,
    }
}

impl Clone for Type {
    fn clone(&self) -> (r: Self)
        ensures
            r == *self,
        decreases self,
    {
        match self {
            Type::Boolean => Type::Boolean,
            Type::I16 => Type::I16,
            Type::I32 => Type::I32,
            Type::I64 => Type::I64,
            Type::F32 => Type::F32,
            Type::F64 => Type::F64,
            Type::Decimal => Type::Decimal,
            Type::Numeric(p, s) => Type::Numeric(*p, *s),
            Type::Bytes => Type::Bytes,
            Type::Time => Type::Time,
            Type::Date => Type::Date,
            Type::DateTime => Type::DateTime,
            Type::NaiveDateTime => Type::NaiveDateTime,
            Type::Duration => Type::Duration,
            Type::Json => Type::Json,
            Type::Jsonb => Type::Jsonb,
            Type::Uuid => Type::Uuid,
            Type::Text => Type::Text,
            Type::Array(inner) => {
                let i = (**inner).clone();
                Type::Array(Box::new(i))
            },
            Type::Other(z) => Type::Other(z.clone()),
        }
    }
}

impl Type {
    /// Compares two types, names by their text.
    pub fn same(&self, other: &Type) -> (r: bool)
        ensures
            r == same_type(*self, *other),
        decreases self,
    {
        match (self, other) {
            (Type::Numeric(p, s), Type::Numeric(q, t)) => *p == *q && *s == *t,
            (Type::Array(x), Type::Array(y)) => x.same(y),
            (Type::Other(x), Type::Other(y)) => str_eq(x.as_str(), y.as_str()),
            (Type::Numeric(_, _), _) => false,
            (Type::Array(_), _) => false,
            (Type::Other(_), _) => false,
            (Type::Boolean, Type::Boolean) => true,
            (Type::I16, Type::I16) => true,
            (Type::I32, Type::I32) => true,
            (Type::I64, Type::I64) => true,
            (Type::F32, Type::F32) => true,
            (Type::F64, Type::F64) => true,
            (Type::Decimal, Type::Decimal) => true,
            (Type::Bytes, Type::Bytes) => true,
            (Type::Time, Type::Time) => true,
            (Type::Date, Type::Date) => true,
            (Type::DateTime, Type::DateTime) => true,
            (Type::NaiveDateTime, Type::NaiveDateTime) => true,
            (Type::Duration, Type::Duration) => true,
            (Type::Json, Type::Json) => true,
            (Type::Jsonb, Type::Jsonb) => true,
            (Type::Uuid, Type::Uuid) => true,
            (Type::Text, Type::Text) => true,
            _ => false,
        }
    }

    /// Equality under which an unmodelled (`Other`) type matches anything.
    pub fn lossy_eq(&self, other: &Type) -> (r: bool)
        ensures
            r == lossy_same(*self, *other),
    {
        match (self, other) {
            (Type::Other(_), _) => true,
            (_, Type::Other(_)) => true,
            _ => self.same(other),
        }
    }

    /// Reads a native type name; a name with no modelled equivalent becomes `Other`.
    pub fn from_str(s: &str) -> (r: Result<Type, TypeError>)
        ensures
            r is Err <==> s@ == "ARRAY"@,
            r matches Ok(t) ==> names_type(s@, t),
    {
        proof {
            reveal_strlit("numeric"); reveal_strlit("bigint"); reveal_strlit("int8");
            reveal_strlit("double precision"); reveal_strlit("real"); reveal_strlit("bool");
            reveal_strlit("boolean"); reveal_strlit("date"); reveal_strlit("bytea");
            reveal_strlit("timestamp with time zone"); reveal_strlit("timestamp without time zone");
            reveal_strlit("interval"); reveal_strlit("json"); reveal_strlit("jsonb");
            reveal_strlit("uuid"); reveal_strlit("smallint"); reveal_strlit("text");
            reveal_strlit("character varying"); reveal_strlit("varchar"); reveal_strlit("integer");
            reveal_strlit("ARRAY");
        }
        if str_eq(s, "ARRAY") { Err(TypeError::BareArray) }
        else if str_eq(s, "numeric") { Ok(Type::Decimal) }
        else if str_eq(s, "bigint") || str_eq(s, "int8") { Ok(Type::I64) }
        else if str_eq(s, "double precision") { Ok(Type::F64) }
        else if str_eq(s, "real") { Ok(Type::F32) }
        else if str_eq(s, "bool") || str_eq(s, "boolean") { Ok(Type::Boolean) }
        else if str_eq(s, "date") { Ok(Type::Date) }
        else if str_eq(s, "bytea") { Ok(Type::Bytes) }
        else if str_eq(s, "timestamp with time zone") { Ok(Type::DateTime) }
        else if str_eq(s, "timestamp without time zone") { Ok(Type::NaiveDateTime) }
        else if str_eq(s, "interval") { Ok(Type::Duration) }
        else if str_eq(s, "json") { Ok(Type::Json) }
        else if str_eq(s, "jsonb") { Ok(Type::Jsonb) }
        else if str_eq(s, "uuid") { Ok(Type::Uuid) }
        else if str_eq(s, "smallint") { Ok(Type::I16) }
        else if str_eq(s, "text") || str_eq(s, "character varying") || str_eq(s, "varchar") { Ok(Type::Text) }
        else if str_eq(s, "integer") { Ok(Type::I32) }
        else { Ok(Type::Other(str_to_string(s))) }
    }

    /// Appends the type's SQL text.
    pub fn write_sql(&self, buf: &mut String, dialect: Dialect)
        ensures
            final(buf)@ == old(buf)@ + type_sql(*self, dialect),
        decreases self,
    {
        proof {
            reveal_strlit("boolean"); reveal_strlit("smallint"); reveal_strlit("integer");
            reveal_strlit("bigint"); reveal_strlit("bytea"); reveal_strlit("time without time zone");
            reveal_strlit("date"); reveal_strlit("timestamptz"); reveal_strlit("timestamp without time zone");
            reveal_strlit("interval"); reveal_strlit("json"); reveal_strlit("jsonb"); reveal_strlit("real");
            reveal_strlit("double precision"); reveal_strlit("numeric"); reveal_strlit("uuid");
            reveal_strlit("character varying"); reveal_strlit("numeric("); reveal_strlit(", ");
            reveal_strlit(")"); reveal_strlit("[]"); reveal_strlit(" ARRAY");
            reveal_strlit("/* Unknown type: "); reveal_strlit(" */");
        }
        match self {
            Type::Boolean => buf.append("boolean"),
            Type::I16 => buf.append("smallint"),
            Type::I32 => buf.append("integer"),
            Type::I64 => buf.append("bigint"),
            Type::Bytes => buf.append("bytea"),
            Type::Time => buf.append("time without time zone"),
            Type::Date => buf.append("date"),
            Type::DateTime => buf.append("timestamptz"),
            Type::NaiveDateTime => buf.append("timestamp without time zone"),
            Type::Duration => buf.append("interval"),
            Type::Json => buf.append("json"),
            Type::Jsonb => buf.append("jsonb"),
            Type::F32 => buf.append("real"),
            Type::F64 => buf.append("double precision"),
            Type::Decimal => buf.append("numeric"),
            Type::Numeric(p, s) => {
                buf.append("numeric(");
                push_decimal(buf, *p as usize);
                buf.append(", ");
                push_decimal(buf, *s as usize);
                buf.append(")");
                assert(final(buf)@ =~= old(buf)@ + type_sql(*self, dialect));
            },
            Type::Uuid => buf.append("uuid"),
            Type::Text => buf.append("character varying"),
            Type::Array(inner) => {
                inner.write_sql(buf, dialect);
                if dialect == Dialect::Postgres {
                    buf.append("[]");
                } else {
                    buf.append(" ARRAY");
                }
                assert(final(buf)@ =~= old(buf)@ + type_sql(*self, dialect));
            },
            Type::Other(z) => {
                buf.append("/* Unknown type: ");
                buf.append(z.as_str());
                buf.append(" */");
                assert(final(buf)@ =~= old(buf)@ + type_sql(*self, dialect));
            },
        }
    }

    /// The type's SQL text; rendering a type never fails.
    pub fn to_sql(&self, dialect: Dialect) -> (r: String)
        ensures
            r@ == type_sql(*self, dialect),
    {
        let mut buf = String::new();
        self.write_sql(&mut buf, dialect);
        buf
    }
}

} // verus!
