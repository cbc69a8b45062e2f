use sqlmo::schema::from_postgres::SchemaColumn;
use sqlmo::schema::{Column, Constraint, Table, Type, TypeError};
use sqlmo::util::{pkey_column_names, quote, table_name};
use sqlmo::{Dialect, SqlError};

fn catalogue_row(data_type: &str, precision: Option<i32>, scale: Option<i32>, inner: Option<&str>) -> SchemaColumn {
    SchemaColumn {
        table_name: "foo".to_string(),
        column_name: "bar".to_string(),
        ordinal_position: 1,
        is_nullable: "NO".to_string(),
        data_type: data_type.to_string(),
        numeric_precision: precision,
        numeric_scale: scale,
        inner_type: inner.map(|s| s.to_string()),
    }
}

#[test]
fn lib_test_numeric() {
    let c = catalogue_row("numeric", Some(10), Some(2), None);
    let column: Column = c.try_into().unwrap();
    assert_eq!(column.typ, Type::Numeric(10, 2));
}

#[test]
fn lib_test_integer() {
    let c = catalogue_row("integer", Some(32), Some(0), None);
    let column: Column = c.try_into().unwrap();
    assert_eq!(column.typ, Type::I32);
}

#[test]
fn from_postgres_test_numeric() {
    let c = SchemaColumn {
        table_name: "foo".to_string(),
        column_name: "bar".to_string(),
        ordinal_position: 1,
        is_nullable: "NO".to_string(),
        data_type: "numeric".to_string(),
        numeric_precision: Some(10),
        numeric_scale: Some(2),
        inner_type: None,
    };
    let column: Column = c.try_into().unwrap();
    assert_eq!(column.typ, Type::Numeric(10, 2));
}

#[test]
fn from_postgres_test_integer() {
    let c = SchemaColumn {
        table_name: "foo".to_string(),
        column_name: "bar".to_string(),
        ordinal_position: 1,
        is_nullable: "NO".to_string(),
        data_type: "integer".to_string(),
        numeric_precision: Some(32),
        numeric_scale: Some(0),
        inner_type: None,
    };
    let column: Column = c.try_into().unwrap();
    assert_eq!(column.typ, Type::I32);
}

#[test]
fn type_test_numeric() {
    let s = "numeric";
    let t = Type::from_str(s).unwrap();
    assert_eq!(t, Type::Decimal);
}

#[test]
fn numeric_with_precision_renders_exactly() {
    let column = catalogue_row("numeric", Some(10), Some(2), None).into_column().unwrap();
    assert_eq!(column.typ, Type::Numeric(10, 2));
    assert_eq!(column.typ.to_sql(Dialect::Postgres), "numeric(10, 2)");
    assert!(!column.nullable);
    assert_eq!(column.name, "bar");
}

#[test]
fn catalogue_rows_read_every_kind_of_type() {
    let mut row = catalogue_row("ARRAY", None, None, Some("text"));
    row.is_nullable = "YES".to_string();
    let c = row.into_column().unwrap();
    assert_eq!(c.typ, Type::Array(Box::new(Type::Text)));
    assert!(c.nullable);
    assert_eq!(catalogue_row("ARRAY", None, None, None).into_column(), Err(TypeError::MissingArrayElement));
    assert_eq!(catalogue_row("ARRAY", None, None, Some("ARRAY")).into_column(), Err(TypeError::BareArray));
    assert_eq!(catalogue_row("numeric", None, Some(2), None).into_column().unwrap().typ, Type::Decimal);
    assert_eq!(
        catalogue_row("tsvector", None, None, None).into_column().unwrap().typ,
        Type::Other("tsvector".to_string())
    );
}

#[test]
fn native_type_names() {
    let cases = [
        ("bigint", Type::I64),
        ("int8", Type::I64),
        ("double precision", Type::F64),
        ("real", Type::F32),
        ("bool", Type::Boolean),
        ("boolean", Type::Boolean),
        ("date", Type::Date),
        ("bytea", Type::Bytes),
        ("timestamp with time zone", Type::DateTime),
        ("timestamp without time zone", Type::NaiveDateTime),
        ("interval", Type::Duration),
        ("json", Type::Json),
        ("jsonb", Type::Jsonb),
        ("uuid", Type::Uuid),
        ("smallint", Type::I16),
        ("text", Type::Text),
        ("character varying", Type::Text),
        ("varchar", Type::Text),
        ("integer", Type::I32),
        ("", Type::Other(String::new())),
    ];
    for (name, typ) in cases {
        assert_eq!(Type::from_str(name).unwrap(), typ, "{}", name);
    }
    assert_eq!(Type::from_str("ARRAY"), Err(TypeError::BareArray));
}

#[test]
fn type_rendering() {
    assert_eq!(Type::Boolean.to_sql(Dialect::Postgres), "boolean");
    assert_eq!(Type::I16.to_sql(Dialect::Postgres), "smallint");
    assert_eq!(Type::I64.to_sql(Dialect::Postgres), "bigint");
    assert_eq!(Type::Time.to_sql(Dialect::Postgres), "time without time zone");
    assert_eq!(Type::DateTime.to_sql(Dialect::Postgres), "timestamptz");
    assert_eq!(Type::Decimal.to_sql(Dialect::Postgres), "numeric");
    assert_eq!(Type::Numeric(19, 4).to_sql(Dialect::Mysql), "numeric(19, 4)");
    assert_eq!(Type::Numeric(255, 0).to_sql(Dialect::Mysql), "numeric(255, 0)");
    assert_eq!(Type::Array(Box::new(Type::I32)).to_sql(Dialect::Postgres), "integer[]");
    assert_eq!(Type::Array(Box::new(Type::I32)).to_sql(Dialect::Sqlite), "integer ARRAY");
    assert_eq!(Type::Other("money".to_string()).to_sql(Dialect::Postgres), "/* Unknown type: money */");
}

#[test]
fn lossy_equality() {
    assert!(Type::Other("x".to_string()).lossy_eq(&Type::I32));
    assert!(Type::I32.lossy_eq(&Type::Other("x".to_string())));
    assert!(Type::Array(Box::new(Type::Text)).lossy_eq(&Type::Array(Box::new(Type::Text))));
    assert!(!Type::Numeric(10, 2).lossy_eq(&Type::Numeric(10, 3)));
    assert!(!Type::Text.lossy_eq(&Type::Json));
}

#[test]
fn column_rendering() {
    let c = Column {
        name: "owner".to_string(),
        typ: Type::I32,
        nullable: false,
        primary_key: true,
        default: Some(sqlmo::Expr::Raw("0".to_string())),
        constraint: Some(Constraint::foreign_key("users".to_string(), vec!["id".to_string(), "org".to_string()])),
    };
    assert_eq!(
        c.to_sql(Dialect::Postgres).unwrap(),
        r#""owner" integer NOT NULL PRIMARY KEY DEFAULT 0 REFERENCES "users"("id", "org")"#
    );
    let k = Constraint::foreign_key("users".to_string(), vec![]);
    assert_eq!(k.name(), "users");
}

#[test]
fn quoting_rejects_double_quotes() {
    assert_eq!(quote("abc").unwrap(), "\"abc\"");
    assert_eq!(quote("a\"b"), Err(SqlError::QuoteInIdentifier));
    assert_eq!(table_name("s", "t").unwrap(), "\"s\".\"t\"");
    assert_eq!(table_name("s", "t\""), Err(SqlError::QuoteInIdentifier));
    let c = Column {
        name: "bad\"name".to_string(),
        typ: Type::I32,
        nullable: true,
        primary_key: false,
        default: None,
        constraint: None,
    };
    assert_eq!(c.to_sql(Dialect::Postgres), Err(SqlError::QuoteInIdentifier));
}

#[test]
fn primary_key_and_builders() {
    let t = Table::new("t")
        .column(Column { name: "a".to_string(), typ: Type::I32, nullable: true, primary_key: false, default: None, constraint: None })
        .column(Column { name: "b".to_string(), typ: Type::I32, nullable: false, primary_key: true, default: None, constraint: None })
        .schema("s");
    assert_eq!(t.primary_key().unwrap().name, "b");
    assert_eq!(t.schema.as_deref(), Some("s"));
    assert!(Table::new("e").primary_key().is_none());
}

#[test]
fn primary_key_candidates() {
    assert_eq!(
        pkey_column_names("user"),
        vec!["user_id".to_string(), "user_uuid".to_string(), "id".to_string(), "uuid".to_string()]
    );
}

fn row(table: &str, column: &str, data_type: &str) -> SchemaColumn {
    SchemaColumn {
        table_name: table.to_string(),
        column_name: column.to_string(),
        ordinal_position: 1,
        is_nullable: "YES".to_string(),
        data_type: data_type.to_string(),
        numeric_precision: None,
        numeric_scale: None,
        inner_type: None,
    }
}

#[test]
fn catalogue_groups_rows_into_tables() {
    let rows = vec![
        row("a", "id", "integer"),
        row("a", "name", "text"),
        row("b", "id", "bigint"),
    ];
    let names = vec!["a".to_string(), "empty".to_string(), "b".to_string(), "empty".to_string()];
    let schema = sqlmo::Schema::from_catalogue(rows, &names).unwrap();
    let summary: Vec<(String, usize)> =
        schema.tables.iter().map(|t| (t.name.clone(), t.columns.len())).collect();
    assert_eq!(
        summary,
        vec![("a".to_string(), 2), ("b".to_string(), 1), ("empty".to_string(), 0)]
    );
    assert_eq!(schema.tables[0].columns[1].typ, Type::Text);
    assert!(schema.tables[0].columns[1].nullable);
    assert_eq!(schema.tables[1].columns[0].typ, Type::I64);
}

#[test]
fn catalogue_rows_of_a_table_apart_make_two_tables() {
    let rows = vec![row("a", "x", "integer"), row("b", "y", "integer"), row("a", "z", "integer")];
    let schema = sqlmo::Schema::from_catalogue(rows, &vec![]).unwrap();
    let names: Vec<&str> = schema.tables.iter().map(|t| t.name.as_str()).collect();
    assert_eq!(names, vec!["a", "b", "a"]);
}

#[test]
fn catalogue_with_unreadable_array_fails() {
    let rows = vec![row("a", "x", "integer"), row("a", "y", "ARRAY")];
    assert_eq!(
        sqlmo::Schema::from_catalogue(rows, &vec![]),
        Err(TypeError::MissingArrayElement)
    );
}
