use sqlmo::query::{
    AlterAction, AlterColumnAction, Case, Conflict, CreateIndex, CreateSchema, CreateTable, Criteria, Cte,
    CteQuery, DropTable, Expr, IndexType, Insert, Join, JoinTable, JoinType, OnConflict, OrderBy, Select,
    Union, Update, Value, Values, Where,
};
use sqlmo::schema::{Column, Table, Type};
use sqlmo::{render, Dialect, SqlError, Statement};

#[test]
fn test_alter_action() {
    let alter = AlterAction::AlterColumn {
        name: "foo".to_string(),
        action: AlterColumnAction::SetType {
            typ: Type::Text,
            using: None,
        },
    };
    assert_eq!(
        alter.to_sql(Dialect::Postgres).unwrap(),
        r#" ALTER COLUMN "foo" TYPE character varying USING "foo"::character varying"#
    );

    let alter = AlterAction::AlterColumn {
        name: "foo".to_string(),
        action: AlterColumnAction::SetType {
            typ: Type::Text,
            using: Some("SUBSTRING(foo, 1, 3)".to_string()),
        },
    };
    assert_eq!(
        alter.to_sql(Dialect::Postgres).unwrap(),
        r#" ALTER COLUMN "foo" TYPE character varying USING SUBSTRING(foo, 1, 3)"#
    );
}

#[test]
fn drop_table_test_drop_table() {
    let t = Table::new("test_table");
    let dt = DropTable::from_table(&t);
    let sql = dt.to_sql(Dialect::Postgres).unwrap().to_string();
    assert_eq!(sql, r#"DROP TABLE "test_table""#);
}

#[test]
fn insert_test_basic() {
    let insert = Insert {
        schema: None,
        table: "foo".to_string(),
        columns: vec!["bar".to_string(), "baz".to_string()],
        values: Values::new_value(Value::with(&["1", "2"])).value(Value::with(&["3", "4"])),
        on_conflict: OnConflict::Abort,
        returning: vec!["id".to_string()],
    };
    assert_eq!(
        insert.to_sql(Dialect::Postgres).unwrap(),
        r#"INSERT INTO "foo" ("bar", "baz") VALUES (1, 2), (3, 4) RETURNING "id""#
    );
}

#[test]
fn test_placeholders() {
    let insert = Insert::new("foo")
        .columns(&["bar", "baz", "qux", "wibble", "wobble", "wubble"])
        .placeholder_for_each_column(Dialect::Postgres)
        .on_conflict(OnConflict::do_update_all_rows(&["bar"]));
    let expected = r#"INSERT INTO "foo" ("bar", "baz", "qux", "wibble", "wobble", "wubble") VALUES ($1, $2, $3, $4, $5, $6) ON CONFLICT ("bar") DO UPDATE SET "baz" = excluded."baz", "qux" = excluded."qux", "wibble" = excluded."wibble", "wobble" = excluded."wobble", "wubble" = excluded."wubble""#;
    assert_eq!(insert.to_sql(Dialect::Postgres).unwrap(), expected);
}

#[test]
fn test_override() {
    let columns = &["id", "name", "email"];

    let update_conditional = columns
        .iter()
        .map(|&c| Expr::not_distinct_from(Expr::table_column("users", c), Expr::excluded(c)))
        .collect::<Vec<_>>();
    let on_conflict_update_value = Expr::case(
        Case::new_when(
            Expr::new_and(update_conditional),
            Expr::table_column("users", "updated_at"),
        )
        .els(Expr::Raw("excluded.updated_at".to_string())),
    );

    let insert = Insert::new("users")
        .columns(columns)
        .column("updated_at")
        .values(Values::new_value(Value::with(&[
            "1",
            "Kurt",
            "test@example.com",
            "NOW()",
        ])))
        .on_conflict(
            OnConflict::do_update_on_pkey("id").alternate_value("updated_at", on_conflict_update_value),
        );
    let sql = insert.to_sql(Dialect::Postgres).unwrap();
    let expected = r#"
INSERT INTO "users" ("id", "name", "email", "updated_at") VALUES
(1, Kurt, test@example.com, NOW())
ON CONFLICT ("id") DO UPDATE SET
"name" = excluded."name",
"email" = excluded."email",
"updated_at" = CASE WHEN
("users"."id" IS NOT DISTINCT FROM excluded."id" AND
"users"."name" IS NOT DISTINCT FROM excluded."name" AND
"users"."email" IS NOT DISTINCT FROM excluded."email")
THEN "users"."updated_at"
ELSE excluded.updated_at END
"#
    .replace("\n", " ");
    assert_eq!(sql, expected.trim());
}

#[test]
fn select_test_basic() {
    let select = Select::default()
        .with_raw("foo", "SELECT 1")
        .with("bar", Select::default().select_raw("1"))
        .select_raw("id")
        .select_raw("name")
        .from("users")
        .join(Join::new("posts").on_raw("users.id = posts.user_id"))
        .where_raw("1=1")
        .order_asc("id")
        .order_desc("name")
        .limit(10)
        .offset(5);
    assert_eq!(
        select.to_sql(Dialect::Postgres).unwrap(),
        r#"WITH foo AS (SELECT 1), bar AS (SELECT 1) SELECT id, name FROM "users" JOIN "posts" ON users.id = posts.user_id WHERE 1=1 ORDER BY id ASC, name DESC LIMIT 10 OFFSET 5"#
    );
}

#[test]
fn join_test_basic() {
    let j = Join {
        typ: JoinType::Inner,
        table: JoinTable::Table {
            schema: None,
            table: "foo".to_string(),
        },
        alias: Some("bar".to_string()),
        criteria: Criteria::On(Where::raw("bar.id = parent.bar_id")),
    };
    assert_eq!(
        j.to_sql(Dialect::Postgres).unwrap(),
        r#"JOIN "foo" AS "bar" ON bar.id = parent.bar_id"#
    );
}

#[test]
fn test_builder() {
    let j = Join::new("table").alias("bar").on_raw("bar.id = parent.bar_id");
    assert_eq!(
        j.to_sql(Dialect::Postgres).unwrap(),
        r#"JOIN "table" AS "bar" ON bar.id = parent.bar_id"#
    );
}

#[test]
fn create_table_from_widgets() {
    let table = Table::new("widgets")
        .column(Column { name: "id".to_string(), typ: Type::I32, nullable: false, primary_key: true, default: None, constraint: None })
        .column(Column { name: "name".to_string(), typ: Type::Text, nullable: true, primary_key: false, default: None, constraint: None })
        .schema("public");
    let create = CreateTable::from_table(&table);
    assert_eq!(
        create.to_sql(Dialect::Postgres).unwrap(),
        "CREATE TABLE \"public\".\"widgets\" (\n\"id\" integer NOT NULL PRIMARY KEY,\n\"name\" character varying\n)"
    );
}

#[test]
fn do_update_all_rows_skips_the_key() {
    let insert = Insert::new("people")
        .columns(&["id", "name", "email"])
        .on_conflict(OnConflict::do_update_on_pkey("id"));
    let sql = insert.to_sql(Dialect::Postgres).unwrap();
    assert!(sql.ends_with(r#"ON CONFLICT ("id") DO UPDATE SET "name" = excluded."name", "email" = excluded."email""#));
    assert!(!sql.contains(r#""id" = excluded."id""#));
}

#[test]
fn ignored_columns_and_later_overrides() {
    let on_conflict = OnConflict::DoUpdateAllRows {
        conflict: Conflict::columns(&["id"]),
        alternate_values: vec![],
        ignore_columns: vec!["created_at".to_string()],
    }
    .alternate_value("n", Expr::Raw("1".to_string()))
    .alternate_value("n", Expr::Raw("2".to_string()));
    let insert = Insert::new("t").columns(&["id", "created_at", "n"]).on_conflict(on_conflict);
    assert_eq!(
        insert.to_sql(Dialect::Postgres).unwrap(),
        r#"INSERT INTO "t" ("id", "created_at", "n") VALUES DEFAULT VALUES ON CONFLICT ("id") DO UPDATE SET "n" = 2"#
    );
    assert_eq!(Conflict::columns(&["a"]).as_columns(), Some(&vec!["a".to_string()]));
    assert_eq!(Conflict::NoTarget.as_columns(), None);
}

#[test]
fn conflict_policies_by_dialect() {
    let base = || Insert::new("t").column("a").one_value(&["1"]);
    assert_eq!(
        base().on_conflict(OnConflict::Ignore).to_sql(Dialect::Sqlite).unwrap(),
        r#"INSERT OR IGNORE INTO "t" ("a") VALUES (1)"#
    );
    assert_eq!(
        base().to_sql(Dialect::Sqlite).unwrap(),
        r#"INSERT OR ABORT INTO "t" ("a") VALUES (1)"#
    );
    assert_eq!(
        base().on_conflict(OnConflict::Replace).to_sql(Dialect::Sqlite).unwrap(),
        r#"INSERT OR REPLACE INTO "t" ("a") VALUES (1)"#
    );
    assert_eq!(
        base().on_conflict(OnConflict::Ignore).to_sql(Dialect::Postgres).unwrap(),
        r#"INSERT INTO "t" ("a") VALUES (1) ON CONFLICT DO NOTHING"#
    );
    assert_eq!(
        base().on_conflict(OnConflict::Ignore).to_sql(Dialect::Mysql).unwrap(),
        r#"INSERT INTO "t" ("a") VALUES (1)"#
    );
    assert_eq!(
        base().on_conflict(OnConflict::do_update_on_pkey("a")).to_sql(Dialect::Sqlite),
        Err(SqlError::SqliteDoUpdate)
    );
    assert_eq!(
        base().on_conflict(OnConflict::Replace).to_sql(Dialect::Postgres),
        Err(SqlError::PostgresReplace)
    );
    assert_eq!(
        base()
            .on_conflict(OnConflict::DoUpdate {
                conflict: Conflict::ConstraintName("t_pkey".to_string()),
                updates: vec![("a".to_string(), Expr::Raw("a + 1".to_string()))],
            })
            .to_sql(Dialect::Postgres)
            .unwrap(),
        r#"INSERT INTO "t" ("a") VALUES (1) ON CONFLICT ON CONSTRAINT "t_pkey" DO UPDATE SET "a" = a + 1"#
    );
    assert_eq!(
        Insert::new("t").schema("s").column("a\"").to_sql(Dialect::Postgres),
        Err(SqlError::QuoteInIdentifier)
    );
}

#[test]
fn placeholders_per_dialect() {
    let v = Value::new().column("x").placeholders(3, Dialect::Postgres);
    assert_eq!(v, Value(vec!["x".to_string(), "$1".to_string(), "$2".to_string(), "$3".to_string()]));
    let v = Value::new().placeholders(2, Dialect::Mysql);
    assert_eq!(v, Value(vec!["?".to_string(), "?".to_string()]));
    let v = Value::new().placeholders(12, Dialect::Postgres);
    assert_eq!(v.0[11], "$12");
    assert_eq!(Value::new().placeholders(0, Dialect::Sqlite), Value(vec![]));
}

#[test]
fn insert_from_select_and_returning() {
    let insert = Insert::new("t")
        .columns(&["a"])
        .values(Values::select(Select::default().table_column("u", "a").from("u")))
        .returning(&["a", "b"]);
    assert_eq!(
        insert.to_sql(Dialect::Postgres).unwrap(),
        r#"INSERT INTO "t" ("a") VALUES SELECT "u"."a" FROM "u"  RETURNING "a", "b""#
    );
    assert_eq!(Values::default_values(), Values::DefaultValues);
}

#[test]
fn select_clauses() {
    let select = Select::default()
        .distinct()
        .table_column("t", "a")
        .from("t")
        .join(Join::left("u").alias("x").on_raw("x.id = t.id"))
        .where_(Where::Or(vec![Where::raw("a"), Where::raw("b")]))
        .where_raw("c")
        .group_by("a")
        .group_by("b")
        .having(Where::raw("count(*) > 1"))
        .order_by(OrderBy::new("a").desc().nulls_last())
        .order_by(OrderBy::new("b").nulls_first());
    assert_eq!(
        select.to_sql(Dialect::Postgres).unwrap(),
        r#"SELECT DISTINCT "t"."a" FROM "t" LEFT JOIN "u" AS "x" ON x.id = t.id WHERE (a OR b) AND c GROUP BY a, b HAVING count(*) > 1 ORDER BY a DESC NULLS LAST, b NULLS FIRST"#
    );
    assert_eq!(Select::default().to_sql(Dialect::Mysql).unwrap(), "SELECT ");
}

#[test]
fn join_forms() {
    let j = Join {
        typ: JoinType::Full,
        table: JoinTable::Select(Select::default().select_raw("1")),
        alias: Some("s".to_string()),
        criteria: Criteria::Using(vec!["a".to_string(), "b".to_string()]),
    };
    assert_eq!(j.to_sql(Dialect::Postgres).unwrap(), r#"FULL JOIN (SELECT 1) AS "s" USING ("a", "b")"#);
    assert_eq!(Join::new("t").to_sql(Dialect::Postgres).unwrap(), r#"JOIN "t" ON "#);
    let bad = Join::new("t").alias("a\"b");
    assert_eq!(bad.to_sql(Dialect::Postgres), Err(SqlError::QuoteInIdentifier));
}

#[test]
fn expressions() {
    let e = Expr::new_and(vec![
        Expr::new_eq(Expr::column("a"), Expr::Raw("1".to_string())),
        Expr::schema_column("s", "t", "b"),
    ]);
    assert_eq!(e.to_sql(Dialect::Postgres).unwrap(), r#"("a" = 1 AND "s"."t"."b")"#);
    let c = Case::new_when(Expr::Raw("x".to_string()), Expr::Raw("1".to_string()))
        .when(Expr::Raw("y".to_string()), Expr::Raw("2".to_string()));
    assert_eq!(Expr::case(c).to_sql(Dialect::Postgres).unwrap(), "CASE WHEN x THEN 1 WHEN y THEN 2 END");
    assert_eq!(Expr::excluded("n").to_sql(Dialect::Postgres).unwrap(), r#"excluded."n""#);
    assert_eq!(Expr::column("a\"").to_sql(Dialect::Postgres), Err(SqlError::QuoteInIdentifier));
}

#[test]
fn where_emptiness() {
    assert!(Where::And(vec![]).is_empty());
    assert!(Where::Or(vec![]).is_empty());
    assert!(Where::Raw(String::new()).is_empty());
    assert!(!Where::raw("").is_empty());
}

#[test]
fn update_statement() {
    let u = Update::new("t").set("a", "1").set("b", "'x'").where_(Where::raw("id = 3"));
    assert_eq!(u.to_sql(Dialect::Postgres).unwrap(), r#"UPDATE "t" SET "a" = 1, "b" = 'x' WHERE id = 3"#);
    let mut u = Update::new("t").set("a", "1");
    u.ctes.push(Cte::new("c", CteQuery::Raw("SELECT 1".to_string())));
    assert_eq!(u.to_sql(Dialect::Postgres).unwrap(), r#"WITH c AS (SELECT 1) UPDATE "t" SET "a" = 1"#);
}

#[test]
fn index_schema_and_union() {
    let i = CreateIndex {
        name: "idx".to_string(),
        unique: true,
        schema: Some("s".to_string()),
        table: "t".to_string(),
        columns: vec!["a".to_string(), "b".to_string()],
        type_: IndexType::default(),
    };
    let mut buf = String::new();
    i.write_sql(&mut buf, Dialect::Postgres).unwrap();
    assert_eq!(buf, r#"CREATE UNIQUE "idx" ON "s"."t" USING BTREE ("a", "b")"#);
    assert_eq!(
        CreateSchema::new("s").if_not_exists().to_sql(Dialect::Postgres).unwrap(),
        r#"CREATE SCHEMA  IF NOT EXISTS "s""#
    );
    let u = Union {
        all: true,
        queries: vec![Select::default().select_raw("1"), Select::default().select_raw("2")],
    };
    let mut buf = String::new();
    u.write_sql(&mut buf, Dialect::Postgres).unwrap();
    assert_eq!(buf, "SELECT 1 UNION ALL SELECT 2");
}

#[test]
fn cte_with_insert_reports_dialect_error() {
    let mut select = Select::default().select_raw("1");
    select.ctes.push(Cte::new(
        "i",
        CteQuery::Insert(Insert::new("t").on_conflict(OnConflict::do_update_on_pkey("id"))),
    ));
    assert_eq!(select.to_sql(Dialect::Sqlite), Err(SqlError::SqliteDoUpdate));
}

#[test]
fn rendering_through_the_trait() {
    let s = Statement::CreateIndex(CreateIndex {
        name: "i".to_string(),
        unique: false,
        schema: None,
        table: "t".to_string(),
        columns: vec!["a".to_string()],
        type_: IndexType::Hash,
    });
    assert_eq!(render(&s, Dialect::Postgres).unwrap(), r#"CREATE "i" ON "t" USING HASH ("a")"#);
    assert_eq!(render(&Where::raw("x = 1"), Dialect::Sqlite).unwrap(), "x = 1");
    assert_eq!(
        render(&Update::new("t\"").set("a", "1"), Dialect::Postgres),
        Err(SqlError::QuoteInIdentifier)
    );
}
