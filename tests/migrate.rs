use sqlmo::migrate::{migrate, DebugResults, MigrationOptions, Statement};
use sqlmo::query::{AlterAction, AlterColumnAction, DropTable, Where};
use sqlmo::schema::{Column, Constraint, ForeignKey, Schema, Table, Type};
use sqlmo::Dialect;

fn column(name: &str, typ: Type, nullable: bool, primary_key: bool) -> Column {
    Column {
        name: name.to_string(),
        typ,
        nullable,
        primary_key,
        default: None,
        constraint: None,
    }
}

fn fk_column(name: &str, table: &str) -> Column {
    Column {
        name: name.to_string(),
        typ: Type::I32,
        nullable: false,
        primary_key: false,
        default: None,
        constraint: Some(Constraint::ForeignKey(ForeignKey {
            table: table.to_string(),
            columns: vec!["id".to_string()],
        })),
    }
}

fn create_position(statements: &[Statement], name: &str) -> usize {
    statements
        .iter()
        .position(|s| matches!(s, Statement::CreateTable(c) if c.name == name))
        .unwrap()
}

#[test]
fn migrate_test_drop_table() {
    let empty_schema = Schema::default();
    let mut single_table_schema = Schema::default();
    let t = Table::new("new_table");
    single_table_schema.tables.push(t.clone());
    let mut allow_destructive_options = MigrationOptions::default();
    allow_destructive_options.allow_destructive = true;

    let mut migrations = migrate(single_table_schema, empty_schema, &allow_destructive_options);

    let statement = migrations.statements.pop().unwrap();
    let expected_statement = Statement::DropTable(DropTable {
        schema: t.schema,
        name: t.name,
    });

    assert_eq!(statement, expected_statement);
}

#[test]
fn test_drop_table_without_destructive_operations() {
    let empty_schema = Schema::default();
    let mut single_table_schema = Schema::default();
    let t = Table::new("new_table");
    single_table_schema.tables.push(t.clone());
    let options = MigrationOptions::default();

    let migrations = migrate(single_table_schema, empty_schema, &options);
    assert!(migrations.statements.is_empty());
}

#[test]
fn test_topological_sort_statements() {
    let empty_schema = Schema::default();
    let mut schema_with_tables = Schema::default();

    let team_table = Table::new("team").column(column("id", Type::I32, false, true));
    let user_table = Table::new("user")
        .column(column("id", Type::I32, false, true))
        .column(Column {
            name: "team_id".to_string(),
            typ: Type::I32,
            nullable: false,
            primary_key: false,
            default: None,
            constraint: Some(Constraint::ForeignKey(ForeignKey {
                table: "team".to_string(),
                columns: vec!["id".to_string()],
            })),
        });

    schema_with_tables.tables.push(user_table);
    schema_with_tables.tables.push(team_table);

    let options = MigrationOptions::default();
    let migration = migrate(empty_schema, schema_with_tables, &options);

    let team_index = create_position(&migration.statements, "team");
    let user_index = create_position(&migration.statements, "user");
    assert!(
        team_index < user_index,
        "Team table should be created before User table"
    );
}

#[test]
fn same_schema_gives_no_statement_and_identical_notes() {
    let schema = || Schema {
        tables: vec![
            Table::new("a").column(column("id", Type::I32, false, true)),
            Table::new("b")
                .column(column("id", Type::I64, false, true))
                .column(column("x", Type::Other("money".to_string()), true, false)),
        ],
    };
    let m = migrate(schema(), schema(), &MigrationOptions::default());
    assert!(m.statements.is_empty());
    assert!(m.is_empty());
    assert_eq!(
        m.debug_results,
        vec![
            DebugResults::TablesIdentical("a".to_string()),
            DebugResults::TablesIdentical("b".to_string()),
        ]
    );
}

#[test]
fn skipped_drop_is_noted_once() {
    let current = Schema { tables: vec![Table::new("old"), Table::new("kept")] };
    let desired = Schema { tables: vec![Table::new("kept")] };
    let m = migrate(current, desired, &MigrationOptions::default());
    assert!(m.statements.is_empty());
    assert_eq!(
        m.debug_results,
        vec![
            DebugResults::TablesIdentical("kept".to_string()),
            DebugResults::SkippedDropTable("old".to_string()),
        ]
    );
    assert_eq!(m.debug_results[1].table_name(), "old");
}

#[test]
fn allowed_drop_emits_one_drop_table() {
    let current = Schema { tables: vec![Table::new("old"), Table::new("kept")] };
    let desired = Schema { tables: vec![Table::new("kept")] };
    let options = MigrationOptions { debug: false, allow_destructive: true };
    let m = migrate(current, desired, &options);
    assert_eq!(m.statements.len(), 1);
    assert_eq!(m.statements[0].table_name(), "old");
    assert_eq!(m.statements[0].to_sql(Dialect::Postgres).unwrap(), r#"DROP TABLE "old""#);
}

#[test]
fn required_column_takes_three_statements() {
    let current = Schema { tables: vec![Table::new("t").column(column("id", Type::I32, false, true))] };
    let desired = Schema {
        tables: vec![Table::new("t")
            .column(column("id", Type::I32, false, true))
            .column(column("age", Type::I32, false, false))],
    };
    let m = migrate(current, desired, &MigrationOptions::default());
    assert_eq!(m.statements.len(), 3);
    let sql: Vec<String> = m.statements.iter().map(|s| s.to_sql(Dialect::Postgres).unwrap()).collect();
    assert_eq!(sql[0], r#"ALTER TABLE "t" ADD COLUMN "age" integer"#);
    assert_eq!(
        sql[1],
        r#"UPDATE "t" SET "age" = /* TODO set a value before setting the column to null */ WHERE true"#
    );
    assert_eq!(sql[2], r#"ALTER TABLE "t" ALTER COLUMN "age" SET NOT NULL"#);
    assert!(m.debug_results.is_empty());
}

#[test]
fn nullable_column_and_changes_merge_into_one_alter() {
    let current = Schema {
        tables: vec![Table::new("t")
            .column(column("id", Type::I32, false, true))
            .column(column("name", Type::Text, false, false))
            .column(column("owner", Type::I32, true, false))],
    };
    let mut owner = fk_column("owner", "users");
    owner.nullable = true;
    let desired = Schema {
        tables: vec![Table::new("t")
            .column(column("id", Type::I64, false, true))
            .column(column("name", Type::Text, true, false))
            .column(owner)
            .column(column("note", Type::Text, true, false))],
    };
    let m = migrate(current, desired, &MigrationOptions::default());
    assert_eq!(m.statements.len(), 1);
    match &m.statements[0] {
        Statement::AlterTable(a) => {
            assert_eq!(a.actions.len(), 4);
            assert_eq!(
                a.actions[0],
                AlterAction::AlterColumn {
                    name: "id".to_string(),
                    action: AlterColumnAction::SetType { typ: Type::I64, using: None },
                }
            );
            assert_eq!(
                a.actions[1],
                AlterAction::AlterColumn {
                    name: "name".to_string(),
                    action: AlterColumnAction::SetNullable(true),
                }
            );
            assert!(matches!(&a.actions[2], AlterAction::AddConstraint { name, .. } if name == "fk_t_owner"));
            assert!(matches!(&a.actions[3], AlterAction::AddColumn { column } if column.name == "note"));
        }
        other => panic!("unexpected statement {:?}", other),
    }
    assert_eq!(
        m.statements[0].to_sql(Dialect::Postgres).unwrap(),
        r#"ALTER TABLE "t" ALTER COLUMN "id" TYPE bigint USING "id"::bigint, ALTER COLUMN "name" DROP NOT NULL, ADD CONSTRAINT "fk_t_owner" FOREIGN KEY ("owner") REFERENCES "users"("id"), ADD COLUMN "note" character varying"#
    );
}

#[test]
fn unmodelled_current_type_is_left_alone() {
    let current = Schema { tables: vec![Table::new("t").column(column("c", Type::Other("citext".to_string()), true, false))] };
    let desired = Schema { tables: vec![Table::new("t").column(column("c", Type::Text, true, false))] };
    let m = migrate(current, desired, &MigrationOptions::default());
    assert!(m.statements.is_empty());
    assert_eq!(m.debug_results, vec![DebugResults::TablesIdentical("t".to_string())]);
}

#[test]
fn cyclic_references_keep_every_create() {
    let desired = Schema {
        tables: vec![
            Table::new("a").column(fk_column("b_id", "b")),
            Table::new("b").column(fk_column("a_id", "a")),
            Table::new("c"),
            Table::new("d").column(fk_column("c_id", "c")),
        ],
    };
    let m = migrate(Schema::default(), desired, &MigrationOptions::default());
    assert_eq!(m.statements.len(), 4);
    assert!(create_position(&m.statements, "c") < create_position(&m.statements, "d"));
    assert!(create_position(&m.statements, "c") < create_position(&m.statements, "a"));
    assert!(create_position(&m.statements, "c") < create_position(&m.statements, "b"));
}

#[test]
fn chain_of_references_is_ordered() {
    let desired = Schema {
        tables: vec![
            Table::new("c").column(fk_column("b_id", "b")),
            Table::new("b").column(fk_column("a_id", "a")),
            Table::new("a"),
            Table::new("x").column(fk_column("y_id", "missing")),
        ],
    };
    let m = migrate(Schema::default(), desired, &MigrationOptions::default());
    assert_eq!(m.statements.len(), 4);
    assert!(create_position(&m.statements, "a") < create_position(&m.statements, "b"));
    assert!(create_position(&m.statements, "b") < create_position(&m.statements, "c"));
    let _ = create_position(&m.statements, "x");
}

#[test]
fn set_schema_qualifies_every_statement() {
    let desired = Schema { tables: vec![Table::new("a"), Table::new("b")] };
    let mut m = migrate(Schema::default(), desired, &MigrationOptions::default());
    m.set_schema("public");
    for s in &m.statements {
        assert!(s.to_sql(Dialect::Postgres).unwrap().starts_with(r#"CREATE TABLE "public"."#));
    }
}

#[test]
fn name_schema_and_migrate_to() {
    let mut desired = Schema::new();
    desired.tables.push(Table::new("w"));
    desired.name_schema("public");
    assert_eq!(desired.tables[0].schema.as_deref(), Some("public"));
    let m = Schema::default().migrate_to(desired, &MigrationOptions::new());
    assert_eq!(m.statements[0].to_sql(Dialect::Postgres).unwrap(), "CREATE TABLE \"public\".\"w\" (\n\n)");
}

#[test]
fn backfill_statement_is_an_update() {
    let current = Schema { tables: vec![Table::new("t")] };
    let desired = Schema { tables: vec![Table::new("t").column(column("n", Type::I16, false, false))] };
    let m = migrate(current, desired, &MigrationOptions::default());
    match &m.statements[1] {
        Statement::Update(u) => {
            assert_eq!(u.table, "t");
            assert_eq!(u.values[0].0, "n");
            assert!(matches!(&u.where_, Where::And(v) if v.len() == 1));
        }
        other => panic!("unexpected statement {:?}", other),
    }
}

#[test]
fn backfill_needs_manual_completion() {
    let current = Schema { tables: vec![Table::new("t")] };
    let desired = Schema { tables: vec![Table::new("t").column(column("n", Type::I16, false, false))] };
    let m = migrate(current, desired, &MigrationOptions::default());
    let flags: Vec<bool> = m.statements.iter().map(|s| s.needs_manual_completion()).collect();
    assert_eq!(flags, vec![false, true, false]);
}

#[test]
fn backfill_carries_the_table_schema() {
    let current = Schema { tables: vec![Table::new("t").schema("app")] };
    let desired = Schema { tables: vec![Table::new("t").schema("app").column(column("n", Type::I16, false, false))] };
    let m = migrate(current, desired, &MigrationOptions::default());
    assert_eq!(
        m.statements[1].to_sql(Dialect::Postgres).unwrap(),
        r#"UPDATE "app"."t" SET "n" = /* TODO set a value before setting the column to null */ WHERE true"#
    );
    assert!(m.statements[1].needs_manual_completion());
}

#[test]
fn unmodelled_desired_type_is_left_alone() {
    let current = Schema { tables: vec![Table::new("t").column(column("c", Type::Text, true, false))] };
    let desired = Schema { tables: vec![Table::new("t").column(column("c", Type::Other("citext".to_string()), true, false))] };
    let m = migrate(current, desired, &MigrationOptions::default());
    assert!(m.statements.is_empty());
}

#[test]
fn creates_come_out_in_the_same_order_every_time() {
    let desired = || Schema {
        tables: (0..12).map(|i| Table::new(&format!("t{}", i))).collect(),
    };
    let names = |m: &sqlmo::Migration| -> Vec<String> {
        m.statements.iter().map(|s| s.table_name().to_string()).collect()
    };
    let first = names(&migrate(Schema::default(), desired(), &MigrationOptions::default()));
    for _ in 0..5 {
        assert_eq!(names(&migrate(Schema::default(), desired(), &MigrationOptions::default())), first);
    }
}
