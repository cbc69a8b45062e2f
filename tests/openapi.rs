use sqlmo::schema::from_openapi::{
    columns_from_properties, FromOpenApiOptions, OpenApiKind, OpenApiProperty, OpenApiSchema,
};
use sqlmo::{Schema, Type};

fn property(name: &str, kind: OpenApiKind) -> OpenApiProperty {
    OpenApiProperty {
        name: name.to_string(),
        kind,
        format: String::new(),
        x_format: None,
        null_as_zero: false,
        required: false,
    }
}

#[test]
fn from_openapi_test_format_date() {
    let mut int_format_date = property("date", OpenApiKind::Integer);
    int_format_date.x_format = Some("date".to_string());
    let mut int_null_as_zero = property("int_null_as_zero", OpenApiKind::Integer);
    int_null_as_zero.null_as_zero = true;

    let columns = columns_from_properties(&vec![int_format_date, int_null_as_zero], &FromOpenApiOptions::default());
    assert_eq!(columns.len(), 2);

    let int_format_date = &columns[0];
    assert_eq!(int_format_date.name, "date");
    assert_eq!(int_format_date.nullable, true);

    let int_null_as_zero = &columns[1];
    assert_eq!(int_null_as_zero.name, "int_null_as_zero");
    assert_eq!(int_null_as_zero.nullable, true);
}

#[test]
fn from_openapi_test_oasformat() {
    let mut z = property("z", OpenApiKind::String);
    z.format = "currency".to_string();
    let t = columns_from_properties(&vec![z], &FromOpenApiOptions::default()).remove(0).typ;
    assert_eq!(t, Type::Numeric(19, 4));

    let mut z = property("z", OpenApiKind::String);
    z.format = "decimal".to_string();
    let t = columns_from_properties(&vec![z], &FromOpenApiOptions::default()).remove(0).typ;
    assert_eq!(t, Type::Decimal);
}

#[test]
fn property_types_and_nullability() {
    let mut required = property("name", OpenApiKind::String);
    required.required = true;
    let mut when = property("when", OpenApiKind::String);
    when.format = "date-time".to_string();
    let props = vec![
        property("id", OpenApiKind::Integer),
        required,
        when,
        property("flag", OpenApiKind::Boolean),
        property("ratio", OpenApiKind::Number),
        property("tags", OpenApiKind::Array),
        property("meta", OpenApiKind::Object),
    ];
    let columns = columns_from_properties(&props, &FromOpenApiOptions::default());
    let summary: Vec<(String, Type, bool, bool)> =
        columns.iter().map(|c| (c.name.clone(), c.typ.clone(), c.nullable, c.primary_key)).collect();
    assert_eq!(
        summary,
        vec![
            ("id".to_string(), Type::I32, false, true),
            ("name".to_string(), Type::Text, false, false),
            ("when".to_string(), Type::DateTime, true, false),
            ("flag".to_string(), Type::Boolean, true, false),
            ("ratio".to_string(), Type::F64, true, false),
            ("meta".to_string(), Type::Jsonb, true, false),
        ]
    );
    let with_arrays = columns_from_properties(&props, &FromOpenApiOptions { include_arrays: true });
    assert_eq!(with_arrays.len(), 7);
    assert_eq!(with_arrays[5].typ, Type::Jsonb);
}

#[test]
fn schemas_become_tables() {
    let schemas = vec![
        OpenApiSchema {
            name: "userAccount".to_string(),
            properties: Some(vec![
                property("displayName", OpenApiKind::String),
                property("userAccountId", OpenApiKind::Integer),
            ]),
        },
        OpenApiSchema { name: "UserResponse".to_string(), properties: Some(vec![]) },
        OpenApiSchema { name: "Plain".to_string(), properties: None },
    ];
    let schema = Schema::from_openapi(schemas, &FromOpenApiOptions::default());
    assert_eq!(schema.tables.len(), 1);
    let t = &schema.tables[0];
    assert_eq!(t.name, "user_account");
    assert_eq!(t.columns[0].name, "display_name");
    assert!(!t.columns[0].primary_key);
    assert_eq!(t.columns[1].name, "user_account_id");
    assert!(!t.columns[1].primary_key);

    let schemas = vec![OpenApiSchema {
        name: "order".to_string(),
        properties: Some(vec![property("uuid", OpenApiKind::String), property("orderId", OpenApiKind::Integer)]),
    }];
    let schema = Schema::from_openapi(schemas, &FromOpenApiOptions::default());
    let keys: Vec<bool> = schema.tables[0].columns.iter().map(|c| c.primary_key).collect();
    assert_eq!(keys, vec![true, false]);
}

#[test]
fn lib_test_format_date() {
    let mut int_format_date = property("date", OpenApiKind::Integer);
    int_format_date.x_format = Some("date".to_string());
    let mut int_null_as_zero = property("int_null_as_zero", OpenApiKind::Integer);
    int_null_as_zero.null_as_zero = true;

    let columns = columns_from_properties(&vec![int_format_date, int_null_as_zero], &FromOpenApiOptions::default());
    assert_eq!(columns.len(), 2);

    let int_format_date = &columns[0];
    assert_eq!(int_format_date.name, "date");
    assert_eq!(int_format_date.nullable, true);

    let int_null_as_zero = &columns[1];
    assert_eq!(int_null_as_zero.name, "int_null_as_zero");
    assert_eq!(int_null_as_zero.nullable, true);
}

#[test]
fn lib_test_oasformat() {
    let mut z = property("z", OpenApiKind::String);
    z.format = "currency".to_string();
    let t = columns_from_properties(&vec![z], &FromOpenApiOptions::default()).remove(0).typ;
    assert_eq!(t, Type::Numeric(19, 4));

    let mut z = property("z", OpenApiKind::String);
    z.format = "decimal".to_string();
    let t = columns_from_properties(&vec![z], &FromOpenApiOptions::default()).remove(0).typ;
    assert_eq!(t, Type::Decimal);
}
