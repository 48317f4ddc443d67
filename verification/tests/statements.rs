use zcash_voting::storage::sql::{numbered_sql, IntoSqlValue, MissingParameter, Params, SqlValue};

fn text(value: &str) -> SqlValue {
    SqlValue::Text(value.to_string())
}

#[test]
fn values_are_bound() {
    assert_eq!("a".into_sql_value(), text("a"));
    assert_eq!("a".to_string().into_sql_value(), text("a"));
    assert_eq!((&"a".to_string()).into_sql_value(), text("a"));
    assert_eq!([1u8, 2].into_sql_value(), SqlValue::Blob(vec![1, 2]));
    assert_eq!((&[1u8, 2]).into_sql_value(), SqlValue::Blob(vec![1, 2]));
    assert_eq!([1u8, 2].as_slice().into_sql_value(), SqlValue::Blob(vec![1, 2]));
    assert_eq!(vec![1u8].into_sql_value(), SqlValue::Blob(vec![1]));
    assert_eq!((&vec![1u8]).into_sql_value(), SqlValue::Blob(vec![1]));
    assert_eq!(u64::MAX.into_sql_value(), SqlValue::Integer(-1));
    assert_eq!((&-5i8).into_sql_value(), SqlValue::Integer(-5));
    assert_eq!(true.into_sql_value(), SqlValue::Integer(1));
    assert_eq!(None::<i64>.into_sql_value(), SqlValue::Null);
    assert_eq!(Some("a").into_sql_value(), text("a"));
    assert_eq!((&Some(vec![1u8])).into_sql_value(), SqlValue::Blob(vec![1]));
    assert_eq!((&None::<String>).into_sql_value(), SqlValue::Null);
}

#[test]
fn names_are_numbered() {
    let params = Params::named(vec![
        (":round_id", text("r")),
        (":é", SqlValue::Null),
        (":id", SqlValue::Integer(4)),
        (":id", SqlValue::Integer(5)),
    ]);
    assert_eq!(
        numbered_sql("SELECT 'ü' WHERE a=:round_id AND b=:id;", &params).unwrap(),
        "SELECT 'ü' WHERE a=?1 AND b=?4;"
    );
    assert_eq!(
        numbered_sql("a = :round AND :id", &params),
        Err(MissingParameter {
            name: ":round".to_string()
        })
    );
    assert_eq!(
        numbered_sql("a = :é", &params).unwrap_err().text(),
        "missing SQL parameter :"
    );
    assert_eq!(
        params.into_values(),
        vec![text("r"), SqlValue::Null, SqlValue::Integer(4), SqlValue::Integer(5)]
    );
}

#[test]
fn positional_statements_stay() {
    let params = Params::positional(vec![SqlValue::Integer(1)]);
    assert_eq!(numbered_sql("a = :x AND b = ?1", &params).unwrap(), "a = :x AND b = ?1");
    assert_eq!(params.into_values(), vec![SqlValue::Integer(1)]);
    assert_eq!(Params::default().into_values(), vec![]);
}
