use wrought::table_shape::{table_shape, TableKey, TableKeyError, TableShape};

#[test]
fn empty_table() {
    assert_eq!(table_shape(&vec![]), Ok(TableShape::Empty));
}

#[test]
fn positions_make_an_array_as_long_as_the_largest() {
    let keys = vec![TableKey::Index(1), TableKey::Index(4), TableKey::Index(2)];
    assert_eq!(table_shape(&keys), Ok(TableShape::Array(4)));
}

#[test]
fn names_make_an_object() {
    let keys = vec![TableKey::Name("a".to_string()), TableKey::Name("b".to_string())];
    assert_eq!(table_shape(&keys), Ok(TableShape::Object));
}

#[test]
fn mixed_or_other_keys_are_errors() {
    let mixed = vec![TableKey::Index(1), TableKey::Name("two".to_string())];
    assert_eq!(table_shape(&mixed), Err(TableKeyError::InvalidTableKey));
    assert_eq!(table_shape(&vec![TableKey::Other]), Err(TableKeyError::InvalidTableKey));
}
