use wrought::templates::{TemplateError, TemplateSets};

#[test]
fn ids_are_fresh_and_unknown_ids_are_errors() {
    let mut sets: TemplateSets<String> = TemplateSets::new();
    let a = sets.init_template("first".to_string()).unwrap();
    let b = sets.init_template("second".to_string()).unwrap();
    assert_ne!(a, b);
    assert_eq!(sets.get(b), Ok(&"second".to_string()));
    assert_eq!(sets.drop_template(a), Ok(()));
    assert_eq!(sets.drop_template(a), Err(TemplateError::UnknownTemplateSet(a)));
    assert_eq!(sets.get(a), Err(TemplateError::UnknownTemplateSet(a)));
    let c = sets.init_template("third".to_string()).unwrap();
    assert_ne!(c, a);
    assert_eq!(
        sets.replace(a, "x".to_string()),
        Err(TemplateError::UnknownTemplateSet(a))
    );
}

#[test]
fn replace_swaps_the_engine_of_one_set() {
    let mut sets: TemplateSets<Vec<u8>> = TemplateSets::new();
    let a = sets.init_template(vec![1]).unwrap();
    let b = sets.init_template(vec![2]).unwrap();
    assert_eq!(sets.replace(a, vec![3]), Ok(vec![1]));
    assert_eq!(sets.get(a), Ok(&vec![3]));
    assert_eq!(sets.get(b), Ok(&vec![2]));
}
