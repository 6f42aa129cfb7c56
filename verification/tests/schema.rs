use divvun_api::graphql::schema::QueryRoot;

#[test]
fn item_is_the_sample_item() {
    let item = QueryRoot.item("7".to_string());
    assert_eq!(item.id, "324");
    assert_eq!(item.text, "gurble");
    assert_eq!(item.suggestions, vec!["garble".to_string(), "groble".to_string()]);
}
