use catalog_core::attributes::{collect_attribute_fields, collect_term_fields,
    prepare_attribute_insert, prepare_term_insert};
use catalog_core::envelope::ApiError;
use catalog_core::multipart::Part;

fn text_part(name: &str, value: &str) -> Part {
    Part {
        name: name.to_string(),
        file_name: None,
        content_type: None,
        text: value.to_string(),
        bytes: value.as_bytes().to_vec(),
    }
}

#[test]
fn attribute_fields_are_collected_by_name() {
    let parts = vec![
        text_part("order_by", "menu_order"),
        text_part("attribute_name", "Color"),
        text_part("attribute_slug", "color"),
        text_part("stray", "ignored"),
    ];
    let attribute = collect_attribute_fields(&parts);
    assert_eq!(attribute.name, "Color");
    assert_eq!(attribute.slug, "color");
    assert_eq!(attribute.order_by, "menu_order");
}

#[test]
fn attribute_with_name_and_slug_is_accepted() {
    let parts = vec![
        text_part("attribute_name", "Color"),
        text_part("attribute_slug", "color"),
    ];
    let attribute = prepare_attribute_insert(&parts).unwrap();
    assert_eq!(attribute.name, "Color");
    assert_eq!(attribute.order_by, "");
}

#[test]
fn attribute_missing_slug_fails_validation() {
    let parts = vec![text_part("attribute_name", "Color")];
    match prepare_attribute_insert(&parts) {
        Err(ApiError::Validation { message }) => {
            assert_eq!(message, "Name, slug, and terms are required fields.");
        }
        Ok(_) => panic!("a slugless attribute must be rejected"),
        Err(_) => panic!("expected a validation failure"),
    }
}

#[test]
fn term_fields_are_collected_by_name() {
    let parts = vec![
        text_part("term_desc", "a shade of blue"),
        text_part("attribute_id", "0a1b2c"),
        text_part("term_name", "Navy"),
        text_part("term_slug", "navy"),
    ];
    let term = collect_term_fields(&parts);
    assert_eq!(term.attribute_id.as_deref(), Some("0a1b2c"));
    assert_eq!(term.name, "Navy");
    assert_eq!(term.slug, "navy");
    assert_eq!(term.description, "a shade of blue");
}

#[test]
fn term_without_attribute_id_keeps_none() {
    let parts = vec![text_part("term_name", "Navy"), text_part("term_slug", "navy")];
    let term = prepare_term_insert(&parts).unwrap();
    assert!(term.attribute_id.is_none());
    assert_eq!(term.description, "");
}

#[test]
fn term_missing_name_fails_validation() {
    let parts = vec![text_part("term_slug", "navy")];
    match prepare_term_insert(&parts) {
        Err(ApiError::Validation { message }) => {
            assert_eq!(message, "Name and slug are required fields.");
        }
        Ok(_) => panic!("a nameless term must be rejected"),
        Err(_) => panic!("expected a validation failure"),
    }
}
