use catalog_core::category::{parse_parent_token, prepare_category_insert};
use catalog_core::envelope::ApiError;
use catalog_core::multipart::{Part, PartError};

fn text_part(name: &str, value: &str) -> Part {
    Part {
        name: name.to_string(),
        file_name: None,
        content_type: None,
        text: value.to_string(),
        bytes: value.as_bytes().to_vec(),
    }
}

fn file_part(name: &str, file_name: &str, content_type: &str, bytes: &[u8]) -> Part {
    Part {
        name: name.to_string(),
        file_name: Some(file_name.to_string()),
        content_type: Some(content_type.to_string()),
        text: String::new(),
        bytes: bytes.to_vec(),
    }
}

#[test]
fn root_token_level_is_sentinel_plus_one() {
    let pf = parse_parent_token("-1").unwrap();
    assert!(pf.parent.is_none());
    assert_eq!(pf.lvl, "0");
}

#[test]
fn child_token_sets_parent_and_level() {
    let pf = parse_parent_token("abc123|2").unwrap();
    assert_eq!(pf.parent.as_deref(), Some("abc123"));
    assert_eq!(pf.lvl, "3");
}

#[test]
fn child_token_with_negative_level() {
    let pf = parse_parent_token("p|-5").unwrap();
    assert_eq!(pf.parent.as_deref(), Some("p"));
    assert_eq!(pf.lvl, "-4");
}

#[test]
fn child_token_keeps_only_second_segment() {
    let pf = parse_parent_token("p|2|junk").unwrap();
    assert_eq!(pf.parent.as_deref(), Some("p"));
    assert_eq!(pf.lvl, "3");
}

#[test]
fn token_without_bar_is_rejected() {
    assert!(matches!(parse_parent_token("garbage"), Err(PartError::BadParentToken)));
}

#[test]
fn token_with_unparsable_level_is_rejected() {
    assert!(matches!(parse_parent_token("p|x"), Err(PartError::BadParentToken)));
    assert!(matches!(parse_parent_token("p|"), Err(PartError::BadParentToken)));
}

#[test]
fn token_whose_level_cannot_grow_is_rejected() {
    assert!(matches!(parse_parent_token("p|2147483647"), Err(PartError::BadParentToken)));
}

#[test]
fn category_form_collects_fields_in_insert_order() {
    let parts = vec![
        text_part("description", "winter gear"),
        text_part("name", "Jackets"),
        text_part("parent", "root42|1"),
        text_part("slug", "jackets"),
        text_part("extra", "ignored"),
    ];
    let (record, writes) = prepare_category_insert(&parts).unwrap();
    assert_eq!(record.name, "Jackets");
    assert_eq!(record.slug, "jackets");
    assert_eq!(record.parent, "root42");
    assert_eq!(record.description, "winter gear");
    assert_eq!(record.display_type, "");
    assert_eq!(record.lvl, "2");
    assert_eq!(record.thumbnail, "");
    assert!(writes.is_empty());
}

#[test]
fn category_root_parent_leaves_parent_empty() {
    let parts = vec![
        text_part("name", "Tops"),
        text_part("slug", "tops"),
        text_part("parent", "-1"),
    ];
    let (record, _) = prepare_category_insert(&parts).unwrap();
    assert_eq!(record.parent, "");
    assert_eq!(record.lvl, "0");
}

#[test]
fn category_missing_name_fails_validation() {
    let parts = vec![text_part("slug", "tops")];
    match prepare_category_insert(&parts) {
        Err(ApiError::Validation { message }) => {
            assert_eq!(message, "Name, slug, and terms are required fields.");
        }
        other => panic!("expected a validation failure, got {:?}", other.is_ok()),
    }
}

#[test]
fn category_thumbnail_path_is_encoded() {
    let parts = vec![
        text_part("name", "Tops"),
        text_part("slug", "tops"),
        file_part("image", "a b.png", "image/png", b"\x89PNG bytes"),
    ];
    let (record, writes) = prepare_category_insert(&parts).unwrap();
    let encoded = base64::Engine::encode(&base64::engine::general_purpose::STANDARD, "a b.png");
    let expected = format!("frontend/img/categories/{}", encoded);
    assert_eq!(record.thumbnail, expected);
    assert!(!record.thumbnail.contains(' '));
    assert_eq!(writes.len(), 1);
    assert_eq!(writes[0].path, expected);
    assert_eq!(writes[0].bytes, b"\x89PNG bytes".to_vec());
}

#[test]
fn category_image_without_subtype_is_rejected() {
    let parts = vec![
        text_part("name", "Tops"),
        text_part("slug", "tops"),
        file_part("image", "a.png", "garbage", b"bytes"),
    ];
    match prepare_category_insert(&parts) {
        Err(ApiError::BadRequest { message }) => {
            assert_eq!(message, "Invalid file type");
        }
        other => panic!("expected a bad-request failure, got {:?}", other.is_ok()),
    }
}

#[test]
fn category_bad_parent_token_is_rejected_as_bad_request() {
    let parts = vec![
        text_part("name", "Tops"),
        text_part("slug", "tops"),
        text_part("parent", "no-bar-here"),
    ];
    match prepare_category_insert(&parts) {
        Err(ApiError::BadRequest { message }) => {
            assert_eq!(message, "Invalid parent token");
        }
        other => panic!("expected a bad-request failure, got {:?}", other.is_ok()),
    }
}
