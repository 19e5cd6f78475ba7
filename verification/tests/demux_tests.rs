use catalog_core::envelope::ApiError;
use catalog_core::multipart::{demux_product_parts, prepare_product_insert, product_field_index,
    Part, PartError, GALLERY_SLOT, PRODUCT_FIELD_COUNT};

fn text_part(name: &str, value: &str) -> Part {
    Part {
        name: name.to_string(),
        file_name: None,
        content_type: None,
        text: value.to_string(),
        bytes: value.as_bytes().to_vec(),
    }
}

fn file_part(name: &str, file_name: &str, content_type: &str, bytes: &[u8]) -> Part {
    Part {
        name: name.to_string(),
        file_name: Some(file_name.to_string()),
        content_type: Some(content_type.to_string()),
        text: String::new(),
        bytes: bytes.to_vec(),
    }
}

const FIELD_NAMES: [&str; 17] = [
    "title",
    "description",
    "category",
    "price",
    "sku",
    "product_type",
    "stock",
    "allow_backorders",
    "low_stock_threshold",
    "shipping_weight",
    "product_gallery",
    "attributes",
    "variations",
    "shipping_dimensions",
    "shipping_class",
    "tax_status",
    "tax_class",
];

#[test]
fn field_index_matches_canonical_order() {
    for (i, name) in FIELD_NAMES.iter().enumerate() {
        assert_eq!(product_field_index(name), Some(i));
    }
    assert_eq!(product_field_index("unknown"), None);
    assert_eq!(product_field_index(""), None);
    assert_eq!(PRODUCT_FIELD_COUNT, 17);
    assert_eq!(GALLERY_SLOT, 10);
}

#[test]
fn slots_follow_canonical_order_regardless_of_arrival_order() {
    let parts = vec![
        text_part("tax_class", "standard"),
        text_part("stock", "7"),
        text_part("title", "Lamp"),
        text_part("price", "19.99"),
    ];
    let (slots, writes) = demux_product_parts(&parts).unwrap();
    assert_eq!(slots.len(), 17);
    assert_eq!(slots[0], "Lamp");
    assert_eq!(slots[3], "19.99");
    assert_eq!(slots[6], "7");
    assert_eq!(slots[16], "standard");
    for (i, slot) in slots.iter().enumerate() {
        if ![0, 3, 6, 16].contains(&i) {
            assert_eq!(slot, "");
        }
    }
    assert!(writes.is_empty());
}

#[test]
fn unrecognized_fields_are_skipped() {
    let parts = vec![text_part("title", "Lamp"), text_part("bogus", "x")];
    let (slots, _) = demux_product_parts(&parts).unwrap();
    assert_eq!(slots[0], "Lamp");
    for slot in slots.iter().skip(1) {
        assert_eq!(slot, "");
    }
}

#[test]
fn later_part_with_same_name_wins() {
    let parts = vec![text_part("sku", "first"), text_part("sku", "second")];
    let (slots, _) = demux_product_parts(&parts).unwrap();
    assert_eq!(slots[4], "second");
}

#[test]
fn gallery_upload_lands_in_its_slot_with_encoded_path() {
    let parts = vec![
        text_part("title", "Lamp"),
        file_part("product_gallery", "a b.png", "image/png", b"raw image"),
    ];
    let (slots, writes) = demux_product_parts(&parts).unwrap();
    let encoded = base64::Engine::encode(&base64::engine::general_purpose::STANDARD, "a b.png");
    let expected = format!("frontend/img/products/{}", encoded);
    assert_eq!(slots[10], expected);
    assert!(!slots[10].contains(' '));
    assert_eq!(writes.len(), 1);
    assert_eq!(writes[0].path, expected);
    assert_eq!(writes[0].bytes, b"raw image".to_vec());
}

#[test]
fn gallery_content_type_without_subtype_is_rejected() {
    let parts = vec![
        text_part("title", "Lamp"),
        file_part("product_gallery", "a.png", "garbage", b"raw image"),
    ];
    assert!(matches!(demux_product_parts(&parts), Err(PartError::InvalidFileType)));
    // The same form through the handler-facing entry: a bad request, and
    // nothing handed back to write or insert.
    match prepare_product_insert(&parts) {
        Err(e) => {
            assert_eq!(e.status_code(), 400);
            assert!(matches!(e, ApiError::BadRequest { .. }));
            assert_eq!(e.body(), "{\"status\":\"fail\",\"message\":\"Invalid file type\"}");
        }
        Ok(_) => panic!("a garbage content type must be rejected"),
    }
}

#[test]
fn gallery_part_without_file_metadata_is_rejected() {
    let parts = vec![text_part("product_gallery", "not a file")];
    assert!(matches!(demux_product_parts(&parts), Err(PartError::MissingFileMeta)));
}

#[test]
fn empty_form_yields_all_empty_slots() {
    let parts: Vec<Part> = Vec::new();
    let (slots, writes) = demux_product_parts(&parts).unwrap();
    assert_eq!(slots.len(), 17);
    for slot in slots.iter() {
        assert_eq!(slot, "");
    }
    assert!(writes.is_empty());
}
