use catalog_core::pagination::{compute_pagination, DEFAULT_LIST_LIMIT, FEATURED_PRODUCTS_LIMIT};
use catalog_core::schema::FilterOptions;

#[test]
fn limit_five_page_two_yields_offset_five() {
    let opts = FilterOptions { page: Some(2), limit: Some(5) };
    let (limit, offset) = compute_pagination(&opts, DEFAULT_LIST_LIMIT);
    assert_eq!(limit, 5);
    assert_eq!(offset, 5);
}

#[test]
fn absent_parameters_yield_component_default_and_offset_zero() {
    let opts = FilterOptions { page: None, limit: None };
    let (limit, offset) = compute_pagination(&opts, FEATURED_PRODUCTS_LIMIT);
    assert_eq!(limit, 14);
    assert_eq!(offset, 0);

    let (limit2, offset2) = compute_pagination(&opts, DEFAULT_LIST_LIMIT);
    assert_eq!(limit2, 10);
    assert_eq!(offset2, 0);
}

#[test]
fn page_one_yields_offset_zero() {
    let opts = FilterOptions { page: Some(1), limit: Some(25) };
    let (limit, offset) = compute_pagination(&opts, DEFAULT_LIST_LIMIT);
    assert_eq!(limit, 25);
    assert_eq!(offset, 0);
}

#[test]
fn default_filter_options_are_empty() {
    let opts = FilterOptions::default();
    assert!(opts.page.is_none());
    assert!(opts.limit.is_none());
}
