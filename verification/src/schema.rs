//! Request-shaped records: what the routing layer decodes out of query
//! strings and request bodies before handing them to the core.

use vstd::prelude::*;

verus! {

/// Optional `page` and `limit` query parameters of a list request.
#[derive(Clone, Copy, Debug)]
pub struct FilterOptions {
    pub page: Option<usize>,
    pub limit: Option<usize>,
}

impl Default for FilterOptions {
    /// Absent query parameters: both fields empty.
    fn default() -> (r: FilterOptions)
        ensures
            r.page is None,
            r.limit is None,
    {
        FilterOptions { page: None, limit: None }
    }
}

/// A single decoded path parameter.
#[derive(Clone, Debug)]
pub struct ParamOptions {
    pub id: String,
}

/// A product attribute as a client submits it.
#[derive(Clone, Debug)]
pub struct ProductAttributes {
    pub name: String,
    pub slug: String,
    pub order_by: String,
}

/// A product category as a client submits it.
#[derive(Clone, Debug)]
pub struct ProductCategories {
    pub parent: String,
    pub name: String,
    pub slug: String,
    pub order_by: String,
    pub description: String,
    pub display_type: String,
    pub thumbnail: String,
}

/// An attribute term as a client submits it.
#[derive(Clone, Debug)]
pub struct ProductTerms {
    pub name: String,
    pub slug: String,
    pub description: Option<String>,
}

/// A full product as a client submits it: seventeen scalar text fields and
/// an optional published flag. Numeric-looking fields (price, stock) are
/// stored as text; nothing here guarantees they parse.
#[derive(Clone, Debug)]
pub struct CreateProductSchema {
    pub title: String,
    pub description: String,
    pub category: String,
    pub price: String,
    pub sku: String,
    pub product_type: String,
    pub stock: String,
    pub allow_backorders: String,
    pub low_stock_threshold: String,
    pub shipping_weight: String,
    pub product_gallery: String,
    pub attributes: String,
    pub variations: String,
    pub shipping_dimensions: String,
    pub shipping_class: String,
    pub tax_status: String,
    pub tax_class: String,
    pub published: Option<bool>,
}

} // verus!
