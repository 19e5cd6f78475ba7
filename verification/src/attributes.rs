//! Collectors for the attribute and term forms: plain text fields gathered
//! by name, unknown names skipped, and name/slug required before the insert.

use vstd::prelude::*;
use vstd::string::StrSliceExecFns;
use vstd::string::StringExecFns;
use crate::envelope::ApiError;
use crate::multipart::Part;
use crate::schema::ProductAttributes;
use crate::text::str_eq;

verus! {

// ---------------------------------------------------------------------------
// Attributes
// ---------------------------------------------------------------------------

/// The attribute fields gathered so far.
pub struct AttrAcc {
    pub name: Seq<char>,
    pub slug: Seq<char>,
    pub order_by: Seq<char>,
}

/// Before any part arrives: every field empty.
pub open spec fn attr_init() -> AttrAcc {
    AttrAcc { name: Seq::empty(), slug: Seq::empty(), order_by: Seq::empty() }
}

/// What one part does to the state: `attribute_name`, `attribute_slug` and
/// `order_by` are recognized; anything else is skipped. No part is ever
/// rejected.
pub open spec fn attr_step(acc: AttrAcc, p: Part) -> AttrAcc {
    if p.name@ == "attribute_name"@ {
        AttrAcc { name: p.text@, ..acc }
    } else if p.name@ == "attribute_slug"@ {
        AttrAcc { slug: p.text@, ..acc }
    } else if p.name@ == "order_by"@ {
        AttrAcc { order_by: p.text@, ..acc }
    } else {
        acc
    }
}

/// The state after a whole form, part by part.
pub open spec fn attr_fold(parts: Seq<Part>) -> AttrAcc
    decreases parts.len(),
{
    if parts.len() == 0 {
        attr_init()
    } else {
        attr_step(attr_fold(parts.drop_last()), parts.last())
    }
}

/// Collects an attribute from a multipart form.
pub fn collect_attribute_fields(parts: &Vec<Part>) -> (r: ProductAttributes)
    ensures
        r.name@ == attr_fold(parts@).name,
        r.slug@ == attr_fold(parts@).slug,
        r.order_by@ == attr_fold(parts@).order_by,
{
    let mut name = String::new();
    let mut slug = String::new();
    let mut order_by = String::new();
    proof {
        assert(parts@.take(0) =~= Seq::<Part>::empty());
    }
    let mut idx: usize = 0;
    while idx < parts.len()
        invariant
            idx <= parts@.len(),
            name@ == attr_fold(parts@.take(idx as int)).name,
            slug@ == attr_fold(parts@.take(idx as int)).slug,
            order_by@ == attr_fold(parts@.take(idx as int)).order_by,
        decreases parts@.len() - idx,
    {
        let ghost pre = parts@.take(idx as int);
        let ghost cur = parts@.take(idx + 1 as int);
        proof {
            assert(cur.drop_last() =~= pre);
            assert(cur.last() == parts@[idx as int]);
        }
        let p = &parts[idx];
        if str_eq(p.name.as_str(), "attribute_name") {
            name = p.text.clone();
        } else if str_eq(p.name.as_str(), "attribute_slug") {
            slug = p.text.clone();
        } else if str_eq(p.name.as_str(), "order_by") {
            order_by = p.text.clone();
        }
        idx = idx + 1;
    }
    proof {
        assert(parts@.take(parts@.len() as int) =~= parts@);
    }
    ProductAttributes { name, slug, order_by }
}

/// Collects and validates an attribute: `attribute_name` and
/// `attribute_slug` must be non-empty after field collection.
pub fn prepare_attribute_insert(parts: &Vec<Part>) -> (r: Result<ProductAttributes, ApiError>)
    ensures
        r is Ok <==> attr_fold(parts@).name.len() > 0 && attr_fold(parts@).slug.len() > 0,
        r matches Ok(a) ==> {
            &&& a.name@ == attr_fold(parts@).name
            &&& a.slug@ == attr_fold(parts@).slug
            &&& a.order_by@ == attr_fold(parts@).order_by
        },
        r matches Err(e) ==> e is Validation && e.spec_message()
            == "Name, slug, and terms are required fields."@,
{
    let attribute = collect_attribute_fields(parts);
    if attribute.name.as_str().is_empty() || attribute.slug.as_str().is_empty() {
        Err(
            ApiError::Validation {
                message: String::from_str("Name, slug, and terms are required fields."),
            },
        )
    } else {
        Ok(attribute)
    }
}

// ---------------------------------------------------------------------------
// Terms
// ---------------------------------------------------------------------------

/// An attribute term ready to insert: the owning attribute's id as the
/// client sent it (none if the form never carried one), and the term's
/// fields.
pub struct TermDraft {
    pub attribute_id: Option<String>,
    pub name: String,
    pub slug: String,
    pub description: String,
}

/// The term fields gathered so far.
pub struct TermAcc {
    pub attribute_id: Option<Seq<char>>,
    pub name: Seq<char>,
    pub slug: Seq<char>,
    pub description: Seq<char>,
}

/// Before any part arrives: no attribute id, every field empty.
pub open spec fn term_init() -> TermAcc {
    TermAcc {
        attribute_id: None,
        name: Seq::empty(),
        slug: Seq::empty(),
        description: Seq::empty(),
    }
}

/// What one part does to the state: `attribute_id`, `term_name`, `term_slug`
/// and `term_desc` are recognized; anything else is skipped.
pub open spec fn term_step(acc: TermAcc, p: Part) -> TermAcc {
    if p.name@ == "attribute_id"@ {
        TermAcc { attribute_id: Some(p.text@), ..acc }
    } else if p.name@ == "term_name"@ {
        TermAcc { name: p.text@, ..acc }
    } else if p.name@ == "term_slug"@ {
        TermAcc { slug: p.text@, ..acc }
    } else if p.name@ == "term_desc"@ {
        TermAcc { description: p.text@, ..acc }
    } else {
        acc
    }
}

/// The state after a whole form, part by part.
pub open spec fn term_fold(parts: Seq<Part>) -> TermAcc
    decreases parts.len(),
{
    if parts.len() == 0 {
        term_init()
    } else {
        term_step(term_fold(parts.drop_last()), parts.last())
    }
}

/// The collected attribute id, as the contracts see it.
pub open spec fn opt_string_view(o: Option<String>) -> Option<Seq<char>> {
    match o {
        Some(s) => Some(s@),
        None => None,
    }
}

/// Collects a term from a multipart form.
pub fn collect_term_fields(parts: &Vec<Part>) -> (r: TermDraft)
    ensures
        opt_string_view(r.attribute_id) == term_fold(parts@).attribute_id,
        r.name@ == term_fold(parts@).name,
        r.slug@ == term_fold(parts@).slug,
        r.description@ == term_fold(parts@).description,
{
    let mut attribute_id: Option<String> = None;
    let mut name = String::new();
    let mut slug = String::new();
    let mut description = String::new();
    proof {
        assert(parts@.take(0) =~= Seq::<Part>::empty());
    }
    let mut idx: usize = 0;
    while idx < parts.len()
        invariant
            idx <= parts@.len(),
            opt_string_view(attribute_id) == term_fold(parts@.take(idx as int)).attribute_id,
            name@ == term_fold(parts@.take(idx as int)).name,
            slug@ == term_fold(parts@.take(idx as int)).slug,
            description@ == term_fold(parts@.take(idx as int)).description,
        decreases parts@.len() - idx,
    {
        let ghost pre = parts@.take(idx as int);
        let ghost cur = parts@.take(idx + 1 as int);
        proof {
            assert(cur.drop_last() =~= pre);
            assert(cur.last() == parts@[idx as int]);
        }
        let p = &parts[idx];
        if str_eq(p.name.as_str(), "attribute_id") {
            attribute_id = Some(p.text.clone());
        } else if str_eq(p.name.as_str(), "term_name") {
            name = p.text.clone();
        } else if str_eq(p.name.as_str(), "term_slug") {
            slug = p.text.clone();
        } else if str_eq(p.name.as_str(), "term_desc") {
            description = p.text.clone();
        }
        idx = idx + 1;
    }
    proof {
        assert(parts@.take(parts@.len() as int) =~= parts@);
    }
    TermDraft { attribute_id, name, slug, description }
}

/// Collects and validates a term: `term_name` and `term_slug` must be
/// non-empty after field collection.
pub fn prepare_term_insert(parts: &Vec<Part>) -> (r: Result<TermDraft, ApiError>)
    ensures
        r is Ok <==> term_fold(parts@).name.len() > 0 && term_fold(parts@).slug.len() > 0,
        r matches Ok(t) ==> {
            &&& opt_string_view(t.attribute_id) == term_fold(parts@).attribute_id
            &&& t.name@ == term_fold(parts@).name
            &&& t.slug@ == term_fold(parts@).slug
            &&& t.description@ == term_fold(parts@).description
        },
        r matches Err(e) ==> e is Validation && e.spec_message()
            == "Name and slug are required fields."@,
{
    let term = collect_term_fields(parts);
    if term.name.as_str().is_empty() || term.slug.as_str().is_empty() {
        Err(
            ApiError::Validation {
                message: String::from_str("Name and slug are required fields."),
            },
        )
    } else {
        Ok(term)
    }
}

} // verus!
