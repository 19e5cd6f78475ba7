//! The multipart field demultiplexer: routes each received part of a product
//! form into a fixed-order slot array by field name, treating exactly one
//! field — `product_gallery` — as a file upload whose persisted path lands in
//! its slot. File contents are handed back as pending writes, so a rejected
//! form performs no write and no insert.

use vstd::prelude::*;
use vstd::string::StrSliceExecFns;
use vstd::string::StringExecFns;
use crate::envelope::ApiError;
use crate::text::{contains_char, find_char, str_eq};
use crate::upload::{b64_of, clone_bytes, product_upload_dir, product_upload_path, FileWrite,
    FileWriteV};

verus! {

broadcast use vstd::string::group_string_axioms;

/// One decoded part of a multipart form, as the routing layer hands it over:
/// the field name, the file metadata when the part carried a file, the body
/// as text, and the body as raw bytes.
pub struct Part {
    pub name: String,
    pub file_name: Option<String>,
    pub content_type: Option<String>,
    pub text: String,
    pub bytes: Vec<u8>,
}

/// Why a part was rejected: a file part without file name or content type,
/// a content type with no `/`-delimited subtype, or a parent token that does
/// not parse.
#[derive(Clone, Copy, Debug, PartialEq, Eq, Structural)]
pub enum PartError {
    MissingFileMeta,
    InvalidFileType,
    BadParentToken,
}

/// The user-facing message for a rejected part.
pub open spec fn part_error_message(e: PartError) -> Seq<char> {
    match e {
        PartError::MissingFileMeta => "Invalid file upload"@,
        PartError::InvalidFileType => "Invalid file type"@,
        PartError::BadParentToken => "Invalid parent token"@,
    }
}

/// Turns a rejected part into the bad-request failure a handler answers with.
pub fn part_error_to_api(e: PartError) -> (r: ApiError)
    ensures
        r is BadRequest,
        r.spec_message() == part_error_message(e),
{
    match e {
        PartError::MissingFileMeta => ApiError::BadRequest {
            message: String::from_str("Invalid file upload"),
        },
        PartError::InvalidFileType => ApiError::BadRequest {
            message: String::from_str("Invalid file type"),
        },
        PartError::BadParentToken => ApiError::BadRequest {
            message: String::from_str("Invalid parent token"),
        },
    }
}

// ---------------------------------------------------------------------------
// The canonical product field order
// ---------------------------------------------------------------------------

/// Number of columns in a product insert.
pub const PRODUCT_FIELD_COUNT: usize = 17;

/// Slot position of the file-upload field, `product_gallery`.
pub const GALLERY_SLOT: usize = 10;

/// The i-th canonical product field name — the exact column order of the
/// product insert statement.
pub open spec fn product_field_name(i: int) -> Seq<char> {
    if i == 0 {
        "title"@
    } else if i == 1 {
        "description"@
    } else if i == 2 {
        "category"@
    } else if i == 3 {
        "price"@
    } else if i == 4 {
        "sku"@
    } else if i == 5 {
        "product_type"@
    } else if i == 6 {
        "stock"@
    } else if i == 7 {
        "allow_backorders"@
    } else if i == 8 {
        "low_stock_threshold"@
    } else if i == 9 {
        "shipping_weight"@
    } else if i == 10 {
        "product_gallery"@
    } else if i == 11 {
        "attributes"@
    } else if i == 12 {
        "variations"@
    } else if i == 13 {
        "shipping_dimensions"@
    } else if i == 14 {
        "shipping_class"@
    } else if i == 15 {
        "tax_status"@
    } else {
        "tax_class"@
    }
}

/// The slot a field name is routed to, or `None` for an unrecognized name.
pub open spec fn spec_product_field_index(name: Seq<char>) -> Option<int> {
    if name == "title"@ {
        Some(0int)
    } else if name == "description"@ {
        Some(1int)
    } else if name == "category"@ {
        Some(2int)
    } else if name == "price"@ {
        Some(3int)
    } else if name == "sku"@ {
        Some(4int)
    } else if name == "product_type"@ {
        Some(5int)
    } else if name == "stock"@ {
        Some(6int)
    } else if name == "allow_backorders"@ {
        Some(7int)
    } else if name == "low_stock_threshold"@ {
        Some(8int)
    } else if name == "shipping_weight"@ {
        Some(9int)
    } else if name == "product_gallery"@ {
        Some(10int)
    } else if name == "attributes"@ {
        Some(11int)
    } else if name == "variations"@ {
        Some(12int)
    } else if name == "shipping_dimensions"@ {
        Some(13int)
    } else if name == "shipping_class"@ {
        Some(14int)
    } else if name == "tax_status"@ {
        Some(15int)
    } else if name == "tax_class"@ {
        Some(16int)
    } else {
        None
    }
}

/// A recognized name's slot is its position in the canonical order.
pub proof fn lemma_field_index_inverse(name: Seq<char>, i: int)
    requires
        spec_product_field_index(name) == Some(i),
    ensures
        0 <= i < 17,
        name == product_field_name(i),
{
}

/// The canonical names are pairwise distinct: looking the i-th name up
/// yields slot i.
#[verifier::rlimit(50)]
pub proof fn lemma_field_names_distinct()
    ensures
        forall|i: int|
            0 <= i < 17 ==> spec_product_field_index(#[trigger] product_field_name(i)) == Some(i),
{
    reveal_strlit("title");
    reveal_strlit("description");
    reveal_strlit("category");
    reveal_strlit("price");
    reveal_strlit("sku");
    reveal_strlit("product_type");
    reveal_strlit("stock");
    reveal_strlit("allow_backorders");
    reveal_strlit("low_stock_threshold");
    reveal_strlit("shipping_weight");
    reveal_strlit("product_gallery");
    reveal_strlit("attributes");
    reveal_strlit("variations");
    reveal_strlit("shipping_dimensions");
    reveal_strlit("shipping_class");
    reveal_strlit("tax_status");
    reveal_strlit("tax_class");
    assert("title"@.len() == 5);
    assert("description"@.len() == 11);
    assert("category"@.len() == 8);
    assert("price"@.len() == 5);
    assert("sku"@.len() == 3);
    assert("product_type"@.len() == 12);
    assert("stock"@.len() == 5);
    assert("allow_backorders"@.len() == 16);
    assert("low_stock_threshold"@.len() == 19);
    assert("shipping_weight"@.len() == 15);
    assert("product_gallery"@.len() == 15);
    assert("attributes"@.len() == 10);
    assert("variations"@.len() == 10);
    assert("shipping_dimensions"@.len() == 19);
    assert("shipping_class"@.len() == 14);
    assert("tax_status"@.len() == 10);
    assert("tax_class"@.len() == 9);
    assert("title"@[0] == 't');
    assert("price"@[0] == 'p');
    assert("stock"@[0] == 's');
    assert("shipping_weight"@[0] == 's');
    assert("product_gallery"@[0] == 'p');
    assert("attributes"@[0] == 'a');
    assert("variations"@[0] == 'v');
    assert("tax_status"@[0] == 't');
    assert("low_stock_threshold"@[0] == 'l');
    assert("shipping_dimensions"@[0] == 's');
    assert(spec_product_field_index(product_field_name(0)) == Some(0int));
    assert(spec_product_field_index(product_field_name(1)) == Some(1int));
    assert(spec_product_field_index(product_field_name(2)) == Some(2int));
    assert(spec_product_field_index(product_field_name(3)) == Some(3int));
    assert(spec_product_field_index(product_field_name(4)) == Some(4int));
    assert(spec_product_field_index(product_field_name(5)) == Some(5int));
    assert(spec_product_field_index(product_field_name(6)) == Some(6int));
    assert(spec_product_field_index(product_field_name(7)) == Some(7int));
    assert(spec_product_field_index(product_field_name(8)) == Some(8int));
    assert(spec_product_field_index(product_field_name(9)) == Some(9int));
    assert(spec_product_field_index(product_field_name(10)) == Some(10int));
    assert(spec_product_field_index(product_field_name(11)) == Some(11int));
    assert(spec_product_field_index(product_field_name(12)) == Some(12int));
    assert(spec_product_field_index(product_field_name(13)) == Some(13int));
    assert(spec_product_field_index(product_field_name(14)) == Some(14int));
    assert(spec_product_field_index(product_field_name(15)) == Some(15int));
    assert(spec_product_field_index(product_field_name(16)) == Some(16int));
}

/// Looks a field name up in the canonical order.
pub fn product_field_index(name: &str) -> (r: Option<usize>)
    ensures
        match r {
            Some(i) => i < 17 && spec_product_field_index(name@) == Some(i as int),
            None => spec_product_field_index(name@) is None,
        },
{
    if str_eq(name, "title") {
        Some(0)
    } else if str_eq(name, "description") {
        Some(1)
    } else if str_eq(name, "category") {
        Some(2)
    } else if str_eq(name, "price") {
        Some(3)
    } else if str_eq(name, "sku") {
        Some(4)
    } else if str_eq(name, "product_type") {
        Some(5)
    } else if str_eq(name, "stock") {
        Some(6)
    } else if str_eq(name, "allow_backorders") {
        Some(7)
    } else if str_eq(name, "low_stock_threshold") {
        Some(8)
    } else if str_eq(name, "shipping_weight") {
        Some(9)
    } else if str_eq(name, "product_gallery") {
        Some(10)
    } else if str_eq(name, "attributes") {
        Some(11)
    } else if str_eq(name, "variations") {
        Some(12)
    } else if str_eq(name, "shipping_dimensions") {
        Some(13)
    } else if str_eq(name, "shipping_class") {
        Some(14)
    } else if str_eq(name, "tax_status") {
        Some(15)
    } else if str_eq(name, "tax_class") {
        Some(16)
    } else {
        None
    }
}

// ---------------------------------------------------------------------------
// The demultiplexer, one part at a time
// ---------------------------------------------------------------------------

/// The demultiplexer's state: the seventeen slots, and the writes collected
/// so far.
pub struct DemuxAcc {
    pub slots: Seq<Seq<char>>,
    pub writes: Seq<FileWriteV>,
}

/// Before any part arrives: every slot empty, nothing to write.
pub open spec fn demux_init() -> DemuxAcc {
    DemuxAcc { slots: Seq::new(17, |i: int| Seq::<char>::empty()), writes: Seq::empty() }
}

/// What one part does to the state. The file field is handled first, as its
/// own case: its part must carry a file name and a content type, the content
/// type must have a `/`-delimited subtype, and the derived upload path lands
/// in the gallery slot while the bytes join the pending writes. Every other
/// recognized name routes the part's text into its slot; an unrecognized
/// name changes nothing.
pub open spec fn demux_step(acc: DemuxAcc, p: Part) -> Result<DemuxAcc, PartError> {
    if p.name@ == "product_gallery"@ {
        match (p.file_name, p.content_type) {
            (Some(fname), Some(ctype)) => {
                if contains_char(ctype@, '/') {
                    let path = product_upload_dir() + b64_of(fname@);
                    Ok(
                        DemuxAcc {
                            slots: acc.slots.update(10, path),
                            writes: acc.writes.push(FileWriteV { path: path, bytes: p.bytes@ }),
                        },
                    )
                } else {
                    Err(PartError::InvalidFileType)
                }
            },
            _ => Err(PartError::MissingFileMeta),
        }
    } else {
        match spec_product_field_index(p.name@) {
            Some(i) => Ok(DemuxAcc { slots: acc.slots.update(i, p.text@), ..acc }),
            None => Ok(acc),
        }
    }
}

/// The state after a whole form, part by part; the first rejected part wins.
pub open spec fn demux_fold(parts: Seq<Part>) -> Result<DemuxAcc, PartError>
    decreases parts.len(),
{
    if parts.len() == 0 {
        Ok(demux_init())
    } else {
        match demux_fold(parts.drop_last()) {
            Ok(acc) => demux_step(acc, parts.last()),
            Err(e) => Err(e),
        }
    }
}

/// An accepted form always has exactly seventeen slots.
pub proof fn lemma_demux_fold_len(parts: Seq<Part>)
    requires
        demux_fold(parts) is Ok,
    ensures
        demux_fold(parts)->Ok_0.slots.len() == 17,
    decreases parts.len(),
{
    if parts.len() > 0 {
        lemma_demux_fold_len(parts.drop_last());
    }
}

/// Once a prefix is rejected, the whole form is rejected the same way.
pub proof fn lemma_demux_fold_err(parts: Seq<Part>, i: int)
    requires
        0 <= i <= parts.len(),
        demux_fold(parts.take(i)) is Err,
    ensures
        demux_fold(parts) == demux_fold(parts.take(i)),
    decreases parts.len() - i,
{
    if i < parts.len() {
        assert(parts.take(i + 1).drop_last() =~= parts.take(i));
        assert(parts.take(i + 1).last() == parts[i]);
        lemma_demux_fold_err(parts, i + 1);
    } else {
        assert(parts.take(i) =~= parts);
    }
}

/// Demultiplexes a product form: on success, the seventeen slot values in
/// canonical order and the pending file writes; on the first malformed file
/// part, its rejection — and then nothing is handed back to write.
pub fn demux_product_parts(parts: &Vec<Part>) -> (r: Result<(Vec<String>, Vec<FileWrite>), PartError>)
    ensures
        match r {
            Ok(sw) => {
                &&& demux_fold(parts@) is Ok
                &&& sw.0@.len() == 17
                &&& sw.0@.map_values(|s: String| s@) == demux_fold(parts@)->Ok_0.slots
                &&& sw.1@.map_values(|w: FileWrite| w@) == demux_fold(parts@)->Ok_0.writes
            },
            Err(e) => demux_fold(parts@) == Err::<DemuxAcc, PartError>(e),
        },
{
    let mut slots: Vec<String> = Vec::new();
    let mut j: usize = 0;
    while j < 17
        invariant
            j <= 17,
            slots@.len() == j,
            forall|t: int| 0 <= t < j ==> (#[trigger] slots@[t])@ == Seq::<char>::empty(),
        decreases 17 - j,
    {
        slots.push(String::new());
        j = j + 1;
    }
    let mut writes: Vec<FileWrite> = Vec::new();
    proof {
        assert(slots@.map_values(|s: String| s@) =~= demux_init().slots);
        assert(writes@.map_values(|w: FileWrite| w@) =~= demux_init().writes);
        assert(parts@.take(0) =~= Seq::<Part>::empty());
    }
    let mut idx: usize = 0;
    while idx < parts.len()
        invariant
            idx <= parts@.len(),
            slots@.len() == 17,
            demux_fold(parts@.take(idx as int)) is Ok,
            slots@.map_values(|s: String| s@) == demux_fold(parts@.take(idx as int))->Ok_0.slots,
            writes@.map_values(|w: FileWrite| w@) == demux_fold(
                parts@.take(idx as int),
            )->Ok_0.writes,
        decreases parts@.len() - idx,
    {
        let ghost pre = parts@.take(idx as int);
        let ghost cur = parts@.take(idx + 1 as int);
        proof {
            assert(cur.drop_last() =~= pre);
            assert(cur.last() == parts@[idx as int]);
        }
        let p = &parts[idx];
        if str_eq(p.name.as_str(), "product_gallery") {
            match (&p.file_name, &p.content_type) {
                (Some(fname), Some(ctype)) => {
                    match find_char(ctype.as_str(), '/') {
                        Some(_) => {
                            let path = product_upload_path(fname.as_str());
                            let bytes = clone_bytes(&p.bytes);
                            let w = FileWrite { path: path.clone(), bytes };
                            writes.push(w);
                            slots[10] = path;
                            proof {
                                let acc = demux_fold(pre)->Ok_0;
                                let acc2 = demux_fold(cur)->Ok_0;
                                assert(slots@.map_values(|s: String| s@) =~= acc2.slots);
                                assert(writes@.map_values(|w2: FileWrite| w2@) =~= acc2.writes);
                            }
                        },
                        None => {
                            proof {
                                assert(demux_fold(cur) == Err::<DemuxAcc, PartError>(
                                    PartError::InvalidFileType,
                                ));
                                lemma_demux_fold_err(parts@, idx + 1);
                            }
                            return Err(PartError::InvalidFileType);
                        },
                    }
                },
                _ => {
                    proof {
                        assert(demux_fold(cur) == Err::<DemuxAcc, PartError>(
                            PartError::MissingFileMeta,
                        ));
                        lemma_demux_fold_err(parts@, idx + 1);
                    }
                    return Err(PartError::MissingFileMeta);
                },
            }
        } else {
            match product_field_index(p.name.as_str()) {
                Some(i) => {
                    slots[i] = p.text.clone();
                    proof {
                        let acc2 = demux_fold(cur)->Ok_0;
                        assert(slots@.map_values(|s: String| s@) =~= acc2.slots);
                    }
                },
                None => {
                    proof {
                        assert(demux_fold(cur) == demux_fold(pre));
                    }
                },
            }
        }
        idx = idx + 1;
    }
    proof {
        assert(parts@.take(parts@.len() as int) =~= parts@);
    }
    Ok((slots, writes))
}

/// Demultiplexes a product form and shapes a rejection as the bad-request
/// failure the handler answers with. The plain product path performs no
/// required-field validation: empty slots go to the insert as empty strings.
pub fn prepare_product_insert(parts: &Vec<Part>) -> (r: Result<(Vec<String>, Vec<FileWrite>), ApiError>)
    ensures
        match r {
            Ok(sw) => {
                &&& demux_fold(parts@) is Ok
                &&& sw.0@.len() == 17
                &&& sw.0@.map_values(|s: String| s@) == demux_fold(parts@)->Ok_0.slots
                &&& sw.1@.map_values(|w: FileWrite| w@) == demux_fold(parts@)->Ok_0.writes
            },
            Err(e) => {
                &&& demux_fold(parts@) is Err
                &&& e is BadRequest
                &&& e.spec_message() == part_error_message(demux_fold(parts@)->Err_0)
            },
        },
{
    match demux_product_parts(parts) {
        Ok(sw) => Ok(sw),
        Err(e) => Err(part_error_to_api(e)),
    }
}

// ---------------------------------------------------------------------------
// Positional laws: arrival order does not matter
// ---------------------------------------------------------------------------

/// Law: for a text slot, the slot holds the text of the last part carrying
/// that slot's canonical name, wherever in the form that part arrived.
pub proof fn lemma_demux_positional(parts: Seq<Part>, i: int, j: int)
    requires
        demux_fold(parts) is Ok,
        0 <= i < 17,
        i != 10,
        0 <= j < parts.len(),
        parts[j].name@ == product_field_name(i),
        forall|j2: int| j < j2 < parts.len() ==> (#[trigger] parts[j2].name@) != product_field_name(i),
    ensures
        demux_fold(parts)->Ok_0.slots[i] == parts[j].text@,
    decreases parts.len(),
{
    lemma_field_names_distinct();
    let prev = parts.drop_last();
    assert(demux_fold(prev) is Ok);
    lemma_demux_fold_len(prev);
    lemma_demux_fold_len(parts);
    let p = parts.last();
    if j == parts.len() - 1 {
        assert(spec_product_field_index(p.name@) == Some(i));
        assert(p.name@ != "product_gallery"@) by {
            lemma_field_names_distinct();
            assert(product_field_name(10) == "product_gallery"@);
            if p.name@ == "product_gallery"@ {
                assert(spec_product_field_index(p.name@) == Some(10int));
            }
        }
    } else {
        assert(p.name@ != product_field_name(i)) by {
            assert(parts[parts.len() - 1].name@ != product_field_name(i));
        }
        assert(forall|j2: int|
            j < j2 < prev.len() ==> (#[trigger] prev[j2].name@) != product_field_name(i));
        lemma_demux_positional(prev, i, j);
        // The last part carries another name, so it leaves slot i alone.
        if p.name@ == "product_gallery"@ {
            assert(i != 10);
        } else {
            match spec_product_field_index(p.name@) {
                Some(k) => {
                    lemma_field_index_inverse(p.name@, k);
                    assert(k != i);
                },
                None => {},
            }
        }
    }
}

/// Law: a text slot whose canonical name no part carries stays empty.
pub proof fn lemma_demux_unset(parts: Seq<Part>, i: int)
    requires
        demux_fold(parts) is Ok,
        0 <= i < 17,
        i != 10,
        forall|j: int| 0 <= j < parts.len() ==> (#[trigger] parts[j].name@) != product_field_name(i),
    ensures
        demux_fold(parts)->Ok_0.slots[i] == Seq::<char>::empty(),
    decreases parts.len(),
{
    if parts.len() == 0 {
    } else {
        let prev = parts.drop_last();
        assert(demux_fold(prev) is Ok);
        lemma_demux_fold_len(prev);
        lemma_demux_fold_len(parts);
        let p = parts.last();
        assert(p.name@ != product_field_name(i)) by {
            assert(parts[parts.len() - 1].name@ != product_field_name(i));
        }
        assert(forall|j: int|
            0 <= j < prev.len() ==> (#[trigger] prev[j].name@) != product_field_name(i));
        lemma_demux_unset(prev, i);
        if p.name@ == "product_gallery"@ {
            assert(i != 10);
        } else {
            match spec_product_field_index(p.name@) {
                Some(k) => {
                    lemma_field_index_inverse(p.name@, k);
                    assert(k != i);
                },
                None => {},
            }
        }
    }
}

/// Law: the gallery slot holds the upload path derived from the last
/// gallery part's file name, wherever in the form that part arrived.
pub proof fn lemma_demux_gallery(parts: Seq<Part>, j: int)
    requires
        demux_fold(parts) is Ok,
        0 <= j < parts.len(),
        parts[j].name@ == "product_gallery"@,
        forall|j2: int| j < j2 < parts.len() ==> (#[trigger] parts[j2].name@) != "product_gallery"@,
    ensures
        parts[j].file_name is Some,
        demux_fold(parts)->Ok_0.slots[10] == product_upload_dir() + b64_of(
            parts[j].file_name->0@,
        ),
    decreases parts.len(),
{
    let prev = parts.drop_last();
    assert(demux_fold(prev) is Ok);
    lemma_demux_fold_len(prev);
    lemma_demux_fold_len(parts);
    let p = parts.last();
    if j == parts.len() - 1 {
    } else {
        assert(p.name@ != "product_gallery"@) by {
            assert(parts[parts.len() - 1].name@ != "product_gallery"@);
        }
        assert(forall|j2: int|
            j < j2 < prev.len() ==> (#[trigger] prev[j2].name@) != "product_gallery"@);
        lemma_demux_gallery(prev, j);
        match spec_product_field_index(p.name@) {
            Some(k) => {
                lemma_field_index_inverse(p.name@, k);
                assert(k != 10) by {
                    lemma_field_names_distinct();
                    if k == 10 {
                        assert(spec_product_field_index(product_field_name(10)) == Some(10int));
                    }
                }
            },
            None => {},
        }
    }
}

} // verus!
