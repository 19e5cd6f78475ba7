//! Upload-path derivation: a persisted file's relative path is a fixed
//! directory followed by an encoding of the client-supplied file name, so
//! that unsafe characters (spaces above all) never reach the filesystem path.

use vstd::prelude::*;
use vstd::string::StringExecFns;

verus! {

/// What base64's standard engine produces for the UTF-8 bytes of a string.
/// The encoding takes pages to state; the contracts only need its name.
pub uninterp spec fn b64_of(s: Seq<char>) -> Seq<char>;

/// `c` is in the RFC 4648 standard base64 alphabet (`A`–`Z`, `a`–`z`,
/// `0`–`9`, `+`, `/`), or is the `=` padding character.
pub open spec fn is_b64_char(c: char) -> bool {
    (65 <= c as u32 && c as u32 <= 90) || (97 <= c as u32 && c as u32 <= 122) || (48 <= c as u32
        && c as u32 <= 57) || c == '+' || c == '/' || c == '='
}

/// Relies on base64's `Engine::encode` with the standard engine
/// (`engine::general_purpose::STANDARD`): the result is a function of the
/// input bytes alone; every character it emits comes from the standard
/// alphabet or is the `=` pad; and the output is empty exactly for the
/// empty input.
#[verifier::external_body]
fn b64_encode(s: &str) -> (r: String)
    ensures
        r@ == b64_of(s@),
        forall|i: int| 0 <= i < r@.len() ==> is_b64_char(#[trigger] r@[i]),
        r@.len() == 0 <==> s@.len() == 0,
{
    base64::Engine::encode(&base64::engine::general_purpose::STANDARD, s)
}

/// Directory product gallery uploads are persisted under.
pub open spec fn product_upload_dir() -> Seq<char> {
    "frontend/img/products/"@
}

/// Directory category thumbnail uploads are persisted under.
pub open spec fn category_upload_dir() -> Seq<char> {
    "frontend/img/categories/"@
}

/// The relative path a product gallery upload is persisted under: the
/// upload directory followed by the encoded original file name. Every
/// character after the directory comes from the base64 alphabet, so the
/// encoded part never holds a space.
pub fn product_upload_path(original_name: &str) -> (r: String)
    ensures
        r@ == product_upload_dir() + b64_of(original_name@),
        forall|i: int|
            product_upload_dir().len() <= i < r@.len() ==> is_b64_char(#[trigger] r@[i]),
        forall|i: int| product_upload_dir().len() <= i < r@.len() ==> r@[i] != ' ',
{
    let mut r = String::from_str("frontend/img/products/");
    let enc = b64_encode(original_name);
    r.append(enc.as_str());
    r
}

/// The relative path a category thumbnail upload is persisted under; the
/// same shape as a product upload path.
pub fn category_upload_path(original_name: &str) -> (r: String)
    ensures
        r@ == category_upload_dir() + b64_of(original_name@),
        forall|i: int|
            category_upload_dir().len() <= i < r@.len() ==> is_b64_char(#[trigger] r@[i]),
        forall|i: int| category_upload_dir().len() <= i < r@.len() ==> r@[i] != ' ',
{
    let mut r = String::from_str("frontend/img/categories/");
    let enc = b64_encode(original_name);
    r.append(enc.as_str());
    r
}

/// One pending file persistence: the derived relative path and the raw bytes
/// to store there. The demultiplexer hands these back instead of touching
/// the filesystem, so a rejected form performs no write at all.
pub struct FileWrite {
    pub path: String,
    pub bytes: Vec<u8>,
}

/// A pending file persistence, as the contracts see it.
pub struct FileWriteV {
    pub path: Seq<char>,
    pub bytes: Seq<u8>,
}

impl View for FileWrite {
    type V = FileWriteV;

    open spec fn view(&self) -> FileWriteV {
        FileWriteV { path: self.path@, bytes: self.bytes@ }
    }
}

/// `s` is a file extension the gallery page renders.
pub open spec fn is_image_ext(s: Seq<char>) -> bool {
    s == "jpg"@ || s == "png"@ || s == "jpeg"@ || s == "gif"@ || s == "webp"@
}

/// Decides whether a file extension belongs to a renderable image.
pub fn image_extension_accepted(ext: &str) -> (r: bool)
    ensures
        r == is_image_ext(ext@),
{
    crate::text::str_eq(ext, "jpg") || crate::text::str_eq(ext, "png") || crate::text::str_eq(
        ext,
        "jpeg",
    ) || crate::text::str_eq(ext, "gif") || crate::text::str_eq(ext, "webp")
}

/// Copies a byte buffer.
pub fn clone_bytes(v: &Vec<u8>) -> (r: Vec<u8>)
    ensures
        r@ == v@,
{
    let mut r: Vec<u8> = Vec::new();
    let mut i: usize = 0;
    while i < v.len()
        invariant
            i <= v@.len(),
            r@ == v@.subrange(0, i as int),
        decreases v@.len() - i,
    {
        r.push(v[i]);
        proof {
            assert(v@.subrange(0, i as int).push(v@[i as int]) =~= v@.subrange(0, i + 1 as int));
        }
        i = i + 1;
    }
    proof {
        assert(v@.subrange(0, v@.len() as int) =~= v@);
    }
    r
}

} // verus!
