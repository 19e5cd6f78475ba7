//! The category tree builder: a category's depth (`lvl`) and its `parent`
//! reference are computed from a compound client-supplied token. The root
//! sentinel `"-1"` yields a level computed by arithmetic on the sentinel
//! itself — parse it as an integer and add one — and a non-root token
//! `"<parent_id>|<parent_lvl>"` yields `parent = parent_id` and
//! `lvl = parent_lvl + 1`. The builder trusts the client-supplied level; it
//! never consults the store.

use vstd::prelude::*;
use vstd::string::StrSliceExecFns;
use vstd::string::StringExecFns;
use crate::envelope::ApiError;
use crate::multipart::{part_error_message, part_error_to_api, Part, PartError};
use crate::text::{contains_char, find_char, find_char_from, first_index_of, int_rep, int_str_mag,
    int_str_sign, int_str_val, is_first_index_of, is_i32_str, i32_to_string,
    lemma_first_index_unique, parse_i32, str_eq, dec_digit_val, digits_val};
use crate::upload::{b64_of, category_upload_dir, category_upload_path, clone_bytes, FileWrite,
    FileWriteV};

verus! {

broadcast use vstd::string::group_string_axioms;

// ---------------------------------------------------------------------------
// The parent token
// ---------------------------------------------------------------------------

/// The root sentinel: the literal token marking "no parent".
pub open spec fn sentinel_seq() -> Seq<char> {
    "-1"@
}

/// The token names the root: it is exactly the sentinel.
pub open spec fn is_root_token(s: Seq<char>) -> bool {
    s == sentinel_seq()
}

/// The parent id of a non-root token: everything before the first `|`.
pub open spec fn child_token_parent(s: Seq<char>) -> Seq<char> {
    s.take(first_index_of(s, '|'))
}

/// The level segment of a non-root token: between the first `|` and the
/// second, or to the end where there is no second.
pub open spec fn child_token_level_seg(s: Seq<char>) -> Seq<char> {
    let k = first_index_of(s, '|');
    let rest = s.subrange(k + 1, s.len() as int);
    if contains_char(rest, '|') {
        rest.take(first_index_of(rest, '|'))
    } else {
        rest
    }
}

/// A usable non-root token: it holds a `|`, its level segment parses as an
/// `i32`, and adding one to that level still fits.
pub open spec fn is_valid_child_token(s: Seq<char>) -> bool {
    contains_char(s, '|') && is_i32_str(child_token_level_seg(s)) && int_str_val(
        child_token_level_seg(s),
    ) < i32::MAX
}

/// The parent level a non-root token reports.
pub open spec fn child_token_level(s: Seq<char>) -> int {
    int_str_val(child_token_level_seg(s))
}

/// Any token the builder accepts.
pub open spec fn is_valid_parent_token(s: Seq<char>) -> bool {
    is_root_token(s) || is_valid_child_token(s)
}

/// The sentinel parses as the integer -1.
pub proof fn lemma_sentinel_val()
    ensures
        is_i32_str(sentinel_seq()),
        int_str_val(sentinel_seq()) == -1,
{
    reveal_strlit("-1");
    assert(sentinel_seq().len() == 2);
    assert(sentinel_seq()[0] == '-');
    assert(sentinel_seq()[1] == '1');
    let mag = int_str_mag(sentinel_seq());
    assert(mag =~= seq!['1']);
    assert(mag.drop_last() =~= Seq::<char>::empty());
    assert(digits_val(mag.drop_last()) == 0);
    assert(dec_digit_val('1') == 1);
    assert(digits_val(mag) == 1);
    assert(int_str_sign(sentinel_seq()) == -1);
}

/// What a parsed parent token contributes to the category: a new `parent`
/// value where the token named one, and the computed `lvl` string.
pub struct ParentFields {
    pub parent: Option<String>,
    pub lvl: String,
}

/// Parses a parent token. The sentinel keeps `parent` untouched and computes
/// `lvl` by parsing the sentinel itself as an integer and adding one — by
/// arithmetic on the token, not from a constant. A non-root token splits on its
/// first `|`: the prefix becomes `parent`, the following segment parses as
/// the parent's level, and `lvl` is that level plus one. Anything else is
/// rejected as a malformed part.
pub fn parse_parent_token(token: &str) -> (r: Result<ParentFields, PartError>)
    ensures
        r is Ok <==> is_valid_parent_token(token@),
        is_root_token(token@) ==> (r matches Ok(pf) && pf.parent is None && pf.lvl@ == int_rep(
            int_str_val(sentinel_seq()) + 1,
        )),
        !is_root_token(token@) && is_valid_child_token(token@) ==> (r matches Ok(pf)
            && pf.parent matches Some(p) && p@ == child_token_parent(token@) && pf.lvl@ == int_rep(
            child_token_level(token@) + 1,
        )),
        r is Err ==> r->Err_0 == PartError::BadParentToken,
{
    if str_eq(token, "-1") {
        proof {
            lemma_sentinel_val();
        }
        match parse_i32(token) {
            Some(v) => {
                let lvl = i32_to_string(v + 1);
                Ok(ParentFields { parent: None, lvl })
            },
            None => {
                proof {
                    assert(false);
                }
                Err(PartError::BadParentToken)
            },
        }
    } else {
        let n = token.unicode_len();
        match find_char(token, '|') {
            None => Err(PartError::BadParentToken),
            Some(k) => {
                proof {
                    lemma_first_index_unique(token@, '|', k as int);
                }
                let parent_str = token.substring_char(0, k);
                let ghost rest = token@.subrange(k + 1, n as int);
                let k2: usize = match find_char_from(token, '|', k + 1) {
                    Some(j) => {
                        proof {
                            assert(rest[j - k - 1] == token@[j as int]);
                            assert(forall|m: int|
                                0 <= m < j - k - 1 ==> rest[m] == token@[k + 1 + m]);
                            assert(is_first_index_of(rest, '|', j - k - 1));
                            lemma_first_index_unique(rest, '|', j - k - 1);
                        }
                        j
                    },
                    None => {
                        proof {
                            assert(forall|m: int|
                                0 <= m < rest.len() ==> rest[m] == token@[k + 1 + m]);
                            assert(!contains_char(rest, '|'));
                        }
                        n
                    },
                };
                let seg = token.substring_char(k + 1, k2);
                proof {
                    assert(seg@ =~= child_token_level_seg(token@));
                    assert(token@.take(k as int) =~= token@.subrange(0, k as int));
                }
                match parse_i32(seg) {
                    None => Err(PartError::BadParentToken),
                    Some(v) => {
                        if v == i32::MAX {
                            Err(PartError::BadParentToken)
                        } else {
                            let lvl = i32_to_string(v + 1);
                            Ok(ParentFields { parent: Some(parent_str.to_owned()), lvl })
                        }
                    },
                }
            },
        }
    }
}

// ---------------------------------------------------------------------------
// Collecting a category from a multipart form
// ---------------------------------------------------------------------------

/// The seven columns of a category insert, in statement order: name, slug,
/// parent, description, display_type, lvl, thumbnail.
pub struct CategoryRecord {
    pub name: String,
    pub slug: String,
    pub parent: String,
    pub description: String,
    pub display_type: String,
    pub lvl: String,
    pub thumbnail: String,
}

/// The collector's state: the field values gathered so far, and the pending
/// thumbnail writes.
pub struct CatAcc {
    pub name: Seq<char>,
    pub slug: Seq<char>,
    pub parent: Seq<char>,
    pub description: Seq<char>,
    pub lvl: Seq<char>,
    pub thumbnail: Seq<char>,
    pub writes: Seq<FileWriteV>,
}

/// Before any part arrives: every field empty. A form without a parent part
/// leaves `lvl` empty, and one without an image leaves `thumbnail` empty.
pub open spec fn cat_init() -> CatAcc {
    CatAcc {
        name: Seq::empty(),
        slug: Seq::empty(),
        parent: Seq::empty(),
        description: Seq::empty(),
        lvl: Seq::empty(),
        thumbnail: Seq::empty(),
        writes: Seq::empty(),
    }
}

/// What one part does to the state. The recognized names are `name`, `slug`,
/// `parent`, `description` and `image`; anything else is skipped. A root
/// parent token only sets `lvl` — `parent` keeps whatever it held. An image
/// part must carry a file name and a `/`-delimited content type; its derived
/// upload path becomes the thumbnail and its bytes join the pending writes.
pub open spec fn cat_step(acc: CatAcc, p: Part) -> Result<CatAcc, PartError> {
    if p.name@ == "name"@ {
        Ok(CatAcc { name: p.text@, ..acc })
    } else if p.name@ == "slug"@ {
        Ok(CatAcc { slug: p.text@, ..acc })
    } else if p.name@ == "parent"@ {
        if is_root_token(p.text@) {
            Ok(CatAcc { lvl: int_rep(int_str_val(sentinel_seq()) + 1), ..acc })
        } else if is_valid_child_token(p.text@) {
            Ok(
                CatAcc {
                    parent: child_token_parent(p.text@),
                    lvl: int_rep(child_token_level(p.text@) + 1),
                    ..acc
                },
            )
        } else {
            Err(PartError::BadParentToken)
        }
    } else if p.name@ == "description"@ {
        Ok(CatAcc { description: p.text@, ..acc })
    } else if p.name@ == "image"@ {
        match (p.file_name, p.content_type) {
            (Some(fname), Some(ctype)) => {
                if contains_char(ctype@, '/') {
                    let path = category_upload_dir() + b64_of(fname@);
                    Ok(
                        CatAcc {
                            thumbnail: path,
                            writes: acc.writes.push(FileWriteV { path: path, bytes: p.bytes@ }),
                            ..acc
                        },
                    )
                } else {
                    Err(PartError::InvalidFileType)
                }
            },
            _ => Err(PartError::MissingFileMeta),
        }
    } else {
        Ok(acc)
    }
}

/// The state after a whole form, part by part; the first rejected part wins.
pub open spec fn cat_fold(parts: Seq<Part>) -> Result<CatAcc, PartError>
    decreases parts.len(),
{
    if parts.len() == 0 {
        Ok(cat_init())
    } else {
        match cat_fold(parts.drop_last()) {
            Ok(acc) => cat_step(acc, parts.last()),
            Err(e) => Err(e),
        }
    }
}

/// Once a prefix is rejected, the whole form is rejected the same way.
pub proof fn lemma_cat_fold_err(parts: Seq<Part>, i: int)
    requires
        0 <= i <= parts.len(),
        cat_fold(parts.take(i)) is Err,
    ensures
        cat_fold(parts) == cat_fold(parts.take(i)),
    decreases parts.len() - i,
{
    if i < parts.len() {
        assert(parts.take(i + 1).drop_last() =~= parts.take(i));
        assert(parts.take(i + 1).last() == parts[i]);
        lemma_cat_fold_err(parts, i + 1);
    } else {
        assert(parts.take(i) =~= parts);
    }
}

/// Collects a category from a multipart form: the record's fields in insert
/// order plus the pending thumbnail writes, or the first part rejection.
/// `display_type` is never set from the form; it stays empty.
pub fn collect_category_fields(parts: &Vec<Part>) -> (r: Result<
    (CategoryRecord, Vec<FileWrite>),
    PartError,
>)
    ensures
        match r {
            Ok(rw) => {
                &&& cat_fold(parts@) is Ok
                &&& rw.0.name@ == cat_fold(parts@)->Ok_0.name
                &&& rw.0.slug@ == cat_fold(parts@)->Ok_0.slug
                &&& rw.0.parent@ == cat_fold(parts@)->Ok_0.parent
                &&& rw.0.description@ == cat_fold(parts@)->Ok_0.description
                &&& rw.0.display_type@ == Seq::<char>::empty()
                &&& rw.0.lvl@ == cat_fold(parts@)->Ok_0.lvl
                &&& rw.0.thumbnail@ == cat_fold(parts@)->Ok_0.thumbnail
                &&& rw.1@.map_values(|w: FileWrite| w@) == cat_fold(parts@)->Ok_0.writes
            },
            Err(e) => cat_fold(parts@) == Err::<CatAcc, PartError>(e),
        },
{
    let mut name = String::new();
    let mut slug = String::new();
    let mut parent = String::new();
    let mut description = String::new();
    let mut lvl = String::new();
    let mut thumbnail = String::new();
    let mut writes: Vec<FileWrite> = Vec::new();
    proof {
        assert(writes@.map_values(|w: FileWrite| w@) =~= cat_init().writes);
        assert(parts@.take(0) =~= Seq::<Part>::empty());
    }
    let mut idx: usize = 0;
    while idx < parts.len()
        invariant
            idx <= parts@.len(),
            cat_fold(parts@.take(idx as int)) is Ok,
            name@ == cat_fold(parts@.take(idx as int))->Ok_0.name,
            slug@ == cat_fold(parts@.take(idx as int))->Ok_0.slug,
            parent@ == cat_fold(parts@.take(idx as int))->Ok_0.parent,
            description@ == cat_fold(parts@.take(idx as int))->Ok_0.description,
            lvl@ == cat_fold(parts@.take(idx as int))->Ok_0.lvl,
            thumbnail@ == cat_fold(parts@.take(idx as int))->Ok_0.thumbnail,
            writes@.map_values(|w: FileWrite| w@) == cat_fold(parts@.take(idx as int))->Ok_0.writes,
        decreases parts@.len() - idx,
    {
        let ghost pre = parts@.take(idx as int);
        let ghost cur = parts@.take(idx + 1 as int);
        proof {
            assert(cur.drop_last() =~= pre);
            assert(cur.last() == parts@[idx as int]);
        }
        let p = &parts[idx];
        if str_eq(p.name.as_str(), "name") {
            name = p.text.clone();
        } else if str_eq(p.name.as_str(), "slug") {
            slug = p.text.clone();
        } else if str_eq(p.name.as_str(), "parent") {
            match parse_parent_token(p.text.as_str()) {
                Ok(pf) => {
                    match pf.parent {
                        Some(ps) => {
                            parent = ps;
                        },
                        None => {},
                    }
                    lvl = pf.lvl;
                },
                Err(e) => {
                    proof {
                        assert(cat_fold(cur) == Err::<CatAcc, PartError>(e));
                        lemma_cat_fold_err(parts@, idx + 1);
                    }
                    return Err(e);
                },
            }
        } else if str_eq(p.name.as_str(), "description") {
            description = p.text.clone();
        } else if str_eq(p.name.as_str(), "image") {
            match (&p.file_name, &p.content_type) {
                (Some(fname), Some(ctype)) => {
                    match find_char(ctype.as_str(), '/') {
                        Some(_) => {
                            let path = category_upload_path(fname.as_str());
                            let bytes = clone_bytes(&p.bytes);
                            let w = FileWrite { path: path.clone(), bytes };
                            writes.push(w);
                            thumbnail = path;
                            proof {
                                assert(writes@.map_values(|w2: FileWrite| w2@) =~= cat_fold(
                                    cur,
                                )->Ok_0.writes);
                            }
                        },
                        None => {
                            proof {
                                assert(cat_fold(cur) == Err::<CatAcc, PartError>(
                                    PartError::InvalidFileType,
                                ));
                                lemma_cat_fold_err(parts@, idx + 1);
                            }
                            return Err(PartError::InvalidFileType);
                        },
                    }
                },
                _ => {
                    proof {
                        assert(cat_fold(cur) == Err::<CatAcc, PartError>(
                            PartError::MissingFileMeta,
                        ));
                        lemma_cat_fold_err(parts@, idx + 1);
                    }
                    return Err(PartError::MissingFileMeta);
                },
            }
        } else {
            proof {
                assert(cat_fold(cur) == cat_fold(pre));
            }
        }
        idx = idx + 1;
    }
    proof {
        assert(parts@.take(parts@.len() as int) =~= parts@);
    }
    let record = CategoryRecord {
        name,
        slug,
        parent,
        description,
        display_type: String::new(),
        lvl,
        thumbnail,
    };
    Ok((record, writes))
}

/// Collects and validates a category: `name` and `slug` must be non-empty
/// after field collection — no other field is required. On success, the
/// record to insert and the pending thumbnail writes; otherwise the failure
/// the handler answers with, and nothing to write or insert.
pub fn prepare_category_insert(parts: &Vec<Part>) -> (r: Result<
    (CategoryRecord, Vec<FileWrite>),
    ApiError,
>)
    ensures
        match r {
            Ok(rw) => {
                &&& cat_fold(parts@) is Ok
                &&& cat_fold(parts@)->Ok_0.name.len() > 0
                &&& cat_fold(parts@)->Ok_0.slug.len() > 0
                &&& rw.0.name@ == cat_fold(parts@)->Ok_0.name
                &&& rw.0.slug@ == cat_fold(parts@)->Ok_0.slug
                &&& rw.0.parent@ == cat_fold(parts@)->Ok_0.parent
                &&& rw.0.description@ == cat_fold(parts@)->Ok_0.description
                &&& rw.0.display_type@ == Seq::<char>::empty()
                &&& rw.0.lvl@ == cat_fold(parts@)->Ok_0.lvl
                &&& rw.0.thumbnail@ == cat_fold(parts@)->Ok_0.thumbnail
                &&& rw.1@.map_values(|w: FileWrite| w@) == cat_fold(parts@)->Ok_0.writes
            },
            Err(e) => {
                &&& (cat_fold(parts@) matches Err(pe) ==> e is BadRequest && e.spec_message()
                    == part_error_message(pe))
                &&& (cat_fold(parts@) is Ok ==> {
                    &&& cat_fold(parts@)->Ok_0.name.len() == 0 || cat_fold(
                        parts@,
                    )->Ok_0.slug.len() == 0
                    &&& e is Validation
                    &&& e.spec_message() == "Name, slug, and terms are required fields."@
                })
            },
        },
{
    match collect_category_fields(parts) {
        Err(e) => Err(part_error_to_api(e)),
        Ok((record, writes)) => {
            if record.name.as_str().is_empty() || record.slug.as_str().is_empty() {
                Err(
                    ApiError::Validation {
                        message: String::from_str("Name, slug, and terms are required fields."),
                    },
                )
            } else {
                Ok((record, writes))
            }
        },
    }
}

} // verus!
