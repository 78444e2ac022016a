//! Field-bound validation of write payloads: the name must run 3 to 64
//! characters, the description at most 500, the website at most 200, and at
//! most 50 tags may be attached. A rejection names exactly the failing
//! fields.

use vstd::prelude::*;

use crate::events::{PostEvent, PostEventV, UpdateEvent, UpdateEventV};
use crate::types::{ApiError, ValidationResponse};

verus! {

/// Whether a create payload satisfies every field bound.
pub open spec fn spec_post_event_valid(p: PostEventV) -> bool {
    &&& 3 <= p.name.len() <= 64
    &&& p.description.len() <= 500
    &&& p.website.len() <= 200
    &&& p.tags.len() <= 50
}

/// Whether an edit payload satisfies every field bound.
pub open spec fn spec_update_event_valid(p: UpdateEventV) -> bool {
    &&& 3 <= p.name.len() <= 64
    &&& p.description.len() <= 500
    &&& p.website.len() <= 200
    &&& p.tags.len() <= 50
}

/// Whether the failure list names the field.
pub open spec fn names_field(v: Seq<ValidationResponse>, field: Seq<char>) -> bool {
    exists|i: int| 0 <= i < v.len() && (#[trigger] v[i]).field@ == field
}

/// Appending one failure entry names its field and keeps every field already
/// named.
proof fn lemma_names_field_push(s: Seq<ValidationResponse>, x: ValidationResponse, f: Seq<char>)
    ensures
        names_field(s.push(x), f) <==> (names_field(s, f) || x.field@ == f),
{
    let t = s.push(x);
    if names_field(s, f) {
        let i = choose|i: int| 0 <= i < s.len() && (#[trigger] s[i]).field@ == f;
        assert(t[i].field@ == f);
    }
    if x.field@ == f {
        assert(t[s.len() as int].field@ == f);
    }
    if names_field(t, f) {
        let i = choose|i: int| 0 <= i < t.len() && (#[trigger] t[i]).field@ == f;
        if i < s.len() {
            assert(s[i].field@ == f);
        }
    }
}

/// The field bounds shared by create and edit payloads, checked one by one;
/// one failure entry per violated bound, in field order.
#[verifier::loop_isolation(false)]
fn collect_failures(
    name: &String,
    description: &String,
    website: &String,
    tags: &Vec<u32>,
) -> (failures: Vec<ValidationResponse>)
    ensures
        failures@.len() == 0 <==> (3 <= name@.len() <= 64 && description@.len() <= 500
            && website@.len() <= 200 && tags@.len() <= 50),
        names_field(failures@, "name"@) <==> !(3 <= name@.len() <= 64),
        names_field(failures@, "description"@) <==> description@.len() > 500,
        names_field(failures@, "website"@) <==> website@.len() > 200,
        names_field(failures@, "tags"@) <==> tags@.len() > 50,
{
    proof {
        reveal_strlit("name");
        reveal_strlit("description");
        reveal_strlit("website");
        reveal_strlit("tags");
        assert("name"@.len() == 4);
        assert("description"@.len() == 11);
        assert("website"@.len() == 7);
        assert("tags"@.len() == 4);
        assert("name"@[0] == 'n' && "tags"@[0] == 't');
        assert("name"@ != "description"@);
        assert("name"@ != "website"@);
        assert("name"@ != "tags"@);
        assert("description"@ != "website"@);
        assert("description"@ != "tags"@);
        assert("website"@ != "tags"@);
    }
    let mut failures: Vec<ValidationResponse> = Vec::new();
    let name_len = name.as_str().unicode_len();
    if name_len < 3 || name_len > 64 {
        let ghost before = failures@;
        failures.push(
            ValidationResponse {
                field: "name".to_owned(),
                message: "name must run 3 to 64 characters".to_owned(),
            },
        );
        proof {
            lemma_names_field_push(before, failures@.last(), "name"@);
            lemma_names_field_push(before, failures@.last(), "description"@);
            lemma_names_field_push(before, failures@.last(), "website"@);
            lemma_names_field_push(before, failures@.last(), "tags"@);
        }
    }
    if description.as_str().unicode_len() > 500 {
        let ghost before = failures@;
        failures.push(
            ValidationResponse {
                field: "description".to_owned(),
                message: "description must run at most 500 characters".to_owned(),
            },
        );
        proof {
            lemma_names_field_push(before, failures@.last(), "name"@);
            lemma_names_field_push(before, failures@.last(), "description"@);
            lemma_names_field_push(before, failures@.last(), "website"@);
            lemma_names_field_push(before, failures@.last(), "tags"@);
        }
    }
    if website.as_str().unicode_len() > 200 {
        let ghost before = failures@;
        failures.push(
            ValidationResponse {
                field: "website".to_owned(),
                message: "website must run at most 200 characters".to_owned(),
            },
        );
        proof {
            lemma_names_field_push(before, failures@.last(), "name"@);
            lemma_names_field_push(before, failures@.last(), "description"@);
            lemma_names_field_push(before, failures@.last(), "website"@);
            lemma_names_field_push(before, failures@.last(), "tags"@);
        }
    }
    if tags.len() > 50 {
        let ghost before = failures@;
        failures.push(
            ValidationResponse {
                field: "tags".to_owned(),
                message: "at most 50 tags may be attached".to_owned(),
            },
        );
        proof {
            lemma_names_field_push(before, failures@.last(), "name"@);
            lemma_names_field_push(before, failures@.last(), "description"@);
            lemma_names_field_push(before, failures@.last(), "website"@);
            lemma_names_field_push(before, failures@.last(), "tags"@);
        }
    }
    failures
}

/// Accepts a create payload if and only if every field bound holds; a
/// rejection names exactly the failing fields.
pub fn validate_post_event(post_event: &PostEvent) -> (r: Result<(), ApiError>)
    ensures
        r is Ok <==> spec_post_event_valid(post_event@),
        r matches Err(e) ==> {
            &&& e is ValidationError
            &&& (names_field(e->ValidationError_0@, "name"@) <==> !(3 <= post_event@.name.len()
                <= 64))
            &&& (names_field(e->ValidationError_0@, "description"@)
                <==> post_event@.description.len() > 500)
            &&& (names_field(e->ValidationError_0@, "website"@) <==> post_event@.website.len()
                > 200)
            &&& (names_field(e->ValidationError_0@, "tags"@) <==> post_event@.tags.len() > 50)
        },
{
    let failures = collect_failures(
        &post_event.name,
        &post_event.description,
        &post_event.website,
        &post_event.tags,
    );
    if failures.len() == 0 {
        Ok(())
    } else {
        Err(ApiError::ValidationError(failures))
    }
}

/// Accepts an edit payload if and only if every field bound holds; a
/// rejection names exactly the failing fields.
pub fn validate_update_event(update_event: &UpdateEvent) -> (r: Result<(), ApiError>)
    ensures
        r is Ok <==> spec_update_event_valid(update_event@),
        r matches Err(e) ==> {
            &&& e is ValidationError
            &&& (names_field(e->ValidationError_0@, "name"@) <==> !(3 <= update_event@.name.len()
                <= 64))
            &&& (names_field(e->ValidationError_0@, "description"@)
                <==> update_event@.description.len() > 500)
            &&& (names_field(e->ValidationError_0@, "website"@) <==> update_event@.website.len()
                > 200)
            &&& (names_field(e->ValidationError_0@, "tags"@) <==> update_event@.tags.len() > 50)
        },
{
    let failures = collect_failures(
        &update_event.name,
        &update_event.description,
        &update_event.website,
        &update_event.tags,
    );
    if failures.len() == 0 {
        Ok(())
    } else {
        Err(ApiError::ValidationError(failures))
    }
}

} // verus!
