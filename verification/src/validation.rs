use crate::error::{ApiError, ApiErrorView, ValidationResponse, ValidationResponseView};
use crate::group_model::{PostGroup, UpdateGroup};
use crate::text::decimal_text;
use ic_scalable_misc::helpers::validation_helper::Validator;
use vstd::prelude::*;
use vstd::utf8::encode_utf8;

verus! {

/// Why a text of `len` bytes does not pass as the field `field`, if it
/// does not: it is shorter than `min` or longer than `max`.
pub open spec fn length_fault(len: nat, min: usize, max: usize, field: Seq<char>) -> Option<
    ValidationResponseView,
> {
    if len < min {
        Some(
            ValidationResponseView {
                field,
                message: "Minimum required length is "@ + decimal_text(min as u64),
            },
        )
    } else if len > max {
        Some(
            ValidationResponseView {
                field,
                message: "Maximum length is "@ + decimal_text(max as u64),
            },
        )
    } else {
        None
    }
}

/// Why a number of items does not pass as the field `field`, if it does
/// not: it is below `min` or above `max`.
pub open spec fn count_fault(value: usize, min: usize, max: usize, field: Seq<char>) -> Option<
    ValidationResponseView,
> {
    if value < min {
        Some(
            ValidationResponseView {
                field,
                message: "Minimum size length is "@ + decimal_text(min as u64),
            },
        )
    } else if value > max {
        Some(
            ValidationResponseView {
                field,
                message: "Maximum size is "@ + decimal_text(max as u64),
            },
        )
    } else {
        None
    }
}

/// `Validator::validate_string_length` of `ic_scalable_misc`: a text whose
/// length in bytes is below `min` or above `max` is refused, with the name
/// of the field and a message that holds the bound.
#[verifier::external_body]
fn check_length(value: &String, min: usize, max: usize, field: &str) -> (r: Option<
    ValidationResponse,
>)
    ensures
        r.deep_view() == length_fault(encode_utf8(value@).len(), min, max, field@),
{
    match Validator::validate_string_length(value, &min, &max, &field.to_string()) {
        Ok(_) => None,
        Err(fault) => Some(ValidationResponse { field: fault.field, message: fault.message }),
    }
}

/// `Validator::validate_count` of `ic_scalable_misc`: a number below `min`
/// or above `max` is refused, with the name of the field and a message that
/// holds the bound.
#[verifier::external_body]
fn check_count(value: usize, min: usize, max: usize, field: &str) -> (r: Option<ValidationResponse>)
    ensures
        r.deep_view() == count_fault(value, min, max, field@),
{
    match Validator::validate_count(&value, &min, &max, &field.to_string()) {
        Ok(_) => None,
        Err(fault) => Some(ValidationResponse { field: fault.field, message: fault.message }),
    }
}

/// The faults of a list of checks, in the order of the checks.
pub open spec fn faults_of(
    checks: Seq<Option<ValidationResponseView>>,
) -> Seq<ValidationResponseView>
    decreases checks.len(),
{
    if checks.len() == 0 {
        Seq::<ValidationResponseView>::empty()
    } else {
        match checks.last() {
            Some(fault) => faults_of(checks.drop_last()).push(fault),
            None => faults_of(checks.drop_last()),
        }
    }
}

/// The checks that the fields of a group must pass: a name of 3 to 64
/// bytes, a description of at most 2500, a website of at most 200, and at
/// most 25 tags.
pub open spec fn group_checks(
    name: Seq<char>,
    description: Seq<char>,
    website: Seq<char>,
    tags: nat,
) -> Seq<Option<ValidationResponseView>> {
    seq![
        length_fault(encode_utf8(name).len(), 3, 64, "name"@),
        length_fault(encode_utf8(description).len(), 0, 2500, "description"@),
        length_fault(encode_utf8(website).len(), 0, 200, "website"@),
        count_fault(tags as usize, 0, 25, "tags"@),
    ]
}

/// The faults of the fields of a group.
pub open spec fn group_faults(
    name: Seq<char>,
    description: Seq<char>,
    website: Seq<char>,
    tags: nat,
) -> Seq<ValidationResponseView> {
    faults_of(group_checks(name, description, website, tags))
}

/// What a validation returns for a list of faults.
pub open spec fn validation_result(
    faults: Seq<ValidationResponseView>,
) -> Result<(), ApiErrorView> {
    if faults.len() == 0 {
        Ok(())
    } else {
        Err(ApiErrorView::ValidationError(faults))
    }
}

fn note(faults: &mut Vec<ValidationResponse>, check: Option<ValidationResponse>, Ghost(done): Ghost<
    Seq<Option<ValidationResponseView>>,
>)
    requires
        old(faults).deep_view() == faults_of(done),
    ensures
        final(faults).deep_view() == faults_of(done.push(check.deep_view())),
{
    let ghost before = faults.deep_view();
    assert(done.push(check.deep_view()).drop_last() =~= done);
    match check {
        Some(fault) => {
            faults.push(fault);
            assert(faults.deep_view() =~= before.push(fault@));
        },
        None => {},
    }
}

fn validate_fields(
    name: &String,
    description: &String,
    website: &String,
    tags: usize,
) -> (r: Result<
    (),
    ApiError,
>)
    ensures
        match r {
            Ok(_) => validation_result(group_faults(name@, description@, website@, tags as nat))
                is Ok,
            Err(e) => validation_result(group_faults(name@, description@, website@, tags as nat))
                == Err::<(), ApiErrorView>(e@),
        },
{
    let mut faults: Vec<ValidationResponse> = Vec::new();
    let ghost c0 = length_fault(encode_utf8(name@).len(), 3, 64, "name"@);
    let ghost c1 = length_fault(encode_utf8(description@).len(), 0, 2500, "description"@);
    let ghost c2 = length_fault(encode_utf8(website@).len(), 0, 200, "website"@);
    let ghost c3 = count_fault(tags, 0, 25, "tags"@);
    let ghost d0 = Seq::<Option<ValidationResponseView>>::empty();
    let ghost d1 = seq![c0];
    let ghost d2 = seq![c0, c1];
    let ghost d3 = seq![c0, c1, c2];
    proof {
        assert(d0.push(c0) =~= d1);
        assert(d1.push(c1) =~= d2);
        assert(d2.push(c2) =~= d3);
        assert(d3.push(c3) =~= seq![c0, c1, c2, c3]);
    }
    assert(faults.deep_view() =~= faults_of(d0));
    note(&mut faults, check_length(name, 3, 64, "name"), Ghost(d0));
    note(&mut faults, check_length(description, 0, 2500, "description"), Ghost(d1));
    note(&mut faults, check_length(website, 0, 200, "website"), Ghost(d2));
    note(&mut faults, check_count(tags, 0, 25, "tags"), Ghost(d3));
    if faults.len() > 0 {
        Err(ApiError::ValidationError(faults))
    } else {
        Ok(())
    }
}

/// Checks the fields of a group that is to be created: see
/// [`group_checks`]. Every fault is reported, in the order of the fields.
pub fn validate_post_group(post_group: &PostGroup) -> (r: Result<(), ApiError>)
    ensures
        match r {
            Ok(_) => validation_result(
                group_faults(
                    post_group@.name,
                    post_group@.description,
                    post_group@.website,
                    post_group@.tags.len(),
                ),
            ) is Ok,
            Err(e) => validation_result(
                group_faults(
                    post_group@.name,
                    post_group@.description,
                    post_group@.website,
                    post_group@.tags.len(),
                ),
            ) == Err::<(), ApiErrorView>(e@),
        },
{
    validate_fields(
        &post_group.name,
        &post_group.description,
        &post_group.website,
        post_group.tags.len(),
    )
}

/// Checks the fields of a group that is to be changed: see
/// [`group_checks`]. Every fault is reported, in the order of the fields.
pub fn validate_update_group(update_group: &UpdateGroup) -> (r: Result<(), ApiError>)
    ensures
        match r {
            Ok(_) => validation_result(
                group_faults(
                    update_group@.name,
                    update_group@.description,
                    update_group@.website,
                    update_group@.tags.len(),
                ),
            ) is Ok,
            Err(e) => validation_result(
                group_faults(
                    update_group@.name,
                    update_group@.description,
                    update_group@.website,
                    update_group@.tags.len(),
                ),
            ) == Err::<(), ApiErrorView>(e@),
        },
{
    validate_fields(
        &update_group.name,
        &update_group.description,
        &update_group.website,
        update_group.tags.len(),
    )
}

} // verus!
