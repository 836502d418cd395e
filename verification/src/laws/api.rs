//! What requests to the API come to, beside the patches.
use crate::error::{AppError, ErrorKind};
use crate::routes::api::{
    api_access, api_content, api_create, api_replace, deletion_status, failing_status, CreateStep,
};
use crate::routes::publishing::{form_rejected, site_of, Body};
use crate::routes::upload::form_read;
use crate::sites::delete::DeleteOutcome;
use crate::sites::new_site::{InputError, NewSite};
use crate::sites::validate::{valid_slug, Slug};
use vstd::prelude::*;

verus! {

/// What the API publishes is the site that the form asks for, under the slug
/// that it asks for: open where the form says so or nothing, and protected by
/// the password that it sends where it says that.
pub proof fn created_sites_are_what_the_form_asks_for(
    body: Body,
    limit: usize,
    r: Result<CreateStep, AppError>,
)
    requires
        api_create(body, limit, r),
        r is Ok,
    ensures
        body is Ok && form_read(body->Ok_0.0, body->Ok_0.1) is Ok,
        ({
            let form = form_read(body->Ok_0.0, body->Ok_0.1)->Ok_0;
            &&& r->Ok_0 is Publish ==> {
                &&& form.visibility is None || form.visibility == Some("open"@)
                &&& form.password.len() == 0
                &&& r->Ok_0->Publish_0.password is None
            }
            &&& r->Ok_0 is Hash ==> {
                &&& form.visibility == Some("password"@)
                &&& form.password.len() > 0
                &&& r->Ok_0->Hash_1@ == form.password
            }
            &&& exists|slug: Option<Slug>, site: NewSite| #[trigger]
                site_of(form, slug, limit, site) && (form.slug.len() == 0 <==> slug is None) && (
                slug is Some ==> slug->0@ == form.slug) && match r->Ok_0 {
                    CreateStep::Publish(published) => published == (NewSite {
                        password: None,
                        ..site
                    }),
                    CreateStep::Hash(kept, _) => kept == site,
                }
        }),
{
    let form = form_read(body->Ok_0.0, body->Ok_0.1)->Ok_0;
    let (slug, content) = choose|slug: Option<Slug>, content: Result<NewSite, AppError>|
        crate::routes::publishing::slug_text(slug) == crate::routes::publishing::asked_slug(form)
            && #[trigger] api_content(form, slug, limit, content) && match content {
            Err(error) => r == Err::<CreateStep, AppError>(error),
            Ok(site) => api_access(form, site, r),
        };
    assert(site_of(form, slug, limit, content->Ok_0));
}

/// A body that could not be read, a form that is not sound and a slug that is
/// not one are refused with what is wrong; a replacement asks for no slug.
pub proof fn unsound_bodies_are_refused(
    body: Body,
    limit: usize,
    created: Result<CreateStep, AppError>,
    replaced: Result<NewSite, AppError>,
)
    requires
        api_create(body, limit, created),
        api_replace(body, limit, replaced),
    ensures
        body is Err ==> created is Err && created->Err_0 == body->Err_0 && replaced is Err
            && replaced->Err_0 == body->Err_0,
        body is Ok && form_read(body->Ok_0.0, body->Ok_0.1) is Err ==> created is Err
            && created->Err_0 == form_read(body->Ok_0.0, body->Ok_0.1)->Err_0 && replaced is Err
            && replaced->Err_0 == form_read(body->Ok_0.0, body->Ok_0.1)->Err_0,
        body is Ok && form_read(body->Ok_0.0, body->Ok_0.1) is Ok ==> {
            let form = form_read(body->Ok_0.0, body->Ok_0.1)->Ok_0;
            &&& form.slug.len() > 0 && !valid_slug(form.slug) ==> created == Err::<
                CreateStep,
                AppError,
            >(AppError { kind: ErrorKind::Request(400, "Invalid site slug.") })
            &&& replaced is Ok ==> site_of(form, None, limit, replaced->Ok_0)
            &&& replaced is Err ==> exists|cause: InputError| #[trigger]
                form_rejected(form, None, limit, cause) && replaced->Err_0.kind
                    == ErrorKind::Request(
                    400,
                    crate::sites::new_site::reject_message(cause),
                )
        },
{
}

/// A deletion answers that there is nothing left, and that there was nothing
/// where there was not; files that could not be removed are no failure.
pub proof fn deletions_leave_nothing(outcome: DeleteOutcome)
    ensures
        outcome is NotFound ==> deletion_status(outcome) == 404,
        outcome is Deleted ==> deletion_status(outcome) == 204,
        outcome is DeletedContentRetained ==> deletion_status(outcome) == 204,
{
}

/// The statuses of failures are those from 400 on, below 600.
pub proof fn failures_have_their_statuses(status: u16)
    ensures
        failing_status(status) <==> status / 100 == 4 || status / 100 == 5,
{
}

}
