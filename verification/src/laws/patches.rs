//! What a request to the API changes of a site, and who may make one.
use crate::error::{AppError, ErrorKind};
use crate::routes::api::{
    api_access, patch_outcome, patched_settings, patched_texts, presented_token, token_check,
    CreateStep, Patch, PatchStep, Patched, TokenCheck,
};
use crate::routes::header_chars;
use crate::routes::upload::FormView;
use crate::sites::new_site::NewSite;
use crate::sites::settings::{updated_row, AccessUpdate, Settings};
use crate::sites::validate::{expiry_choice, valid_filename, valid_title, Expiry};
use crate::sites::{Site, SiteView};
use vstd::prelude::*;

verus! {

/// A key that a patch leaves out keeps its column: the settings that are saved
/// have the current title, entry and expiry wherever the patch names none, and
/// what the patch names wherever it names one. Without an access choice an open
/// site stays open and a protected one keeps its password.
pub proof fn absent_keys_keep_their_columns(
    patch: Patch,
    current: Site,
    settings: Settings,
    row: SiteView,
    now: i64,
)
    requires
        patch_outcome(patch, current, Ok(PatchStep::Save(settings))),
        current.shows(row),
    ensures
        ({
            let protected = settings.access is Keep;
            let saved = updated_row(row, settings, protected, now);
            &&& patch.title is None ==> saved.title == row.title
            &&& patch.title matches Some(title) ==> saved.title == title@
            &&& patch.entry is None ==> saved.entry == row.entry
            &&& patch.entry matches Some(entry) ==> saved.entry == entry@
            &&& patch.expires_in is None ==> settings.expiry == Expiry::Keep && saved.expires_at
                == row.expires_at
            &&& patch.expires_in matches Some(choice) ==> expiry_choice(choice@) == Some(
                settings.expiry,
            )
            &&& patch.visibility is None ==> saved.protected == row.protected
            &&& patch.visibility matches Some(visibility) ==> {
                ||| visibility@ == "open"@ && settings.access is Open
                ||| visibility@ == "password"@ && settings.access is Keep
            }
            &&& saved.slug == row.slug
            &&& saved.file_count == row.file_count
            &&& saved.size_bytes == row.size_bytes
            &&& saved.created_at == row.created_at
        }),
{
    reveal_strlit("open");
    reveal_strlit("password");
    reveal_strlit("keep");
    reveal_strlit("never");
    assert("open"@.len() != "password"@.len());
    let r = Ok::<PatchStep, AppError>(PatchStep::Save(settings));
    let patched = choose|patched: Patched| #[trigger]
        patched_texts(patch, current, patched) && (patched_settings(
            patched,
            AccessUpdate::Open,
            crate::routes::api::saved_settings(r),
        ) || patched_settings(
            patched,
            AccessUpdate::Keep,
            crate::routes::api::saved_settings(r),
        ));
    assert(patched_texts(patch, current, patched));
    assert(settings.title@ == patched.title@);
    assert(settings.entry@ == patched.entry@);
    assert(Some(settings.expiry) == expiry_choice(patched.expires_in@));
}

/// The same holds of a patch that sets a password: what is saved once it is
/// hashed has the current title, entry and expiry wherever the patch names
/// none. The password that is hashed is the one of the patch.
pub proof fn absent_keys_stay_beside_a_new_password(
    patch: Patch,
    current: Site,
    patched: Patched,
    hashed: String,
    access: AccessUpdate,
    settings: Settings,
)
    requires
        patch_outcome(patch, current, Ok(PatchStep::Hash(patched, hashed))),
        patched_settings(patched, access, Ok(settings)),
    ensures
        patch.password matches Some(password) && password@.len() > 0 && hashed@ == password@,
        patch.visibility matches Some(visibility) ==> visibility@ == "password"@,
        patch.visibility is None ==> current.visibility@ == "password"@,
        settings.access == access,
        patch.title is None ==> settings.title@ == current.title@,
        patch.title matches Some(title) ==> settings.title@ == title@,
        patch.entry is None ==> settings.entry@ == current.entry@,
        patch.entry matches Some(entry) ==> settings.entry@ == entry@,
        patch.expires_in is None ==> settings.expiry == Expiry::Keep,
        patch.expires_in matches Some(choice) ==> expiry_choice(choice@) == Some(settings.expiry),
{
    reveal_strlit("open");
    reveal_strlit("password");
    reveal_strlit("keep");
    reveal_strlit("never");
    reveal_strlit("");
    assert("open"@.len() != "password"@.len());
}

/// A patch whose texts are valid is not refused: an open site stays open, a
/// protected one keeps its password, and a password for a protected site is
/// hashed.
pub proof fn valid_patches_are_accepted(patch: Patch, current: Site, r: Result<PatchStep, AppError>)
    requires
        patch_outcome(patch, current, r),
        patch.visibility is None,
        patch.password is None,
        current.visibility@ == "open"@ || current.visibility@ == "password"@,
        patch.title matches Some(title) ==> valid_title(title@),
        patch.title is None ==> valid_title(current.title@),
        patch.entry matches Some(entry) ==> valid_filename(entry@),
        patch.entry is None ==> valid_filename(current.entry@),
        patch.expires_in matches Some(choice) ==> expiry_choice(choice@) is Some,
    ensures
        r matches Ok(PatchStep::Save(settings)) && (settings.access is Open <==> current.visibility@
            == "open"@) && (settings.access is Keep <==> current.visibility@ == "password"@),
{
    reveal_strlit("open");
    reveal_strlit("password");
    reveal_strlit("");
    assert(""@ =~= Seq::<char>::empty());
    assert("open"@.len() != "password"@.len());
    let patched = choose|patched: Patched| #[trigger]
        patched_texts(patch, current, patched) && (patched_settings(
            patched,
            AccessUpdate::Open,
            crate::routes::api::saved_settings(r),
        ) || patched_settings(
            patched,
            AccessUpdate::Keep,
            crate::routes::api::saved_settings(r),
        ));
    assert(patched_texts(patch, current, patched));
}

/// A header of the word `Bearer`, a space and the configured token passes, and
/// no other does; where no token is configured there is no API.
pub proof fn the_token_is_presented_as_bearer(
    token: Seq<char>,
    header: Seq<u8>,
    text: Seq<char>,
)
    requires
        header_chars(header) == Some(text),
    ensures
        token_check(Some(token), Some(header)) == TokenCheck::Passed <==> text == seq![
            'B',
            'e',
            'a',
            'r',
            'e',
            'r',
            ' ',
        ] + token,
        token_check(Some(token), Some(header)) != TokenCheck::Passed ==> token_check(
            Some(token),
            Some(header),
        ) == TokenCheck::Unauthorized,
        token_check(Some(token), None) == TokenCheck::Unauthorized,
        token_check(None, Some(header)) == TokenCheck::NotFound,
        token_check(None, None) == TokenCheck::NotFound,
{
    reveal_strlit("Bearer ");
    let word = seq!['B', 'e', 'a', 'r', 'e', 'r', ' '];
    assert("Bearer "@ =~= word);
    if text == word + token {
        assert(text.take(7) =~= word);
        assert(text.skip(7) =~= token);
    }
    if presented_token(Some(header)) == Some(token) {
        assert(text =~= text.take(7) + text.skip(7));
    }
}

/// A new site of the API is open unless a password is asked for, which is then
/// hashed for it; a password on an open site, and protection without one, are
/// rejected.
pub proof fn api_sites_are_open_or_protected(
    form: FormView,
    site: NewSite,
    r: Result<CreateStep, AppError>,
)
    requires
        api_access(form, site, r),
    ensures
        r matches Ok(CreateStep::Publish(published)) ==> {
            &&& published.password is None
            &&& published == (NewSite { password: None, ..site })
            &&& form.password.len() == 0
            &&& form.visibility is None || form.visibility == Some("open"@)
        },
        r matches Ok(CreateStep::Hash(kept, password)) ==> {
            &&& kept == site
            &&& password@ == form.password
            &&& form.password.len() > 0
            &&& form.visibility == Some("password"@)
        },
        form.password.len() == 0 && (form.visibility is None || form.visibility == Some("open"@))
            ==> r matches Ok(CreateStep::Publish(_)),
        form.password.len() == 0 && form.visibility == Some("password"@) ==> r == Err::<
            CreateStep,
            AppError,
        >(AppError { kind: ErrorKind::Request(400, "Enter a new password to enable protection.") }),
        form.password.len() > 0 && (form.visibility is None || form.visibility == Some("open"@))
            ==> r is Err,
{
    reveal_strlit("open");
    reveal_strlit("password");
    assert("open"@.len() != "password"@.len());
}

}
