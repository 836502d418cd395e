//! Expiry sweeps and boot reconciliation of site rows against directories.
use crate::routes::view::site_available;
use crate::sites::new_site::NewSite;
use crate::sites::publish::new_row;
use crate::sites::validate::{valid_slug, Slug};
use vstd::hash_set::StringHashSet;
use vstd::prelude::*;

verus! {

/// Seconds between two sweeps: ten minutes.
pub const SWEEP_INTERVAL: u64 = 600;

/// Whether an expiry has come at a second.
pub open spec fn expired_at(expires_at: Option<i64>, now: i64) -> bool {
    expires_at matches Some(second) && second <= now
}

/// Whether an expiry has come at a second.
pub fn expired(expires_at: Option<i64>, now: i64) -> (r: bool)
    ensures
        r == expired_at(expires_at, now),
{
    match expires_at {
        Some(second) => second <= now,
        None => false,
    }
}

/// A site is served until it expires, and swept from then on: whatever is swept
/// is no longer served, and what has a known access mode and is not swept is
/// served, for whoever has access.
pub proof fn sites_are_served_until_swept(visibility: Seq<char>, expires_at: Option<i64>, now: i64)
    ensures
        expired_at(expires_at, now) ==> !site_available(visibility, expires_at, now as int),
        visibility == "open"@ || visibility == "password"@ ==> (site_available(
            visibility,
            expires_at,
            now as int,
        ) <==> !expired_at(expires_at, now)),
{
}

/// A site that is published for so many seconds expires exactly that long after
/// its creation, and one that is published without a limit never expires.
pub proof fn sites_expire_when_they_were_meant_to(
    input: NewSite,
    slug: Seq<char>,
    created: i64,
    now: i64,
)
    requires
        input.expires_in matches Some(seconds) ==> i64::MIN <= created + seconds <= i64::MAX,
    ensures
        expired_at(new_row(input, slug, created).expires_at, now) <==> (
        input.expires_in matches Some(seconds) && now >= created + seconds),
{
}

/// How an expired row is removed.
pub enum SweepTarget {
    /// The site with its content.
    Site(Slug),
    /// Only the row: a slug that is not valid can own no directory.
    Row,
}

/// What is removed of an expired row.
pub open spec fn swept(slug: Seq<char>, target: SweepTarget) -> bool {
    match target {
        SweepTarget::Site(found) => valid_slug(slug) && found@ == slug,
        SweepTarget::Row => !valid_slug(slug),
    }
}

/// Decides how an expired row is removed.
pub fn sweep_target(slug: &str) -> (r: SweepTarget)
    ensures
        swept(slug@, r),
{
    match Slug::parse(slug) {
        Ok(found) => SweepTarget::Site(found),
        Err(_) => SweepTarget::Row,
    }
}

/// The texts of a list of strings.
pub open spec fn string_views(names: Seq<String>) -> Seq<Seq<char>> {
    Seq::new(names.len(), |i: int| names[i]@)
}

/// For each of `names` whether it occurs among `others`.
pub fn occurring(names: &Vec<String>, others: &Vec<String>) -> (r: Vec<bool>)
    ensures
        r@.len() == names@.len(),
        forall|i: int|
            0 <= i < names@.len() ==> #[trigger] r@[i] == string_views(others@).contains(
                names@[i]@,
            ),
{
    let mut known: StringHashSet = StringHashSet::new();
    let mut i: usize = 0;
    while i < others.len()
        invariant
            i <= others@.len(),
            forall|name: Seq<char>|
                known@.contains(name) <==> exists|j: int|
                    0 <= j < i && #[trigger] string_views(others@)[j] == name,
        decreases others@.len() - i,
    {
        let ghost before = known@;
        known.insert(others[i].as_str().to_owned());
        assert forall|name: Seq<char>| known@.contains(name) <==> exists|j: int|
            0 <= j < i + 1 && #[trigger] string_views(others@)[j] == name by {
            if name == others@[i as int]@ {
                assert(string_views(others@)[i as int] == name);
            }
        }
        i = i + 1;
    }
    let mut found: Vec<bool> = Vec::new();
    let mut k: usize = 0;
    while k < names.len()
        invariant
            k <= names@.len(),
            found@.len() == k,
            forall|name: Seq<char>|
                known@.contains(name) <==> exists|j: int|
                    0 <= j < others@.len() && #[trigger] string_views(others@)[j] == name,
            forall|j: int|
                0 <= j < k ==> #[trigger] found@[j] == string_views(others@).contains(names@[j]@),
        decreases names@.len() - k,
    {
        let there: bool = known.contains(names[k].as_str());
        found.push(there);
        k = k + 1;
    }
    found
}

/// Which names of the content directory stay, and which rows of the database.
pub open spec fn reconciled(
    rows: Seq<Seq<char>>,
    names: Seq<Seq<char>>,
    staying_names: Seq<bool>,
    staying_rows: Seq<bool>,
) -> bool {
    &&& staying_names.len() == names.len()
    &&& staying_rows.len() == rows.len()
    &&& forall|i: int|
        0 <= i < names.len() ==> #[trigger] staying_names[i] == rows.contains(names[i])
    &&& forall|i: int|
        0 <= i < rows.len() ==> #[trigger] staying_rows[i] == names.contains(rows[i])
}

/// Compares the rows of the database with the names in the content directory:
/// for each name whether it has a row and stays, and for each row whether it
/// has content and stays. Everything else is removed at boot.
pub fn reconcile(rows: &Vec<String>, names: &Vec<String>) -> (r: (Vec<bool>, Vec<bool>))
    ensures
        reconciled(string_views(rows@), string_views(names@), r.0@, r.1@),
{
    (occurring(names, rows), occurring(rows, names))
}

/// What stays of a list where everything goes that is not among the others.
pub open spec fn staying(names: Seq<Seq<char>>, others: Seq<Seq<char>>) -> Seq<Seq<char>>
    decreases names.len(),
{
    if names.len() == 0 {
        Seq::empty()
    } else {
        let front = staying(names.drop_last(), others);
        if others.contains(names.last()) {
            front.push(names.last())
        } else {
            front
        }
    }
}

/// After a reconciliation the rows and the names in the content directory are
/// the same ones, those that had both; a second one changes neither.
pub proof fn a_second_reconciliation_changes_nothing(rows: Seq<Seq<char>>, names: Seq<Seq<char>>)
    ensures
        forall|name: Seq<char>| #[trigger]
            staying(rows, names).contains(name) <==> rows.contains(name) && names.contains(name),
        forall|name: Seq<char>| #[trigger]
            staying(names, rows).contains(name) <==> rows.contains(name) && names.contains(name),
        staying(staying(rows, names), staying(names, rows)) == staying(rows, names),
        staying(staying(names, rows), staying(rows, names)) == staying(names, rows),
{
    assert forall|name: Seq<char>| #[trigger] staying(rows, names).contains(name) <==> rows.contains(
        name,
    ) && names.contains(name) by {
        staying_members(rows, names, name);
    }
    assert forall|name: Seq<char>| #[trigger] staying(names, rows).contains(name) <==> rows.contains(
        name,
    ) && names.contains(name) by {
        staying_members(names, rows, name);
    }
    let kept_rows = staying(rows, names);
    let kept_names = staying(names, rows);
    assert forall|i: int| 0 <= i < kept_rows.len() implies kept_names.contains(
        #[trigger] kept_rows[i],
    ) by {
        assert(kept_rows.contains(kept_rows[i]));
    }
    assert forall|i: int| 0 <= i < kept_names.len() implies kept_rows.contains(
        #[trigger] kept_names[i],
    ) by {
        assert(kept_names.contains(kept_names[i]));
    }
    all_stay(kept_rows, kept_names);
    all_stay(kept_names, kept_rows);
}

proof fn staying_members(names: Seq<Seq<char>>, others: Seq<Seq<char>>, name: Seq<char>)
    ensures
        staying(names, others).contains(name) <==> names.contains(name) && others.contains(name),
    decreases names.len(),
{
    if names.len() > 0 {
        let front = names.drop_last();
        let kept = staying(front, others);
        staying_members(front, others, name);
        assert(names =~= front.push(names.last()));
        assert(names.contains(name) <==> front.contains(name) || name == names.last()) by {
            if front.contains(name) {
                let i = choose|i: int| 0 <= i < front.len() && front[i] == name;
                assert(names[i] == name);
            }
            if name == names.last() {
                assert(names[names.len() - 1] == name);
            }
        }
        assert(kept.push(names.last()).contains(name) <==> kept.contains(name) || name
            == names.last()) by {
            let more = kept.push(names.last());
            if kept.contains(name) {
                let i = choose|i: int| 0 <= i < kept.len() && kept[i] == name;
                assert(more[i] == name);
            }
            assert(more[kept.len() as int] == names.last());
        }
    }
}

proof fn all_stay(names: Seq<Seq<char>>, others: Seq<Seq<char>>)
    requires
        forall|i: int| 0 <= i < names.len() ==> others.contains(#[trigger] names[i]),
    ensures
        staying(names, others) == names,
    decreases names.len(),
{
    if names.len() > 0 {
        all_stay(names.drop_last(), others);
        assert(others.contains(names[names.len() - 1]));
        assert(names =~= names.drop_last().push(names.last()));
    }
}

}
