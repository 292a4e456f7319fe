use vstd::prelude::*;
use crate::errors::{result_view, ApiError, ApiErrorView};
use crate::groups::Group;
use crate::ids::{object_id_from_hex, object_id_hex, lemma_object_id_hex_round_trip, DocId};
use crate::text::chars_of;
use crate::users::User;

verus! {

/// The claims of an access token: the account identifier in hexadecimal as subject, the
/// times of expiry and issue in seconds since the epoch, and the account's names.
#[derive(Debug)]
pub struct Claims {
    pub sub: String,
    pub exp: usize,
    pub iat: usize,
    pub username: String,
    pub email: String,
}

/// How long an access token is valid, in seconds (a quarter of an hour).
pub const TOKEN_LIFETIME_SECONDS: i64 = 900;

/// The latest second since the epoch that a token time can be (the end of the calendar range
/// of the date library).
pub const MAX_TIMESTAMP: i64 = 8210298412799;

/// The earliest second since the epoch that a token time can be.
pub const MIN_TIMESTAMP: i64 = -8334601228800;

/// The prefix of an `Authorization` header that carries a bearer token.
pub open spec fn bearer_prefix() -> Seq<char> {
    seq!['B', 'e', 'a', 'r', 'e', 'r', ' ']
}

/// The token a request carries: the `access_token` cookie when present, else the rest of an
/// `Authorization` header that starts with `Bearer `.
pub open spec fn token_of(cookie: Option<Seq<char>>, authorization: Option<Seq<char>>) -> Option<Seq<char>> {
    match cookie {
        Some(c) => Some(c),
        None => match authorization {
            Some(h) => if h.len() >= 7 && h.take(7) == bearer_prefix() {
                Some(h.skip(7))
            } else {
                None
            },
            None => None,
        },
    }
}

/// Finds the access token of a request from its `access_token` cookie and its
/// `Authorization` header (each absent when the request has none, or, for the header, when it
/// is not visible ASCII).
pub fn extract_token(cookie: Option<String>, authorization: Option<String>) -> (r: Result<String, ApiError>)
    ensures
        match r {
            Ok(t) => token_of(crate::text::opt_view(cookie), crate::text::opt_view(authorization))
                == Some(t@),
            Err(e) => token_of(crate::text::opt_view(cookie), crate::text::opt_view(authorization))
                is None && e@ == ApiErrorView::Unauthorized("Missing token"@),
        },
{
    match cookie {
        Some(c) => Ok(c),
        None => match authorization {
            Some(h) => {
                let chars = chars_of(h.as_str());
                let prefix = chars_of("Bearer ");
                proof {
                    reveal_strlit("Bearer ");
                    assert(prefix@ =~= bearer_prefix());
                }
                if chars.len() < 7 {
                    return Err(ApiError::Unauthorized(String::from_str("Missing token")));
                }
                let mut i: usize = 0;
                #[verifier::loop_isolation(false)]
                while i < 7
                    invariant
                        i <= 7 <= chars@.len(),
                        prefix@ == bearer_prefix(),
                        chars@.take(i as int) == bearer_prefix().take(i as int),
                    decreases 7 - i,
                {
                    if chars[i] != prefix[i] {
                        assert(chars@.take(7)[i as int] != bearer_prefix()[i as int]);
                        return Err(ApiError::Unauthorized(String::from_str("Missing token")));
                    }
                    assert(chars@.take(i + 1) =~= bearer_prefix().take(i + 1));
                    i = i + 1;
                }
                assert(bearer_prefix().take(7) =~= bearer_prefix());
                assert(h@.subrange(7, chars@.len() as int) =~= h@.skip(7));
                assert(chars@.take(7) == bearer_prefix());
                let rest = h.as_str().substring_char(7, chars.len());
                Ok(String::from_str(rest))
            },
            None => Err(ApiError::Unauthorized(String::from_str("Missing token"))),
        },
    }
}

/// The `access_token` cookie wins over the header; without it, a header `Bearer <t>` gives `t`;
/// a header in any other form, or no header, gives no token.
pub proof fn lemma_token_sources(cookie: Option<Seq<char>>, authorization: Option<Seq<char>>, t: Seq<char>)
    ensures
        cookie == Some(t) ==> token_of(cookie, authorization) == Some(t),
        cookie is None && authorization == Some("Bearer "@ + t) ==> token_of(cookie, authorization)
            == Some(t),
        cookie is None && authorization is None ==> token_of(cookie, authorization) is None,
        cookie is None && (authorization matches Some(h) && !(h.len() >= 7 && h.take(7) == "Bearer "@))
            ==> token_of(cookie, authorization) is None,
{
    reveal_strlit("Bearer ");
    assert("Bearer "@ =~= bearer_prefix());
    if cookie is None && authorization == Some("Bearer "@ + t) {
        let h = "Bearer "@ + t;
        assert(h.take(7) =~= bearer_prefix());
        assert(h.skip(7) =~= t);
    }
}

impl Claims {
    /// The claims of a token issued at second `now` to the account `id`: the subject is the
    /// identifier in hexadecimal and the token expires a quarter of an hour later.
    pub fn issue(username: &str, email: &str, id: &DocId, now: i64) -> (c: Claims)
        requires
            MIN_TIMESTAMP <= now <= MAX_TIMESTAMP - TOKEN_LIFETIME_SECONDS,
        ensures
            c.sub@ == object_id_hex(id@),
            c.iat == now as usize,
            c.exp == (now + TOKEN_LIFETIME_SECONDS) as usize,
            c.username@ == username@,
            c.email@ == email@,
    {
        Claims {
            sub: id.to_hex(),
            exp: (now + TOKEN_LIFETIME_SECONDS) as usize,
            iat: now as usize,
            username: String::from_str(username),
            email: String::from_str(email),
        }
    }
}

/// The account named by the subject of a verified token.
pub open spec fn subject_user_id(sub: Seq<char>) -> Result<Seq<u8>, ApiErrorView> {
    match object_id_from_hex(sub) {
        Some(b) => Ok(b),
        None => Err(ApiErrorView::Unauthorized("Invalid user id in token"@)),
    }
}

/// Reads the account identifier from the subject of a verified token.
pub fn user_id_from_subject(sub: &str) -> (r: Result<DocId, ApiError>)
    ensures
        match r {
            Ok(id) => subject_user_id(sub@) == Ok::<Seq<u8>, ApiErrorView>(id@),
            Err(e) => subject_user_id(sub@) == Err::<Seq<u8>, ApiErrorView>(e@),
        },
{
    DocId::parse_or(sub, ApiError::Unauthorized(String::from_str("Invalid user id in token")))
}

/// The subject of a token issued to an account names that account again.
pub proof fn lemma_token_subject_names_account(claims: Claims, id: DocId)
    requires
        claims.sub@ == object_id_hex(id@),
    ensures
        subject_user_id(claims.sub@) == Ok::<Seq<u8>, ApiErrorView>(id@),
{
    lemma_object_id_hex_round_trip(id@);
}

/// The permissions of the groups, group by group, in order.
pub open spec fn permission_list(groups: Seq<Group>) -> Seq<Seq<char>> {
    groups.map_values(|g: Group| g.permissions@.map_values(|p: String| p@)).flatten()
}

/// All permissions that `groups` grant, group by group, in order, with repeats kept.
pub fn collect_permissions(groups: &Vec<Group>) -> (r: Vec<String>)
    ensures
        r@.map_values(|p: String| p@) == permission_list(groups@),
{
    let mut r: Vec<String> = Vec::new();
    for i in 0..groups.len()
        invariant
            r@.map_values(|p: String| p@) == permission_list(groups@.take(i as int)),
    {
        let ghost before = r@;
        let perms = &groups[i].permissions;
        for j in 0..perms.len()
            invariant
                perms == groups[i as int].permissions,
                r@.map_values(|p: String| p@) == permission_list(groups@.take(i as int)) + perms@.take(
                    j as int,
                ).map_values(|p: String| p@),
        {
            let ghost old_r = r@;
            let p = perms[j].clone();
            r.push(p);
            assert(r@.map_values(|p: String| p@) =~= old_r.map_values(|p: String| p@).push(
                perms@[j as int]@,
            ));
            assert(perms@.take(j + 1).map_values(|p: String| p@) =~= perms@.take(j as int).map_values(
                |p: String| p@,
            ).push(perms@[j as int]@));
            assert(r@.map_values(|p: String| p@) =~= permission_list(groups@.take(i as int))
                + perms@.take(j + 1).map_values(|p: String| p@));
        }
        proof {
            let f = |g: Group| g.permissions@.map_values(|p: String| p@);
            assert(groups@.take(i + 1).map_values(f) =~= groups@.take(i as int).map_values(f).push(
                f(groups@[i as int]),
            ));
            groups@.take(i as int).map_values(f).lemma_flatten_push(f(groups@[i as int]));
            assert(perms@.take(perms@.len() as int) =~= perms@);
        }
    }
    assert(groups@.take(groups.len() as int) =~= groups@);
    r
}

/// Whether the permissions of `groups` include every one of `required`.
pub open spec fn grants_all(groups: Seq<Group>, required: Seq<Seq<char>>) -> bool {
    forall|k: int| 0 <= k < required.len() ==> permission_list(groups).contains(#[trigger] required[k])
}

/// Whether some group of the account grants each required permission.
pub fn has_permissions(groups: &Vec<Group>, required: &[&str]) -> (b: bool)
    ensures
        b == grants_all(groups@, required@.map_values(|s: &str| s@)),
{
    let granted = collect_permissions(groups);
    let ghost list = granted@.map_values(|p: String| p@);
    let ghost req = required@.map_values(|s: &str| s@);
    for k in 0..required.len()
        invariant
            list == granted@.map_values(|p: String| p@),
            list == permission_list(groups@),
            req == required@.map_values(|s: &str| s@),
            forall|m: int| 0 <= m < k ==> list.contains(#[trigger] req[m]),
    {
        let wanted = String::from_str(required[k]);
        let mut found = false;
        for j in 0..granted.len()
            invariant
                list == granted@.map_values(|p: String| p@),
                wanted@ == req[k as int],
                found == (exists|m: int| 0 <= m < j && list[m] == wanted@),
        {
            assert(list[j as int] == granted@[j as int]@);
            if granted[j] == wanted {
                found = true;
            }
        }
        if !found {
            assert(!list.contains(req[k as int]));
            assert(!grants_all(groups@, req));
            return false;
        }
    }
    true
}

/// The permission check of a route: the account named by the token must exist and hold every
/// required permission.
pub open spec fn authorization(user: Option<User>, required: Seq<Seq<char>>) -> Result<(), ApiErrorView> {
    match user {
        None => Err(ApiErrorView::Unauthorized("User not found"@)),
        Some(u) => if grants_all(u.groups@, required) {
            Ok(())
        } else {
            Err(ApiErrorView::Forbidden("Insufficient permissions"@))
        },
    }
}

/// Decides whether the account found for a token may use a route that needs `required`.
pub fn authorize(user: Option<&User>, required: &[&str]) -> (r: Result<(), ApiError>)
    ensures
        result_view(r) == authorization(
            match user {
                Some(u) => Some(*u),
                None => None,
            },
            required@.map_values(|s: &str| s@),
        ),
{
    match user {
        None => Err(ApiError::Unauthorized(String::from_str("User not found"))),
        Some(u) => if has_permissions(&u.groups, required) {
            Ok(())
        } else {
            Err(ApiError::Forbidden(String::from_str("Insufficient permissions")))
        },
    }
}

/// Joining a further group never takes a permission away.
pub proof fn lemma_more_groups_keep_permissions(groups: Seq<Group>, extra: Group, required: Seq<Seq<char>>)
    requires
        grants_all(groups, required),
    ensures
        grants_all(groups.push(extra), required),
{
    let f = |g: Group| g.permissions@.map_values(|p: String| p@);
    assert(groups.push(extra).map_values(f) =~= groups.map_values(f).push(f(extra)));
    groups.map_values(f).lemma_flatten_push(f(extra));
    assert forall|k: int| 0 <= k < required.len() implies permission_list(groups.push(extra)).contains(
        #[trigger] required[k],
    ) by {
        let l = permission_list(groups);
        let i = choose|i: int| 0 <= i < l.len() && l[i] == required[k];
        assert(permission_list(groups.push(extra))[i] == required[k]);
    }
}

/// Whether one of `groups` lists the permission `p`.
pub open spec fn some_group_lists(groups: Seq<Group>, p: Seq<char>) -> bool {
    exists|i: int, j: int|
        #![trigger groups[i].permissions@[j]]
        0 <= i < groups.len() && 0 <= j < groups[i].permissions@.len() && groups[i].permissions@[j]@
            == p
}

/// A permission occurs among the permissions of `groups` exactly when one of the groups lists it.
#[verifier::rlimit(30)]
pub proof fn lemma_permission_list_membership(groups: Seq<Group>, p: Seq<char>)
    ensures
        permission_list(groups).contains(p) <==> some_group_lists(groups, p),
    decreases groups.len(),
{
    let f = |g: Group| g.permissions@.map_values(|q: String| q@);
    if groups.len() == 0 {
        assert(groups.map_values(f) =~= Seq::<Seq<Seq<char>>>::empty());
        assert(permission_list(groups) =~= Seq::<Seq<char>>::empty());
    } else {
        let init = groups.drop_last();
        let last = groups.last();
        assert(groups =~= init.push(last));
        assert(groups.map_values(f) =~= init.map_values(f).push(f(last)));
        init.map_values(f).lemma_flatten_push(f(last));
        let l0 = permission_list(init);
        let tail = f(last);
        let whole = permission_list(groups);
        assert(whole =~= l0 + tail);
        lemma_permission_list_membership(init, p);
        if whole.contains(p) {
            let m = choose|m: int| 0 <= m < whole.len() && whole[m] == p;
            if m < l0.len() {
                assert(l0[m] == p);
                assert(l0.contains(p));
                let (i, j) = choose|i: int, j: int|
                    #![trigger init[i].permissions@[j]]
                    0 <= i < init.len() && 0 <= j < init[i].permissions@.len()
                        && init[i].permissions@[j]@ == p;
                assert(groups[i] == init[i]);
                assert(groups[i].permissions@[j]@ == p);
            } else {
                let j = m - l0.len();
                assert(tail[j] == p);
                assert(groups[groups.len() - 1].permissions@[j]@ == p);
            }
        }
        if some_group_lists(groups, p) {
            let (i, j) = choose|i: int, j: int|
                #![trigger groups[i].permissions@[j]]
                0 <= i < groups.len() && 0 <= j < groups[i].permissions@.len()
                    && groups[i].permissions@[j]@ == p;
            if i < groups.len() - 1 {
                assert(init[i].permissions@[j]@ == p);
                assert(some_group_lists(init, p));
                let m = choose|m: int| 0 <= m < l0.len() && l0[m] == p;
                assert(whole[m] == p);
            } else {
                assert(tail[j] == p);
                assert(whole[l0.len() + j] == p);
            }
        }
    }
}

/// An account holds the permissions a route requires exactly when every required permission is
/// listed by at least one of its groups.
pub proof fn lemma_grants_all_iff_each_listed(groups: Seq<Group>, required: Seq<Seq<char>>)
    ensures
        grants_all(groups, required) <==> forall|k: int|
            #![trigger required[k]]
            0 <= k < required.len() ==> some_group_lists(groups, required[k]),
{
    let each_listed = forall|k: int|
        #![trigger required[k]]
        0 <= k < required.len() ==> some_group_lists(groups, required[k]);
    if grants_all(groups, required) {
        assert forall|k: int| 0 <= k < required.len() implies some_group_lists(
            groups,
            #[trigger] required[k],
        ) by {
            lemma_permission_list_membership(groups, required[k]);
        }
        assert(each_listed);
    }
    if each_listed {
        assert forall|k: int| 0 <= k < required.len() implies permission_list(groups).contains(
            #[trigger] required[k],
        ) by {
            lemma_permission_list_membership(groups, required[k]);
        }
    }
}

/// A route that needs no permission admits every existing account.
pub proof fn lemma_no_requirement_admits_account(user: User)
    ensures
        authorization(Some(user), Seq::empty()) == Ok::<(), ApiErrorView>(()),
{
}

} // verus!
