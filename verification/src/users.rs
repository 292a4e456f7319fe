use vstd::prelude::*;
use crate::errors::{result_view, ApiError, ApiErrorView};
use crate::groups::Group;
use crate::ids::{object_id_from_hex, DocId};
use crate::listing::{ascending_unless_desc, direction_of, sort_key, trimmed_filter, trimmed_match, RegexFilter, SortKey, SortOrder};
use crate::password::{bcrypt_verifies, hash_password, verify_password};
use crate::text::opt_view;

verus! {

/// A stored account: its password is kept as a bcrypt hash, its last login in milliseconds
/// since the epoch.
#[derive(Debug)]
pub struct User {
    pub id: Option<DocId>,
    pub username: String,
    pub email: String,
    pub password: String,
    pub groups: Vec<Group>,
    pub last_login: Option<i64>,
}

/// The body of a sign-in request.
#[derive(Debug)]
pub struct UserSignIn {
    pub username_or_email: String,
    pub password: String,
}

/// The body of a sign-up request.
#[derive(Debug)]
pub struct UserSignUp {
    pub username: String,
    pub email: String,
    pub password: String,
}

/// The body of a request by which an administrator creates an account.
#[derive(Debug)]
pub struct UserCreate {
    pub username: String,
    pub password: String,
    pub email: String,
    pub groups: Option<Vec<Group>>,
}

/// The body of a request that changes an account; absent fields stay as they are.
#[derive(Debug)]
pub struct UserUpdate {
    pub username: Option<String>,
    pub password: Option<String>,
    pub email: Option<String>,
    pub groups: Option<Vec<Group>>,
}

/// Query of the user listing.
#[derive(Debug)]
pub struct UserListParams {
    pub page: Option<u64>,
    pub limit: Option<u64>,
    pub email: Option<String>,
    pub sort_by: Option<UserSortBy>,
    pub order: Option<SortOrder>,
}

/// The fields the user listing can be sorted by.
#[derive(Debug, Clone, Copy, PartialEq, Eq)]
pub enum UserSortBy {
    Email,
    LastLogin,
    Username,
}

/// A field that an account update sets.
#[derive(Debug)]
pub enum UserField {
    Username(String),
    Email(String),
    Groups(Vec<Group>),
}

/// The filter of the user listing: a case-insensitive match of the email against the trimmed
/// `email` parameter, unless that is absent or blank.
pub fn build_filter(params: &UserListParams) -> (r: Option<RegexFilter>)
    ensures
        match r {
            Some(f) => f.field@ == "email"@ && trimmed_match(opt_view(params.email)) == Some(
                f.pattern@,
            ),
            None => trimmed_match(opt_view(params.email)) is None,
        },
{
    trimmed_filter("email", &params.email)
}

/// The document field of a user sort; by identifier when none is asked for.
pub open spec fn user_sort_field(by: Option<UserSortBy>) -> Seq<char> {
    match by {
        Some(UserSortBy::Email) => "email"@,
        Some(UserSortBy::LastLogin) => "last_login"@,
        Some(UserSortBy::Username) => "username"@,
        None => "_id"@,
    }
}

/// Each way of sorting the user listing sorts on the document field of its own name; with none
/// asked for, the listing is sorted by identifier.
pub proof fn lemma_user_sort_field_names(by: Option<UserSortBy>)
    ensures
        by == Some(UserSortBy::Email) ==> user_sort_field(by) == "email"@,
        by == Some(UserSortBy::LastLogin) ==> user_sort_field(by) == "last_login"@,
        by == Some(UserSortBy::Username) ==> user_sort_field(by) == "username"@,
        by is None ==> user_sort_field(by) == "_id"@,
{
}

/// Distinct sorts of the user listing sort on distinct fields.
pub proof fn lemma_user_sort_field_injective(a: Option<UserSortBy>, b: Option<UserSortBy>)
    ensures
        user_sort_field(a) == user_sort_field(b) ==> a == b,
{
    reveal_strlit("email");
    reveal_strlit("last_login");
    reveal_strlit("username");
    reveal_strlit("_id");
    let fa = user_sort_field(a);
    let fb = user_sort_field(b);
    if fa == fb {
        assert(fa.len() == fb.len());
    }
}

/// The sort of the user listing; ascending unless descending order is asked for.
pub fn build_sort(params: &UserListParams) -> (k: SortKey)
    ensures
        k.field@ == user_sort_field(params.sort_by),
        k.direction == ascending_unless_desc(params.order),
{
    let direction = direction_of(params.order);
    match params.sort_by {
        Some(UserSortBy::Email) => sort_key("email", direction),
        Some(UserSortBy::LastLogin) => sort_key("last_login", direction),
        Some(UserSortBy::Username) => sort_key("username", direction),
        None => sort_key("_id", direction),
    }
}

impl UserUpdate {
    /// The fields an update sets, in the order username, email, groups; the password of the
    /// request is not among them. An update that sets nothing is refused.
    pub fn set_fields(self) -> (r: Result<Vec<UserField>, ApiError>)
        ensures
            match r {
                Ok(fields) => fields@.len() > 0 && fields@ == user_fields(
                    self.username,
                    self.email,
                    self.groups,
                ),
                Err(e) => self.username is None && self.email is None && self.groups is None && e@
                    == ApiErrorView::BadRequest("No fields to update"@),
            },
    {
        let mut fields: Vec<UserField> = Vec::new();
        match self.username {
            Some(u) => fields.push(UserField::Username(u)),
            None => {},
        }
        match self.email {
            Some(e) => fields.push(UserField::Email(e)),
            None => {},
        }
        match self.groups {
            Some(g) => fields.push(UserField::Groups(g)),
            None => {},
        }
        assert(fields@ =~= user_fields(self.username, self.email, self.groups));
        if fields.len() == 0 {
            Err(ApiError::BadRequest(String::from_str("No fields to update")))
        } else {
            Ok(fields)
        }
    }
}

/// The fields set by an update with these optional values, in order.
pub open spec fn user_fields(
    username: Option<String>,
    email: Option<String>,
    groups: Option<Vec<Group>>,
) -> Seq<UserField> {
    (match username {
        Some(u) => seq![UserField::Username(u)],
        None => Seq::empty(),
    }) + (match email {
        Some(e) => seq![UserField::Email(e)],
        None => Seq::empty(),
    }) + (match groups {
        Some(g) => seq![UserField::Groups(g)],
        None => Seq::empty(),
    })
}

/// An update sets the username to the one it carries, the email to the one it carries and the
/// groups to the ones it carries, and sets nothing it does not carry; each field at most once,
/// in the order username, email, groups.
pub proof fn lemma_update_sets_carried_fields(
    username: Option<String>,
    email: Option<String>,
    groups: Option<Vec<Group>>,
)
    ensures
        forall|u: String|
            #[trigger] user_fields(username, email, groups).contains(UserField::Username(u)) <==> username
                == Some(u),
        forall|e: String|
            #[trigger] user_fields(username, email, groups).contains(UserField::Email(e)) <==> email == Some(
                e,
            ),
        forall|g: Vec<Group>|
            #[trigger] user_fields(username, email, groups).contains(UserField::Groups(g)) <==> groups
                == Some(g),
        user_fields(username, email, groups).len() == (if username is Some {
            1int
        } else {
            0
        }) + (if email is Some {
            1int
        } else {
            0
        }) + (if groups is Some {
            1int
        } else {
            0
        }),
        username matches Some(u) ==> user_fields(username, email, groups)[0] == UserField::Username(u),
        groups matches Some(g) ==> user_fields(username, email, groups).last() == UserField::Groups(g),
{
    let a: Seq<UserField> = match username {
        Some(u) => seq![UserField::Username(u)],
        None => Seq::empty(),
    };
    let b: Seq<UserField> = match email {
        Some(e) => seq![UserField::Email(e)],
        None => Seq::empty(),
    };
    let c: Seq<UserField> = match groups {
        Some(g) => seq![UserField::Groups(g)],
        None => Seq::empty(),
    };
    let all = user_fields(username, email, groups);
    assert(all == a + b + c);
    assert forall|x: UserField| all.contains(x) <==> (a.contains(x) || b.contains(x) || c.contains(x)) by {
        if all.contains(x) {
            let i = choose|i: int| 0 <= i < all.len() && all[i] == x;
            if i < a.len() {
                assert(a[i] == x);
            } else if i < a.len() + b.len() {
                assert(b[i - a.len()] == x);
            } else {
                assert(c[i - a.len() - b.len()] == x);
            }
        }
        if a.contains(x) {
            let i = choose|i: int| 0 <= i < a.len() && a[i] == x;
            assert(all[i] == x);
        }
        if b.contains(x) {
            let i = choose|i: int| 0 <= i < b.len() && b[i] == x;
            assert(all[a.len() + i] == x);
        }
        if c.contains(x) {
            let i = choose|i: int| 0 <= i < c.len() && c[i] == x;
            assert(all[a.len() + b.len() + i] == x);
        }
    }
    assert forall|u: String| #[trigger] all.contains(UserField::Username(u)) <==> username == Some(u) by {
        let x = UserField::Username(u);
        if a.contains(x) || username == Some(u) {
            assert(a[0] == x);
        }
        if b.contains(x) {
            assert(b[0] == x);
        }
        if c.contains(x) {
            assert(c[0] == x);
        }
    }
    assert forall|e: String| #[trigger] all.contains(UserField::Email(e)) <==> email == Some(e) by {
        let x = UserField::Email(e);
        if b.contains(x) || email == Some(e) {
            assert(b[0] == x);
        }
        if a.contains(x) {
            assert(a[0] == x);
        }
        if c.contains(x) {
            assert(c[0] == x);
        }
    }
    assert forall|g: Vec<Group>| #[trigger] all.contains(UserField::Groups(g)) <==> groups == Some(g) by {
        let x = UserField::Groups(g);
        if c.contains(x) || groups == Some(g) {
            assert(c[0] == x);
        }
        if a.contains(x) {
            assert(a[0] == x);
        }
        if b.contains(x) {
            assert(b[0] == x);
        }
    }
}

/// The account a sign-up produces from `dto`, with `hash` as its stored password.
pub open spec fn signed_up_user(dto: UserSignUp, hash: Seq<char>, user: User) -> bool {
    &&& user.id is None
    &&& user.username == dto.username
    &&& user.email == dto.email
    &&& user.password@ == hash
    &&& hash.len() == 60
    &&& hash.subrange(0, 7) == "$2b$12$"@
    &&& user.groups@.len() == 0
    &&& user.last_login is None
}

/// What a sign-up may give when `already_exists` tells whether an account with its username or
/// email is stored: a refusal when one is; otherwise the new account, whose stored password is
/// a bcrypt hash accepting the request's password, or an internal error when hashing fails.
pub open spec fn sign_up_result(already_exists: bool, dto: UserSignUp, r: Result<User, ApiError>) -> bool {
    &&& already_exists ==> (r matches Err(e) && e@ == ApiErrorView::BadRequest(
        "User already exists"@,
    ))
    &&& r matches Ok(user) ==> !already_exists && signed_up_user(dto, user.password@, user)
        && bcrypt_verifies(dto.password@, user.password@) == Some(true)
    &&& r matches Err(e) ==> already_exists || e is InternalServer
}

/// Prepares the account of a sign-up: refused when an account with that username or email
/// already exists; otherwise the password is stored as a bcrypt hash that accepts it.
pub fn prepare_sign_up(already_exists: bool, dto: UserSignUp) -> (r: Result<User, ApiError>)
    ensures
        sign_up_result(already_exists, dto, r),
{
    if already_exists {
        return Err(ApiError::BadRequest(String::from_str("User already exists")));
    }
    match hash_password(dto.password.as_str()) {
        Ok(hash) => Ok(
            User {
                id: None,
                username: dto.username,
                email: dto.email,
                password: hash,
                groups: Vec::new(),
                last_login: None,
            },
        ),
        Err(msg) => Err(ApiError::InternalServer(msg)),
    }
}

/// Whether a stored account has the username or the email of a sign-up.
pub open spec fn account_conflicts(accounts: Seq<User>, dto: UserSignUp) -> bool {
    exists|i: int|
        0 <= i < accounts.len() && (#[trigger] accounts[i].username@ == dto.username@
            || accounts[i].email@ == dto.email@)
}

/// No two stored accounts share a username, and no two share an email.
pub open spec fn unique_accounts(accounts: Seq<User>) -> bool {
    forall|i: int, j: int|
        0 <= i < accounts.len() && 0 <= j < accounts.len() && i != j ==> (
        #[trigger] accounts[i].username@ != #[trigger] accounts[j].username@
            && accounts[i].email@ != accounts[j].email@)
}

/// The stored accounts after a sign-up with outcome `r`: the new account is added when there is
/// one.
pub open spec fn accounts_after_sign_up(accounts: Seq<User>, r: Result<User, ApiError>) -> Seq<User> {
    match r {
        Ok(user) => accounts.push(user),
        Err(_) => accounts,
    }
}

/// Sign-ups keep usernames and emails unique: when the existence check of a sign-up looks at the
/// stored accounts, the accounts after it, whatever its outcome, still share no username and no
/// email.
pub proof fn lemma_sign_up_keeps_accounts_unique(
    accounts: Seq<User>,
    dto: UserSignUp,
    r: Result<User, ApiError>,
)
    requires
        unique_accounts(accounts),
        sign_up_result(account_conflicts(accounts, dto), dto, r),
    ensures
        unique_accounts(accounts_after_sign_up(accounts, r)),
{
    if let Ok(user) = r {
        let after = accounts.push(user);
        assert forall|i: int, j: int|
            0 <= i < after.len() && 0 <= j < after.len() && i != j implies (
            #[trigger] after[i].username@ != #[trigger] after[j].username@
                && after[i].email@ != after[j].email@) by {
            if i == accounts.len() as int {
                assert(after[j] == accounts[j]);
                assert(!(accounts[j].username@ == dto.username@ || accounts[j].email@ == dto.email@));
            } else if j == accounts.len() as int {
                assert(after[i] == accounts[i]);
                assert(!(accounts[i].username@ == dto.username@ || accounts[i].email@ == dto.email@));
            } else {
                assert(after[i] == accounts[i] && after[j] == accounts[j]);
            }
        }
    }
}

/// Prepares the account an administrator creates: the password is stored as a bcrypt hash that
/// accepts it, and the groups default to none.
pub fn new_user(dto: UserCreate) -> (r: Result<User, ApiError>)
    ensures
        r matches Ok(user) ==> {
            &&& user.id is None
            &&& user.username == dto.username
            &&& user.email == dto.email
            &&& bcrypt_verifies(dto.password@, user.password@) == Some(true)
            &&& user.password@.len() == 60
            &&& user.password@.subrange(0, 7) == "$2b$12$"@
            &&& user.groups@ == (match dto.groups {
                Some(g) => g@,
                None => Seq::empty(),
            })
            &&& user.last_login is None
        },
        r matches Err(e) ==> e is InternalServer,
{
    match hash_password(dto.password.as_str()) {
        Ok(hash) => Ok(
            User {
                id: None,
                username: dto.username,
                email: dto.email,
                password: hash,
                groups: match dto.groups {
                    Some(g) => g,
                    None => Vec::new(),
                },
                last_login: None,
            },
        ),
        Err(msg) => Err(ApiError::InternalServer(msg)),
    }
}

/// The outcome of a sign-in once the account is found and bcrypt has answered `verified`:
/// the account and its identifier when the password matched.
pub open spec fn sign_in_result(user: User, verified: Option<bool>) -> Result<(DocId, User), ApiErrorView> {
    match verified {
        Some(true) => match user.id {
            Some(id) => Ok((id, user)),
            None => Err(ApiErrorView::BadRequest("User does not exist"@)),
        },
        Some(false) => Err(ApiErrorView::BadRequest("Wrong email or password"@)),
        None => Err(ApiErrorView::InternalServer("bcrypt error"@)),
    }
}

/// The outcome of a sign-in for the account found by username or email, if any.
pub open spec fn sign_in_outcome(found: Option<User>, password: Seq<char>) -> Result<(DocId, User), ApiErrorView> {
    match found {
        None => Err(ApiErrorView::BadRequest("Wrong email or password"@)),
        Some(user) => sign_in_result(user, bcrypt_verifies(password, user.password@)),
    }
}

/// Decides a sign-in for an account whose password bcrypt judged `verified`.
pub fn sign_in_decision(user: User, verified: Option<bool>) -> (r: Result<(DocId, User), ApiError>)
    ensures
        result_view(r) == sign_in_result(user, verified),
{
    match verified {
        Some(true) => match user.id {
            Some(id) => Ok((id, user)),
            None => Err(ApiError::BadRequest(String::from_str("User does not exist"))),
        },
        Some(false) => Err(ApiError::BadRequest(String::from_str("Wrong email or password"))),
        None => Err(ApiError::InternalServer(String::from_str("bcrypt error"))),
    }
}

/// Checks the password of a sign-in against the account found by its username or email.
pub fn check_sign_in(found: Option<User>, credentials: &UserSignIn) -> (r: Result<(DocId, User), ApiError>)
    ensures
        result_view(r) == sign_in_outcome(found, credentials.password@),
{
    match found {
        None => Err(ApiError::BadRequest(String::from_str("Wrong email or password"))),
        Some(user) => {
            let verified = verify_password(credentials.password.as_str(), user.password.as_str());
            sign_in_decision(user, verified)
        },
    }
}

/// An account created by sign-up with a password, once stored under an identifier, is let in
/// by a sign-in with that same password.
pub proof fn lemma_signed_up_password_signs_in(dto: UserSignUp, user: User, id: DocId)
    requires
        bcrypt_verifies(dto.password@, user.password@) == Some(true),
        user.id == Some(id),
    ensures
        sign_in_outcome(Some(user), dto.password@) == Ok::<(DocId, User), ApiErrorView>((id, user)),
{
}

/// A sign-in with an unknown username or email and one with a wrong password get the same
/// refusal, so a refusal does not tell whether the account exists.
pub proof fn lemma_sign_in_refusals_alike(user: User, password: Seq<char>, other: Seq<char>)
    requires
        bcrypt_verifies(password, user.password@) == Some(false),
    ensures
        sign_in_outcome(Some(user), password) == sign_in_outcome(None, other),
        sign_in_outcome(None, other) == Err::<(DocId, User), ApiErrorView>(
            ApiErrorView::BadRequest("Wrong email or password"@),
        ),
{
}

/// A sign-in lets in exactly an account that was found, is stored under an identifier, and
/// whose stored hash accepts the password; it then answers with that identifier and account.
pub proof fn lemma_sign_in_admits_exactly(found: Option<User>, password: Seq<char>)
    ensures
        sign_in_outcome(found, password) is Ok <==> (found matches Some(u) && u.id is Some
            && bcrypt_verifies(password, u.password@) == Some(true)),
        sign_in_outcome(found, password) matches Ok((id, u)) ==> found == Some(u) && u.id == Some(id),
{
}

/// The identifiers of the groups that have one, in order.
pub fn group_ids(groups: &Vec<Group>) -> (ids: Vec<DocId>)
    ensures
        ids@ == group_id_list(groups@),
{
    let mut ids: Vec<DocId> = Vec::new();
    for i in 0..groups.len()
        invariant
            ids@ == group_id_list(groups@.take(i as int)),
    {
        assert(groups@.take(i + 1).drop_last() =~= groups@.take(i as int));
        match groups[i].id {
            Some(id) => ids.push(id),
            None => {},
        }
    }
    assert(groups@.take(groups.len() as int) =~= groups@);
    ids
}

/// The identifiers of the groups that have one, in order.
pub open spec fn group_id_list(groups: Seq<Group>) -> Seq<DocId>
    decreases groups.len(),
{
    if groups.len() == 0 {
        Seq::empty()
    } else {
        let before = group_id_list(groups.drop_last());
        match groups.last().id {
            Some(id) => before.push(id),
            None => before,
        }
    }
}

/// The identifiers listed are exactly those of the groups that have one, and there are no more
/// of them than groups.
pub proof fn lemma_group_ids_are_those_present(groups: Seq<Group>, d: DocId)
    ensures
        group_id_list(groups).contains(d) <==> exists|i: int|
            0 <= i < groups.len() && #[trigger] groups[i].id == Some(d),
        group_id_list(groups).len() <= groups.len(),
    decreases groups.len(),
{
    if groups.len() > 0 {
        let init = groups.drop_last();
        lemma_group_ids_are_those_present(init, d);
        let before = group_id_list(init);
        let all = group_id_list(groups);
        if all.contains(d) {
            let m = choose|m: int| 0 <= m < all.len() && all[m] == d;
            if m < before.len() {
                assert(before[m] == d);
                let i = choose|i: int| 0 <= i < init.len() && #[trigger] init[i].id == Some(d);
                assert(groups[i] == init[i]);
            } else {
                assert(groups[groups.len() - 1].id == Some(d));
            }
        }
        if exists|i: int| 0 <= i < groups.len() && #[trigger] groups[i].id == Some(d) {
            let i = choose|i: int| 0 <= i < groups.len() && #[trigger] groups[i].id == Some(d);
            if i < groups.len() - 1 {
                assert(init[i] == groups[i]);
                let m = choose|m: int| 0 <= m < before.len() && before[m] == d;
                assert(all[m] == d);
            } else {
                assert(all[all.len() - 1] == d);
            }
        }
    }
}

/// The identifier of an account named in a request path; `detail` is the text of the refusal.
pub fn parse_user_id(id: &str, detail: &str) -> (r: Result<DocId, ApiError>)
    ensures
        match r {
            Ok(d) => object_id_from_hex(id@) == Some(d@),
            Err(e) => object_id_from_hex(id@) is None && e@ == ApiErrorView::BadRequest(detail@),
        },
{
    DocId::parse_or(id, ApiError::BadRequest(String::from_str(detail)))
}

/// The answer to an account deletion that removed `deleted_count` documents.
pub fn deletion_outcome(deleted_count: u64) -> (r: Result<(), ApiError>)
    ensures
        match r {
            Ok(()) => deleted_count > 0,
            Err(e) => deleted_count == 0 && e@ == ApiErrorView::NotFound("User not found"@),
        },
{
    if deleted_count == 0 {
        Err(ApiError::NotFound(String::from_str("User not found")))
    } else {
        Ok(())
    }
}

} // verus!
