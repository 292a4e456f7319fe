use vstd::prelude::*;
use crate::errors::{ApiError, ApiErrorView};
use crate::ids::DocId;
use crate::listing::{ascending_unless_desc, direction_of, trimmed_filter, trimmed_match, RegexFilter, SortKey, SortOrder};
use crate::text::opt_view;

verus! {

/// A group of users and the permissions it grants.
#[derive(Debug)]
pub struct Group {
    pub id: Option<DocId>,
    pub name: String,
    pub permissions: Vec<String>,
}

/// A group as it is returned to clients.
#[derive(Debug)]
pub struct GroupDTO {
    pub id: Option<DocId>,
    pub name: String,
    pub permissions: Vec<String>,
}

/// The body of a request that creates a group.
#[derive(Debug)]
pub struct GroupCreate {
    pub name: String,
    pub permissions: Vec<String>,
}

/// The body of a request that changes a group; absent fields stay as they are.
#[derive(Debug)]
pub struct GroupUpdate {
    pub name: Option<String>,
    pub permissions: Option<Vec<String>>,
}

/// Query of the group listing.
#[derive(Debug)]
pub struct GroupListParams {
    pub page: Option<u64>,
    pub limit: Option<u64>,
    pub name: Option<String>,
    pub sort_by: Option<GroupSortBy>,
    pub order: Option<SortOrder>,
}

/// The field the group listing can be sorted by.
#[derive(Debug, Clone, Copy, PartialEq, Eq)]
pub enum GroupSortBy {
    Name,
}

/// A field that a group update sets.
#[derive(Debug)]
pub enum GroupField {
    Name(String),
    Permissions(Vec<String>),
}

/// The filter of the group listing: a case-insensitive match of the name against the trimmed
/// `name` parameter, unless that is absent or blank.
pub fn build_filter(params: &GroupListParams) -> (r: Option<RegexFilter>)
    ensures
        match r {
            Some(f) => f.field@ == "name"@ && trimmed_match(opt_view(params.name)) == Some(
                f.pattern@,
            ),
            None => trimmed_match(opt_view(params.name)) is None,
        },
{
    trimmed_filter("name", &params.name)
}

/// The sort of the group listing: by name when asked, else by identifier; ascending unless
/// descending order is asked for.
pub fn build_sort(params: &GroupListParams) -> (k: SortKey)
    ensures
        k.field@ == (match params.sort_by {
            Some(GroupSortBy::Name) => "name"@,
            None => "_id"@,
        }),
        k.direction == ascending_unless_desc(params.order),
{
    let direction = direction_of(params.order);
    match params.sort_by {
        Some(GroupSortBy::Name) => crate::listing::sort_key("name", direction),
        None => crate::listing::sort_key("_id", direction),
    }
}

impl Group {
    /// The group a creation request describes; it has no identifier until it is stored.
    pub fn from_create(dto: GroupCreate) -> (g: Group)
        ensures
            g.id is None,
            g.name == dto.name,
            g.permissions == dto.permissions,
    {
        Group { id: None, name: dto.name, permissions: dto.permissions }
    }
}

impl GroupDTO {
    /// The stored group as returned to the client, with the identifier the store assigned;
    /// fails when the store reported none.
    pub fn from_inserted(group: Group, inserted: Option<DocId>) -> (r: Result<GroupDTO, ApiError>)
        ensures
            match r {
                Ok(dto) => inserted == Some(dto.id->0) && dto.id is Some && dto.name == group.name
                    && dto.permissions == group.permissions,
                Err(e) => inserted is None && e@ == ApiErrorView::InternalServer(
                    "Failed to get inserted id"@,
                ),
            },
    {
        match inserted {
            Some(id) => Ok(GroupDTO { id: Some(id), name: group.name, permissions: group.permissions }),
            None => Err(ApiError::InternalServer(String::from_str("Failed to get inserted id"))),
        }
    }

    /// A stored group as returned to the client.
    pub fn from_group(group: Group) -> (dto: GroupDTO)
        ensures
            dto.id == group.id,
            dto.name == group.name,
            dto.permissions == group.permissions,
    {
        GroupDTO { id: group.id, name: group.name, permissions: group.permissions }
    }
}

impl GroupUpdate {
    /// The fields an update sets, name first; an update that sets nothing is refused.
    pub fn set_fields(self) -> (r: Result<Vec<GroupField>, ApiError>)
        ensures
            match r {
                Ok(fields) => fields@.len() > 0 && fields@ == group_fields(self.name, self.permissions),
                Err(e) => self.name is None && self.permissions is None && e@
                    == ApiErrorView::BadRequest("No fields to update"@),
            },
    {
        let mut fields: Vec<GroupField> = Vec::new();
        match self.name {
            Some(n) => fields.push(GroupField::Name(n)),
            None => {},
        }
        match self.permissions {
            Some(p) => fields.push(GroupField::Permissions(p)),
            None => {},
        }
        assert(fields@ =~= group_fields(self.name, self.permissions));
        if fields.len() == 0 {
            Err(ApiError::BadRequest(String::from_str("No fields to update")))
        } else {
            Ok(fields)
        }
    }
}

/// The fields set by a group update with these optional values, in order.
pub open spec fn group_fields(name: Option<String>, permissions: Option<Vec<String>>) -> Seq<GroupField> {
    (match name {
        Some(n) => seq![GroupField::Name(n)],
        None => Seq::empty(),
    }) + (match permissions {
        Some(p) => seq![GroupField::Permissions(p)],
        None => Seq::empty(),
    })
}

/// An update sets the name to the one it carries and the permissions to the ones it carries, and
/// sets nothing it does not carry; each field at most once, the name first.
pub proof fn lemma_update_sets_carried_fields(name: Option<String>, permissions: Option<Vec<String>>)
    ensures
        forall|n: String| #[trigger] group_fields(name, permissions).contains(GroupField::Name(n)) <==> name == Some(n),
        forall|p: Vec<String>|
            #[trigger] group_fields(name, permissions).contains(GroupField::Permissions(p)) <==> permissions
                == Some(p),
        group_fields(name, permissions).len() == (if name is Some {
            1int
        } else {
            0
        }) + (if permissions is Some {
            1int
        } else {
            0
        }),
        name matches Some(n) ==> group_fields(name, permissions)[0] == GroupField::Name(n),
        permissions matches Some(p) ==> group_fields(name, permissions).last() == GroupField::Permissions(p),
{
    let a: Seq<GroupField> = match name {
        Some(n) => seq![GroupField::Name(n)],
        None => Seq::empty(),
    };
    let b: Seq<GroupField> = match permissions {
        Some(p) => seq![GroupField::Permissions(p)],
        None => Seq::empty(),
    };
    let all = group_fields(name, permissions);
    assert(all == a + b);
    assert forall|x: GroupField| all.contains(x) <==> (a.contains(x) || b.contains(x)) by {
        if all.contains(x) {
            let i = choose|i: int| 0 <= i < all.len() && all[i] == x;
            if i < a.len() {
                assert(a[i] == x);
            } else {
                assert(b[i - a.len()] == x);
            }
        }
        if a.contains(x) {
            let i = choose|i: int| 0 <= i < a.len() && a[i] == x;
            assert(all[i] == x);
        }
        if b.contains(x) {
            let i = choose|i: int| 0 <= i < b.len() && b[i] == x;
            assert(all[a.len() + i] == x);
        }
    }
    assert forall|n: String| #[trigger] all.contains(GroupField::Name(n)) <==> name == Some(n) by {
        let x = GroupField::Name(n);
        if a.contains(x) || name == Some(n) {
            assert(a[0] == x);
        }
        if b.contains(x) {
            assert(b[0] == x);
        }
    }
    assert forall|p: Vec<String>| #[trigger] all.contains(GroupField::Permissions(p)) <==> permissions == Some(p) by {
        let x = GroupField::Permissions(p);
        if b.contains(x) || permissions == Some(p) {
            assert(b[0] == x);
        }
        if a.contains(x) {
            assert(a[0] == x);
        }
    }
}

/// The answer to a group lookup: the group when one was found.
pub fn found_group(found: Option<GroupDTO>) -> (r: Result<GroupDTO, ApiError>)
    ensures
        match r {
            Ok(g) => found == Some(g),
            Err(e) => found is None && e@ == ApiErrorView::NotFound("Group not found"@),
        },
{
    match found {
        Some(g) => Ok(g),
        None => Err(ApiError::NotFound(String::from_str("Group not found"))),
    }
}

/// The answer to a group deletion that removed `deleted_count` documents.
pub fn deletion_outcome(deleted_count: u64) -> (r: Result<(), ApiError>)
    ensures
        match r {
            Ok(()) => deleted_count > 0,
            Err(e) => deleted_count == 0 && e@ == ApiErrorView::NotFound("Group not found"@),
        },
{
    if deleted_count == 0 {
        Err(ApiError::NotFound(String::from_str("Group not found")))
    } else {
        Ok(())
    }
}

/// The identifier of a group named in a request path.
pub fn parse_group_id(id: &str) -> (r: Result<DocId, ApiError>)
    ensures
        match r {
            Ok(d) => crate::ids::object_id_from_hex(id@) == Some(d@),
            Err(e) => crate::ids::object_id_from_hex(id@) is None && e@ == ApiErrorView::BadRequest(
                "Invalid group id"@,
            ),
        },
{
    DocId::parse_or(id, ApiError::BadRequest(String::from_str("Invalid group id")))
}

} // verus!
