//! Access grants created when a file upload completes.

use vstd::prelude::*;
use vstd::string::*;
use crate::text::{opt_view, str_eq};

verus! {

/// One access right to a file: who, what kind, and why.
#[derive(Debug, Clone)]
pub struct PermissionGrant {
    pub user_id: String,
    pub access_type: String,
    pub granted_by: String,
}

impl PermissionGrant {
    pub open spec fn view(&self) -> (Seq<char>, Seq<char>, Seq<char>) {
        (self.user_id@, self.access_type@, self.granted_by@)
    }
}

/// Read grants for the group members other than the uploader, in the order of `members`.
pub open spec fn group_share_grants(members: Seq<Seq<char>>, owner: Seq<char>)
    -> Seq<(Seq<char>, Seq<char>, Seq<char>)>
    decreases members.len(),
{
    if members.len() == 0 {
        Seq::empty()
    } else {
        let rest = group_share_grants(members.drop_last(), owner);
        if members.last() != owner {
            rest.push((members.last(), "read"@, "group_share"@))
        } else {
            rest
        }
    }
}

/// The grants of a completed upload: the uploader as owner; for a conversation file, the friend
/// may read it; for a group file, every active member other than the uploader may read it.
pub open spec fn upload_grants(
    owner: Seq<char>,
    location: Seq<char>,
    related: Option<Seq<char>>,
    members: Seq<Seq<char>>,
) -> Seq<(Seq<char>, Seq<char>, Seq<char>)> {
    let owner_grant = seq![(owner, "owner"@, "upload"@)];
    let friend_grants = match related {
        Some(f) => if location == "friend_messages"@ { seq![(f, "read"@, "friend_share"@)] } else { Seq::empty() },
        None => Seq::empty(),
    };
    let group_grants = match related {
        Some(_) => if location == "group_files"@ { group_share_grants(members, owner) } else { Seq::empty() },
        None => Seq::empty(),
    };
    owner_grant + friend_grants + group_grants
}

pub open spec fn grants_view(v: Seq<PermissionGrant>) -> Seq<(Seq<char>, Seq<char>, Seq<char>)> {
    v.map_values(|g: PermissionGrant| g.view())
}

fn grant(user_id: &str, access_type: &str, granted_by: &str) -> (g: PermissionGrant)
    ensures
        g.view() == (user_id@, access_type@, granted_by@),
{
    PermissionGrant {
        user_id: String::from_str(user_id),
        access_type: String::from_str(access_type),
        granted_by: String::from_str(granted_by),
    }
}

/// The access grants to record when an upload completes (or is reused). `storage_location` is
/// the stored location name; `group_members` are the active members of the related group.
pub fn upload_permission_grants(
    owner_id: &str,
    storage_location: &str,
    related_id: Option<&str>,
    group_members: &Vec<String>,
) -> (r: Vec<PermissionGrant>)
    ensures
        grants_view(r@) == upload_grants(owner_id@, storage_location@, opt_view(related_id),
            group_members@.map_values(|m: String| m@)),
{
    let ghost members = group_members@.map_values(|m: String| m@);
    let mut r: Vec<PermissionGrant> = Vec::new();
    r.push(grant(owner_id, "owner", "upload"));
    assert(grants_view(r@) == seq![(owner_id@, "owner"@, "upload"@)]);
    if str_eq(storage_location, "friend_messages") {
        if let Some(friend_id) = related_id {
            r.push(grant(friend_id, "read", "friend_share"));
        }
    }
    let ghost base = grants_view(r@);
    if str_eq(storage_location, "group_files") {
        if let Some(_) = related_id {
            let mut i: usize = 0;
            while i < group_members.len()
                invariant
                    i <= group_members.len(),
                    members == group_members@.map_values(|m: String| m@),
                    grants_view(r@) == base + group_share_grants(members.take(i as int), owner_id@),
                decreases group_members.len() - i,
            {
                let ghost before = r@;
                assert(members.take(i + 1).drop_last() == members.take(i as int));
                assert(members.take(i + 1).last() == group_members@[i as int]@);
                if !str_eq(group_members[i].as_str(), owner_id) {
                    r.push(grant(group_members[i].as_str(), "read", "group_share"));
                    assert(grants_view(r@) == grants_view(before).push(r@.last().view()));
                }
                i = i + 1;
            }
            assert(members.take(group_members.len() as int) == members);
        }
    }
    r
}

/// Every grant for the members of a group is a read grant.
proof fn lemma_group_share_grants_read(members: Seq<Seq<char>>, owner: Seq<char>)
    ensures
        forall|i: int| 0 <= i < group_share_grants(members, owner).len() ==>
            (#[trigger] group_share_grants(members, owner)[i]).1 == "read"@
            && group_share_grants(members, owner)[i].0 != owner,
    decreases members.len(),
{
    if members.len() > 0 {
        lemma_group_share_grants_read(members.drop_last(), owner);
        let rest = group_share_grants(members.drop_last(), owner);
        if members.last() != owner {
            let g = rest.push((members.last(), "read"@, "group_share"@));
            assert forall|i: int| 0 <= i < g.len() implies (#[trigger] g[i]).1 == "read"@ && g[i].0 != owner by {
                if i < rest.len() {
                    assert(g[i] == rest[i]);
                }
            }
        }
    }
}

/// Only the uploader owns an uploaded file: the first grant makes the uploader the owner, and
/// every other grant (a friend's or a group member's share) only lets its user read the file,
/// never the uploader again.
pub proof fn law_only_uploader_owns(
    owner: Seq<char>,
    location: Seq<char>,
    related: Option<Seq<char>>,
    members: Seq<Seq<char>>,
)
    ensures
        upload_grants(owner, location, related, members).len() >= 1,
        upload_grants(owner, location, related, members)[0] == (owner, "owner"@, "upload"@),
        forall|i: int| 1 <= i < upload_grants(owner, location, related, members).len() ==>
            (#[trigger] upload_grants(owner, location, related, members)[i]).1 == "read"@
            && upload_grants(owner, location, related, members)[i].1 != "owner"@,
{
    reveal_strlit("read");
    reveal_strlit("owner");
    assert("read"@ != "owner"@) by {
        assert("read"@[0] != "owner"@[0]);
    }
    lemma_group_share_grants_read(members, owner);
}

} // verus!
