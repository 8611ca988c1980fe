//! The region part of choosing TURN nodes for a client.
//!
//! A node's score adds a bonus when it is in the client's region, a smaller one when its region
//! is near the client's; the load part of the score is fractional and computed beside this.

use vstd::prelude::*;
use crate::text::str_eq;

verus! {

/// The group of nearby regions a region belongs to (0 to 3), or -1 for none.
pub open spec fn region_group(r: Seq<char>) -> int {
    if r == "cn-north"@ || r == "cn-east"@ || r == "cn-south"@ {
        0
    } else if r == "us-west"@ || r == "us-east"@ {
        1
    } else if r == "eu-west"@ || r == "eu-central"@ {
        2
    } else if r == "ap-southeast"@ || r == "ap-northeast"@ {
        3
    } else {
        -1
    }
}

/// Two regions are near each other when they belong to the same group.
pub open spec fn nearby(a: Seq<char>, b: Seq<char>) -> bool {
    region_group(a) >= 0 && region_group(a) == region_group(b)
}

/// The score bonus of a node in `node_region` for a client in `client_region`.
pub open spec fn region_bonus_of(node_region: Seq<char>, client_region: Option<Seq<char>>) -> u32 {
    match client_region {
        Some(c) => if node_region == c { 30 } else if nearby(node_region, c) { 15 } else { 0 },
        None => 0,
    }
}

fn group_of(r: &str) -> (g: i8)
    ensures
        g == region_group(r@),
{
    if str_eq(r, "cn-north") || str_eq(r, "cn-east") || str_eq(r, "cn-south") {
        0
    } else if str_eq(r, "us-west") || str_eq(r, "us-east") {
        1
    } else if str_eq(r, "eu-west") || str_eq(r, "eu-central") {
        2
    } else if str_eq(r, "ap-southeast") || str_eq(r, "ap-northeast") {
        3
    } else {
        -1
    }
}

/// Whether two regions are near each other.
pub fn is_nearby_region(region1: &str, region2: &str) -> (r: bool)
    ensures
        r == nearby(region1@, region2@),
{
    let g = group_of(region1);
    g >= 0 && g == group_of(region2)
}

/// The region bonus of a node for a client: 30 in the same region, 15 in a nearby one,
/// otherwise (or when the client's region is unknown) nothing.
pub fn region_bonus(node_region: &str, client_region: Option<&str>) -> (r: u32)
    ensures
        r == region_bonus_of(node_region@, match client_region { Some(c) => Some(c@), None => None }),
{
    match client_region {
        Some(c) => if str_eq(node_region, c) {
            30
        } else if is_nearby_region(node_region, c) {
            15
        } else {
            0
        },
        None => 0,
    }
}

/// Nearness of regions is symmetric.
pub proof fn law_nearby_symmetric(a: Seq<char>, b: Seq<char>)
    ensures
        nearby(a, b) == nearby(b, a),
{
}

/// The regions a node can be placed in.
pub open spec fn known_regions() -> Set<Seq<char>> {
    set![
        "cn-north"@, "cn-east"@, "cn-south"@, "us-west"@, "us-east"@, "eu-west"@, "eu-central"@,
        "ap-southeast"@, "ap-northeast"@,
    ]
}

/// The area code of a known region's area: the first two letters of its name.
pub open spec fn area_code(area: Seq<char>) -> int {
    if area == "cn"@ { 0 } else if area == "us"@ { 1 } else if area == "eu"@ { 2 } else if area == "ap"@ { 3 } else { -1 }
}

/// Each known region's group is that of its area, and the areas are told apart.
proof fn lemma_known_region_groups()
    ensures
        forall|x: Seq<char>| #[trigger] known_regions().contains(x) ==>
            region_group(x) == area_code(x.take(2)) && region_group(x) >= 0,
        forall|x: Seq<char>| region_group(x) >= 0 ==> #[trigger] known_regions().contains(x),
        "cn"@ != "us"@ && "cn"@ != "eu"@ && "cn"@ != "ap"@ && "us"@ != "eu"@ && "us"@ != "ap"@ && "eu"@ != "ap"@,
{
    reveal_strlit("cn-north");
    reveal_strlit("cn-east");
    reveal_strlit("cn-south");
    reveal_strlit("us-west");
    reveal_strlit("us-east");
    reveal_strlit("eu-west");
    reveal_strlit("eu-central");
    reveal_strlit("ap-southeast");
    reveal_strlit("ap-northeast");
    reveal_strlit("cn");
    reveal_strlit("us");
    reveal_strlit("eu");
    reveal_strlit("ap");
    assert("cn-south"@ != "cn-north"@) by { assert("cn-south"@[3] != "cn-north"@[3]); }
    assert("us-west"@ != "cn-east"@) by { assert("us-west"@[0] != "cn-east"@[0]); }
    assert("us-east"@ != "cn-east"@) by { assert("us-east"@[0] != "cn-east"@[0]); }
    assert("us-east"@ != "us-west"@) by { assert("us-east"@[3] != "us-west"@[3]); }
    assert("eu-west"@ != "cn-east"@) by { assert("eu-west"@[0] != "cn-east"@[0]); }
    assert("eu-west"@ != "us-west"@) by { assert("eu-west"@[0] != "us-west"@[0]); }
    assert("eu-west"@ != "us-east"@) by { assert("eu-west"@[0] != "us-east"@[0]); }
    assert("ap-northeast"@ != "ap-southeast"@) by { assert("ap-northeast"@[3] != "ap-southeast"@[3]); }
    assert("cn-east"@ != "cn-north"@) by { assert("cn-east"@.len() != "cn-north"@.len()); }
    assert("cn-south"@ != "cn-east"@) by { assert("cn-south"@.len() != "cn-east"@.len()); }
    assert("us-west"@ != "cn-north"@) by { assert("us-west"@.len() != "cn-north"@.len()); }
    assert("us-west"@ != "cn-south"@) by { assert("us-west"@.len() != "cn-south"@.len()); }
    assert("us-east"@ != "cn-north"@) by { assert("us-east"@.len() != "cn-north"@.len()); }
    assert("us-east"@ != "cn-south"@) by { assert("us-east"@.len() != "cn-south"@.len()); }
    assert("eu-west"@ != "cn-north"@) by { assert("eu-west"@.len() != "cn-north"@.len()); }
    assert("eu-west"@ != "cn-south"@) by { assert("eu-west"@.len() != "cn-south"@.len()); }
    assert("eu-central"@ != "cn-north"@) by { assert("eu-central"@.len() != "cn-north"@.len()); }
    assert("eu-central"@ != "cn-east"@) by { assert("eu-central"@.len() != "cn-east"@.len()); }
    assert("eu-central"@ != "cn-south"@) by { assert("eu-central"@.len() != "cn-south"@.len()); }
    assert("eu-central"@ != "us-west"@) by { assert("eu-central"@.len() != "us-west"@.len()); }
    assert("eu-central"@ != "us-east"@) by { assert("eu-central"@.len() != "us-east"@.len()); }
    assert("eu-central"@ != "eu-west"@) by { assert("eu-central"@.len() != "eu-west"@.len()); }
    assert("ap-southeast"@ != "cn-north"@) by { assert("ap-southeast"@.len() != "cn-north"@.len()); }
    assert("ap-southeast"@ != "cn-east"@) by { assert("ap-southeast"@.len() != "cn-east"@.len()); }
    assert("ap-southeast"@ != "cn-south"@) by { assert("ap-southeast"@.len() != "cn-south"@.len()); }
    assert("ap-southeast"@ != "us-west"@) by { assert("ap-southeast"@.len() != "us-west"@.len()); }
    assert("ap-southeast"@ != "us-east"@) by { assert("ap-southeast"@.len() != "us-east"@.len()); }
    assert("ap-southeast"@ != "eu-west"@) by { assert("ap-southeast"@.len() != "eu-west"@.len()); }
    assert("ap-southeast"@ != "eu-central"@) by { assert("ap-southeast"@.len() != "eu-central"@.len()); }
    assert("ap-northeast"@ != "cn-north"@) by { assert("ap-northeast"@.len() != "cn-north"@.len()); }
    assert("ap-northeast"@ != "cn-east"@) by { assert("ap-northeast"@.len() != "cn-east"@.len()); }
    assert("ap-northeast"@ != "cn-south"@) by { assert("ap-northeast"@.len() != "cn-south"@.len()); }
    assert("ap-northeast"@ != "us-west"@) by { assert("ap-northeast"@.len() != "us-west"@.len()); }
    assert("ap-northeast"@ != "us-east"@) by { assert("ap-northeast"@.len() != "us-east"@.len()); }
    assert("ap-northeast"@ != "eu-west"@) by { assert("ap-northeast"@.len() != "eu-west"@.len()); }
    assert("ap-northeast"@ != "eu-central"@) by { assert("ap-northeast"@.len() != "eu-central"@.len()); }
    assert(region_group("cn-north"@) == 0);
    assert("cn-north"@.take(2) =~= "cn"@);
    assert(region_group("cn-east"@) == 0);
    assert("cn-east"@.take(2) =~= "cn"@);
    assert(region_group("cn-south"@) == 0);
    assert("cn-south"@.take(2) =~= "cn"@);
    assert(region_group("us-west"@) == 1);
    assert("us-west"@.take(2) =~= "us"@);
    assert(region_group("us-east"@) == 1);
    assert("us-east"@.take(2) =~= "us"@);
    assert(region_group("eu-west"@) == 2);
    assert("eu-west"@.take(2) =~= "eu"@);
    assert(region_group("eu-central"@) == 2);
    assert("eu-central"@.take(2) =~= "eu"@);
    assert(region_group("ap-southeast"@) == 3);
    assert("ap-southeast"@.take(2) =~= "ap"@);
    assert(region_group("ap-northeast"@) == 3);
    assert("ap-northeast"@.take(2) =~= "ap"@);
    assert("cn"@[0] != "us"@[0] && "cn"@[0] != "eu"@[0] && "cn"@[0] != "ap"@[0]);
    assert("us"@[0] != "eu"@[0] && "us"@[0] != "ap"@[0] && "eu"@[0] != "ap"@[0]);
}

/// Nearby regions are the known regions of the same area: two known regions are near each
/// other exactly when their names start with the same two-letter area (`cn`, `us`, `eu`,
/// `ap`), and an unknown region is near none. A node in a nearby region earns the 15-point
/// bonus.
pub proof fn law_nearby_means_same_area(a: Seq<char>, b: Seq<char>)
    ensures
        known_regions().contains(a) && known_regions().contains(b)
            ==> (nearby(a, b) <==> a.take(2) == b.take(2)),
        !known_regions().contains(a) ==> !nearby(a, b),
        known_regions().contains(a) && known_regions().contains(b) && a != b && a.take(2) == b.take(2)
            ==> region_bonus_of(a, Some(b)) == 15,
{
    lemma_known_region_groups();
    if known_regions().contains(a) && known_regions().contains(b) {
        assert(region_group(a) == area_code(a.take(2)));
        assert(region_group(b) == area_code(b.take(2)));
    }
}

} // verus!
