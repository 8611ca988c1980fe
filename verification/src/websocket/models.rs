//! Message kinds of the websocket protocol and message previews.

use vstd::prelude::*;
use vstd::string::*;
use crate::text::{chars_of, push_char, string_from_range};

verus! {

/// Where a message comes from.
#[derive(Debug, Clone, Copy, PartialEq, Eq, Structural)]
pub enum SourceType {
    Friend,
    Group,
}

impl SourceType {
    pub open spec fn label(self) -> Seq<char> {
        match self {
            SourceType::Friend => "friend"@,
            SourceType::Group => "group"@,
        }
    }

    /// The name shown for the source type.
    pub fn to_string(&self) -> (r: String)
        ensures
            r@ == self.label(),
    {
        match self {
            SourceType::Friend => String::from_str("friend"),
            SourceType::Group => String::from_str("group"),
        }
    }
}

/// Kinds of system notifications.
#[derive(Debug, Clone, Copy, PartialEq, Eq, Structural)]
pub enum SystemNotificationType {
    FriendRequest,
    FriendRequestApproved,
    FriendRequestRejected,
    GroupInvite,
    GroupJoinRequest,
    GroupJoinApproved,
    GroupRemoved,
    GroupDisbanded,
    GroupNoticeUpdated,
}

/// A message from a client.
#[derive(Debug, Clone)]
pub enum ClientMessage {
    MarkRead { target_type: SourceType, target_id: String },
    Ping,
    SubscribePresence { user_ids: Vec<String> },
}

/// The preview of a message: the text itself when it has at most `max_len` characters,
/// otherwise its first `max_len` characters followed by `...`.
pub open spec fn preview_of(content: Seq<char>, max_len: nat) -> Seq<char> {
    if content.len() <= max_len {
        content
    } else {
        content.take(max_len as int) + "..."@
    }
}

/// Shortens a message for a notification preview.
pub fn truncate_preview(content: &str, max_len: usize) -> (r: String)
    ensures
        r@ == preview_of(content@, max_len as nat),
{
    let v = chars_of(content);
    if v.len() <= max_len {
        String::from_str(content)
    } else {
        let mut r = string_from_range(&v, 0, max_len);
        r.append("...");
        assert(v@.subrange(0, max_len as int) == v@.take(max_len as int));
        r
    }
}

/// The sum of a sequence of counts.
pub open spec fn sum_counts(s: Seq<i32>) -> int
    decreases s.len(),
{
    if s.len() == 0 { 0 } else { sum_counts(s.drop_last()) + s.last() }
}

/// The total of the friend and group unread counts; the total must fit an `i32`.
pub fn unread_total(friend_counts: &Vec<i32>, group_counts: &Vec<i32>) -> (r: i32)
    requires
        forall|k: int| 0 <= k <= friend_counts@.len() ==> i32::MIN <= #[trigger] sum_counts(friend_counts@.take(k)) <= i32::MAX,
        forall|k: int| 0 <= k <= group_counts@.len() ==> i32::MIN <= #[trigger] sum_counts(group_counts@.take(k)) <= i32::MAX,
        i32::MIN <= sum_counts(friend_counts@) + sum_counts(group_counts@) <= i32::MAX,
    ensures
        r == sum_counts(friend_counts@) + sum_counts(group_counts@),
{
    let f = sum_vec(friend_counts);
    let g = sum_vec(group_counts);
    f + g
}

fn sum_vec(v: &Vec<i32>) -> (r: i32)
    requires
        forall|k: int| 0 <= k <= v@.len() ==> i32::MIN <= #[trigger] sum_counts(v@.take(k)) <= i32::MAX,
    ensures
        r == sum_counts(v@),
{
    let mut s: i32 = 0;
    let mut i: usize = 0;
    assert(v@.take(0) == Seq::<i32>::empty());
    while i < v.len()
        invariant
            i <= v.len(),
            forall|k: int| 0 <= k <= v@.len() ==> i32::MIN <= #[trigger] sum_counts(v@.take(k)) <= i32::MAX,
            s == sum_counts(v@.take(i as int)),
        decreases v.len() - i,
    {
        assert(v@.take(i + 1).drop_last() == v@.take(i as int));
        assert(sum_counts(v@.take(i + 1)) == s + v@[i as int]);
        assert(i32::MIN <= sum_counts(v@.take(i + 1)) <= i32::MAX);
        s = s + v[i];
        i = i + 1;
    }
    assert(v@.take(v@.len() as int) == v@);
    s
}


/// A preview is the text itself when short enough, and otherwise a prefix of it with `...`:
/// never more than three characters over the limit.
pub proof fn law_preview_bounded(content: Seq<char>, max_len: nat)
    ensures
        preview_of(content, max_len).len() <= max_len + 3,
        content.len() <= max_len ==> preview_of(content, max_len) == content,
        content.len() > max_len ==> preview_of(content, max_len).take(max_len as int) == content.take(max_len as int),
{
    reveal_strlit("...");
    if content.len() > max_len {
        assert(preview_of(content, max_len).take(max_len as int) =~= content.take(max_len as int));
    }
}

} // verus!
