//! Who may read a stored file, and for how long a link stays valid.

use vstd::prelude::*;
use vstd::string::*;
use crate::storage::paths::{
    conversation_of_key, conversation_participants, extract_conversation_uuid,
    parse_conversation_participants,
};
use crate::text::{concat3, dec, str_eq, u64_to_string};

verus! {

/// The default lifetime of a presigned URL: 3 hours.
pub const DEFAULT_LINK_SECONDS: u32 = 10800;

/// The longest lifetime of an extended presigned URL: 7 days.
pub const MAX_EXTENDED_LINK_SECONDS: u32 = 604800;

/// The lifetime of an ordinary presigned URL: the requested one (3 hours by default), at most
/// 3 hours; a longer request gives the message of the refusal.
pub open spec fn normal_expiry(requested: Option<u32>) -> Result<u32, Seq<char>> {
    let e = match requested { Some(e) => e, None => DEFAULT_LINK_SECONDS };
    if e > DEFAULT_LINK_SECONDS { Err("普通文件预签名URL最长有效期为3小时"@) } else { Ok(e) }
}

/// The lifetime of a presigned URL for a very large file: the estimated download time,
/// which must be given and lie between 3 hours and 7 days.
pub open spec fn extended_expiry(estimated: Option<u32>) -> Result<u32, Seq<char>> {
    match estimated {
        None => Err("超大文件必须指定 estimated_download_time"@),
        Some(e) => if e < DEFAULT_LINK_SECONDS {
            Err("有效期最少为3小时（10800秒）"@)
        } else if e > MAX_EXTENDED_LINK_SECONDS {
            Err("有效期最多为7天（604800秒）"@)
        } else {
            Ok(e)
        },
    }
}

/// Checks the lifetime asked for an ordinary presigned URL.
pub fn normal_presigned_expiry(requested: Option<u32>) -> (r: Result<u32, String>)
    ensures
        match normal_expiry(requested) {
            Ok(e) => r == Ok::<u32, String>(e),
            Err(m) => r is Err && r->Err_0@ == m,
        },
{
    let expires_in = match requested { Some(e) => e, None => DEFAULT_LINK_SECONDS };
    if expires_in > DEFAULT_LINK_SECONDS {
        Err(String::from_str("普通文件预签名URL最长有效期为3小时"))
    } else {
        Ok(expires_in)
    }
}

/// Checks the lifetime asked for the presigned URL of a very large file.
pub fn extended_presigned_expiry(estimated_download_time: Option<u32>) -> (r: Result<u32, String>)
    ensures
        match extended_expiry(estimated_download_time) {
            Ok(e) => r == Ok::<u32, String>(e),
            Err(m) => r is Err && r->Err_0@ == m,
        },
{
    match estimated_download_time {
        None => Err(String::from_str("超大文件必须指定 estimated_download_time")),
        Some(e) => {
            if e < DEFAULT_LINK_SECONDS {
                Err(String::from_str("有效期最少为3小时（10800秒）"))
            } else if e > MAX_EXTENDED_LINK_SECONDS {
                Err(String::from_str("有效期最多为7天（604800秒）"))
            } else {
                Ok(e)
            }
        }
    }
}

/// A link valid for more than a day carries a warning with its lifetime in whole hours.
pub fn expiry_warning(expires_in: u32) -> (r: Option<String>)
    ensures
        expires_in <= 86400 ==> r is None,
        expires_in > 86400 ==> r is Some && r->Some_0@
            == "此链接将在"@ + dec((expires_in / 3600) as nat) + "小时后过期"@,
{
    if expires_in > 86400 {
        let h = u64_to_string((expires_in / 3600) as u64);
        Some(concat3("此链接将在", h.as_str(), "小时后过期"))
    } else {
        None
    }
}

/// Why a friend file cannot be opened by the asking user.
#[derive(Debug, Clone, Copy, PartialEq, Eq, Structural)]
pub enum FriendFileDenial {
    /// The file key does not start with a conversation identifier.
    NotAConversationFile,
    /// The conversation identifier does not name two users.
    MalformedConversation,
    /// The asking user is not one of the two users.
    NotAParticipant,
}

/// The outcome of checking a friend file: the other user of the conversation, or a denial.
pub open spec fn friend_file_access(user_id: Seq<char>, physical_key: Seq<char>)
    -> Result<Seq<char>, FriendFileDenial>
{
    match conversation_of_key(physical_key) {
        None => Err(FriendFileDenial::NotAConversationFile),
        Some(c) => match conversation_participants(c) {
            None => Err(FriendFileDenial::MalformedConversation),
            Some((a, b)) => if user_id != a && user_id != b {
                Err(FriendFileDenial::NotAParticipant)
            } else if user_id == a {
                Ok(b)
            } else {
                Ok(a)
            },
        },
    }
}

/// The HTTP status and message a denied friend-file request is answered with.
pub fn friend_denial_answer(d: FriendFileDenial) -> (r: (u16, &'static str))
    ensures
        match d {
            FriendFileDenial::NotAConversationFile => r.0 == 400 && r.1@ == "文件路径格式错误，无法识别会话"@,
            FriendFileDenial::MalformedConversation => r.0 == 400 && r.1@ == "会话标识格式错误"@,
            FriendFileDenial::NotAParticipant => r.0 == 403 && r.1@ == "无权访问此文件"@,
        },
{
    match d {
        FriendFileDenial::NotAConversationFile => (400, "文件路径格式错误，无法识别会话"),
        FriendFileDenial::MalformedConversation => (400, "会话标识格式错误"),
        FriendFileDenial::NotAParticipant => (403, "无权访问此文件"),
    }
}

/// Checks that the user is one of the two users of the conversation that holds the file,
/// and names the other one, whose friendship must still hold.
pub fn check_friend_file_access(user_id: &str, physical_file_key: &str) -> (r: Result<String, FriendFileDenial>)
    ensures
        match friend_file_access(user_id@, physical_file_key@) {
            Ok(f) => r is Ok && r->Ok_0@ == f,
            Err(d) => r == Err::<String, FriendFileDenial>(d),
        },
{
    let conv = match extract_conversation_uuid(physical_file_key) {
        Some(c) => c,
        None => return Err(FriendFileDenial::NotAConversationFile),
    };
    let (a, b) = match parse_conversation_participants(conv.as_str()) {
        Some(p) => p,
        None => return Err(FriendFileDenial::MalformedConversation),
    };
    if !str_eq(user_id, a.as_str()) && !str_eq(user_id, b.as_str()) {
        return Err(FriendFileDenial::NotAParticipant);
    }
    if str_eq(user_id, a.as_str()) { Ok(b) } else { Ok(a) }
}

} // verus!
