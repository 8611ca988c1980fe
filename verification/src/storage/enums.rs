//! Kinds of stored files, buckets, upload modes and preview support.

use vstd::prelude::*;
use vstd::string::*;
use crate::text::{concat2, str_eq};

verus! {

/// What a stored file is used for; it decides the size limit and the key layout.
#[derive(Debug, Clone, Copy, PartialEq, Eq, Structural)]
pub enum FileType {
    Avatar,
    UserImage,
    UserImageFile,
    UserVideo,
    UserVideoFile,
    UserDocument,
    FriendImage,
    FriendImageFile,
    FriendVideo,
    FriendVideoFile,
    FriendDocument,
    GroupImage,
    GroupVideo,
    GroupDocument,
}

impl FileType {
    /// The snake_case name of the file type.
    pub open spec fn label(self) -> Seq<char> {
        match self {
            FileType::Avatar => "avatar"@,
            FileType::UserImage => "user_image"@,
            FileType::UserImageFile => "user_image_file"@,
            FileType::UserVideo => "user_video"@,
            FileType::UserVideoFile => "user_video_file"@,
            FileType::UserDocument => "user_document"@,
            FileType::FriendImage => "friend_image"@,
            FileType::FriendImageFile => "friend_image_file"@,
            FileType::FriendVideo => "friend_video"@,
            FileType::FriendVideoFile => "friend_video_file"@,
            FileType::FriendDocument => "friend_document"@,
            FileType::GroupImage => "group_image"@,
            FileType::GroupVideo => "group_video"@,
            FileType::GroupDocument => "group_document"@,
        }
    }

    pub fn to_string(&self) -> (r: String)
        ensures
            r@ == self.label(),
    {
        match self {
            FileType::Avatar => String::from_str("avatar"),
            FileType::UserImage => String::from_str("user_image"),
            FileType::UserImageFile => String::from_str("user_image_file"),
            FileType::UserVideo => String::from_str("user_video"),
            FileType::UserVideoFile => String::from_str("user_video_file"),
            FileType::UserDocument => String::from_str("user_document"),
            FileType::FriendImage => String::from_str("friend_image"),
            FileType::FriendImageFile => String::from_str("friend_image_file"),
            FileType::FriendVideo => String::from_str("friend_video"),
            FileType::FriendVideoFile => String::from_str("friend_video_file"),
            FileType::FriendDocument => String::from_str("friend_document"),
            FileType::GroupImage => String::from_str("group_image"),
            FileType::GroupVideo => String::from_str("group_video"),
            FileType::GroupDocument => String::from_str("group_document"),
        }
    }
}

/// Where a file is stored; each location is one bucket.
#[derive(Debug, Clone, Copy, PartialEq, Eq, Structural)]
pub enum StorageLocation {
    Avatars,
    UserFiles,
    FriendMessages,
    GroupFiles,
}

impl StorageLocation {
    /// The bucket that holds files of this location.
    pub open spec fn bucket(self) -> Seq<char> {
        match self {
            StorageLocation::Avatars => "avatars"@,
            StorageLocation::UserFiles => "user-file"@,
            StorageLocation::FriendMessages => "friends-file"@,
            StorageLocation::GroupFiles => "group-file"@,
        }
    }

    /// The snake_case name of the location.
    pub open spec fn label(self) -> Seq<char> {
        match self {
            StorageLocation::Avatars => "avatars"@,
            StorageLocation::UserFiles => "user_files"@,
            StorageLocation::FriendMessages => "friend_messages"@,
            StorageLocation::GroupFiles => "group_files"@,
        }
    }

    pub fn to_bucket_name(&self) -> (r: &'static str)
        ensures
            r@ == self.bucket(),
    {
        match self {
            StorageLocation::Avatars => "avatars",
            StorageLocation::UserFiles => "user-file",
            StorageLocation::FriendMessages => "friends-file",
            StorageLocation::GroupFiles => "group-file",
        }
    }

    pub fn to_string(&self) -> (r: String)
        ensures
            r@ == self.label(),
    {
        match self {
            StorageLocation::Avatars => String::from_str("avatars"),
            StorageLocation::UserFiles => String::from_str("user_files"),
            StorageLocation::FriendMessages => String::from_str("friend_messages"),
            StorageLocation::GroupFiles => String::from_str("group_files"),
        }
    }

    /// The location whose name is `s`, if any.
    pub open spec fn parse(s: Seq<char>) -> Option<StorageLocation> {
        if s == "avatars"@ {
            Some(StorageLocation::Avatars)
        } else if s == "user_files"@ {
            Some(StorageLocation::UserFiles)
        } else if s == "friend_messages"@ {
            Some(StorageLocation::FriendMessages)
        } else if s == "group_files"@ {
            Some(StorageLocation::GroupFiles)
        } else {
            None
        }
    }

    /// Parses a location name; an unknown name gives the message `无效的存储位置: {s}`.
    pub fn from_str(s: &str) -> (r: Result<StorageLocation, String>)
        ensures
            match r {
                Ok(l) => StorageLocation::parse(s@) == Some(l),
                Err(m) => StorageLocation::parse(s@) is None && m@ == "无效的存储位置: "@ + s@,
            },
    {
        if str_eq(s, "avatars") {
            Ok(StorageLocation::Avatars)
        } else if str_eq(s, "user_files") {
            Ok(StorageLocation::UserFiles)
        } else if str_eq(s, "friend_messages") {
            Ok(StorageLocation::FriendMessages)
        } else if str_eq(s, "group_files") {
            Ok(StorageLocation::GroupFiles)
        } else {
            Err(concat2("无效的存储位置: ", s))
        }
    }
}

/// Reading back the name of a location gives the same location.
pub proof fn law_location_name_round_trip(l: StorageLocation)
    ensures
        StorageLocation::parse(l.label()) == Some(l),
{
    reveal_strlit("avatars");
    reveal_strlit("user_files");
    reveal_strlit("friend_messages");
    reveal_strlit("group_files");
    assert("avatars"@.len() == 7);
    assert("user_files"@.len() == 10);
    assert("friend_messages"@.len() == 15);
    assert("group_files"@.len() == 11);
}

/// How the client sends the file body.
#[derive(Debug, Clone, Copy, PartialEq, Eq, Structural)]
pub enum UploadMode {
    OneTimeToken,
    PresignedUrl,
}

/// Whether a file can be previewed in the browser.
#[derive(Debug, Clone, Copy, PartialEq, Eq, Structural)]
pub enum PreviewSupport {
    InlinePreview,
    DownloadOnly,
}

impl PreviewSupport {
    pub open spec fn label(self) -> Seq<char> {
        match self {
            PreviewSupport::InlinePreview => "inline_preview"@,
            PreviewSupport::DownloadOnly => "download_only"@,
        }
    }

    pub fn to_string(&self) -> (r: String)
        ensures
            r@ == self.label(),
    {
        match self {
            PreviewSupport::InlinePreview => String::from_str("inline_preview"),
            PreviewSupport::DownloadOnly => String::from_str("download_only"),
        }
    }
}

} // verus!
