//! Rules that classify and validate an upload request.

use vstd::prelude::*;
use vstd::string::*;
use crate::storage::enums::{FileType, PreviewSupport, UploadMode};
use crate::storage::error::AppError;
use crate::text::{
    all_ascii, alphanumeric, ascii_lower, chars_of, concat3, dec, is_alphanumeric, last_index_of,
    last_segment, lemma_last_index_of, lowercase, push_char, seq_starts_with, starts_with, str_eq,
    string_from_range, to_lowercase, u64_to_string, vec_last_segment_start,
};

verus! {

pub const MB_100: u64 = 104857600;
pub const GB_15: u64 = 16106127360;
pub const GB_30: u64 = 32212254720;
pub const MB_5: u64 = 5242880;

/// Upload validation rules.
pub struct FileValidator;

/// The upload mode for a file of `file_size` bytes.
pub open spec fn upload_mode_for(file_size: u64) -> UploadMode {
    if file_size <= GB_15 { UploadMode::OneTimeToken } else { UploadMode::PresignedUrl }
}

/// The outcome of classifying an upload by MIME type and size: the file type and preview
/// support, or the message of the refusal.
pub open spec fn classification(content_type: Seq<char>, file_size: u64, is_friend_message: bool)
    -> Result<(FileType, PreviewSupport), Seq<char>>
{
    if seq_starts_with(content_type, "image/"@) {
        if file_size <= MB_100 {
            Ok((if is_friend_message { FileType::FriendImage } else { FileType::UserImage },
                PreviewSupport::InlinePreview))
        } else if file_size <= GB_15 {
            Ok((if is_friend_message { FileType::FriendImageFile } else { FileType::UserImageFile },
                PreviewSupport::DownloadOnly))
        } else {
            Err("图片大小超过15GB，请使用超大文件上传"@)
        }
    } else if seq_starts_with(content_type, "video/"@) {
        if file_size <= GB_15 {
            Ok((if is_friend_message { FileType::FriendVideo } else { FileType::UserVideo },
                PreviewSupport::InlinePreview))
        } else if file_size <= GB_30 {
            Ok((if is_friend_message { FileType::FriendVideoFile } else { FileType::UserVideoFile },
                PreviewSupport::DownloadOnly))
        } else {
            Err("视频大小超过30GB，请联系管理员使用超大文件上传流程"@)
        }
    } else {
        if file_size <= GB_15 {
            Ok((if is_friend_message { FileType::FriendDocument } else { FileType::UserDocument },
                PreviewSupport::DownloadOnly))
        } else if file_size <= GB_30 {
            Ok((FileType::UserDocument, PreviewSupport::DownloadOnly))
        } else {
            Err("文件大小超过30GB，请联系管理员使用超大文件上传流程"@)
        }
    }
}

/// A hexadecimal digit character.
pub open spec fn is_hex_char(c: char) -> bool {
    ('0' <= c && c <= '9') || ('a' <= c && c <= 'f') || ('A' <= c && c <= 'F')
}

/// Whether every character of `s` is a hexadecimal digit.
pub open spec fn all_hex(s: Seq<char>) -> bool {
    forall|i: int| 0 <= i < s.len() ==> is_hex_char(#[trigger] s[i])
}

/// The refusal message of `validate_hash`, if the hash is refused.
pub open spec fn hash_refusal(hash_bytes_len: nat, hash: Seq<char>) -> Option<Seq<char>> {
    if hash_bytes_len != 64 {
        Some("哈希值必须是64位十六进制字符串（SHA-256）"@)
    } else if !all_hex(hash) {
        Some("哈希值包含非法字符"@)
    } else {
        None
    }
}

/// The size limit of each file type, in bytes.
pub open spec fn max_size_of(t: FileType) -> u64 {
    match t {
        FileType::Avatar => MB_5,
        FileType::UserImage | FileType::FriendImage => MB_100,
        FileType::UserImageFile | FileType::FriendImageFile => GB_15,
        FileType::UserVideo | FileType::FriendVideo => GB_15,
        FileType::UserVideoFile | FileType::FriendVideoFile => GB_30,
        FileType::UserDocument | FileType::FriendDocument => GB_15,
        _ => GB_30,
    }
}

/// The file type chosen for an upload by its MIME type and size admits that size: every image
/// or video, and every other file of at most 15 GB, stays within the limit of the type it is
/// given. Only avatars are held to 5 MB; an image of up to 100 MB is within its type's limit
/// whether it is kept by a user or sent to a friend.
pub proof fn law_chosen_type_admits_size(content_type: Seq<char>, file_size: u64, is_friend_message: bool)
    ensures
        classification(content_type, file_size, is_friend_message) matches Ok((t, _))
            ==> ((seq_starts_with(content_type, "image/"@) || seq_starts_with(content_type, "video/"@)
                || file_size <= GB_15) ==> file_size <= max_size_of(t)),
        forall|t: FileType| t != FileType::Avatar ==> #[trigger] max_size_of(t) > MB_5,
        max_size_of(FileType::Avatar) == MB_5,
{
}

/// File types that hold images.
pub open spec fn is_image_type(t: FileType) -> bool {
    match t {
        FileType::Avatar | FileType::UserImage | FileType::UserImageFile | FileType::FriendImage
        | FileType::FriendImageFile | FileType::GroupImage => true,
        _ => false,
    }
}

/// File types that hold videos.
pub open spec fn is_video_type(t: FileType) -> bool {
    match t {
        FileType::UserVideo | FileType::UserVideoFile | FileType::FriendVideo
        | FileType::FriendVideoFile | FileType::GroupVideo => true,
        _ => false,
    }
}

/// The image MIME types that an image upload may declare.
pub open spec fn is_allowed_image_mime(m: Seq<char>) -> bool {
    m == "image/jpeg"@ || m == "image/png"@ || m == "image/gif"@ || m == "image/webp"@
        || m == "image/jpg"@ || m == "image/tiff"@ || m == "image/tif"@
}

/// The refusal message of `validate_file_type` for a file type and MIME type, if any.
pub open spec fn file_type_refusal(t: FileType, m: Seq<char>) -> Option<Seq<char>> {
    if is_image_type(t) && !is_allowed_image_mime(m) {
        Some("不支持的图片格式，仅支持：jpg、png、gif、webp、tiff"@)
    } else if is_video_type(t) && !seq_starts_with(m, "video/"@) {
        Some("不支持的视频格式"@)
    } else {
        None
    }
}

/// The link lifetime, in seconds, for an upload of `file_size` bytes.
pub open spec fn expires_in_for(file_size: u64, user_specified: Option<u32>) -> u32 {
    match user_specified {
        Some(e) => if e < 300 { 300 } else if e > 604800 { 604800 } else { e },
        None => if file_size <= 10_485_760 { 300 }
            else if file_size <= 104_857_600 { 900 }
            else if file_size <= 1_073_741_824 { 1800 }
            else if file_size <= 10_737_418_240 { 7200 }
            else { 14400 },
    }
}

/// Characters kept by `sanitize_filename`.
pub open spec fn keeps_char(c: char) -> bool {
    alphanumeric(c) || c == '-' || c == '_' || c == '.'
}

/// The characters of `s` that `sanitize_filename` keeps, in order.
pub open spec fn kept_chars(s: Seq<char>) -> Seq<char>
    decreases s.len(),
{
    if s.len() == 0 {
        s
    } else if keeps_char(s.last()) {
        kept_chars(s.drop_last()).push(s.last())
    } else {
        kept_chars(s.drop_last())
    }
}

/// At most the first `n` elements of `s`.
pub open spec fn at_most(s: Seq<char>, n: nat) -> Seq<char> {
    if s.len() <= n { s } else { s.take(n as int) }
}

/// The sanitized form of a file name: its kept characters, at most 100 of them.
pub open spec fn sanitized(s: Seq<char>) -> Seq<char> {
    at_most(kept_chars(s), 100)
}

impl FileValidator {
    /// Files up to 15 GB use a one-time token, larger ones a presigned URL.
    pub fn determine_upload_mode(file_size: u64) -> (r: UploadMode)
        ensures
            r == upload_mode_for(file_size),
    {
        if file_size <= GB_15 {
            UploadMode::OneTimeToken
        } else {
            UploadMode::PresignedUrl
        }
    }

    /// Classifies an upload by MIME type and size into a file type and preview support.
    pub fn determine_file_type_and_preview(
        content_type: &str,
        file_size: u64,
        is_friend_message: bool,
    ) -> (r: Result<(FileType, PreviewSupport), AppError>)
        ensures
            match classification(content_type@, file_size, is_friend_message) {
                Ok(p) => r == Ok::<(FileType, PreviewSupport), AppError>(p),
                Err(m) => r is Err && r->Err_0.is_bad_request(m),
            },
    {
        if starts_with(content_type, "image/") {
            if file_size <= MB_100 {
                let file_type = if is_friend_message { FileType::FriendImage } else { FileType::UserImage };
                Ok((file_type, PreviewSupport::InlinePreview))
            } else if file_size <= GB_15 {
                let file_type = if is_friend_message { FileType::FriendImageFile } else { FileType::UserImageFile };
                Ok((file_type, PreviewSupport::DownloadOnly))
            } else {
                Err(AppError::BadRequest(String::from_str("图片大小超过15GB，请使用超大文件上传")))
            }
        } else if starts_with(content_type, "video/") {
            if file_size <= GB_15 {
                let file_type = if is_friend_message { FileType::FriendVideo } else { FileType::UserVideo };
                Ok((file_type, PreviewSupport::InlinePreview))
            } else if file_size <= GB_30 {
                let file_type = if is_friend_message { FileType::FriendVideoFile } else { FileType::UserVideoFile };
                Ok((file_type, PreviewSupport::DownloadOnly))
            } else {
                Err(AppError::BadRequest(String::from_str("视频大小超过30GB，请联系管理员使用超大文件上传流程")))
            }
        } else {
            if file_size <= GB_15 {
                let file_type = if is_friend_message { FileType::FriendDocument } else { FileType::UserDocument };
                Ok((file_type, PreviewSupport::DownloadOnly))
            } else if file_size <= GB_30 {
                Ok((FileType::UserDocument, PreviewSupport::DownloadOnly))
            } else {
                Err(AppError::BadRequest(String::from_str("文件大小超过30GB，请联系管理员使用超大文件上传流程")))
            }
        }
    }

    /// A SHA-256 hash is 64 bytes long and made of hexadecimal digits.
    pub fn validate_hash(hash: &str) -> (r: Result<(), AppError>)
        ensures
            hash.spec_bytes().len() != 64 ==> r is Err
                && r->Err_0.is_validation("哈希值必须是64位十六进制字符串（SHA-256）"@),
            hash.spec_bytes().len() == 64 && !(forall|i: int| 0 <= i < hash@.len() ==> is_hex_char(#[trigger] hash@[i]))
                ==> r is Err && r->Err_0.is_validation("哈希值包含非法字符"@),
            hash.spec_bytes().len() == 64 && (forall|i: int| 0 <= i < hash@.len() ==> is_hex_char(#[trigger] hash@[i]))
                ==> r is Ok,
            match hash_refusal(hash.spec_bytes().len(), hash@) {
                Some(m) => r is Err && r->Err_0.is_validation(m),
                None => r is Ok,
            },
    {
        if hash.as_bytes().len() != 64 {
            return Err(AppError::ValidationError(String::from_str("哈希值必须是64位十六进制字符串（SHA-256）")));
        }
        let v = chars_of(hash);
        let mut i: usize = 0;
        while i < v.len()
            invariant
                v@ == hash@,
                hash.spec_bytes().len() == 64,
                i <= v.len(),
                forall|j: int| 0 <= j < i ==> is_hex_char(#[trigger] v@[j]),
            decreases v.len() - i,
        {
            let c = v[i];
            if !(('0' <= c && c <= '9') || ('a' <= c && c <= 'f') || ('A' <= c && c <= 'F')) {
                assert(!is_hex_char(hash@[i as int]));
                return Err(AppError::ValidationError(String::from_str("哈希值包含非法字符")));
            }
            i = i + 1;
        }
        Ok(())
    }

    /// The size limit of a file type, in bytes.
    pub fn get_max_file_size(file_type: &FileType) -> (r: u64)
        ensures
            r == max_size_of(*file_type),
    {
        match file_type {
            FileType::Avatar => MB_5,
            FileType::UserImage | FileType::FriendImage => MB_100,
            FileType::UserImageFile | FileType::FriendImageFile => GB_15,
            FileType::UserVideo | FileType::FriendVideo => GB_15,
            FileType::UserVideoFile | FileType::FriendVideoFile => GB_30,
            FileType::UserDocument | FileType::FriendDocument => GB_15,
            _ => GB_30,
        }
    }

    /// Image types accept a fixed list of image MIME types, video types any `video/` type,
    /// document types anything.
    pub fn validate_file_type(file_type: &FileType, content_type: &str) -> (r: Result<(), AppError>)
        ensures
            match file_type_refusal(*file_type, content_type@) {
                Some(m) => r is Err && r->Err_0.is_validation(m),
                None => r is Ok,
            },
    {
        match file_type {
            FileType::Avatar | FileType::UserImage | FileType::UserImageFile |
            FileType::FriendImage | FileType::FriendImageFile | FileType::GroupImage => {
                if !(str_eq(content_type, "image/jpeg") || str_eq(content_type, "image/png")
                    || str_eq(content_type, "image/gif") || str_eq(content_type, "image/webp")
                    || str_eq(content_type, "image/jpg") || str_eq(content_type, "image/tiff")
                    || str_eq(content_type, "image/tif")) {
                    return Err(AppError::ValidationError(String::from_str("不支持的图片格式，仅支持：jpg、png、gif、webp、tiff")));
                }
            }
            FileType::UserVideo | FileType::UserVideoFile |
            FileType::FriendVideo | FileType::FriendVideoFile | FileType::GroupVideo => {
                if !starts_with(content_type, "video/") {
                    return Err(AppError::ValidationError(String::from_str("不支持的视频格式")));
                }
            }
            _ => {}
        }
        Ok(())
    }

    /// A file may not be larger than the limit of its type; the refusal names the limit in MB.
    pub fn validate_file_size(file_type: &FileType, size: u64) -> (r: Result<(), AppError>)
        ensures
            size <= max_size_of(*file_type) ==> r is Ok,
            size > max_size_of(*file_type) ==> r is Err && r->Err_0.is_validation(
                "文件大小超过限制: 最大 "@ + dec((max_size_of(*file_type) / 1024 / 1024) as nat) + " MB"@),
    {
        let max_size = Self::get_max_file_size(file_type);
        if size > max_size {
            let n = u64_to_string(max_size / 1024 / 1024);
            return Err(AppError::ValidationError(concat3("文件大小超过限制: 最大 ", n.as_str(), " MB")));
        }
        Ok(())
    }

    /// A user-chosen lifetime is clamped to 5 minutes..7 days; otherwise it grows with size.
    pub fn calculate_expires_in(file_size: u64, user_specified: Option<u32>) -> (r: u32)
        ensures
            r == expires_in_for(file_size, user_specified),
    {
        if let Some(expires) = user_specified {
            return if expires < 300 { 300 } else if expires > 604800 { 604800 } else { expires };
        }
        if file_size <= 10_485_760 {
            300
        } else if file_size <= 104_857_600 {
            900
        } else if file_size <= 1_073_741_824 {
            1800
        } else if file_size <= 10_737_418_240 {
            7200
        } else {
            14400
        }
    }

    /// The lowercased text after the last `.` of a file name (the whole name if it has none).
    pub fn get_extension(filename: &str) -> (r: String)
        ensures
            r@ == lowercase(last_segment(filename@, '.')),
            !last_segment(filename@, '.').contains('/') ==> !r@.contains('/'),
    {
        let v = chars_of(filename);
        let start = vec_last_segment_start(&v, '.');
        proof { lemma_last_index_of(v@, '.'); }
        let seg = string_from_range(&v, start, v.len());
        to_lowercase(seg.as_str())
    }

    /// Keeps letters, digits, `-`, `_` and `.`, and at most 100 of them.
    pub fn sanitize_filename(filename: &str) -> (r: String)
        ensures
            r@ == sanitized(filename@),
    {
        let v = chars_of(filename);
        let mut r = String::new();
        let mut i: usize = 0;
        while i < v.len()
            invariant
                v@ == filename@,
                i <= v.len(),
                r@ == at_most(kept_chars(v@.take(i as int)), 100),
            decreases v.len() - i,
        {
            let c = v[i];
            let keep = is_alphanumeric(c) || c == '-' || c == '_' || c == '.';
            let ghost before = kept_chars(v@.take(i as int));
            assert(v@.take(i + 1).drop_last() == v@.take(i as int));
            assert(v@.take(i + 1).last() == c);
            if keep {
                assert(kept_chars(v@.take(i + 1)) == before.push(c));
                if r.unicode_len() < 100 {
                    push_char(&mut r, c);
                    assert(before.len() < 100);
                } else {
                    assert(before.len() >= 100);
                    assert(before.push(c).take(100) == before.take(100));
                }
            } else {
                assert(kept_chars(v@.take(i + 1)) == before);
            }
            i = i + 1;
        }
        assert(v@.take(v@.len() as int) == v@);
        r
    }
}


/// Every character `kept_chars` keeps is one that is kept.
proof fn lemma_kept_chars_kept(s: Seq<char>)
    ensures
        forall|i: int| 0 <= i < kept_chars(s).len() ==> keeps_char(#[trigger] kept_chars(s)[i]),
    decreases s.len(),
{
    if s.len() > 0 {
        lemma_kept_chars_kept(s.drop_last());
        let k = kept_chars(s);
        let k0 = kept_chars(s.drop_last());
        assert forall|i: int| 0 <= i < k.len() implies keeps_char(#[trigger] k[i]) by {
            if i < k0.len() {
                assert(k[i] == k0[i]);
            }
        }
    }
}

/// A name of kept characters only is kept whole.
proof fn lemma_kept_chars_identity(t: Seq<char>)
    requires
        forall|i: int| 0 <= i < t.len() ==> keeps_char(#[trigger] t[i]),
    ensures
        kept_chars(t) == t,
    decreases t.len(),
{
    if t.len() > 0 {
        assert(keeps_char(t[t.len() - 1]));
        lemma_kept_chars_identity(t.drop_last());
        assert(t.drop_last().push(t.last()) =~= t);
    }
}

/// Sanitizing a sanitized name changes nothing.
pub proof fn law_sanitize_idempotent(s: Seq<char>)
    ensures
        sanitized(sanitized(s)) == sanitized(s),
{
    let k = kept_chars(s);
    let t = sanitized(s);
    lemma_kept_chars_kept(s);
    assert forall|i: int| 0 <= i < t.len() implies keeps_char(#[trigger] t[i]) by {
        assert(t[i] == k[i]);
    }
    lemma_kept_chars_identity(t);
}

} // verus!
