//! The decisions of an upload request, around the storage and database calls.

use vstd::prelude::*;
use vstd::string::*;
use vstd::utf8::*;
use crate::clock::now_unix_seconds;
use crate::storage::enums::{FileType, PreviewSupport, StorageLocation, UploadMode};
use crate::storage::error::AppError;
use crate::storage::models::{ExistingFileInfo, FileUploadRequest, FileUploadResponse, UuidMappingInfo};
use crate::storage::paths::{file_key, file_key_at, file_key_with_prefix, hash_prefix, uuid_file_url};
use crate::storage::validator::{
    all_hex, classification, expires_in_for, file_type_refusal, hash_refusal, is_hex_char,
    max_size_of, upload_mode_for, FileValidator,
};
use crate::text::{dec, opt_view};

verus! {

/// What an accepted upload request leads to before any storage call.
#[derive(Debug)]
pub struct PreparedUpload {
    pub preview_support: PreviewSupport,
    pub file_key: String,
    /// Whether an identical stored file may be reused instead of uploading again.
    pub check_duplicate: bool,
    pub mode: UploadMode,
    pub max_file_size: u64,
}

/// The characters of an optional owned string.
pub open spec fn opt_string_view(o: Option<String>) -> Option<Seq<char>> {
    match o {
        Some(s) => Some(s@),
        None => None,
    }
}

/// A hash made of 64 hexadecimal digits has a character boundary at byte 8.
pub proof fn lemma_hex_hash_boundary(h: &str)
    requires
        h.spec_bytes().len() == 64,
        all_hex(h@),
    ensures
        is_char_boundary(h.spec_bytes(), 8),
        hash_prefix(h.spec_bytes()) == h@.take(8),
{
    assert(is_ascii_chars(h@)) by {
        assert forall|i: int| 0 <= i < h@.len() implies '\0' <= #[trigger] h@[i] <= '\u{7f}' by {
            assert(is_hex_char(h@[i]));
        }
    }
    is_ascii_chars_encode_utf8(h@);
    encode_utf8_valid_utf8(h@);
    assert(h.spec_bytes() == encode_utf8(h@));
    assert(is_hex_char(h@[8]));
    is_char_boundary_iff_is_leading_byte(h.spec_bytes(), 8);
    let t = h@.take(8);
    assert(is_ascii_chars(t));
    is_ascii_chars_encode_utf8(t);
    assert(encode_utf8(t) == h.spec_bytes().subrange(0, 8));
    encode_utf8_decode_utf8(t);
}

/// The part of a key that stands for the file's hash: its first 8 characters, or nothing when
/// the request carries no hash.
pub open spec fn request_prefix(file_hash: Option<String>) -> Seq<char> {
    match file_hash {
        Some(h) => h@.take(8),
        None => Seq::empty(),
    }
}

/// The refusal of a request's hash, if it carries one.
pub open spec fn request_hash_refusal(file_hash: Option<String>) -> Option<Seq<char>> {
    match file_hash {
        Some(h) => hash_refusal(encode_utf8(h@).len(), h@),
        None => None,
    }
}

/// What checking and preparing an upload request at the given time gives: the first refusal
/// among the hash (when given), the MIME type and size, the declared file type, and the size
/// limit, or the prepared upload. Without a hash the key carries no hash part and no stored copy
/// is looked for.
pub open spec fn upload_outcome(user_id: Seq<char>, request: FileUploadRequest, timestamp: i64,
    r: Result<PreparedUpload, AppError>) -> bool
{
    match request_hash_refusal(request.file_hash) {
        Some(m) => r is Err && r->Err_0.is_validation(m),
        None => match classification(request.content_type@, request.file_size,
            request.storage_location == StorageLocation::FriendMessages) {
            Err(m) => r is Err && r->Err_0.is_bad_request(m),
            Ok((_, preview)) => match file_type_refusal(request.file_type, request.content_type@) {
                Some(m) => r is Err && r->Err_0.is_validation(m),
                None => if request.file_size > max_size_of(request.file_type) {
                    r is Err && r->Err_0.is_validation("文件大小超过限制: 最大 "@
                        + dec((max_size_of(request.file_type) / 1024 / 1024) as nat) + " MB"@)
                } else {
                    r is Ok && {
                        let p = r->Ok_0;
                        &&& p.preview_support == preview
                        &&& p.file_key@ == file_key(request.storage_location, request.file_type,
                            user_id, opt_string_view(request.related_id), request.filename@,
                            request_prefix(request.file_hash), timestamp)
                        &&& p.check_duplicate == (request.file_hash is Some
                            && !(request.force_upload == Some(true)))
                        &&& p.mode == upload_mode_for(request.file_size)
                        &&& p.max_file_size == max_size_of(request.file_type)
                    }
                },
            },
        },
    }
}

/// Checks an upload request and prepares it: the hash, when given, must be valid; the MIME
/// type and size must fit a file type; the declared file type must accept the MIME type and
/// size. The key embeds the first 8 characters of the hash, when there is one.
pub fn prepare_upload_at(user_id: &str, request: &FileUploadRequest, timestamp: i64) -> (r: Result<PreparedUpload, AppError>)
    ensures
        upload_outcome(user_id@, *request, timestamp, r),
{
    if let Some(h) = &request.file_hash {
        FileValidator::validate_hash(h.as_str())?;
    }
    let is_friend_message = request.storage_location == StorageLocation::FriendMessages;
    let (_file_type, preview_support) = FileValidator::determine_file_type_and_preview(
        request.content_type.as_str(),
        request.file_size,
        is_friend_message,
    )?;
    FileValidator::validate_file_type(&request.file_type, request.content_type.as_str())?;
    FileValidator::validate_file_size(&request.file_type, request.file_size)?;
    let related: Option<&str> = match &request.related_id { Some(s) => Some(s.as_str()), None => None };
    let key = match &request.file_hash {
        Some(h) => {
            let hs: &str = h.as_str();
            proof { lemma_hex_hash_boundary(hs); }
            file_key_at(
                &request.storage_location,
                &request.file_type,
                user_id,
                related,
                request.filename.as_str(),
                hs,
                timestamp,
            )
        }
        None => {
            proof { reveal_strlit(""); }
            file_key_with_prefix(
                &request.storage_location,
                &request.file_type,
                user_id,
                related,
                request.filename.as_str(),
                "",
                timestamp,
            )
        }
    };
    let check_duplicate = match &request.file_hash {
        Some(_) => match request.force_upload { Some(f) => !f, None => true },
        None => false,
    };
    Ok(PreparedUpload {
        preview_support,
        file_key: key,
        check_duplicate,
        mode: FileValidator::determine_upload_mode(request.file_size),
        max_file_size: FileValidator::get_max_file_size(&request.file_type),
    })
}

/// Checks and prepares an upload request made now.
pub fn prepare_upload(user_id: &str, request: &FileUploadRequest) -> (r: Result<PreparedUpload, AppError>)
    ensures
        exists|t: i64| #[trigger] upload_outcome(user_id@, *request, t, r),
{
    let t = now_unix_seconds();
    prepare_upload_at(user_id, request, t)
}

/// Whether an uploaded body has the size the upload was announced with.
pub fn upload_size_matches(received_len: usize, declared_size: i64) -> (r: bool)
    ensures
        r == (received_len as int == declared_size as int),
{
    declared_size >= 0 && received_len as u64 == declared_size as u64
}

/// How long the upload link stays valid: for a one-time-token upload, the size-based (or
/// requested, clamped) lifetime; for a presigned multipart upload, the estimated upload time,
/// which must be given.
pub fn upload_link_expiry(mode: UploadMode, file_size: u64, estimated_upload_time: Option<u32>)
    -> (r: Result<u32, AppError>)
    ensures
        mode == UploadMode::OneTimeToken ==> r == Ok::<u32, AppError>(expires_in_for(file_size, estimated_upload_time)),
        mode == UploadMode::PresignedUrl ==> match estimated_upload_time {
            Some(e) => r == Ok::<u32, AppError>(e),
            None => r is Err && r->Err_0.is_bad_request("超大文件必须指定预计上传时间"@),
        },
{
    match mode {
        UploadMode::OneTimeToken => Ok(FileValidator::calculate_expires_in(file_size, estimated_upload_time)),
        UploadMode::PresignedUrl => match estimated_upload_time {
            Some(e) => Ok(e),
            None => Err(AppError::BadRequest(String::from_str("超大文件必须指定预计上传时间"))),
        },
    }
}

/// The answer to an upload that goes straight to the store with a presigned PUT URL.
pub fn presigned_put_response(plan: PreparedUpload, presigned_url: String, expires_in: u32)
    -> (r: FileUploadResponse)
    ensures
        r.mode == UploadMode::OneTimeToken,
        r.preview_support == plan.preview_support,
        r.upload_token is None && r.upload_url is None && r.multipart_upload_id is None,
        r.expires_in == Some(expires_in),
        r.presigned_url == Some(presigned_url),
        r.file_key == plan.file_key,
        r.max_file_size == plan.max_file_size,
        !r.instant_upload && r.existing_file_url is None,
{
    FileUploadResponse {
        mode: UploadMode::OneTimeToken,
        preview_support: plan.preview_support,
        upload_token: None,
        upload_url: None,
        expires_in: Some(expires_in),
        presigned_url: Some(presigned_url),
        multipart_upload_id: None,
        file_key: plan.file_key,
        max_file_size: plan.max_file_size,
        instant_upload: false,
        existing_file_url: None,
    }
}

/// The answer to an upload that goes to the store in parts.
pub fn multipart_response(plan: PreparedUpload, upload_id: String, expires_in: u32) -> (r: FileUploadResponse)
    ensures
        r.mode == UploadMode::PresignedUrl,
        r.preview_support == plan.preview_support,
        r.upload_token is None && r.upload_url is None && r.presigned_url is None,
        r.expires_in == Some(expires_in),
        r.multipart_upload_id == Some(upload_id),
        r.file_key == plan.file_key,
        r.max_file_size == plan.max_file_size,
        !r.instant_upload && r.existing_file_url is None,
{
    FileUploadResponse {
        mode: UploadMode::PresignedUrl,
        preview_support: plan.preview_support,
        upload_token: None,
        upload_url: None,
        expires_in: Some(expires_in),
        presigned_url: None,
        multipart_upload_id: Some(upload_id),
        file_key: plan.file_key,
        max_file_size: plan.max_file_size,
        instant_upload: false,
        existing_file_url: None,
    }
}

/// The answer to an upload whose content is already stored: nothing to send.
pub fn instant_upload_response(preview_support: PreviewSupport, existing: ExistingFileInfo) -> (r: FileUploadResponse)
    ensures
        r.mode == UploadMode::OneTimeToken,
        r.preview_support == preview_support,
        r.upload_token is None && r.upload_url is None && r.expires_in is None,
        r.presigned_url is None && r.multipart_upload_id is None,
        r.file_key == existing.file_key,
        r.max_file_size == 0,
        r.instant_upload,
        r.existing_file_url == Some(existing.file_url),
{
    FileUploadResponse {
        mode: UploadMode::OneTimeToken,
        preview_support,
        upload_token: None,
        upload_url: None,
        expires_in: None,
        presigned_url: None,
        multipart_upload_id: None,
        file_key: existing.file_key,
        max_file_size: 0,
        instant_upload: true,
        existing_file_url: Some(existing.file_url),
    }
}

/// The reused file of an instant upload: the new key, served through the UUID of the stored copy.
pub fn reused_file_info(new_file_key: &str, mapping: &UuidMappingInfo) -> (r: ExistingFileInfo)
    ensures
        r.file_key@ == new_file_key@,
        r.file_url@ == "http://localhost:8080"@ + "/api/storage/file/"@ + mapping.uuid@,
        r.file_size == mapping.file_size,
        r.content_type == mapping.content_type,
{
    ExistingFileInfo {
        file_key: String::from_str(new_file_key),
        file_url: uuid_file_url("http://localhost:8080", mapping.uuid.as_str()),
        file_size: mapping.file_size,
        content_type: mapping.content_type.clone(),
    }
}

} // verus!
