//! Requests, responses and records of the storage service.

use vstd::prelude::*;
use vstd::string::*;
use crate::storage::enums::{FileType, PreviewSupport, StorageLocation, UploadMode};
use crate::text::str_eq;

verus! {

/// Connection settings of the object store.
#[derive(Debug, Clone)]
pub struct S3Config {
    pub endpoint: String,
    pub access_key: String,
    pub secret_key: String,
    pub bucket_avatars: String,
    pub public_url: String,
    pub region: String,
}

/// Metadata of a stored object.
#[derive(Debug, Clone)]
pub struct FileMetadata {
    pub content_length: u64,
    pub content_type: String,
    pub etag: Option<String>,
    pub last_modified: Option<i64>,
}

/// Query of a direct upload.
#[derive(Debug)]
pub struct DirectUploadQuery {
    pub token: String,
}

/// A request to upload a file.
#[derive(Debug)]
pub struct FileUploadRequest {
    pub file_type: FileType,
    pub storage_location: StorageLocation,
    pub related_id: Option<String>,
    pub filename: String,
    pub file_size: u64,
    pub content_type: String,
    pub file_hash: Option<String>,
    pub estimated_upload_time: Option<u32>,
    pub force_upload: Option<bool>,
}

/// Notice that an upload finished.
#[derive(Debug)]
pub struct UploadCompleteRequest {
    pub file_key: String,
    pub storage_location: StorageLocation,
    pub file_size: u64,
    pub etag: Option<String>,
}

/// A request for a presigned download URL.
#[derive(Debug)]
pub struct PresignedDownloadRequest {
    pub file_key: String,
    pub storage_location: StorageLocation,
    pub expires_in: Option<u32>,
}

/// A request for the URL of one part of a multipart upload.
#[derive(Debug)]
pub struct MultipartPartRequest {
    pub file_key: String,
    pub upload_id: String,
    pub part_number: i32,
}

/// A request for a presigned URL of a file known by its UUID.
#[derive(Debug)]
pub struct PresignedUrlRequest {
    pub operation: Option<String>,
    pub expires_in: Option<u32>,
    pub estimated_download_time: Option<u32>,
}

/// Query of the file list.
#[derive(Debug)]
pub struct FileListQuery {
    pub file_type: Option<String>,
    pub storage_location: Option<String>,
    pub page: Option<i32>,
    pub limit: Option<i32>,
    pub sort_by: Option<String>,
    pub sort_order: Option<String>,
}

/// The answer to an upload request.
#[derive(Debug)]
pub struct FileUploadResponse {
    pub mode: UploadMode,
    pub preview_support: PreviewSupport,
    pub upload_token: Option<String>,
    pub upload_url: Option<String>,
    pub expires_in: Option<u32>,
    pub presigned_url: Option<String>,
    pub multipart_upload_id: Option<String>,
    pub file_key: String,
    pub max_file_size: u64,
    pub instant_upload: bool,
    pub existing_file_url: Option<String>,
}

/// The answer to a finished upload.
#[derive(Debug)]
pub struct FileCompleteResponse {
    pub file_url: String,
    pub file_key: String,
    pub file_size: u64,
    pub content_type: String,
    pub preview_support: PreviewSupport,
}

/// A download URL and its lifetime.
#[derive(Debug)]
pub struct FileDownloadResponse {
    pub download_url: String,
    pub expires_in: i64,
}

/// The URL of one part of a multipart upload.
#[derive(Debug)]
pub struct MultipartPartResponse {
    pub part_url: String,
    pub part_number: i32,
    pub expires_in: u32,
}

/// A stored file that an upload can reuse.
#[derive(Debug, Clone)]
pub struct ExistingFileInfo {
    pub file_key: String,
    pub file_url: String,
    pub file_size: i64,
    pub content_type: String,
}

/// A presigned URL of a file known by its UUID.
#[derive(Debug)]
pub struct PresignedUrlResponse {
    pub presigned_url: String,
    pub expires_at: String,
    pub file_uuid: String,
    pub file_size: i64,
    pub content_type: String,
    pub warning: Option<String>,
}

/// One entry of a file list.
#[derive(Debug)]
pub struct FileItem {
    pub file_uuid: String,
    pub filename: String,
    pub file_size: i64,
    pub content_type: String,
    pub preview_support: String,
    pub created_at: String,
    pub file_url: String,
}

/// One page of a file list.
#[derive(Debug)]
pub struct FileListResponse {
    pub files: Vec<FileItem>,
    pub total: i64,
    pub page: i32,
    pub page_size: i32,
    pub total_pages: i32,
    pub has_more: bool,
}

/// A row of the file records table.
#[derive(Debug, Clone)]
pub struct FileRecord {
    pub file_key: String,
    pub owner_id: String,
    pub file_type: String,
    pub storage_location: String,
    pub related_id: Option<String>,
    pub file_size: i64,
    pub content_type: String,
    pub file_hash: String,
    pub upload_token: Option<String>,
    pub multipart_upload_id: Option<String>,
    pub status: String,
    pub preview_support: String,
}

impl FileRecord {
    /// Inline preview when the stored value says `inline_preview`, download only otherwise.
    pub fn preview_support(&self) -> (r: PreviewSupport)
        ensures
            r == (if self.preview_support@ == "inline_preview"@ {
                PreviewSupport::InlinePreview
            } else {
                PreviewSupport::DownloadOnly
            }),
    {
        if str_eq(self.preview_support.as_str(), "inline_preview") {
            PreviewSupport::InlinePreview
        } else {
            PreviewSupport::DownloadOnly
        }
    }
}

/// A UUID mapping: one physical object shared under a UUID.
#[derive(Debug, Clone)]
pub struct UuidMappingInfo {
    pub uuid: String,
    pub physical_file_key: String,
    pub file_hash: String,
    pub file_size: i64,
    pub content_type: String,
    pub preview_support: String,
}

} // verus!
