//! Paging and sorting of a user's file list.

use vstd::prelude::*;
use vstd::string::*;
use crate::storage::models::{FileItem, FileListResponse};
use crate::storage::paths::{extract_filename_from_key, filename_in_key, uuid_file_url};
use crate::text::{owned, str_eq};

verus! {

/// How a page of the file list is fetched.
#[derive(Debug)]
pub struct ListQueryPlan {
    pub page: i32,
    pub limit: i32,
    pub offset: i32,
    /// The quoted column to sort by.
    pub sort_column: &'static str,
    /// `ASC` or `DESC`.
    pub sort_dir: &'static str,
}

/// The page number used: at least 1.
pub open spec fn effective_page(page: i32) -> i32 {
    if page < 1 { 1 } else { page }
}

/// The page size used: between 1 and 100.
pub open spec fn effective_limit(limit: i32) -> i32 {
    if limit < 1 { 1 } else if limit > 100 { 100 } else { limit }
}

/// The page and limit of a list request with its defaults: page 1, 20 per page.
pub fn list_defaults(page: Option<i32>, limit: Option<i32>) -> (r: (i32, i32))
    ensures
        r.0 == effective_page(match page { Some(p) => p, None => 1 }),
        r.1 == effective_limit(match limit { Some(l) => l, None => 20 }),
{
    let p = match page { Some(p) => p, None => 1 };
    let l = match limit { Some(l) => l, None => 20 };
    (if p < 1 { 1 } else { p }, if l < 1 { 1 } else if l > 100 { 100 } else { l })
}

/// Normalizes page and limit and chooses the sort: `file_size` sorts by size, anything else by
/// creation time; `asc` sorts ascending, anything else descending. The offset must fit an `i32`.
pub fn list_query_plan(page: i32, limit: i32, sort_by: &str, sort_order: &str) -> (r: ListQueryPlan)
    requires
        (effective_page(page) - 1) * effective_limit(limit) <= i32::MAX,
    ensures
        r.page == effective_page(page),
        r.limit == effective_limit(limit),
        r.offset == (r.page - 1) * r.limit,
        r.sort_column@ == (if sort_by@ == "file_size"@ { "\"file-size\""@ } else { "\"created-at\""@ }),
        r.sort_dir@ == (if sort_order@ == "asc"@ { "ASC"@ } else { "DESC"@ }),
{
    let page = if page < 1 { 1 } else { page };
    let limit = if limit < 1 { 1 } else if limit > 100 { 100 } else { limit };
    let offset = (page - 1) * limit;
    let sort_column = if str_eq(sort_by, "file_size") { "\"file-size\"" } else { "\"created-at\"" };
    let sort_dir = if str_eq(sort_order, "asc") { "ASC" } else { "DESC" };
    ListQueryPlan { page, limit, offset, sort_column, sort_dir }
}

/// The number of pages holding `total` files, `limit` per page, capped at `i32::MAX`.
pub open spec fn pages_for(total: int, limit: int) -> int {
    let p = (total + limit - 1) / limit;
    if p > i32::MAX { i32::MAX as int } else { p }
}

/// The number of pages (rounded up) and whether a page follows `page`.
pub fn page_count(total: i64, limit: i32, page: i32) -> (r: (i32, bool))
    requires
        total >= 0,
        1 <= limit,
    ensures
        r.0 == pages_for(total as int, limit as int),
        r.1 == (page < r.0),
{
    let q: i64 = total / (limit as i64);
    assert(q <= total) by (nonlinear_arith) requires q == total / (limit as i64), total >= 0, limit >= 1;
    let p: i128 = (q as i128) + if total % (limit as i64) == 0 { 0 } else { 1 };
    assert(p == (total + limit - 1) / (limit as int)) by (nonlinear_arith)
        requires
            p == q + if total % (limit as i64) == 0 { 0int } else { 1int },
            q == total / (limit as i64),
            total >= 0,
            limit >= 1;
    let pages: i32 = if p > i32::MAX as i128 { i32::MAX } else { p as i32 };
    (pages, page < pages)
}

/// One entry of the file list: the name comes from the stored key, the URL from the UUID.
pub fn file_item(
    api_base_url: &str,
    uuid: String,
    physical_file_key: &str,
    file_size: i64,
    content_type: String,
    preview_support: String,
    created_at: String,
) -> (r: FileItem)
    ensures
        r.file_uuid@ == uuid@,
        r.filename@ == filename_in_key(physical_file_key@),
        r.file_size == file_size,
        r.content_type == content_type,
        r.preview_support == preview_support,
        r.created_at == created_at,
        r.file_url@ == api_base_url@ + "/api/storage/file/"@ + uuid@,
{
    let file_url = uuid_file_url(api_base_url, uuid.as_str());
    FileItem {
        file_uuid: uuid,
        filename: extract_filename_from_key(physical_file_key),
        file_size,
        content_type,
        preview_support,
        created_at,
        file_url,
    }
}

/// One page of the file list.
pub fn list_response(files: Vec<FileItem>, total: i64, page: i32, limit: i32) -> (r: FileListResponse)
    requires
        total >= 0,
        1 <= limit,
    ensures
        r.files == files,
        r.total == total,
        r.page == page,
        r.page_size == limit,
        r.total_pages == pages_for(total as int, limit as int),
        r.has_more == (page < r.total_pages),
{
    let (total_pages, has_more) = page_count(total, limit, page);
    FileListResponse { files, total, page, page_size: limit, total_pages, has_more }
}

} // verus!
