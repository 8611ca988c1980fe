use chat_backend::crypto::compute_sha256;
use chat_backend::storage::access::{
    check_friend_file_access, expiry_warning, extended_presigned_expiry, friend_denial_answer,
    normal_presigned_expiry, FriendFileDenial,
};
use chat_backend::storage::avatar::AvatarService;
use chat_backend::storage::enums::{FileType, PreviewSupport, StorageLocation, UploadMode};
use chat_backend::storage::error::AppError;
use chat_backend::storage::grants::upload_permission_grants;
use chat_backend::storage::listing::{list_defaults, list_query_plan, list_response, page_count};
use chat_backend::storage::models::{ExistingFileInfo, FileUploadRequest, UuidMappingInfo};
use chat_backend::storage::paths::{
    avatar_content_type, avatar_object_key, download_bucket_for_key, extract_bucket_from_key,
    extract_conversation_uuid, extract_filename_from_key, file_key_at, generate_conversation_uuid,
    generate_file_url, parse_conversation_participants, uuid_file_url,
};
use chat_backend::storage::upload::{
    instant_upload_response, prepare_upload_at, reused_file_info, upload_link_expiry,
    upload_size_matches,
};
use chat_backend::storage::validator::FileValidator;

const HASH: &str = "0123456789abcdef0123456789abcdef0123456789abcdef0123456789abcdef";

fn request(file_type: FileType, location: StorageLocation, related: Option<&str>, size: u64, mime: &str) -> FileUploadRequest {
    FileUploadRequest {
        file_type,
        storage_location: location,
        related_id: related.map(|s| s.to_string()),
        filename: "My Photo (1).JPG".to_string(),
        file_size: size,
        content_type: mime.to_string(),
        file_hash: Some(HASH.to_string()),
        estimated_upload_time: None,
        force_upload: None,
    }
}

#[test]
fn upload_mode_switches_above_fifteen_gigabytes() {
    let limit: u64 = 15 * 1024 * 1024 * 1024;
    assert_eq!(FileValidator::determine_upload_mode(limit), UploadMode::OneTimeToken);
    assert_eq!(FileValidator::determine_upload_mode(limit + 1), UploadMode::PresignedUrl);
    assert_eq!(FileValidator::determine_upload_mode(0), UploadMode::OneTimeToken);
}

#[test]
fn classification_by_mime_and_size() {
    let mb: u64 = 1024 * 1024;
    let gb: u64 = 1024 * mb;
    let r = FileValidator::determine_file_type_and_preview("image/png", 100 * mb, false).unwrap();
    assert_eq!(r, (FileType::UserImage, PreviewSupport::InlinePreview));
    let r = FileValidator::determine_file_type_and_preview("image/png", 100 * mb + 1, true).unwrap();
    assert_eq!(r, (FileType::FriendImageFile, PreviewSupport::DownloadOnly));
    match FileValidator::determine_file_type_and_preview("image/png", 15 * gb + 1, true) {
        Err(AppError::BadRequest(m)) => assert_eq!(m, "图片大小超过15GB，请使用超大文件上传"),
        _ => panic!("expected a refusal"),
    }
    let r = FileValidator::determine_file_type_and_preview("video/mp4", 15 * gb, true).unwrap();
    assert_eq!(r, (FileType::FriendVideo, PreviewSupport::InlinePreview));
    let r = FileValidator::determine_file_type_and_preview("video/mp4", 30 * gb, false).unwrap();
    assert_eq!(r, (FileType::UserVideoFile, PreviewSupport::DownloadOnly));
    match FileValidator::determine_file_type_and_preview("video/mp4", 30 * gb + 1, false) {
        Err(AppError::BadRequest(m)) => assert_eq!(m, "视频大小超过30GB，请联系管理员使用超大文件上传流程"),
        _ => panic!("expected a refusal"),
    }
    let r = FileValidator::determine_file_type_and_preview("application/pdf", 16 * gb, true).unwrap();
    assert_eq!(r, (FileType::UserDocument, PreviewSupport::DownloadOnly));
    match FileValidator::determine_file_type_and_preview("application/pdf", 30 * gb + 1, true) {
        Err(AppError::BadRequest(m)) => assert_eq!(m, "文件大小超过30GB，请联系管理员使用超大文件上传流程"),
        _ => panic!("expected a refusal"),
    }
}

#[test]
fn hash_validation() {
    assert!(FileValidator::validate_hash(HASH).is_ok());
    assert!(FileValidator::validate_hash(&HASH.to_uppercase()).is_ok());
    match FileValidator::validate_hash("abc") {
        Err(AppError::ValidationError(m)) => assert_eq!(m, "哈希值必须是64位十六进制字符串（SHA-256）"),
        _ => panic!("expected a refusal"),
    }
    let bad = format!("{}g", &HASH[..63]);
    match FileValidator::validate_hash(&bad) {
        Err(AppError::ValidationError(m)) => assert_eq!(m, "哈希值包含非法字符"),
        _ => panic!("expected a refusal"),
    }
}

#[test]
fn file_type_and_size_limits() {
    assert_eq!(FileValidator::get_max_file_size(&FileType::Avatar), 5 * 1024 * 1024);
    assert_eq!(FileValidator::get_max_file_size(&FileType::GroupVideo), 30 * 1024 * 1024 * 1024);
    assert!(FileValidator::validate_file_type(&FileType::UserImage, "image/tif").is_ok());
    match FileValidator::validate_file_type(&FileType::UserImage, "image/bmp") {
        Err(AppError::ValidationError(m)) => assert_eq!(m, "不支持的图片格式，仅支持：jpg、png、gif、webp、tiff"),
        _ => panic!("expected a refusal"),
    }
    match FileValidator::validate_file_type(&FileType::GroupVideo, "audio/mp3") {
        Err(AppError::ValidationError(m)) => assert_eq!(m, "不支持的视频格式"),
        _ => panic!("expected a refusal"),
    }
    assert!(FileValidator::validate_file_type(&FileType::UserDocument, "anything").is_ok());
    assert!(FileValidator::validate_file_size(&FileType::Avatar, 5 * 1024 * 1024).is_ok());
    match FileValidator::validate_file_size(&FileType::Avatar, 5 * 1024 * 1024 + 1) {
        Err(AppError::ValidationError(m)) => assert_eq!(m, "文件大小超过限制: 最大 5 MB"),
        _ => panic!("expected a refusal"),
    }
}

#[test]
fn expiry_by_size_and_request() {
    assert_eq!(FileValidator::calculate_expires_in(10_485_760, None), 300);
    assert_eq!(FileValidator::calculate_expires_in(10_485_761, None), 900);
    assert_eq!(FileValidator::calculate_expires_in(1_073_741_824, None), 1800);
    assert_eq!(FileValidator::calculate_expires_in(10_737_418_240, None), 7200);
    assert_eq!(FileValidator::calculate_expires_in(10_737_418_241, None), 14400);
    assert_eq!(FileValidator::calculate_expires_in(0, Some(10)), 300);
    assert_eq!(FileValidator::calculate_expires_in(0, Some(1_000_000)), 604800);
    assert_eq!(FileValidator::calculate_expires_in(0, Some(4000)), 4000);
}

#[test]
fn extension_and_sanitized_name() {
    assert_eq!(FileValidator::get_extension("archive.tar.GZ"), "gz");
    assert_eq!(FileValidator::get_extension("README"), "readme");
    assert_eq!(FileValidator::sanitize_filename("My Photo (1).JPG"), "MyPhoto1.JPG");
    assert_eq!(FileValidator::sanitize_filename("报告-最终_版.pdf"), "报告-最终_版.pdf");
    let long = "a".repeat(150);
    assert_eq!(FileValidator::sanitize_filename(&long).len(), 100);
}

#[test]
fn sanitizing_twice_changes_nothing() {
    for name in ["My Photo (1).JPG", "a/b\\c?.txt", "报告 最终版.pdf", ""] {
        let once = FileValidator::sanitize_filename(name);
        assert_eq!(FileValidator::sanitize_filename(&once), once);
    }
}

#[test]
fn sha256_of_known_input() {
    assert_eq!(compute_sha256(b"abc"), "ba7816bf8f01cfea414140de5dae2223b00361a396177a9cb410ff61f20015ad");
    assert_eq!(compute_sha256(b""), "e3b0c44298fc1c149afbf4c8996fb92427ae41e4649b934ca495991b7852b855");
}

#[test]
fn avatar_checks() {
    assert_eq!(AvatarService::validate_extension("me.PNG").unwrap(), "png");
    assert_eq!(
        AvatarService::validate_extension("me.bmp").unwrap_err(),
        "Unsupported file format. Allowed: jpg, jpeg, png, gif, webp"
    );
    assert!(AvatarService::validate_size(&vec![0u8; 5 * 1024 * 1024]).is_ok());
    for len in [5 * 1024 * 1024 + 1, 5373952, 5379194, 6_000_000, 10_485_760] {
        let data = vec![0u8; len];
        let expected = format!(
            "File too large. Maximum size: 5 MB, got: {:.2} MB",
            len as f64 / 1024.0 / 1024.0
        );
        assert_eq!(AvatarService::validate_size(&data).unwrap_err(), expected);
    }
}

#[test]
fn location_names_round_trip() {
    for l in [StorageLocation::Avatars, StorageLocation::UserFiles, StorageLocation::FriendMessages, StorageLocation::GroupFiles] {
        assert_eq!(StorageLocation::from_str(&l.to_string()).unwrap(), l);
    }
    assert_eq!(StorageLocation::from_str("nowhere").unwrap_err(), "无效的存储位置: nowhere");
    assert_eq!(StorageLocation::FriendMessages.to_bucket_name(), "friends-file");
    assert_eq!(FileType::FriendImageFile.to_string(), "friend_image_file");
    assert_eq!(PreviewSupport::InlinePreview.to_string(), "inline_preview");
}

#[test]
fn conversation_ids() {
    assert_eq!(generate_conversation_uuid("bob", "alice"), "conv-alice-bob");
    assert_eq!(generate_conversation_uuid("alice", "bob"), "conv-alice-bob");
    let (a, b) = parse_conversation_participants("conv-alice-bob").unwrap();
    assert_eq!((a.as_str(), b.as_str()), ("alice", "bob"));
    assert!(parse_conversation_participants("group-1-2").is_none());
    assert!(parse_conversation_participants("conv-alice").is_none());
    let (a, b) = parse_conversation_participants("conv-u1-u2-x").unwrap();
    assert_eq!((a.as_str(), b.as_str()), ("u1", "u2-x"));
}

#[test]
fn keys_read_back() {
    let key = file_key_at(&StorageLocation::FriendMessages, &FileType::FriendImage, "bob", Some("alice"), "My Photo (1).JPG", HASH, 1700000000);
    assert_eq!(key, "conv-alice-bob/images/1700000000_01234567_MyPhoto1.JPG");
    assert_eq!(extract_conversation_uuid(&key).unwrap(), "conv-alice-bob");
    assert_eq!(extract_bucket_from_key(&key), "friends-file");
    assert_eq!(extract_filename_from_key(&key), "MyPhoto1.JPG");

    let key = file_key_at(&StorageLocation::GroupFiles, &FileType::GroupDocument, "bob", Some("g1"), "plan.pdf", HASH, 5);
    assert_eq!(key, "group-g1/files/5_01234567_plan.pdf");
    assert_eq!(extract_bucket_from_key(&key), "group-file");
    assert_eq!(extract_filename_from_key(&key), "plan.pdf");

    let key = file_key_at(&StorageLocation::UserFiles, &FileType::UserVideo, "bob", None, "clip.mp4", HASH, 7);
    assert_eq!(key, "bob/videos/7_01234567_clip.mp4");
    assert_eq!(extract_bucket_from_key(&key), "user-file");
    assert!(extract_conversation_uuid(&key).is_none());

    let key = file_key_at(&StorageLocation::Avatars, &FileType::Avatar, "bob", None, "me.PNG", HASH, 7);
    assert_eq!(key, "bob.png");
    assert_eq!(extract_bucket_from_key(&key), "avatars");
    assert_eq!(extract_filename_from_key("no-underscores"), "unknown");
}

#[test]
fn buckets_and_urls() {
    assert_eq!(download_bucket_for_key("conv-a-b/x"), "friends-file");
    assert_eq!(download_bucket_for_key("group-1/x"), "group-file");
    assert_eq!(download_bucket_for_key("avatar.png"), "user-file");
    assert_eq!(generate_file_url("http://minio:9000", &StorageLocation::GroupFiles, "k"), "http://minio:9000/group-file/k");
    assert_eq!(uuid_file_url("http://localhost:8080", "u-1"), "http://localhost:8080/api/storage/file/u-1");
    assert_eq!(avatar_object_key("bob", "png"), "bob.png");
    assert_eq!(avatar_content_type("jpg"), "image/jpeg");
    assert_eq!(avatar_content_type("webp"), "image/webp");
    assert_eq!(avatar_content_type("xyz"), "application/octet-stream");
}

#[test]
fn friend_file_access_rules() {
    assert_eq!(check_friend_file_access("alice", "conv-alice-bob/images/x").unwrap(), "bob");
    assert_eq!(check_friend_file_access("bob", "conv-alice-bob/images/x").unwrap(), "alice");
    assert_eq!(check_friend_file_access("carol", "conv-alice-bob/images/x").unwrap_err(), FriendFileDenial::NotAParticipant);
    assert_eq!(check_friend_file_access("alice", "bob/images/x").unwrap_err(), FriendFileDenial::NotAConversationFile);
    assert_eq!(check_friend_file_access("alice", "conv-alice/images/x").unwrap_err(), FriendFileDenial::MalformedConversation);
}

#[test]
fn presigned_link_lifetimes() {
    assert_eq!(normal_presigned_expiry(None).unwrap(), 10800);
    assert_eq!(normal_presigned_expiry(Some(60)).unwrap(), 60);
    assert_eq!(normal_presigned_expiry(Some(10801)).unwrap_err(), "普通文件预签名URL最长有效期为3小时");
    assert_eq!(extended_presigned_expiry(None).unwrap_err(), "超大文件必须指定 estimated_download_time");
    assert_eq!(extended_presigned_expiry(Some(10799)).unwrap_err(), "有效期最少为3小时（10800秒）");
    assert_eq!(extended_presigned_expiry(Some(604801)).unwrap_err(), "有效期最多为7天（604800秒）");
    assert_eq!(extended_presigned_expiry(Some(86400)).unwrap(), 86400);
    assert!(expiry_warning(86400).is_none());
    assert_eq!(expiry_warning(604800).unwrap(), "此链接将在168小时后过期");
    assert_eq!(expiry_warning(90000).unwrap(), "此链接将在25小时后过期");
}

#[test]
fn grants_of_an_upload() {
    let members = vec!["bob".to_string(), "carol".to_string(), "dave".to_string()];
    let g = upload_permission_grants("bob", "group_files", Some("g1"), &members);
    let v: Vec<(String, String, String)> = g.into_iter().map(|p| (p.user_id, p.access_type, p.granted_by)).collect();
    assert_eq!(v, vec![
        ("bob".to_string(), "owner".to_string(), "upload".to_string()),
        ("carol".to_string(), "read".to_string(), "group_share".to_string()),
        ("dave".to_string(), "read".to_string(), "group_share".to_string()),
    ]);
    let g = upload_permission_grants("bob", "friend_messages", Some("alice"), &members);
    assert_eq!(g.len(), 2);
    assert_eq!(g[1].user_id, "alice");
    assert_eq!(g[1].granted_by, "friend_share");
    let g = upload_permission_grants("bob", "user_files", Some("x"), &members);
    assert_eq!(g.len(), 1);
}

#[test]
fn preparing_uploads() {
    let r = prepare_upload_at("bob", &request(FileType::FriendImage, StorageLocation::FriendMessages, Some("alice"), 1000, "image/jpeg"), 1700000000).unwrap();
    assert_eq!(r.file_key, "conv-alice-bob/images/1700000000_01234567_MyPhoto1.JPG");
    assert_eq!(r.preview_support, PreviewSupport::InlinePreview);
    assert_eq!(r.mode, UploadMode::OneTimeToken);
    assert!(r.check_duplicate);
    assert_eq!(r.max_file_size, 100 * 1024 * 1024);

    let mut req = request(FileType::UserImage, StorageLocation::UserFiles, None, 1000, "image/bmp");
    match prepare_upload_at("bob", &req, 1) {
        Err(AppError::ValidationError(m)) => assert_eq!(m, "不支持的图片格式，仅支持：jpg、png、gif、webp、tiff"),
        _ => panic!("expected a refusal"),
    }
    req.file_hash = Some("xyz".to_string());
    match prepare_upload_at("bob", &req, 1) {
        Err(AppError::ValidationError(m)) => assert_eq!(m, "哈希值必须是64位十六进制字符串（SHA-256）"),
        _ => panic!("expected a refusal"),
    }
    let mut req = request(FileType::UserDocument, StorageLocation::UserFiles, None, 1000, "text/plain");
    req.force_upload = Some(true);
    assert!(!prepare_upload_at("bob", &req, 1).unwrap().check_duplicate);
}

#[test]
fn upload_link_and_instant_upload() {
    assert_eq!(upload_link_expiry(UploadMode::OneTimeToken, 5, None).unwrap(), 300);
    assert_eq!(upload_link_expiry(UploadMode::PresignedUrl, 5, Some(9000)).unwrap(), 9000);
    match upload_link_expiry(UploadMode::PresignedUrl, 5, None) {
        Err(AppError::BadRequest(m)) => assert_eq!(m, "超大文件必须指定预计上传时间"),
        _ => panic!("expected a refusal"),
    }
    let mapping = UuidMappingInfo {
        uuid: "u-1".to_string(),
        physical_file_key: "bob/files/1_x_a.txt".to_string(),
        file_hash: HASH.to_string(),
        file_size: 42,
        content_type: "text/plain".to_string(),
        preview_support: "download_only".to_string(),
    };
    let info = reused_file_info("new/key", &mapping);
    assert_eq!(info.file_url, "http://localhost:8080/api/storage/file/u-1");
    assert_eq!(info.file_size, 42);
    let resp = instant_upload_response(PreviewSupport::DownloadOnly, ExistingFileInfo {
        file_key: info.file_key.clone(),
        file_url: info.file_url.clone(),
        file_size: info.file_size,
        content_type: info.content_type.clone(),
    });
    assert!(resp.instant_upload);
    assert_eq!(resp.file_key, "new/key");
    assert_eq!(resp.existing_file_url.unwrap(), "http://localhost:8080/api/storage/file/u-1");
}

#[test]
fn list_paging() {
    assert_eq!(list_defaults(None, None), (1, 20));
    assert_eq!(list_defaults(Some(0), Some(500)), (1, 100));
    let plan = list_query_plan(3, 20, "file_size", "asc");
    assert_eq!((plan.page, plan.limit, plan.offset), (3, 20, 40));
    assert_eq!(plan.sort_column, "\"file-size\"");
    assert_eq!(plan.sort_dir, "ASC");
    let plan = list_query_plan(1, 20, "name", "up");
    assert_eq!(plan.sort_column, "\"created-at\"");
    assert_eq!(plan.sort_dir, "DESC");
    assert_eq!(page_count(41, 20, 2), (3, true));
    assert_eq!(page_count(40, 20, 2), (2, false));
    assert_eq!(page_count(0, 20, 1), (0, false));
    let r = list_response(Vec::new(), 21, 1, 10);
    assert_eq!((r.total_pages, r.has_more), (3, true));
}

#[test]
fn friend_file_denials_are_answered() {
    assert_eq!(friend_denial_answer(FriendFileDenial::NotAConversationFile), (400, "文件路径格式错误，无法识别会话"));
    assert_eq!(friend_denial_answer(FriendFileDenial::MalformedConversation), (400, "会话标识格式错误"));
    assert_eq!(friend_denial_answer(FriendFileDenial::NotAParticipant), (403, "无权访问此文件"));
}

#[test]
fn uploads_without_a_hash() {
    let mut req = request(FileType::UserImage, StorageLocation::UserFiles, None, 1000, "image/png");
    req.file_hash = None;
    let r = prepare_upload_at("bob", &req, 1700000000).unwrap();
    assert_eq!(r.file_key, "bob/images/1700000000__MyPhoto1.JPG");
    assert!(!r.check_duplicate);
    assert_eq!(r.mode, UploadMode::OneTimeToken);

    let mut bad = request(FileType::UserImage, StorageLocation::UserFiles, None, 1000, "image/bmp");
    bad.file_hash = None;
    match prepare_upload_at("bob", &bad, 1) {
        Err(AppError::ValidationError(m)) => assert_eq!(m, "不支持的图片格式，仅支持：jpg、png、gif、webp、tiff"),
        _ => panic!("expected a refusal"),
    }
}

#[test]
fn uploaded_size_must_match_the_announced_one() {
    assert!(upload_size_matches(1000, 1000));
    assert!(!upload_size_matches(999, 1000));
    assert!(!upload_size_matches(0, -1));
    assert!(upload_size_matches(0, 0));
}
