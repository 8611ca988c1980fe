//! Object keys, buckets and URLs of stored files.

use vstd::prelude::*;
use vstd::string::*;
use vstd::utf8::*;
use crate::clock::now_unix_seconds;
use crate::storage::enums::{FileType, StorageLocation};
use crate::storage::validator::{classification, is_image_type, is_video_type, sanitized, FileValidator};
use crate::text::{
    lemma_concat_lacks, lemma_dec_int_chars, lemma_first_split, lemma_last_split,
    after_first, before_first, chars_of, concat2, concat3, dec_int, first_index_of, i64_to_string,
    last_segment, lemma_last_index_of, lemma_seq_less_asym, lowercase, seq_contains_seq, seq_less,
    seq_starts_with, split_first, starts_with, str_eq, str_less, string_from_chars, string_from_range,
    vec_contains_char, vec_last_segment_start, owned, opt_view,
};

verus! {

/// The identifier of the conversation between two users: `conv-{a}-{b}` with the two ids in
/// ascending order, so that both users get the same identifier.
pub open spec fn conversation_id(a: Seq<char>, b: Seq<char>) -> Seq<char> {
    if seq_less(a, b) { "conv-"@ + a + "-"@ + b } else { "conv-"@ + b + "-"@ + a }
}

/// The conversation identifier of two users, `conv-{smaller id}-{larger id}`.
pub fn generate_conversation_uuid(user1: &str, user2: &str) -> (r: String)
    ensures
        r@ == conversation_id(user1@, user2@),
{
    if str_less(user1, user2) {
        let mut r = concat3("conv-", user1, "-");
        r.append(user2);
        r
    } else {
        let mut r = concat3("conv-", user2, "-");
        r.append(user1);
        r
    }
}

/// Both users of a conversation compute the same identifier.
pub proof fn law_conversation_id_symmetric(a: Seq<char>, b: Seq<char>)
    ensures
        conversation_id(a, b) == conversation_id(b, a),
{
    lemma_seq_less_asym(a, b);
}

/// The sub-directory of a file type inside a user's own area.
pub open spec fn user_type_dir(t: FileType) -> Seq<char> {
    match t {
        FileType::UserImage | FileType::UserImageFile => "images"@,
        FileType::UserVideo | FileType::UserVideoFile => "videos"@,
        _ => "files"@,
    }
}

/// The sub-directory of a file type inside a conversation.
pub open spec fn friend_type_dir(t: FileType) -> Seq<char> {
    match t {
        FileType::FriendImage | FileType::FriendImageFile => "images"@,
        FileType::FriendVideo | FileType::FriendVideoFile => "videos"@,
        _ => "files"@,
    }
}

/// The sub-directory of a file type inside a group.
pub open spec fn group_type_dir(t: FileType) -> Seq<char> {
    match t {
        FileType::GroupImage => "images"@,
        FileType::GroupVideo => "videos"@,
        _ => "files"@,
    }
}

/// The characters of the first 8 bytes of a hash.
pub open spec fn hash_prefix(hash_bytes: Seq<u8>) -> Seq<char> {
    decode_utf8(hash_bytes.subrange(0, 8))
}

/// The file-name part of a key: `{timestamp}_{hash prefix}_{sanitized name}`.
pub open spec fn key_leaf(timestamp: i64, prefix: Seq<char>, filename: Seq<char>) -> Seq<char> {
    dec_int(timestamp as int) + "_"@ + prefix + "_"@ + sanitized(filename)
}

/// The object key of an upload.
pub open spec fn file_key(
    location: StorageLocation,
    file_type: FileType,
    user_id: Seq<char>,
    related_id: Option<Seq<char>>,
    filename: Seq<char>,
    prefix: Seq<char>,
    timestamp: i64,
) -> Seq<char> {
    let leaf = key_leaf(timestamp, prefix, filename);
    let other = match related_id { Some(r) => r, None => "unknown"@ };
    match location {
        StorageLocation::Avatars => user_id + "."@ + lowercase(last_segment(filename, '.')),
        StorageLocation::UserFiles => user_id + "/"@ + user_type_dir(file_type) + "/"@ + leaf,
        StorageLocation::FriendMessages =>
            conversation_id(user_id, other) + "/"@ + friend_type_dir(file_type) + "/"@ + leaf,
        StorageLocation::GroupFiles => "group-"@ + other + "/"@ + group_type_dir(file_type) + "/"@ + leaf,
    }
}

fn type_dir(location: StorageLocation, t: FileType) -> (r: &'static str)
    ensures
        location == StorageLocation::UserFiles ==> r@ == user_type_dir(t),
        location == StorageLocation::FriendMessages ==> r@ == friend_type_dir(t),
        location == StorageLocation::GroupFiles ==> r@ == group_type_dir(t),
{
    match location {
        StorageLocation::GroupFiles => match t {
            FileType::GroupImage => "images",
            FileType::GroupVideo => "videos",
            _ => "files",
        },
        StorageLocation::FriendMessages => match t {
            FileType::FriendImage | FileType::FriendImageFile => "images",
            FileType::FriendVideo | FileType::FriendVideoFile => "videos",
            _ => "files",
        },
        _ => match t {
            FileType::UserImage | FileType::UserImageFile => "images",
            FileType::UserVideo | FileType::UserVideoFile => "videos",
            _ => "files",
        },
    }
}

/// The object key of an upload made at `timestamp` (seconds since the epoch).
/// The hash must have a character boundary at byte 8, as slicing its first 8 bytes needs.
pub fn file_key_at(
    location: &StorageLocation,
    file_type: &FileType,
    user_id: &str,
    related_id: Option<&str>,
    filename: &str,
    file_hash: &str,
    timestamp: i64,
) -> (r: String)
    requires
        is_char_boundary(file_hash.spec_bytes(), 8),
    ensures
        r@ == file_key(*location, *file_type, user_id@, opt_view(related_id),
            filename@, hash_prefix(file_hash.spec_bytes()), timestamp),
        bucket_readable(*location, user_id@, filename@) ==> bucket_of_key(r@) == location.bucket(),
{
    let (prefix, _) = file_hash.split_at(8);
    proof {
        broadcast use encode_utf8_decode_utf8;
        assert(prefix.spec_bytes() == encode_utf8(prefix@));
    }
    file_key_with_prefix(location, file_type, user_id, related_id, filename, prefix, timestamp)
}

/// The object key of an upload at `timestamp`, with `prefix` standing for the file's hash in
/// the key's leaf (empty when no hash was given).
pub fn file_key_with_prefix(
    location: &StorageLocation,
    file_type: &FileType,
    user_id: &str,
    related_id: Option<&str>,
    filename: &str,
    prefix: &str,
    timestamp: i64,
) -> (r: String)
    ensures
        r@ == file_key(*location, *file_type, user_id@, opt_view(related_id), filename@, prefix@, timestamp),
        bucket_readable(*location, user_id@, filename@) ==> bucket_of_key(r@) == location.bucket(),
{
    let extension = FileValidator::get_extension(filename);
    let sanitized_name = FileValidator::sanitize_filename(filename);
    let ts = i64_to_string(timestamp);
    let mut leaf = concat3(ts.as_str(), "_", prefix);
    leaf.append("_");
    leaf.append(sanitized_name.as_str());
    let other: &str = match related_id { Some(r) => r, None => "unknown" };
    let dir = type_dir(*location, *file_type);
    proof {
        if bucket_readable(*location, user_id@, filename@) && *location != StorageLocation::Avatars {
            law_key_bucket(*location, *file_type, user_id@, opt_view(related_id), filename@, prefix@, timestamp);
        }
    }
    match location {
        StorageLocation::Avatars => {
            let k = concat3(user_id, ".", extension.as_str());
            proof {
                if bucket_readable(*location, user_id@, filename@) {
                    lemma_avatar_key_bucket(user_id@, extension@);
                }
            }
            k
        }
        StorageLocation::UserFiles => {
            let mut k = concat3(user_id, "/", dir);
            k.append("/");
            k.append(leaf.as_str());
            k
        }
        StorageLocation::FriendMessages => {
            let conv = generate_conversation_uuid(user_id, other);
            let mut k = concat3(conv.as_str(), "/", dir);
            k.append("/");
            k.append(leaf.as_str());
            k
        }
        StorageLocation::GroupFiles => {
            let mut k = concat3("group-", other, "/");
            k.append(dir);
            k.append("/");
            k.append(leaf.as_str());
            k
        }
    }
}

/// The object key of an upload made now.
pub fn generate_file_key(
    location: &StorageLocation,
    file_type: &FileType,
    user_id: &str,
    related_id: Option<&str>,
    filename: &str,
    file_hash: &str,
) -> (r: String)
    requires
        is_char_boundary(file_hash.spec_bytes(), 8),
    ensures
        exists|t: i64| r@ == #[trigger] file_key(*location, *file_type, user_id@,
            opt_view(related_id),
            filename@, hash_prefix(file_hash.spec_bytes()), t),
        bucket_readable(*location, user_id@, filename@) ==> bucket_of_key(r@) == location.bucket(),
{
    let t = now_unix_seconds();
    file_key_at(location, file_type, user_id, related_id, filename, file_hash, t)
}

/// The bucket a stored key belongs to, judged by its layout.
pub open spec fn bucket_of_key(key: Seq<char>) -> Seq<char> {
    if seq_starts_with(key, "conv-"@) {
        "friends-file"@
    } else if seq_starts_with(key, "group-"@) {
        "group-file"@
    } else if key.contains('/') {
        "user-file"@
    } else {
        "avatars"@
    }
}

/// The bucket of a stored key: conversation keys, group keys, user keys (with a `/`), avatars.
pub fn extract_bucket_from_key(file_key: &str) -> (r: &'static str)
    ensures
        r@ == bucket_of_key(file_key@),
{
    if starts_with(file_key, "conv-") {
        "friends-file"
    } else if starts_with(file_key, "group-") {
        "group-file"
    } else {
        let v = chars_of(file_key);
        if vec_contains_char(&v, '/') { "user-file" } else { "avatars" }
    }
}

/// The bucket from which a shared file is downloaded, judged by its physical key.
pub open spec fn download_bucket_of_key(key: Seq<char>) -> Seq<char> {
    if seq_starts_with(key, "conv-"@) {
        "friends-file"@
    } else if seq_starts_with(key, "group-"@) {
        "group-file"@
    } else {
        "user-file"@
    }
}

/// The bucket from which a shared file is downloaded.
pub fn download_bucket_for_key(physical_file_key: &str) -> (r: &'static str)
    ensures
        r@ == download_bucket_of_key(physical_file_key@),
{
    if starts_with(physical_file_key, "conv-") {
        "friends-file"
    } else if starts_with(physical_file_key, "group-") {
        "group-file"
    } else {
        "user-file"
    }
}

/// The original file name inside a key: what follows the second `_` of its last path segment.
pub open spec fn filename_in_key(key: Seq<char>) -> Seq<char> {
    let seg = last_segment(key, '/');
    match after_first(seg, '_') {
        None => "unknown"@,
        Some(rest) => match after_first(rest, '_') {
            None => "unknown"@,
            Some(name) => name,
        },
    }
}

/// The original file name inside a key, or `unknown`.
pub fn extract_filename_from_key(file_key: &str) -> (r: String)
    ensures
        r@ == filename_in_key(file_key@),
{
    let v = chars_of(file_key);
    let start = vec_last_segment_start(&v, '/');
    proof { lemma_last_index_of(v@, '/'); }
    let seg_s = string_from_range(&v, start, v.len());
    let seg = chars_of(seg_s.as_str());
    let (_, rest) = split_first(&seg, '_');
    match rest {
        None => String::from_str("unknown"),
        Some(rest) => {
            let (_, name) = split_first(&rest, '_');
            match name {
                None => String::from_str("unknown"),
                Some(name) => string_from_chars(&name),
            }
        }
    }
}

/// The two users named in a conversation identifier `conv-{a}-{b}`.
pub open spec fn conversation_participants(c: Seq<char>) -> Option<(Seq<char>, Seq<char>)> {
    match after_first(c, '-') {
        None => None,
        Some(rest) => match after_first(rest, '-') {
            None => None,
            Some(second) => if before_first(c, '-') == "conv"@ {
                Some((before_first(rest, '-'), second))
            } else {
                None
            },
        },
    }
}

/// Splits `conv-{a}-{b}` into its two user ids (the second keeps any further `-`).
pub fn parse_conversation_participants(conversation_uuid: &str) -> (r: Option<(String, String)>)
    ensures
        match conversation_participants(conversation_uuid@) {
            Some((a, b)) => r is Some && r->Some_0.0@ == a && r->Some_0.1@ == b,
            None => r is None,
        },
{
    let v = chars_of(conversation_uuid);
    let (head, rest) = split_first(&v, '-');
    match rest {
        None => None,
        Some(rest) => {
            let (first, second) = split_first(&rest, '-');
            match second {
                None => None,
                Some(second) => {
                    let h = string_from_chars(&head);
                    if str_eq(h.as_str(), "conv") {
                        Some((string_from_chars(&first), string_from_chars(&second)))
                    } else {
                        None
                    }
                }
            }
        }
    }
}

/// The conversation part of a friend file key: its first path segment, if it starts with `conv-`.
pub open spec fn conversation_of_key(key: Seq<char>) -> Option<Seq<char>> {
    if seq_starts_with(before_first(key, '/'), "conv-"@) { Some(before_first(key, '/')) } else { None }
}

/// The conversation identifier at the start of a friend file key.
pub fn extract_conversation_uuid(physical_file_key: &str) -> (r: Option<String>)
    ensures
        match conversation_of_key(physical_file_key@) {
            Some(c) => r is Some && r->Some_0@ == c,
            None => r is None,
        },
        r matches Some(c) ==> c@.len() <= physical_file_key@.len(),
{
    let v = chars_of(physical_file_key);
    let (head, _) = split_first(&v, '/');
    proof { crate::text::lemma_first_index_of(v@, '/'); }
    let h = string_from_chars(&head);
    if starts_with(h.as_str(), "conv-") { Some(h) } else { None }
}

/// The public URL of an object: `{public_url}/{bucket}/{key}`.
pub fn public_object_url(public_url: &str, bucket: &str, key: &str) -> (r: String)
    ensures
        r@ == public_url@ + "/"@ + bucket@ + "/"@ + key@,
{
    let mut r = concat3(public_url, "/", bucket);
    r.append("/");
    r.append(key);
    r
}

/// The public URL of a file of a storage location.
pub fn generate_file_url(public_url: &str, storage_location: &StorageLocation, file_key: &str) -> (r: String)
    ensures
        r@ == public_url@ + "/"@ + storage_location.bucket() + "/"@ + file_key@,
{
    public_object_url(public_url, storage_location.to_bucket_name(), file_key)
}

/// The access URL of a file by its UUID: `{api_base_url}/api/storage/file/{uuid}`.
pub fn uuid_file_url(api_base_url: &str, file_uuid: &str) -> (r: String)
    ensures
        r@ == api_base_url@ + "/api/storage/file/"@ + file_uuid@,
{
    concat3(api_base_url, "/api/storage/file/", file_uuid)
}

/// The key of a user's avatar: `{user_id}.{extension}`.
pub fn avatar_object_key(user_id: &str, extension: &str) -> (r: String)
    ensures
        r@ == user_id@ + "."@ + extension@,
{
    concat3(user_id, ".", extension)
}

/// The MIME type stored with an avatar of the given extension.
pub open spec fn avatar_mime(extension: Seq<char>) -> Seq<char> {
    if extension == "jpg"@ || extension == "jpeg"@ {
        "image/jpeg"@
    } else if extension == "png"@ {
        "image/png"@
    } else if extension == "gif"@ {
        "image/gif"@
    } else if extension == "webp"@ {
        "image/webp"@
    } else {
        "application/octet-stream"@
    }
}

/// The MIME type stored with an avatar of the given extension.
pub fn avatar_content_type(extension: &str) -> (r: &'static str)
    ensures
        r@ == avatar_mime(extension@),
{
    if str_eq(extension, "jpg") || str_eq(extension, "jpeg") {
        "image/jpeg"
    } else if str_eq(extension, "png") {
        "image/png"
    } else if str_eq(extension, "gif") {
        "image/gif"
    } else if str_eq(extension, "webp") {
        "image/webp"
    } else {
        "application/octet-stream"
    }
}


/// The text `conv-`, character by character.
proof fn lemma_conv_prefix()
    ensures
        "conv-"@ == seq!['c', 'o', 'n', 'v', '-'],
        "conv"@ == seq!['c', 'o', 'n', 'v'],
        "-"@ == seq!['-'],
        "/"@ == seq!['/'],
        "_"@ == seq!['_'],
        "group-"@ == seq!['g', 'r', 'o', 'u', 'p', '-'],
        "unknown"@ == seq!['u', 'n', 'k', 'n', 'o', 'w', 'n'],
{
    reveal_strlit("conv-");
    reveal_strlit("conv");
    reveal_strlit("-");
    reveal_strlit("/");
    reveal_strlit("_");
    reveal_strlit("group-");
    reveal_strlit("unknown");
}

/// A conversation identifier holds a `/` only if one of the two ids does.
proof fn lemma_conversation_id_lacks(a: Seq<char>, b: Seq<char>, c: char)
    requires
        !a.contains(c),
        !b.contains(c),
        c != 'c' && c != 'o' && c != 'n' && c != 'v' && c != '-',
    ensures
        !conversation_id(a, b).contains(c),
{
    lemma_conv_prefix();
    let head = seq!['c', 'o', 'n', 'v', '-'];
    assert(!head.contains(c)) by {
        if head.contains(c) {
            let j = choose|j: int| 0 <= j < head.len() && head[j] == c;
        }
    }
    assert(!seq!['-'].contains(c)) by {
        if seq!['-'].contains(c) {
            let j = choose|j: int| 0 <= j < 1 && seq!['-'][j] == c;
        }
    }
    let (x, y) = if seq_less(a, b) { (a, b) } else { (b, a) };
    lemma_concat_lacks(head, x, c);
    lemma_concat_lacks(head + x, seq!['-'], c);
    lemma_concat_lacks(head + x + seq!['-'], y, c);
}

/// The two users of a conversation are read back from its identifier, the smaller id first,
/// when neither id holds a `-`.
pub proof fn law_conversation_round_trip(a: Seq<char>, b: Seq<char>)
    requires
        !a.contains('-'),
        !b.contains('-'),
    ensures
        conversation_participants(conversation_id(a, b)) == if seq_less(a, b) { Some((a, b)) } else { Some((b, a)) },
{
    lemma_conv_prefix();
    let (x, y) = if seq_less(a, b) { (a, b) } else { (b, a) };
    let conv = seq!['c', 'o', 'n', 'v'];
    assert(!conv.contains('-')) by {
        if conv.contains('-') {
            let j = choose|j: int| 0 <= j < conv.len() && conv[j] == '-';
        }
    }
    let c = conversation_id(a, b);
    assert(c =~= conv + seq!['-'] + (x + seq!['-'] + y));
    lemma_first_split(conv, x + seq!['-'] + y, '-');
    lemma_first_split(x, y, '-');
}

/// The two user ids of `conv-{a}-{b}` are read back, `b` whole (it may hold `-`), when `a`
/// holds no `-`.
pub proof fn law_conversation_parse(a: Seq<char>, b: Seq<char>)
    requires
        !a.contains('-'),
    ensures
        conversation_participants("conv-"@ + a + "-"@ + b) == Some((a, b)),
{
    lemma_conv_prefix();
    let conv = seq!['c', 'o', 'n', 'v'];
    assert(!conv.contains('-')) by {
        if conv.contains('-') {
            let j = choose|j: int| 0 <= j < conv.len() && conv[j] == '-';
        }
    }
    let c = "conv-"@ + a + "-"@ + b;
    assert(c =~= conv + seq!['-'] + (a + seq!['-'] + b));
    lemma_first_split(conv, a + seq!['-'] + b, '-');
    lemma_first_split(a, b, '-');
}

/// The directory segment of a key: what lies between its first and second `/`.
pub open spec fn key_directory(key: Seq<char>) -> Seq<char> {
    match after_first(key, '/') {
        Some(rest) => before_first(rest, '/'),
        None => Seq::empty(),
    }
}

/// A key made of a head without `/`, a directory without `/`, and a leaf, reads back that
/// directory.
proof fn lemma_key_directory(head: Seq<char>, dir: Seq<char>, leaf: Seq<char>)
    requires
        !head.contains('/'),
        !dir.contains('/'),
    ensures
        key_directory(head + "/"@ + dir + "/"@ + leaf) == dir,
{
    lemma_conv_prefix();
    let key = head + "/"@ + dir + "/"@ + leaf;
    assert(key =~= head + seq!['/'] + (dir + seq!['/'] + leaf));
    lemma_first_split(head, dir + seq!['/'] + leaf, '/');
    lemma_first_split(dir, leaf, '/');
}

/// The three directory names hold no `/`.
proof fn lemma_directory_names()
    ensures
        !"images"@.contains('/'),
        !"videos"@.contains('/'),
        !"files"@.contains('/'),
{
    reveal_strlit("images");
    reveal_strlit("videos");
    reveal_strlit("files");
    assert("images"@ =~= seq!['i', 'm', 'a', 'g', 'e', 's']);
    assert("videos"@ =~= seq!['v', 'i', 'd', 'e', 'o', 's']);
    assert("files"@ =~= seq!['f', 'i', 'l', 'e', 's']);
}

/// A user's or a conversation's file is stored under the directory of what it holds: the file
/// type chosen for an upload from its MIME type puts a video (`video/...`) under `videos`, an
/// image (`image/...`) under `images`, and anything else under `files`.
pub proof fn law_key_directory_follows_content(
    location: StorageLocation,
    content_type: Seq<char>,
    file_size: u64,
    user_id: Seq<char>,
    related_id: Option<Seq<char>>,
    filename: Seq<char>,
    prefix: Seq<char>,
    timestamp: i64,
)
    requires
        location == StorageLocation::UserFiles || location == StorageLocation::FriendMessages,
        !user_id.contains('/'),
        related_id matches Some(r) ==> !r.contains('/'),
    ensures
        classification(content_type, file_size, location == StorageLocation::FriendMessages) matches Ok((t, _))
            ==> key_directory(file_key(location, t, user_id, related_id, filename, prefix, timestamp))
                == if seq_starts_with(content_type, "video/"@) {
                    "videos"@
                } else if seq_starts_with(content_type, "image/"@) {
                    "images"@
                } else {
                    "files"@
                },
{
    lemma_conv_prefix();
    lemma_directory_names();
    reveal_strlit("video/");
    reveal_strlit("image/");
    if seq_starts_with(content_type, "image/"@) && seq_starts_with(content_type, "video/"@) {
        assert(content_type[0] == "image/"@[0]);
        assert(content_type[0] == "video/"@[0]);
    }
    let other = match related_id { Some(r) => r, None => "unknown"@ };
    assert(!other.contains('/')) by {
        if related_id is None && other.contains('/') {
            let j = choose|j: int| 0 <= j < other.len() && other[j] == '/';
        }
    }
    if let Ok((t, _)) = classification(content_type, file_size, location == StorageLocation::FriendMessages) {
        let leaf = key_leaf(timestamp, prefix, filename);
        if location == StorageLocation::UserFiles {
            lemma_key_directory(user_id, user_type_dir(t), leaf);
        } else {
            lemma_conversation_id_lacks(user_id, other, '/');
            lemma_key_directory(conversation_id(user_id, other), friend_type_dir(t), leaf);
        }
    }
}

/// A group's file is stored under the directory of what its type holds: a group file type
/// that holds videos goes under `videos`, one that holds images under `images`, and the others
/// under `files`.
pub proof fn law_group_key_directory(
    file_type: FileType,
    user_id: Seq<char>,
    related_id: Option<Seq<char>>,
    filename: Seq<char>,
    prefix: Seq<char>,
    timestamp: i64,
)
    requires
        file_type == FileType::GroupImage || file_type == FileType::GroupVideo
            || file_type == FileType::GroupDocument,
        related_id matches Some(r) ==> !r.contains('/'),
    ensures
        key_directory(file_key(StorageLocation::GroupFiles, file_type, user_id, related_id, filename, prefix, timestamp))
            == if is_video_type(file_type) {
                "videos"@
            } else if is_image_type(file_type) {
                "images"@
            } else {
                "files"@
            },
{
    lemma_conv_prefix();
    lemma_directory_names();
    let other = match related_id { Some(r) => r, None => "unknown"@ };
    assert(!other.contains('/')) by {
        if related_id is None && other.contains('/') {
            let j = choose|j: int| 0 <= j < other.len() && other[j] == '/';
        }
    }
    let head = "group-"@ + other;
    assert(!"group-"@.contains('/')) by {
        if "group-"@.contains('/') {
            let j = choose|j: int| 0 <= j < "group-"@.len() && "group-"@[j] == '/';
        }
    }
    lemma_concat_lacks("group-"@, other, '/');
    lemma_key_directory(head, group_type_dir(file_type), key_leaf(timestamp, prefix, filename));
}

/// A friend file's key begins with its conversation, which is read back from it, when the
/// two user ids hold no `/`.
pub proof fn law_friend_key_conversation(
    file_type: FileType,
    user_id: Seq<char>,
    related_id: Option<Seq<char>>,
    filename: Seq<char>,
    prefix: Seq<char>,
    timestamp: i64,
)
    requires
        !user_id.contains('/'),
        related_id matches Some(r) ==> !r.contains('/'),
    ensures
        conversation_of_key(file_key(StorageLocation::FriendMessages, file_type, user_id, related_id, filename, prefix, timestamp))
            == Some(conversation_id(user_id, match related_id { Some(r) => r, None => "unknown"@ })),
{
    lemma_conv_prefix();
    let other = match related_id { Some(r) => r, None => "unknown"@ };
    assert(!other.contains('/')) by {
        if related_id is None && other.contains('/') {
            let j = choose|j: int| 0 <= j < other.len() && other[j] == '/';
        }
    }
    lemma_conversation_id_lacks(user_id, other, '/');
    let conv = conversation_id(user_id, other);
    let rest = friend_type_dir(file_type) + "/"@ + key_leaf(timestamp, prefix, filename);
    let key = file_key(StorageLocation::FriendMessages, file_type, user_id, related_id, filename, prefix, timestamp);
    assert(key =~= conv + seq!['/'] + rest);
    lemma_first_split(conv, rest, '/');
    let (x, y) = if seq_less(user_id, other) { (user_id, other) } else { (other, user_id) };
    assert(conv =~= seq!['c', 'o', 'n', 'v', '-'] + (x + seq!['-'] + y));
    assert(conv.subrange(0, 5) =~= "conv-"@);
}

/// When the bucket of a key is read back from it: a user id that is a key's first part (for a
/// user's own files and avatars) holds no `/` and begins with neither `conv-` nor `group-`, and
/// an avatar's extension holds no `/`.
pub open spec fn bucket_readable(location: StorageLocation, user_id: Seq<char>, filename: Seq<char>) -> bool {
    &&& (location == StorageLocation::UserFiles || location == StorageLocation::Avatars) ==> {
            &&& !seq_starts_with(user_id, "conv-"@)
            &&& !seq_starts_with(user_id, "group-"@)
            &&& !user_id.contains('/')
        }
    &&& location == StorageLocation::Avatars ==> !last_segment(filename, '.').contains('/')
}

/// An avatar key made of such a user id and an extension without `/` is read as an avatar.
proof fn lemma_avatar_key_bucket(user_id: Seq<char>, extension: Seq<char>)
    requires
        !seq_starts_with(user_id, "conv-"@),
        !seq_starts_with(user_id, "group-"@),
        !user_id.contains('/'),
        !extension.contains('/'),
    ensures
        bucket_of_key(user_id + "."@ + extension) == "avatars"@,
{
    lemma_conv_prefix();
    reveal_strlit(".");
    let key = user_id + "."@ + extension;
    assert(!"."@.contains('/')) by {
        assert("."@ =~= seq!['.']);
    }
    lemma_concat_lacks(user_id, "."@, '/');
    lemma_concat_lacks(user_id + "."@, extension, '/');
    assert(key[user_id.len() as int] == '.');
    if key.len() >= 5 && key.subrange(0, 5) == "conv-"@ {
        if user_id.len() >= 5 {
            assert(user_id.subrange(0, 5) =~= key.subrange(0, 5));
        } else {
            assert(key.subrange(0, 5)[user_id.len() as int] == '.');
        }
    }
    if key.len() >= 6 && key.subrange(0, 6) == "group-"@ {
        if user_id.len() >= 6 {
            assert(user_id.subrange(0, 6) =~= key.subrange(0, 6));
        } else {
            assert(key.subrange(0, 6)[user_id.len() as int] == '.');
        }
    }
}

/// Each kind of key is stored in the bucket of its location, so the bucket is read back from
/// the key: for a user's own files, when the user id holds no `/` and begins with neither
/// `conv-` nor `group-`.
pub proof fn law_key_bucket(
    location: StorageLocation,
    file_type: FileType,
    user_id: Seq<char>,
    related_id: Option<Seq<char>>,
    filename: Seq<char>,
    prefix: Seq<char>,
    timestamp: i64,
)
    requires
        location != StorageLocation::Avatars,
        location == StorageLocation::UserFiles ==> !seq_starts_with(user_id, "conv-"@)
            && !seq_starts_with(user_id, "group-"@) && !user_id.contains('/'),
    ensures
        bucket_of_key(file_key(location, file_type, user_id, related_id, filename, prefix, timestamp)) == location.bucket(),
{
    lemma_conv_prefix();
    let key = file_key(location, file_type, user_id, related_id, filename, prefix, timestamp);
    let other = match related_id { Some(r) => r, None => "unknown"@ };
    let leaf = key_leaf(timestamp, prefix, filename);
    match location {
        StorageLocation::FriendMessages => {
            let (x, y) = if seq_less(user_id, other) { (user_id, other) } else { (other, user_id) };
            assert(key.subrange(0, 5) =~= "conv-"@);
        },
        StorageLocation::GroupFiles => {
            assert(key.subrange(0, 5) != "conv-"@) by {
                assert(key[0] == 'g');
            }
            assert(key.subrange(0, 6) =~= "group-"@);
        },
        StorageLocation::UserFiles => {
            let rest = user_type_dir(file_type) + "/"@ + leaf;
            assert(key =~= user_id + seq!['/'] + rest);
            assert(key[user_id.len() as int] == '/');
            assert(key.contains('/'));
            if key.len() >= 5 && key.subrange(0, 5) == "conv-"@ {
                if user_id.len() >= 5 {
                    assert(user_id.subrange(0, 5) =~= key.subrange(0, 5));
                } else {
                    assert(key.subrange(0, 5)[user_id.len() as int] == '/');
                }
            }
            if key.len() >= 6 && key.subrange(0, 6) == "group-"@ {
                if user_id.len() >= 6 {
                    assert(user_id.subrange(0, 6) =~= key.subrange(0, 6));
                } else {
                    assert(key.subrange(0, 6)[user_id.len() as int] == '/');
                }
            }
        },
        StorageLocation::Avatars => {},
    }
}

/// The file name is read back from a key, as the sanitized name the key was made with, when
/// the hash prefix holds neither `_` nor `/` and the sanitized name holds no `/` (avatars
/// keep no file name).
pub proof fn law_key_filename(
    location: StorageLocation,
    file_type: FileType,
    user_id: Seq<char>,
    related_id: Option<Seq<char>>,
    filename: Seq<char>,
    prefix: Seq<char>,
    timestamp: i64,
)
    requires
        location != StorageLocation::Avatars,
        !prefix.contains('_'),
        !prefix.contains('/'),
        !sanitized(filename).contains('/'),
    ensures
        filename_in_key(file_key(location, file_type, user_id, related_id, filename, prefix, timestamp)) == sanitized(filename),
{
    lemma_conv_prefix();
    let key = file_key(location, file_type, user_id, related_id, filename, prefix, timestamp);
    let name = sanitized(filename);
    let stamp = dec_int(timestamp as int);
    lemma_dec_int_chars(timestamp as int);
    assert(!stamp.contains('_')) by {
        if stamp.contains('_') {
            let j = choose|j: int| 0 <= j < stamp.len() && stamp[j] == '_';
        }
    }
    assert(!stamp.contains('/')) by {
        if stamp.contains('/') {
            let j = choose|j: int| 0 <= j < stamp.len() && stamp[j] == '/';
        }
    }
    assert(!seq!['_'].contains('/')) by {
        if seq!['_'].contains('/') {
            let j = choose|j: int| 0 <= j < 1 && seq!['_'][j] == '/';
        }
    }
    let tail = prefix + seq!['_'] + name;
    let leaf = stamp + seq!['_'] + tail;
    assert(key_leaf(timestamp, prefix, filename) =~= leaf);
    lemma_concat_lacks(prefix, seq!['_'], '/');
    lemma_concat_lacks(prefix + seq!['_'], name, '/');
    lemma_concat_lacks(stamp, seq!['_'], '/');
    lemma_concat_lacks(stamp + seq!['_'], tail, '/');
    assert(!leaf.contains('/')) by {
        assert(leaf =~= (stamp + seq!['_']) + tail);
    }
    let other = match related_id { Some(r) => r, None => "unknown"@ };
    let head = match location {
        StorageLocation::UserFiles => user_id + "/"@ + user_type_dir(file_type),
        StorageLocation::FriendMessages => conversation_id(user_id, other) + "/"@ + friend_type_dir(file_type),
        _ => "group-"@ + other + "/"@ + group_type_dir(file_type),
    };
    assert(key =~= head + seq!['/'] + leaf);
    lemma_last_split(head, leaf, '/');
    lemma_first_split(stamp, tail, '_');
    lemma_first_split(prefix, name, '_');
}

} // verus!
