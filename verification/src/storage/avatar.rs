//! Avatar upload checks.

use vstd::prelude::*;
use vstd::string::*;
use crate::text::{
    chars_of, dec, digit_char, last_segment, lemma_last_index_of, lowercase, push_char, str_eq,
    seq_starts_with, string_from_range, to_lowercase, u64_to_string, vec_last_segment_start,
};
use crate::storage::paths::avatar_mime;

verus! {

/// Avatar validation.
pub struct AvatarService;

/// Extensions accepted for avatars.
pub open spec fn is_allowed_avatar_extension(e: Seq<char>) -> bool {
    e == "jpg"@ || e == "jpeg"@ || e == "png"@ || e == "gif"@ || e == "webp"@
}

/// A size in bytes expressed in hundredths of a MiB, rounded to nearest with ties to even
/// (how a two-decimal float rendering of `len / 1024 / 1024` rounds).
pub open spec fn mib_hundredths(len: nat) -> nat {
    let q = (len * 100) / 1048576;
    let r = (len * 100) % 1048576;
    if r * 2 > 1048576 || (r * 2 == 1048576 && q % 2 == 1) { q + 1 } else { q }
}

/// A number of hundredths written with two decimals, such as `5.13`.
pub open spec fn two_decimals(h: nat) -> Seq<char> {
    dec(h / 100) + seq!['.', digit_char((h / 10) % 10), digit_char(h % 10)]
}

/// The message for an avatar of `len` bytes that is too large.
pub open spec fn too_large_message(len: nat) -> Seq<char> {
    "File too large. Maximum size: 5 MB, got: "@ + two_decimals(mib_hundredths(len)) + " MB"@
}

/// One decimal digit as a character.
fn digit(d: u64) -> (c: char)
    requires
        d < 10,
    ensures
        c == digit_char(d as nat),
{
    if d == 0 { '0' } else if d == 1 { '1' } else if d == 2 { '2' } else if d == 3 { '3' }
    else if d == 4 { '4' } else if d == 5 { '5' } else if d == 6 { '6' } else if d == 7 { '7' }
    else if d == 8 { '8' } else { '9' }
}

impl AvatarService {
    /// The lowercased extension of the file name, if it is jpg, jpeg, png, gif or webp.
    pub fn validate_extension(filename: &str) -> (r: Result<String, String>)
        ensures
            is_allowed_avatar_extension(lowercase(last_segment(filename@, '.'))) ==>
                r is Ok && r->Ok_0@ == lowercase(last_segment(filename@, '.')),
            !is_allowed_avatar_extension(lowercase(last_segment(filename@, '.'))) ==>
                r is Err && r->Err_0@ == "Unsupported file format. Allowed: jpg, jpeg, png, gif, webp"@,
    {
        let v = chars_of(filename);
        let start = vec_last_segment_start(&v, '.');
        proof { lemma_last_index_of(v@, '.'); }
        let seg = string_from_range(&v, start, v.len());
        let extension = to_lowercase(seg.as_str());
        let e = extension.as_str();
        if str_eq(e, "jpg") || str_eq(e, "jpeg") || str_eq(e, "png") || str_eq(e, "gif")
            || str_eq(e, "webp") {
            Ok(extension)
        } else {
            Err(String::from_str("Unsupported file format. Allowed: jpg, jpeg, png, gif, webp"))
        }
    }

    /// An avatar may be at most 5 MB; the refusal gives the actual size in MB with two decimals.
    pub fn validate_size(data: &[u8]) -> (r: Result<(), String>)
        ensures
            data@.len() <= 5242880 ==> r is Ok,
            data@.len() > 5242880 ==> r is Err && r->Err_0@ == too_large_message(data@.len()),
    {
        let len = data.len();
        if len > 5242880 {
            let scaled: u128 = (len as u128) * 100;
            let q: u128 = scaled / 1048576;
            let rem: u128 = scaled % 1048576;
            let h: u128 = if rem * 2 > 1048576 || (rem * 2 == 1048576 && q % 2 == 1) { q + 1 } else { q };
            assert(h == mib_hundredths(len as nat));
            assert(h <= u64::MAX) by (nonlinear_arith)
                requires h <= q + 1, q == scaled / 1048576, scaled == (len as u128) * 100, len <= usize::MAX;
            let h64 = h as u64;
            let mut m = String::from_str("File too large. Maximum size: 5 MB, got: ");
            let whole = u64_to_string(h64 / 100);
            m.append(whole.as_str());
            push_char(&mut m, '.');
            push_char(&mut m, digit((h64 / 10) % 10));
            push_char(&mut m, digit(h64 % 10));
            m.append(" MB");
            assert(seq!['.', digit_char((h64 as nat / 10) % 10), digit_char(h64 as nat % 10)]
                == seq!['.'].push(digit_char((h64 as nat / 10) % 10)).push(digit_char(h64 as nat % 10)));
            Err(m)
        } else {
            Ok(())
        }
    }
}

/// The avatar formats accepted are exactly those the store serves as images: an extension is
/// allowed when, and only when, its content type is an `image/` type.
pub proof fn law_avatar_formats_are_images(e: Seq<char>)
    ensures
        is_allowed_avatar_extension(e) <==> seq_starts_with(avatar_mime(e), "image/"@),
{
    reveal_strlit("jpg");
    reveal_strlit("jpeg");
    reveal_strlit("png");
    reveal_strlit("gif");
    reveal_strlit("webp");
    reveal_strlit("image/");
    reveal_strlit("image/jpeg");
    reveal_strlit("image/png");
    reveal_strlit("image/gif");
    reveal_strlit("image/webp");
    reveal_strlit("application/octet-stream");
    if !is_allowed_avatar_extension(e) {
        assert("application/octet-stream"@.subrange(0, 6) != "image/"@) by {
            assert("application/octet-stream"@.subrange(0, 6)[0] != "image/"@[0]);
        }
    } else {
        assert("image/jpeg"@.subrange(0, 6) =~= "image/"@);
        assert("image/png"@.subrange(0, 6) =~= "image/"@);
        assert("image/gif"@.subrange(0, 6) =~= "image/"@);
        assert("image/webp"@.subrange(0, 6) =~= "image/"@);
    }
}

} // verus!
