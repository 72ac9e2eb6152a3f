//! Where a clip's thumbnail is cached, and how it is extracted.
use vstd::prelude::*;
use crate::paths::{join_path, join_spec};
use crate::text::{extend_str, string_from_chars};

verus! {

/// The MD5 digest of `data`, as the md5 crate computes it.
pub uninterp spec fn md5_digest(data: Seq<u8>) -> Seq<u8>;

/// Calls `md5::compute`; the digest's 16 bytes are given a name.
#[verifier::external_body]
fn md5_of(data: &[u8]) -> (r: Vec<u8>)
    ensures
        r@ == md5_digest(data@),
        r@.len() == 16,
{
    md5::compute(data).0.to_vec()
}

/// The lowercase hexadecimal digit for `d < 16`.
pub open spec fn hex_digit(d: int) -> char {
    seq!['0', '1', '2', '3', '4', '5', '6', '7', '8', '9', 'a', 'b', 'c', 'd', 'e', 'f'][d]
}

/// Bytes in lowercase hexadecimal, two digits each, as `{:x}` writes an MD5 digest.
pub open spec fn lower_hex(b: Seq<u8>) -> Seq<char>
    decreases b.len(),
{
    if b.len() == 0 {
        seq![]
    } else {
        lower_hex(b.drop_last()) + seq![hex_digit((b.last() / 16) as int), hex_digit((b.last() % 16) as int)]
    }
}

fn hex_char(d: u8) -> (c: char)
    requires
        d < 16,
    ensures
        c == hex_digit(d as int),
{
    let digits: [char; 16] = ['0', '1', '2', '3', '4', '5', '6', '7', '8', '9', 'a', 'b', 'c', 'd', 'e', 'f'];
    digits[d as usize]
}

/// Writes bytes in lowercase hexadecimal.
pub fn to_lower_hex(b: &Vec<u8>) -> (r: Vec<char>)
    ensures
        r@ == lower_hex(b@),
{
    let mut r: Vec<char> = Vec::new();
    let mut i: usize = 0;
    while i < b.len()
        invariant
            i <= b@.len(),
            r@ == lower_hex(b@.take(i as int)),
        decreases b@.len() - i,
    {
        let x = b[i];
        r.push(hex_char(x / 16));
        r.push(hex_char(x % 16));
        proof {
            let now = b@.take(i + 1);
            assert(now.drop_last() =~= b@.take(i as int));
            assert(now.last() == x);
        }
        i = i + 1;
    }
    assert(b@.take(b@.len() as int) =~= b@);
    r
}

/// The file name of a clip's cached thumbnail: the MD5 digest of the UTF-8
/// bytes of its relative path in hexadecimal, then `.jpg`.
pub open spec fn thumbnail_name(path: Seq<char>) -> Seq<char> {
    lower_hex(md5_digest(vstd::utf8::encode_utf8(path))) + ".jpg"@
}

/// The path of a clip's cached thumbnail inside the cache folder.
pub fn cache_path(cache_dir: &str, clip_path: &str) -> (r: String)
    ensures
        r@ == join_spec(cache_dir@, thumbnail_name(clip_path@)),
{
    let digest = md5_of(clip_path.as_bytes());
    let mut name = to_lower_hex(&digest);
    extend_str(&mut name, ".jpg");
    let name = string_from_chars(name.as_slice());
    join_path(cache_dir, name.as_str())
}

/// The GStreamer pipeline that renders a 320x180 JPEG frame of the video at
/// `uri` into the file `dest`.
pub open spec fn thumbnail_pipeline_spec(uri: Seq<char>, dest: Seq<char>) -> Seq<char> {
    "uridecodebin uri=\""@ + uri
        + "\" ! videoconvert ! videoscale ! video/x-raw,width=320,height=180 ! jpegenc ! filesink location=\""@
        + dest + "\""@
}

/// The GStreamer pipeline description for extracting a thumbnail.
pub fn thumbnail_pipeline(uri: &str, dest: &str) -> (r: String)
    ensures
        r@ == thumbnail_pipeline_spec(uri@, dest@),
{
    let mut out: Vec<char> = Vec::new();
    extend_str(&mut out, "uridecodebin uri=\"");
    extend_str(&mut out, uri);
    extend_str(
        &mut out,
        "\" ! videoconvert ! videoscale ! video/x-raw,width=320,height=180 ! jpegenc ! filesink location=\"",
    );
    extend_str(&mut out, dest);
    extend_str(&mut out, "\"");
    string_from_chars(out.as_slice())
}

/// Where to take the thumbnail frame, in nanoseconds: a tenth into the
/// video, whose duration counts as ten seconds when it is unknown.
pub fn seek_position(duration_ns: Option<u64>) -> (p: u64)
    ensures
        p == match duration_ns {
            Some(d) => d / 10,
            None => 1_000_000_000u64,
        },
{
    match duration_ns {
        Some(d) => d / 10,
        None => 10_000_000_000u64 / 10,
    }
}

} // verus!
