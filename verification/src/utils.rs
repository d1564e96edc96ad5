//! Small helpers on file names and sizes.

pub mod thumbnail;

use vstd::prelude::*;
use crate::text::{
    chars_of, decimal, decimal_chars, div_half_even, find_last, fixed2, fixed2_chars, last_index,
    lowercase, rounded_div, str_eq, string_of, to_lowercase,
};

verus! {

/// The index of the last `.` in `s`, or -1 where it has none.
pub open spec fn last_dot(s: Seq<char>) -> int {
    last_index(s, '.')
}

/// What stands behind the last `.` of `s`; all of `s` where it has none.
pub open spec fn after_last_dot(s: Seq<char>) -> Seq<char> {
    s.subrange(last_dot(s) + 1, s.len() as int)
}

/// The lower-cased extension of a path, `None` for a path without a dot.
pub open spec fn extension_of(path: Seq<char>) -> Option<Seq<char>> {
    if last_dot(path) < 0 {
        None
    } else {
        Some(lowercase(after_last_dot(path)))
    }
}

/// The extensions of the video formats that the scanner collects.
pub open spec fn is_video_extension(ext: Seq<char>) -> bool {
    ext == "mp4"@ || ext == "avi"@ || ext == "mov"@ || ext == "mkv"@ || ext == "wmv"@ || ext
        == "flv"@ || ext == "webm"@
}

/// The extensions of the image formats that the scanner collects.
pub open spec fn is_image_extension(ext: Seq<char>) -> bool {
    ext == "jpg"@ || ext == "jpeg"@ || ext == "png"@ || ext == "gif"@ || ext == "bmp"@ || ext
        == "webp"@ || ext == "tiff"@ || ext == "heic"@ || ext == "heif"@
}

/// The part of a name behind its last dot, lower-cased; the whole name
/// lower-cased where it has no dot.
pub fn lowercase_suffix(name: &str) -> (r: String)
    ensures
        r@ == lowercase(after_last_dot(name@)),
{
    let v = chars_of(name);
    let dot = find_last(v.as_slice(), '.');
    let from: usize = if dot < v.len() {
        dot + 1
    } else {
        0
    };
    let tail = string_of(vstd::slice::slice_subrange(v.as_slice(), from, v.len()));
    to_lowercase(tail.as_str())
}

/// Parse file extension from path: the lower-cased text behind the last dot,
/// `None` where the path holds no dot.
pub fn get_file_extension(path: &str) -> (r: Option<String>)
    ensures
        match r {
            Some(e) => extension_of(path@) == Some(e@),
            None => extension_of(path@) is None,
        },
{
    let v = chars_of(path);
    let dot = find_last(v.as_slice(), '.');
    if dot == v.len() {
        return None;
    }
    Some(lowercase_suffix(path))
}

/// Whether `ext` is one of the video extensions.
pub fn video_extension(ext: &str) -> (r: bool)
    ensures
        r == is_video_extension(ext@),
{
    str_eq(ext, "mp4") || str_eq(ext, "avi") || str_eq(ext, "mov") || str_eq(ext, "mkv")
        || str_eq(ext, "wmv") || str_eq(ext, "flv") || str_eq(ext, "webm")
}

/// Whether `ext` is one of the image extensions.
pub fn image_extension(ext: &str) -> (r: bool)
    ensures
        r == is_image_extension(ext@),
{
    str_eq(ext, "jpg") || str_eq(ext, "jpeg") || str_eq(ext, "png") || str_eq(ext, "gif")
        || str_eq(ext, "bmp") || str_eq(ext, "webp") || str_eq(ext, "tiff") || str_eq(
        ext,
        "heic",
    ) || str_eq(ext, "heif")
}

/// Check if file is a video based on extension.
pub fn is_video_file(path: &str) -> (r: bool)
    ensures
        r == match extension_of(path@) {
            Some(e) => is_video_extension(e),
            None => false,
        },
{
    match get_file_extension(path) {
        Some(ext) => video_extension(ext.as_str()),
        None => false,
    }
}

/// Check if file is an image based on extension.
pub fn is_image_file(path: &str) -> (r: bool)
    ensures
        r == match extension_of(path@) {
            Some(e) => is_image_extension(e),
            None => false,
        },
{
    match get_file_extension(path) {
        Some(ext) => image_extension(ext.as_str()),
        None => false,
    }
}

/// Bytes in a kibibyte.
pub const KB: u64 = 1024;

/// Bytes in a mebibyte.
pub const MB: u64 = 1048576;

/// Bytes in a gibibyte.
pub const GB: u64 = 1073741824;

/// The first whole number that a double-precision mantissa cannot hold in
/// every case: two to the 53rd.
pub const MANTISSA_LIMIT: u64 = 9007199254740992;

/// The spacing of double-precision numbers around `n`: the least power of two
/// `s` with `n / s` below two to the 53rd.
pub open spec fn mantissa_step(n: nat) -> nat
    decreases n,
{
    if n < MANTISSA_LIMIT {
        1
    } else {
        2 * mantissa_step(n / 2)
    }
}

/// `n` as a double-precision number holds it: rounded to 53 significant
/// bits, a tie going to the even mantissa.
pub open spec fn as_double(n: nat) -> nat {
    div_half_even(n, mantissa_step(n)) * mantissa_step(n)
}

/// A size in `unit`s, in hundredths, rounded half to even from the
/// double-precision value of `size`.
pub open spec fn size_hundredths(size: nat, unit: nat) -> nat {
    div_half_even(as_double(size) * 100, unit)
}

/// The text of a file size: bytes below a kibibyte, else two decimals in the
/// largest of KB, MB and GB that the size reaches.
pub open spec fn file_size_text(size: nat) -> Seq<char> {
    if size >= GB {
        fixed2(size_hundredths(size, GB as nat)) + seq![' ', 'G', 'B']
    } else if size >= MB {
        fixed2(size_hundredths(size, MB as nat)) + seq![' ', 'M', 'B']
    } else if size >= KB {
        fixed2(size_hundredths(size, KB as nat)) + seq![' ', 'K', 'B']
    } else {
        decimal(size) + seq![' ', 'B']
    }
}

/// [`as_double`] on machine integers.
pub fn double_of(n: u64) -> (r: u128)
    ensures
        r == as_double(n as nat),
        r <= 2 * (n as nat),
{
    let mut step: u64 = 1;
    let mut q: u64 = n;
    while q >= MANTISSA_LIMIT
        invariant
            1 <= step <= 4096,
            q == n / step,
            step > 1 ==> q >= 1,
            mantissa_step(n as nat) == step * mantissa_step(q as nat),
            step * q <= n,
        decreases q,
    {
        proof {
            vstd::arithmetic::div_mod::lemma_div_denominator(n as int, step as int, 2);
            assert(step <= 2047) by (nonlinear_arith)
                requires
                    q >= 9007199254740992,
                    step * q <= n,
                    n <= 18446744073709551615,
                    step >= 1,
            ;
            assert((step * 2) * (q / 2) <= n) by (nonlinear_arith)
                requires
                    step * q <= n,
                    step >= 1,
                    q >= 0,
            ;
            assert(step * (2 * mantissa_step((q / 2) as nat)) == (step * 2) * mantissa_step(
                (q / 2) as nat,
            )) by (nonlinear_arith);
        }
        q = q / 2;
        step = step * 2;
    }
    assert(mantissa_step(q as nat) == 1);
    assert(mantissa_step(n as nat) == step) by (nonlinear_arith)
        requires
            mantissa_step(n as nat) == step * mantissa_step(q as nat),
            mantissa_step(q as nat) == 1,
    ;
    let m = rounded_div(n as u128, step as u128);
    assert(m <= q + 1);
    assert(step == 1 ==> m == n) by {
        if step == 1 {
            assert(n as nat % 1 == 0);
        }
    }
    assert(m * step <= 2 * n) by (nonlinear_arith)
        requires
            m <= q + 1,
            step * q <= n,
            step >= 1,
            step > 1 ==> q >= 1,
            step == 1 ==> m == n,
    ;
    m * (step as u128)
}

/// General utility: a file size for display, such as `2.00 KB`.
pub fn format_file_size(size_bytes: u64) -> (r: String)
    ensures
        r@ == file_size_text(size_bytes as nat),
{
    if size_bytes < KB {
        let mut out = decimal_chars(size_bytes as u128);
        out.push(' ');
        out.push('B');
        assert(out@ == decimal(size_bytes as nat) + seq![' ', 'B']);
        return string_of(out.as_slice());
    }
    let unit: u64 = if size_bytes >= GB {
        GB
    } else if size_bytes >= MB {
        MB
    } else {
        KB
    };
    let letter: char = if size_bytes >= GB {
        'G'
    } else if size_bytes >= MB {
        'M'
    } else {
        'K'
    };
    let m = double_of(size_bytes);
    let h = rounded_div(m * 100, unit as u128);
    let mut out = fixed2_chars(h);
    let ghost number = out@;
    out.push(' ');
    out.push(letter);
    out.push('B');
    assert(out@ == number + seq![' ', letter, 'B']);
    string_of(out.as_slice())
}

} // verus!
