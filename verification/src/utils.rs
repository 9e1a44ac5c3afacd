//! Path validation and human-readable formatting.
//!
//! The filesystem itself is out of the engine's hands: the caller observes
//! whether a path exists and is a regular file, and the engine decides
//! acceptance from those observations and the path's extension.

use crate::models::SystemRequirements;
use crate::models::VideoError;
use crate::models::VideoResult;
use crate::text::dec_str;
use crate::text::digit_char;
use crate::text::pad2_str;
use crate::text::u64_to_pad2;
use crate::text::u64_to_string;
use vstd::prelude::*;

verus! {

// ---------------------------------------------------------------------------
// Paths: file name, extension, supported formats
// ---------------------------------------------------------------------------

/// The last index of `c` in `s`, if any.
pub open spec fn rfind_char(s: Seq<char>, c: char) -> Option<int>
    decreases s.len(),
{
    if s.len() == 0 {
        None
    } else if s.last() == c {
        Some(s.len() - 1)
    } else {
        rfind_char(s.drop_last(), c)
    }
}

/// The path's final component: everything after the last separator.
pub open spec fn file_name_of(path: Seq<char>) -> Seq<char> {
    match rfind_char(path, '/') {
        Some(i) => {
            if 0 <= i < path.len() {
                path.skip(i + 1)
            } else {
                path
            }
        }
        None => path,
    }
}

/// The extension of the path's final component: everything after its last
/// dot, empty when there is no dot or the component only starts with one.
pub open spec fn extension_of(path: Seq<char>) -> Seq<char> {
    let name = file_name_of(path);
    match rfind_char(name, '.') {
        Some(i) => {
            if 0 < i < name.len() {
                name.skip(i + 1)
            } else {
                Seq::empty()
            }
        }
        None => Seq::empty(),
    }
}

/// The code point of `c` with an ASCII capital folded to lower case.
pub open spec fn lower_code(c: char) -> int {
    if 65 <= c as int && c as int <= 90 {
        c as int + 32
    } else {
        c as int
    }
}

/// `s` equals `lit` after ASCII lower-casing of `s`.
pub open spec fn matches_lower(s: Seq<char>, lit: Seq<char>) -> bool {
    s.len() == lit.len() && forall|i: int|
        0 <= i < s.len() ==> lower_code(s[i]) == (#[trigger] lit[i]) as int
}

/// The fixed allow-list of container extensions, compared case-blind.
pub open spec fn is_supported_format(ext: Seq<char>) -> bool {
    ||| matches_lower(ext, "mp4"@)
    ||| matches_lower(ext, "avi"@)
    ||| matches_lower(ext, "mov"@)
    ||| matches_lower(ext, "mkv"@)
    ||| matches_lower(ext, "wmv"@)
    ||| matches_lower(ext, "flv"@)
    ||| matches_lower(ext, "webm"@)
}

proof fn lemma_rfind_char_at(s: Seq<char>, c: char, i: int)
    requires
        0 <= i < s.len(),
        s[i] == c,
        forall|j: int| i < j < s.len() ==> s[j] != c,
    ensures
        rfind_char(s, c) == Some(i),
    decreases s.len(),
{
    if i < s.len() - 1 {
        assert(s.last() != c);
        lemma_rfind_char_at(s.drop_last(), c, i);
    }
}

proof fn lemma_rfind_char_none(s: Seq<char>, c: char)
    requires
        forall|j: int| 0 <= j < s.len() ==> s[j] != c,
    ensures
        rfind_char(s, c) is None,
    decreases s.len(),
{
    if s.len() > 0 {
        lemma_rfind_char_none(s.drop_last(), c);
    }
}

/// The last occurrence of `c` in `s`.
pub fn rfind_char_in(s: &str, c: char) -> (r: Option<usize>)
    ensures
        match r {
            Some(i) => i < s@.len() && rfind_char(s@, c) == Some(i as int),
            None => rfind_char(s@, c) is None,
        },
{
    let n = s.unicode_len();
    let mut i = n;
    while i > 0
        invariant
            i <= n,
            n == s@.len(),
            forall|j: int| i <= j < n ==> s@[j] != c,
        decreases i,
    {
        let ch = s.get_char(i - 1);
        if ch == c {
            proof {
                lemma_rfind_char_at(s@, c, i - 1);
            }
            return Some(i - 1);
        }
        i = i - 1;
    }
    proof {
        lemma_rfind_char_none(s@, c);
    }
    None
}

/// Whether `s` lower-cases to `lit` (an ASCII-lower-case literal).
fn eq_lower_exec(s: &str, lit: &str) -> (r: bool)
    ensures
        r == matches_lower(s@, lit@),
{
    let n = s.unicode_len();
    let m = lit.unicode_len();
    if n != m {
        return false;
    }
    let mut i: usize = 0;
    while i < n
        invariant
            0 <= i <= n,
            n == s@.len(),
            n == lit@.len(),
            forall|j: int| 0 <= j < i ==> lower_code(s@[j]) == (#[trigger] lit@[j]) as int,
        decreases n - i,
    {
        let a = s.get_char(i);
        let b = lit.get_char(i);
        let code = a as u32;
        let lc: u32 = if 65 <= code && code <= 90 {
            code + 32
        } else {
            code
        };
        if lc != b as u32 {
            proof {
                assert(lower_code(s@[i as int]) != lit@[i as int] as int);
            }
            return false;
        }
        i = i + 1;
    }
    true
}

/// The extension of a path, per `extension_of`.
pub fn extension_str(path: &str) -> (r: String)
    ensures
        r@ == extension_of(path@),
{
    let n = path.unicode_len();
    let name_start = match rfind_char_in(path, '/') {
        Some(i) => i + 1,
        None => 0,
    };
    let name = path.substring_char(name_start, n);
    proof {
        assert(name@ =~= file_name_of(path@));
    }
    let name_len = name.unicode_len();
    match rfind_char_in(name, '.') {
        Some(i) => {
            if i > 0 {
                let ext = name.substring_char(i + 1, name_len);
                proof {
                    assert(ext@ =~= extension_of(path@));
                }
                ext.to_owned()
            } else {
                proof {
                    assert(Seq::<char>::empty() =~= extension_of(path@));
                }
                String::new()
            }
        }
        None => {
            proof {
                assert(Seq::<char>::empty() =~= extension_of(path@));
            }
            String::new()
        }
    }
}

/// Whether the extension is on the allow-list, compared case-blind.
pub fn is_supported_format_exec(ext: &str) -> (r: bool)
    ensures
        r == is_supported_format(ext@),
{
    eq_lower_exec(ext, "mp4") || eq_lower_exec(ext, "avi") || eq_lower_exec(ext, "mov")
        || eq_lower_exec(ext, "mkv") || eq_lower_exec(ext, "wmv") || eq_lower_exec(ext, "flv")
        || eq_lower_exec(ext, "webm")
}

/// Decides whether a source file may enter planning. The caller reports
/// whether the path exists and is a regular file; the extension must then
/// be on the allow-list. Errors come in the order the checks run: a
/// missing path, then a non-file, then an unsupported extension.
pub fn validate_video_file(path: &str, exists: bool, is_file: bool) -> (r: VideoResult<()>)
    ensures
        match r {
            Ok(_) => exists && is_file && is_supported_format(extension_of(path@)),
            Err(e) => match e {
                VideoError::FileNotFound(m) => !exists && m@ == path@,
                VideoError::InvalidFormat(m) => exists && ((!is_file && m@ == "Not a file"@) || (
                is_file && !is_supported_format(extension_of(path@)) && m@
                    == "Unsupported format: "@ + extension_of(path@))),
                _ => false,
            },
        },
{
    if !exists {
        return Err(VideoError::FileNotFound(path.to_owned()));
    }
    if !is_file {
        return Err(VideoError::InvalidFormat("Not a file".to_owned()));
    }
    let ext = extension_str(path);
    if is_supported_format_exec(ext.as_str()) {
        Ok(())
    } else {
        let mut m: String = "Unsupported format: ".to_owned();
        m.append(ext.as_str());
        Err(VideoError::InvalidFormat(m))
    }
}

// ---------------------------------------------------------------------------
// Human-readable formatting
// ---------------------------------------------------------------------------

/// A duration in whole seconds as "MM:SS", or "HH:MM:SS" from one hour up,
/// every part zero-padded to two digits.
pub open spec fn duration_str(total_seconds: nat) -> Seq<char> {
    let h = total_seconds / 3600;
    let m = (total_seconds % 3600) / 60;
    let s = total_seconds % 60;
    if h > 0 {
        pad2_str(h) + seq![':'] + pad2_str(m) + seq![':'] + pad2_str(s)
    } else {
        pad2_str(m) + seq![':'] + pad2_str(s)
    }
}

/// Formats a duration in whole seconds, per `duration_str`.
pub fn format_duration(total_seconds: u64) -> (r: String)
    ensures
        r@ == duration_str(total_seconds as nat),
{
    let h = total_seconds / 3600;
    let m = (total_seconds % 3600) / 60;
    let s = total_seconds % 60;
    proof {
        reveal_strlit(":");
    }
    let mut out: String;
    if h > 0 {
        out = u64_to_pad2(h);
        out.append(":");
        let mm = u64_to_pad2(m);
        out.append(mm.as_str());
    } else {
        out = u64_to_pad2(m);
    }
    out.append(":");
    let ss = u64_to_pad2(s);
    out.append(ss.as_str());
    proof {
        assert(out@ =~= duration_str(total_seconds as nat));
    }
    out
}

/// Which power of 1024 a byte count is reported in: 0 for bytes up to 4
/// for terabytes, the largest unit the count reaches.
pub open spec fn size_bucket(bytes: nat) -> nat {
    if bytes >= 0x10000000000 {
        4
    } else if bytes >= 0x40000000 {
        3
    } else if bytes >= 0x100000 {
        2
    } else if bytes >= 1024 {
        1
    } else {
        0
    }
}

/// The divisor of a size bucket.
pub open spec fn bucket_div(k: nat) -> nat {
    if k == 0 {
        1
    } else if k == 1 {
        1024
    } else if k == 2 {
        0x100000
    } else if k == 3 {
        0x40000000
    } else {
        0x10000000000
    }
}

/// The unit label of a size bucket.
pub open spec fn unit_chars(k: nat) -> Seq<char> {
    if k == 0 {
        seq!['B']
    } else if k == 1 {
        seq!['K', 'B']
    } else if k == 2 {
        seq!['M', 'B']
    } else if k == 3 {
        seq!['G', 'B']
    } else {
        seq!['T', 'B']
    }
}

/// The scaled value in tenths of a unit, rounded to the nearest tenth
/// with ties going to the even tenth, as decimal formatting rounds.
pub open spec fn size_tenths(bytes: nat, div: nat) -> nat
    recommends
        div > 0,
{
    let q = (bytes * 10) / div;
    let r = (bytes * 10) % div;
    if 2 * r > div {
        q + 1
    } else if 2 * r < div {
        q
    } else if q % 2 == 0 {
        q
    } else {
        q + 1
    }
}

/// A byte count in its largest reached unit with one decimal digit,
/// rounded to the nearest tenth, ties to even: "1.5 MB".
pub open spec fn file_size_str(bytes: nat) -> Seq<char> {
    let k = size_bucket(bytes);
    let tenths = size_tenths(bytes, bucket_div(k));
    dec_str(tenths / 10) + seq!['.', digit_char(tenths % 10), ' '] + unit_chars(k)
}

/// Formats a byte count, per `file_size_str`.
pub fn format_file_size(bytes: u64) -> (r: String)
    ensures
        r@ == file_size_str(bytes as nat),
{
    let (div, unit): (u64, &'static str) = if bytes >= 0x10000000000 {
        (0x10000000000, "TB")
    } else if bytes >= 0x40000000 {
        (0x40000000, "GB")
    } else if bytes >= 0x100000 {
        (0x100000, "MB")
    } else if bytes >= 1024 {
        (1024, "KB")
    } else {
        (1, "B")
    };
    let wide: u128 = (bytes as u128) * 10;
    let q_wide: u128 = wide / (div as u128);
    let r_wide: u128 = wide % (div as u128);
    proof {
        assert(q_wide < 0x10000000000) by (nonlinear_arith)
            requires
                q_wide == wide / (div as u128),
                wide < 0x10000000000 * (div as u128),
                div >= 1,
        ;
    }
    let tenths_wide: u128 = if 2 * r_wide > div as u128 {
        q_wide + 1
    } else if 2 * r_wide < div as u128 {
        q_wide
    } else if q_wide % 2 == 0 {
        q_wide
    } else {
        q_wide + 1
    };
    let tenths = tenths_wide as u64;
    let mut out = u64_to_string(tenths / 10);
    proof {
        reveal_strlit(".");
        reveal_strlit(" ");
        reveal_strlit("B");
        reveal_strlit("KB");
        reveal_strlit("MB");
        reveal_strlit("GB");
        reveal_strlit("TB");
    }
    out.append(".");
    let d = crate::text::u64_to_string(tenths % 10);
    out.append(d.as_str());
    out.append(" ");
    out.append(unit);
    proof {
        assert(tenths == size_tenths(bytes as nat, bucket_div(size_bucket(bytes as nat))));
        assert(dec_str((tenths % 10) as nat) =~= seq![digit_char((tenths % 10) as nat)]);
        assert(out@ =~= file_size_str(bytes as nat));
    }
    out
}

/// What the engine asks of the host: the external tool on the path, and
/// recommended memory and free disk space of 4 and 10 binary gigabytes.
pub fn check_system_requirements(ffmpeg_available: bool) -> (r: SystemRequirements)
    ensures
        r == (SystemRequirements {
            ffmpeg_available,
            recommended_memory: 0x100000000u64,
            recommended_disk_space: 0x280000000u64,
        }),
{
    SystemRequirements {
        ffmpeg_available,
        recommended_memory: 4 * 1024 * 1024 * 1024,
        recommended_disk_space: 10 * 1024 * 1024 * 1024,
    }
}

} // verus!
