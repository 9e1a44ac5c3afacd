//! The probe client: turns the external tool's structured metadata output
//! into a typed record.
//!
//! The JSON document itself is handled by an outside parser behind trusted
//! wrappers. Each accessor's result is a function of its arguments alone,
//! so it carries a name; the extractor's contract then fixes every field
//! of the returned record from the document through those names, and the
//! rules that read a field's text — a duration as a decimal string, a
//! frame rate as a "num/den" rational, a byte count — are verified
//! against exact statements.

use crate::models::VideoError;
use crate::models::VideoInfo;
use crate::models::VideoResult;
use crate::scenes::is_ws;
use crate::text::all_digits;
use crate::text::digits_val;
use crate::text::find_byte;
use crate::text::find_byte_in;
use crate::text::parse_digits;
use crate::text::parse_ms;
use crate::text::parse_ms_range;
use crate::utils::file_name_of;
use serde_json::Value;
use vstd::prelude::*;
use vstd::string::StringSliceAdditionalSpecFns;
use vstd::utf8::encode_utf8;

verus! {

// ---------------------------------------------------------------------------
// Trusted items: the outside JSON parser
// ---------------------------------------------------------------------------

#[verifier::external_type_specification]
#[verifier::external_body]
pub struct ExValue(serde_json::Value);

#[verifier::external_type_specification]
#[verifier::external_body]
pub struct ExJsonError(serde_json::Error);

/// The document a byte slice parses to, if it is one JSON document.
pub uninterp spec fn json_parsed_of(bytes: Seq<u8>) -> Option<Value>;

/// The value under a key of a JSON map, if the value is a map with it.
pub uninterp spec fn json_field_of(v: Value, key: Seq<char>) -> Option<Value>;

/// The contents of a JSON string, if the value is one.
pub uninterp spec fn json_str_of(v: Value) -> Option<Seq<char>>;

/// A JSON number as an unsigned machine integer, if it is one.
pub uninterp spec fn json_u64_of(v: Value) -> Option<u64>;

/// The elements of a JSON array, if the value is one.
pub uninterp spec fn json_array_of(v: Value) -> Option<Seq<Value>>;

/// Relies on serde_json::from_slice: parses a byte slice as one JSON
/// document; the outcome depends on the bytes alone.
#[verifier::external_body]
fn json_parse(bytes: &[u8]) -> (r: Result<Value, serde_json::Error>)
    ensures
        match r {
            Ok(v) => json_parsed_of(bytes@) == Some(v),
            Err(_) => json_parsed_of(bytes@) is None,
        },
{
    serde_json::from_slice(bytes)
}

/// Relies on serde_json::Value::get with a string key: the value under
/// that key, `None` on non-maps and missing keys; a function of the value
/// and the key alone.
#[verifier::external_body]
fn json_get_field<'a>(v: &'a Value, key: &str) -> (r: Option<&'a Value>)
    ensures
        match r {
            Some(f) => json_field_of(*v, key@) == Some(*f),
            None => json_field_of(*v, key@) is None,
        },
{
    v.get(key)
}

/// Relies on serde_json::Value::as_str: the contents of a JSON string,
/// a function of the value alone.
#[verifier::external_body]
fn json_as_string(v: &Value) -> (r: Option<String>)
    ensures
        match r {
            Some(s) => json_str_of(*v) == Some(s@),
            None => json_str_of(*v) is None,
        },
{
    v.as_str().map(|s| s.to_string())
}

/// Relies on serde_json::Value::as_u64: a JSON number as an unsigned
/// machine integer, a function of the value alone.
#[verifier::external_body]
fn json_as_u64(v: &Value) -> (r: Option<u64>)
    ensures
        r == json_u64_of(*v),
{
    v.as_u64()
}

/// Relies on serde_json::Value::as_array: the elements of a JSON array,
/// a function of the value alone.
#[verifier::external_body]
fn json_as_array(v: &Value) -> (r: Option<Vec<Value>>)
    ensures
        match r {
            Some(a) => json_array_of(*v) == Some(a@),
            None => json_array_of(*v) is None,
        },
{
    v.as_array().cloned()
}

/// Relies on the Display impl of serde_json::Error: its message.
#[verifier::external_body]
fn json_error_text(e: &serde_json::Error) -> (r: String) {
    e.to_string()
}

// ---------------------------------------------------------------------------
// Verified field rules
// ---------------------------------------------------------------------------

/// The milliseconds of a decimal seconds token, or 0 when it does not
/// parse.
pub open spec fn ms_or_zero(b: Seq<u8>) -> u64 {
    match parse_ms(b) {
        Some(v) => v,
        None => 0u64,
    }
}

/// The value of a plain digit string, or 0 when it is empty, holds a
/// non-digit, or does not fit.
pub open spec fn digits_or_zero(b: Seq<u8>) -> u64 {
    if b.len() > 0 && all_digits(b) && digits_val(b) <= u64::MAX {
        digits_val(b) as u64
    } else {
        0u64
    }
}

/// The milliseconds of a decimal seconds string, or 0 when it does not
/// parse; a missing or malformed duration degrades rather than fails.
pub fn parse_ms_or_zero(s: &str) -> (r: u64)
    ensures
        r == ms_or_zero(s.spec_bytes()),
{
    let b = s.as_bytes();
    match crate::text::parse_ms_bytes(b) {
        Some(v) => v,
        None => 0,
    }
}

/// The value of a plain digit string, per `digits_or_zero`.
pub fn parse_u64_or_zero(s: &str) -> (r: u64)
    ensures
        r == digits_or_zero(s.spec_bytes()),
{
    let b = s.as_bytes();
    let n = b.len();
    if n == 0 {
        return 0;
    }
    match parse_digits(b, 0, n) {
        Some(v) => {
            proof {
                assert(b@.subrange(0, n as int) =~= b@);
            }
            v
        }
        None => {
            proof {
                assert(b@.subrange(0, n as int) =~= b@);
            }
            0
        }
    }
}

/// The frame rate, in thousandths of a frame per second, encoded by a
/// "num/den" rational string: 0 unless the string has exactly two parts;
/// an unparseable numerator counts as 0, an unparseable denominator as 1;
/// a zero denominator gives 0; the result saturates.
pub open spec fn fps_milli_spec(s: Seq<u8>) -> u64 {
    match find_byte(s, 47) {
        Some(i) => {
            let den_part = s.skip(i + 1);
            if find_byte(den_part, 47) is Some {
                0u64
            } else {
                let num: nat = match parse_ms(s.take(i)) {
                    Some(v) => v as nat,
                    None => 0,
                };
                let den: nat = match parse_ms(den_part) {
                    Some(v) => v as nat,
                    None => 1000,
                };
                if den == 0 {
                    0u64
                } else if num * 1000 / den > u64::MAX {
                    u64::MAX
                } else {
                    (num * 1000 / den) as u64
                }
            }
        }
        None => 0u64,
    }
}

/// Computes the frame rate of a rational string, per `fps_milli_spec`.
pub fn fps_milli_from_ratio(s: &str) -> (r: u64)
    ensures
        r == fps_milli_spec(s.spec_bytes()),
{
    let b = s.as_bytes();
    let n = b.len();
    let slash = match find_byte_in(b, 0, n, 47) {
        Some(i) => i,
        None => {
            proof {
                assert(b@.subrange(0, n as int) =~= b@);
            }
            return 0;
        }
    };
    proof {
        assert(b@.subrange(0, n as int) =~= b@);
        assert(b@.skip(slash as int + 1) =~= b@.subrange(slash as int + 1, n as int));
        assert(b@.take(slash as int) =~= b@.subrange(0, slash as int));
    }
    if let Some(_) = find_byte_in(b, slash + 1, n, 47) {
        return 0;
    }
    let num: u64 = match parse_ms_range(b, 0, slash) {
        Some(v) => v,
        None => 0,
    };
    let den: u64 = match parse_ms_range(b, slash + 1, n) {
        Some(v) => v,
        None => 1000,
    };
    if den == 0 {
        return 0;
    }
    let q: u128 = (num as u128) * 1000 / (den as u128);
    proof {
        assert((num as u128) * 1000 == (num as nat) * 1000);
    }
    if q > u64::MAX as u128 {
        u64::MAX
    } else {
        q as u64
    }
}

// ---------------------------------------------------------------------------
// Duration probe output
// ---------------------------------------------------------------------------

/// `s` without leading whitespace.
pub open spec fn trim_front(s: Seq<u8>) -> Seq<u8>
    decreases s.len(),
{
    if s.len() > 0 && is_ws(s[0]) {
        trim_front(s.skip(1))
    } else {
        s
    }
}

/// `s` without trailing whitespace.
pub open spec fn trim_back(s: Seq<u8>) -> Seq<u8>
    decreases s.len(),
{
    if s.len() > 0 && is_ws(s.last()) {
        trim_back(s.drop_last())
    } else {
        s
    }
}

/// `s` without leading and trailing whitespace.
pub open spec fn trimmed(s: Seq<u8>) -> Seq<u8> {
    trim_back(trim_front(s))
}

proof fn lemma_trim_front_range(s: Seq<u8>, a: int)
    requires
        0 <= a <= s.len(),
        forall|j: int| 0 <= j < a ==> is_ws(#[trigger] s[j]),
        a == s.len() || !is_ws(s[a]),
    ensures
        trim_front(s) =~= s.subrange(a, s.len() as int),
    decreases a,
{
    if a > 0 {
        lemma_trim_front_range(s.skip(1), a - 1);
        assert(s.skip(1).subrange(a - 1, s.skip(1).len() as int) =~= s.subrange(
            a,
            s.len() as int,
        ));
    } else {
        assert(s.subrange(0, s.len() as int) =~= s);
    }
}

proof fn lemma_trim_back_range(s: Seq<u8>, b: int)
    requires
        0 <= b <= s.len(),
        forall|j: int| b <= j < s.len() ==> is_ws(#[trigger] s[j]),
        b == 0 || !is_ws(s[b - 1]),
    ensures
        trim_back(s) =~= s.subrange(0, b),
    decreases s.len() - b,
{
    if b < s.len() {
        lemma_trim_back_range(s.drop_last(), b);
        assert(s.drop_last().subrange(0, b) =~= s.subrange(0, b));
    } else {
        assert(s.subrange(0, s.len() as int) =~= s);
    }
}

/// Decides the outcome of a duration probe: a failed run is the tool's
/// fault, an unparseable value its output's; otherwise the trimmed output
/// is the duration in decimal seconds.
pub fn duration_from_probe(success: bool, stdout: &[u8]) -> (r: VideoResult<u64>)
    ensures
        match r {
            Ok(ms) => success && parse_ms(trimmed(stdout@)) == Some(ms),
            Err(e) => match e {
                VideoError::FFmpegError(m) => (!success && m@ == "Failed to get video duration"@)
                    || (success && parse_ms(trimmed(stdout@)) is None && m@
                    == "Invalid duration format"@),
                _ => false,
            },
        },
{
    if !success {
        return Err(VideoError::FFmpegError("Failed to get video duration".to_owned()));
    }
    let n = stdout.len();
    let mut a: usize = 0;
    while a < n && crate::scenes::is_ws_byte(stdout[a])
        invariant
            0 <= a <= n,
            n == stdout@.len(),
            forall|j: int| 0 <= j < a ==> is_ws(#[trigger] stdout@[j]),
        decreases n - a,
    {
        a = a + 1;
    }
    let mut b: usize = n;
    while b > a && crate::scenes::is_ws_byte(stdout[b - 1])
        invariant
            a <= b <= n,
            n == stdout@.len(),
            forall|j: int| 0 <= j < a ==> is_ws(#[trigger] stdout@[j]),
            forall|j: int| b <= j < n ==> is_ws(#[trigger] stdout@[j]),
        decreases b,
    {
        b = b - 1;
    }
    proof {
        lemma_trim_front_range(stdout@, a as int);
        let front = stdout@.subrange(a as int, n as int);
        if b == a {
            lemma_trim_back_range(front, 0);
        } else {
            assert(front[b - a - 1] == stdout@[b - 1]);
            assert forall|j: int| b - a <= j < front.len() implies is_ws(#[trigger] front[j]) by {
                assert(front[j] == stdout@[a + j]);
            }
            lemma_trim_back_range(front, b - a);
        }
        assert(trimmed(stdout@) =~= stdout@.subrange(a as int, b as int));
    }
    match parse_ms_range(stdout, a, b) {
        Some(ms) => Ok(ms),
        None => Err(VideoError::FFmpegError("Invalid duration format".to_owned())),
    }
}

// ---------------------------------------------------------------------------
// Metadata extraction
// ---------------------------------------------------------------------------

/// `p` starts `s`.
pub open spec fn has_prefix(s: Seq<char>, p: Seq<char>) -> bool {
    s.len() >= p.len() && s.subrange(0, p.len() as int) == p
}

/// The file name reported for a probed path: its final component, or
/// "unknown" when the path has none.
pub open spec fn probe_filename(path: Seq<char>) -> Seq<char> {
    if file_name_of(path).len() == 0 {
        "unknown"@
    } else {
        file_name_of(path)
    }
}

/// The string under a key of a JSON map, if both are there.
pub open spec fn str_field_of(v: Value, key: Seq<char>) -> Option<Seq<char>> {
    match json_field_of(v, key) {
        Some(f) => json_str_of(f),
        None => None,
    }
}

/// A decimal-seconds string field in milliseconds; absent or malformed
/// degrades to 0.
pub open spec fn ms_field_of(v: Value, key: Seq<char>) -> u64 {
    match str_field_of(v, key) {
        Some(cs) => ms_or_zero(encode_utf8(cs)),
        None => 0u64,
    }
}

/// A digit-string field as an integer; absent or malformed degrades to 0.
pub open spec fn digits_field_of(v: Value, key: Seq<char>) -> u64 {
    match str_field_of(v, key) {
        Some(cs) => digits_or_zero(encode_utf8(cs)),
        None => 0u64,
    }
}

/// The container name of a format block; absent degrades to "unknown".
pub open spec fn format_name_of(f: Value) -> Seq<char> {
    match str_field_of(f, "format_name"@) {
        Some(cs) => cs,
        None => "unknown"@,
    }
}

/// An unsigned number field narrowed to 32 bits; absent or non-numeric
/// degrades to 0.
pub open spec fn u32_field_of(v: Value, key: Seq<char>) -> u32 {
    match json_field_of(v, key) {
        Some(f) => match json_u64_of(f) {
            Some(w) => w as u32,
            None => 0u32,
        },
        None => 0u32,
    }
}

/// The frame rate a stream declares; absent degrades to 0.
pub open spec fn fps_field_of(v: Value) -> u64 {
    match str_field_of(v, "r_frame_rate"@) {
        Some(cs) => fps_milli_spec(encode_utf8(cs)),
        None => 0u64,
    }
}

/// A stream object that declares itself a video stream.
pub open spec fn is_video_stream(st: Value) -> bool {
    match json_field_of(st, "codec_type"@) {
        Some(ct) => json_str_of(ct) == Some("video"@),
        None => false,
    }
}

/// The first stream whose type is "video", if any.
pub open spec fn first_video_stream(ss: Seq<Value>) -> Option<Value>
    decreases ss.len(),
{
    if ss.len() == 0 {
        None
    } else if is_video_stream(ss[0]) {
        Some(ss[0])
    } else {
        first_video_stream(ss.skip(1))
    }
}

/// The document's stream list, if it has one and it is an array.
pub open spec fn doc_streams_of(doc: Value) -> Option<Seq<Value>> {
    match json_field_of(doc, "streams"@) {
        Some(s) => json_array_of(s),
        None => None,
    }
}

/// What a successful extraction returns: the format block supplies
/// duration, size, bit rate and container name, the first video stream
/// width, height and frame rate, each degrading to its default when
/// absent or malformed; path and file name come from the probed path.
pub open spec fn probe_fields_ok(info: VideoInfo, path: Seq<char>, doc: Value) -> bool {
    match json_field_of(doc, "format"@) {
        Some(f) => match doc_streams_of(doc) {
            Some(ss) => match first_video_stream(ss) {
                Some(vs) => {
                    &&& info.path@ == path
                    &&& info.filename@ == probe_filename(path)
                    &&& info.duration_ms == ms_field_of(f, "duration"@)
                    &&& info.size == digits_field_of(f, "size"@)
                    &&& info.bitrate == digits_field_of(f, "bit_rate"@)
                    &&& info.format@ == format_name_of(f)
                    &&& info.width == u32_field_of(vs, "width"@)
                    &&& info.height == u32_field_of(vs, "height"@)
                    &&& info.fps_milli == fps_field_of(vs)
                },
                None => false,
            },
            None => false,
        },
        None => false,
    }
}

/// When and how extraction fails: a missing format block, then a missing
/// or non-array stream list, then the absence of any video stream; other
/// missing fields never fail.
pub open spec fn probe_extract_err(e: VideoError, doc: Value) -> bool {
    match e {
        VideoError::FFmpegError(m) => match json_field_of(doc, "format"@) {
            None => m@ == "No format information"@,
            Some(_) => match doc_streams_of(doc) {
                None => m@ == "No streams information"@,
                Some(ss) => first_video_stream(ss) is None && m@ == "No video stream found"@,
            },
        },
        _ => false,
    }
}

fn file_name_or_unknown(path: &str) -> (r: String)
    ensures
        r@ == probe_filename(path@),
{
    let n = path.unicode_len();
    let name_start = match crate::utils::rfind_char_in(path, '/') {
        Some(i) => i + 1,
        None => 0,
    };
    let name = path.substring_char(name_start, n);
    proof {
        assert(name@ =~= file_name_of(path@));
    }
    if name.unicode_len() == 0 {
        "unknown".to_owned()
    } else {
        name.to_owned()
    }
}

/// Whether a stream object declares itself a video stream.
fn stream_is_video(st: &Value) -> (r: bool)
    ensures
        r == is_video_stream(*st),
{
    match json_get_field(st, "codec_type") {
        Some(ct) => match json_as_string(ct) {
            Some(s) => {
                let video: String = "video".to_owned();
                s == video
            }
            None => false,
        },
        None => false,
    }
}

proof fn lemma_first_video_at(ss: Seq<Value>, k: int)
    requires
        0 <= k < ss.len(),
        is_video_stream(ss[k]),
        forall|j: int| 0 <= j < k ==> !is_video_stream(#[trigger] ss[j]),
    ensures
        first_video_stream(ss) == Some(ss[k]),
    decreases ss.len(),
{
    if k > 0 {
        lemma_first_video_at(ss.skip(1), k - 1);
    }
}

proof fn lemma_first_video_none(ss: Seq<Value>)
    requires
        forall|j: int| 0 <= j < ss.len() ==> !is_video_stream(#[trigger] ss[j]),
    ensures
        first_video_stream(ss) is None,
    decreases ss.len(),
{
    if ss.len() > 0 {
        lemma_first_video_none(ss.skip(1));
    }
}

/// A string field of a JSON map, when present and a string.
fn string_field(v: &Value, key: &str) -> (r: Option<String>)
    ensures
        match r {
            Some(s) => str_field_of(*v, key@) == Some(s@),
            None => str_field_of(*v, key@) is None,
        },
{
    match json_get_field(v, key) {
        Some(f) => json_as_string(f),
        None => None,
    }
}

/// An unsigned field of a JSON map narrowed to 32 bits, defaulting to 0.
fn u32_field(v: &Value, key: &str) -> (r: u32)
    ensures
        r == u32_field_of(*v, key@),
{
    let raw: u64 = match json_get_field(v, key) {
        Some(f) => match json_as_u64(f) {
            Some(n) => n,
            None => 0,
        },
        None => 0,
    };
    #[verifier::truncate]
    let narrowed = raw as u32;
    narrowed
}

/// Extracts the typed metadata record from a parsed probe document: the
/// result is `probe_fields_ok` of the document on success, and fails
/// exactly as `probe_extract_err` says.
pub fn parse_video_info(path: &str, json: &Value) -> (r: VideoResult<VideoInfo>)
    ensures
        match r {
            Ok(info) => probe_fields_ok(info, path@, *json),
            Err(e) => probe_extract_err(e, *json),
        },
{
    let format_v = match json_get_field(json, "format") {
        Some(f) => f,
        None => {
            return Err(VideoError::FFmpegError("No format information".to_owned()));
        }
    };
    let duration_ms = match string_field(format_v, "duration") {
        Some(s) => parse_ms_or_zero(s.as_str()),
        None => 0,
    };
    let size = match string_field(format_v, "size") {
        Some(s) => parse_u64_or_zero(s.as_str()),
        None => 0,
    };
    let bitrate = match string_field(format_v, "bit_rate") {
        Some(s) => parse_u64_or_zero(s.as_str()),
        None => 0,
    };
    let format_name = match string_field(format_v, "format_name") {
        Some(s) => s,
        None => "unknown".to_owned(),
    };
    let streams: Vec<Value> = match json_get_field(json, "streams") {
        Some(s) => match json_as_array(s) {
            Some(v) => v,
            None => {
                return Err(VideoError::FFmpegError("No streams information".to_owned()));
            }
        },
        None => {
            return Err(VideoError::FFmpegError("No streams information".to_owned()));
        }
    };
    let n = streams.len();
    let mut video_at: Option<usize> = None;
    let mut i: usize = 0;
    while i < n
        invariant
            0 <= i <= n,
            n == streams@.len(),
            video_at is None ==> forall|j: int|
                0 <= j < i ==> !is_video_stream(#[trigger] streams@[j]),
            video_at matches Some(k) ==> k < n && first_video_stream(streams@) == Some(
                streams@[k as int],
            ),
        decreases n - i,
    {
        if video_at.is_none() && stream_is_video(&streams[i]) {
            proof {
                lemma_first_video_at(streams@, i as int);
            }
            video_at = Some(i);
        }
        i = i + 1;
    }
    proof {
        if video_at is None {
            lemma_first_video_none(streams@);
        }
    }
    let vs: &Value = match video_at {
        Some(k) => &streams[k],
        None => {
            return Err(VideoError::FFmpegError("No video stream found".to_owned()));
        }
    };
    let width = u32_field(vs, "width");
    let height = u32_field(vs, "height");
    let fps_milli = match string_field(vs, "r_frame_rate") {
        Some(s) => fps_milli_from_ratio(s.as_str()),
        None => 0,
    };
    let filename = file_name_or_unknown(path);
    Ok(
        VideoInfo {
            path: path.to_owned(),
            filename,
            duration_ms,
            width,
            height,
            fps_milli,
            bitrate,
            format: format_name,
            size,
        },
    )
}

/// Decides the outcome of a metadata probe run: a failed run carries the
/// tool's diagnostic; given a successful run, the result is the parse
/// failure exactly when the bytes are not one JSON document, and
/// otherwise the extractor's verdict on the parsed document.
pub fn parse_probe_output(path: &str, success: bool, stdout: &[u8], stderr: &str) -> (r: VideoResult<
    VideoInfo,
>)
    ensures
        match r {
            Ok(info) => success && (json_parsed_of(stdout@) matches Some(doc) && probe_fields_ok(
                info,
                path@,
                doc,
            )),
            Err(e) => if success {
                match json_parsed_of(stdout@) {
                    Some(doc) => probe_extract_err(e, doc),
                    None => e matches VideoError::FFmpegError(m) && has_prefix(
                        m@,
                        "Failed to parse ffprobe output: "@,
                    ),
                }
            } else {
                e matches VideoError::FFmpegError(m) && m@ == "ffprobe failed: "@ + stderr@
            },
        },
{
    if !success {
        let mut m: String = "ffprobe failed: ".to_owned();
        m.append(stderr);
        proof {
            assert(m@ =~= "ffprobe failed: "@ + stderr@);
        }
        return Err(VideoError::FFmpegError(m));
    }
    let json = match json_parse(stdout) {
        Ok(v) => v,
        Err(e) => {
            let mut m: String = "Failed to parse ffprobe output: ".to_owned();
            let t = json_error_text(&e);
            m.append(t.as_str());
            proof {
                assert(m@.subrange(0, "Failed to parse ffprobe output: "@.len() as int)
                    =~= "Failed to parse ffprobe output: "@);
            }
            return Err(VideoError::FFmpegError(m));
        }
    };
    parse_video_info(path, &json)
}

/// The probe and scene-detection client: holds the resolved paths of the
/// external tool's two binaries. The defaults rely on the system path;
/// a host may inject discovered locations instead.
pub struct VideoProcessor {
    pub ffmpeg_path: String,
    pub ffprobe_path: String,
}

impl VideoProcessor {
    /// A processor on the default tool names.
    pub fn new() -> (r: VideoProcessor)
        ensures
            r.ffmpeg_path@ == "ffmpeg"@,
            r.ffprobe_path@ == "ffprobe"@,
    {
        VideoProcessor { ffmpeg_path: "ffmpeg".to_owned(), ffprobe_path: "ffprobe".to_owned() }
    }

    /// A processor on resolved tool locations.
    pub fn with_paths(ffmpeg_path: String, ffprobe_path: String) -> (r: VideoProcessor)
        ensures
            r.ffmpeg_path@ == ffmpeg_path@,
            r.ffprobe_path@ == ffprobe_path@,
    {
        VideoProcessor { ffmpeg_path, ffprobe_path }
    }
}

} // verus!
