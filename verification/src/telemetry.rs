//! What the telemetry runtime reports, and the checks on its raw answer.

use vstd::prelude::*;
use vstd::utf8::{decode_utf8, valid_utf8};

verus! {

/// One sensor reading. The library carries `value` through unchanged and
/// never inspects it.
#[derive(Clone, Debug)]
pub struct SensorReading<V> {
    pub name: String,
    pub value: V,
    pub unit: String,
}

/// One telemetry snapshot.
#[derive(Clone, Debug)]
pub struct SysInfo<V> {
    pub gpu_name: Option<String>,
    pub core: Option<V>,
    pub hotspot: Option<V>,
    pub vram_temp: Option<V>,
    pub vram_used: Option<V>,
    pub fan: Option<V>,
    pub cpu_temp: Option<V>,
    pub delta: Option<V>,
    pub sensors: Vec<SensorReading<V>>,
    pub perfcap_reason: Option<String>,
    pub error: Option<String>,
}

/// File name of the telemetry runtime library.
pub fn dll_library_path() -> (r: &'static str)
    ensures
        r@ == "gs.dll"@,
{
    "gs.dll"
}

/// Size of the buffer the runtime writes its answer into.
pub const RESPONSE_BUFFER_LEN: usize = 8192;

#[verifier::external_type_specification]
#[verifier::external_body]
pub struct ExUtf8Error(core::str::Utf8Error);

/// Why a raw runtime answer is unusable.
#[derive(Debug)]
pub enum TelemetryError {
    /// The reported length does not fit the buffer.
    DoesNotFit,
    /// No NUL terminates the answer within its reported length.
    MissingNul,
    /// The answer is not UTF-8.
    InvalidUtf8(core::str::Utf8Error),
}

/// `std::str::from_utf8`, owned: succeeds exactly on valid UTF-8, decoding it.
#[verifier::external_body]
fn utf8_text(bytes: &[u8]) -> (r: Result<String, core::str::Utf8Error>)
    ensures
        r is Ok <==> valid_utf8(bytes@),
        r matches Ok(s) ==> s@ == decode_utf8(bytes@),
{
    match core::str::from_utf8(bytes) {
        Ok(text) => Ok(text.to_owned()),
        Err(error) => Err(error),
    }
}

/// Position of the first zero byte of `b`, or `b.len()`.
pub open spec fn first_nul(b: Seq<u8>) -> int
    decreases b.len(),
{
    if b.len() == 0 {
        0
    } else if b[0] == 0 {
        0
    } else {
        1 + first_nul(b.drop_first())
    }
}

/// The text of a runtime answer: `length` must leave room in the buffer,
/// and the text runs up to the first NUL within `buffer[..=length]`.
pub open spec fn answer_bytes(buffer: Seq<u8>, length: int) -> Option<Seq<u8>> {
    if length < 0 || length >= buffer.len() {
        None
    } else {
        let window = buffer.take(length + 1);
        let k = first_nul(window);
        if k < window.len() {
            Some(window.take(k))
        } else {
            None
        }
    }
}

/// Checks the raw answer of the runtime's query function: `length` is what
/// it returned and `buffer` what it wrote.
pub fn telemetry_text(buffer: &[u8], length: i32) -> (r: Result<String, TelemetryError>)
    ensures
        (length < 0 || length >= buffer@.len()) ==> r matches Err(TelemetryError::DoesNotFit),
        0 <= length < buffer@.len() && answer_bytes(buffer@, length as int) is None ==> r matches Err(
            TelemetryError::MissingNul,
        ),
        answer_bytes(buffer@, length as int) matches Some(b) ==> (valid_utf8(b) ==> (r matches Ok(
            t,
        ) && t@ == decode_utf8(b))),
        answer_bytes(buffer@, length as int) matches Some(b) ==> (!valid_utf8(b) ==> r matches Err(
            TelemetryError::InvalidUtf8(_),
        )),
{
    if length < 0 || length as usize >= buffer.len() {
        return Err(TelemetryError::DoesNotFit);
    }
    let end = length as usize;
    let ghost window = buffer@.take(end + 1);
    let mut k: usize = 0;
    assert(window.skip(0) == window);
    while k <= end && buffer[k] != 0
        invariant
            k <= end + 1,
            end < buffer@.len(),
            window == buffer@.take(end + 1),
            first_nul(window) == k + first_nul(window.skip(k as int)),
        decreases end + 1 - k,
    {
        proof {
            assert(window.skip(k as int).drop_first() == window.skip(k + 1));
            assert(window.skip(k as int)[0] == buffer@[k as int]);
        }
        k = k + 1;
    }
    if k > end {
        assert(window.skip(k as int).len() == 0);
        return Err(TelemetryError::MissingNul);
    }
    assert(window.skip(k as int)[0] == 0);
    let mut text: Vec<u8> = Vec::new();
    let mut i: usize = 0;
    while i < k
        invariant
            i <= k,
            k <= end,
            end < buffer@.len(),
            text@ == buffer@.take(i as int),
        decreases k - i,
    {
        text.push(buffer[i]);
        i = i + 1;
        assert(buffer@.take(i as int) == buffer@.take(i - 1).push(buffer@[i - 1]));
    }
    assert(text@ == window.take(k as int));
    match utf8_text(text.as_slice()) {
        Ok(t) => Ok(t),
        Err(e) => Err(TelemetryError::InvalidUtf8(e)),
    }
}

} // verus!
