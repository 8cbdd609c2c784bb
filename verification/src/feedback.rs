//! The consent-based feedback report: what is checked before a report is
//! sent, how its fields are bounded, and how the server's answer is read.

use vstd::prelude::*;
use crate::gui_i18n::Language;
use crate::telemetry::SensorReading;
use crate::text::{str_opt_view, string_opt_view, chars_of, contains, contains_chars, slice_chars, string_of, trim, trim_chars};

verus! {

/// Largest report body the server accepts, in bytes.
pub const MAX_PAYLOAD: usize = 262144;

/// Longest accepted contact address, in bytes.
pub const MAX_CONTACT_BYTES: usize = 254;

/// At most this many sensors are reported.
pub const MAX_REPORTED_SENSORS: usize = 128;

pub const MAX_SENSOR_NAME_CHARS: usize = 128;

pub const MAX_SENSOR_UNIT_CHARS: usize = 24;

pub const MAX_GPU_NAME_CHARS: usize = 256;

pub const MAX_PROVIDER_ERROR_CHARS: usize = 2048;

pub const MAX_MESSAGE_CHARS: usize = 16384;

#[derive(Debug)]
pub enum SubmitError {
    InvalidPayload(String),
    PayloadTooLarge,
    RateLimited,
    Server,
    Network(String),
}

/// The server's confirmation of an accepted report.
pub struct AcceptedResponse {
    pub report_id: String,
    pub status: String,
}

/// The state of the feedback form's status line.
#[derive(Clone, Debug)]
pub enum FeedbackStatus {
    Empty,
    Required,
    Sending,
    Accepted(String),
    Rejected(String),
    PayloadTooLarge,
    RateLimited,
    Server,
    Network(String),
}

/// What the server's HTTP status says about a report.
#[derive(Clone, Copy, Debug, PartialEq, Eq, Structural)]
pub enum ResponseKind {
    /// 201: the body carries the confirmation.
    Created,
    /// 400: the report was rejected as invalid.
    Rejected,
    /// 413
    TooLarge,
    /// 429
    RateLimited,
    /// 500 to 599
    ServerError,
    /// Any other status.
    Unexpected,
}

/// One sensor as it goes into a report.
pub struct ReportedSensor<V> {
    pub name: String,
    pub value: V,
    pub unit: String,
}

/// The fields of a report, bounded as the endpoint's contract asks.
pub struct FeedbackReport<V> {
    pub locale: String,
    pub gpu_name: Option<String>,
    pub provider_error: Option<String>,
    pub sensors: Vec<ReportedSensor<V>>,
    pub message: String,
    pub contact: Option<String>,
}

// ---------------------------------------------------------------------------
// Model
// ---------------------------------------------------------------------------

/// The first `max` characters of `s`.
pub open spec fn clip(s: Seq<char>, max: nat) -> Seq<char> {
    if s.len() <= max {
        s
    } else {
        s.take(max as int)
    }
}

/// `clip` applied to an optional text.
pub open spec fn clip_opt(s: Option<Seq<char>>, max: nat) -> Option<Seq<char>> {
    match s {
        Some(t) => Some(clip(t, max)),
        None => None,
    }
}

/// Number of bytes UTF-8 uses for `c`.
pub open spec fn utf8_width(c: char) -> nat {
    if (c as u32) < 0x80 {
        1
    } else if (c as u32) < 0x800 {
        2
    } else if (c as u32) < 0x10000 {
        3
    } else {
        4
    }
}

/// Length in bytes of the UTF-8 encoding of `s` (`str::len`).
pub open spec fn utf8_len(s: Seq<char>) -> nat
    decreases s.len(),
{
    if s.len() == 0 {
        0
    } else {
        utf8_len(s.drop_last()) + utf8_width(s.last())
    }
}

/// The trimmed contact, when one was given and is not blank.
pub open spec fn contact_of(contact: Option<Seq<char>>) -> Option<Seq<char>> {
    match contact {
        Some(c) => if trim(c).len() > 0 {
            Some(trim(c))
        } else {
            None
        },
        None => None,
    }
}

/// Whether a request may be sent: consent is given, the message is not
/// blank, and a contact, if any, looks like an address of at most 254 bytes.
pub open spec fn request_accepted(message: Seq<char>, contact: Option<Seq<char>>, consent: bool) -> bool {
    &&& consent
    &&& trim(message).len() > 0
    &&& match contact_of(contact) {
        Some(c) => utf8_len(c) <= MAX_CONTACT_BYTES && contains(c, "@"@),
        None => true,
    }
}

pub open spec fn response_kind(status: u32) -> ResponseKind {
    if status == 201 {
        ResponseKind::Created
    } else if status == 400 {
        ResponseKind::Rejected
    } else if status == 413 {
        ResponseKind::TooLarge
    } else if status == 429 {
        ResponseKind::RateLimited
    } else if 500 <= status <= 599 {
        ResponseKind::ServerError
    } else {
        ResponseKind::Unexpected
    }
}

/// The text of a feedback status line.
pub open spec fn status_text(status: FeedbackStatus, language: Language) -> Seq<char> {
    match (status, language) {
        (FeedbackStatus::Empty, _) => Seq::empty(),
        (FeedbackStatus::Required, Language::Russian) => "Введите сообщение и подтвердите согласие на отправку."@,
        (FeedbackStatus::Required, Language::English) => "Enter a message and confirm consent to send it."@,
        (FeedbackStatus::Sending, Language::Russian) => "Отправка…"@,
        (FeedbackStatus::Sending, Language::English) => "Sending…"@,
        (FeedbackStatus::Accepted(id), Language::Russian) => "Отчёт принят. Номер: "@ + id@,
        (FeedbackStatus::Accepted(id), Language::English) => "Report accepted. ID: "@ + id@,
        (FeedbackStatus::Rejected(d), Language::Russian) => "Отчёт отклонён: "@ + d@,
        (FeedbackStatus::Rejected(d), Language::English) => "Report rejected: "@ + d@,
        (FeedbackStatus::PayloadTooLarge, Language::Russian) => "Отчёт превышает 256 КБ (413)."@,
        (FeedbackStatus::PayloadTooLarge, Language::English) => "The report exceeds 256 KB (413)."@,
        (FeedbackStatus::RateLimited, Language::Russian) => "Лимит исчерпан. Попробуйте позднее (429)."@,
        (FeedbackStatus::RateLimited, Language::English) => "Rate limit reached. Try again later (429)."@,
        (FeedbackStatus::Server, Language::Russian) => "Временная ошибка сервера. Попробуйте позднее."@,
        (FeedbackStatus::Server, Language::English) => "Temporary server error. Try again later."@,
        (FeedbackStatus::Network(e), Language::Russian) => "Ошибка сети: "@ + e@,
        (FeedbackStatus::Network(e), Language::English) => "Network error: "@ + e@,
    }
}

// ---------------------------------------------------------------------------
// Implementation
// ---------------------------------------------------------------------------

fn message_of(text: &str) -> (r: String)
    ensures
        r@ == text@,
{
    String::from_str(text)
}

fn prefixed(prefix: &str, detail: &str) -> (r: String)
    ensures
        r@ == prefix@ + detail@,
{
    let mut r = String::from_str(prefix);
    r.append(detail);
    r
}

/// The first `max_chars` characters of `value`.
pub fn clipped(value: &str, max_chars: usize) -> (r: String)
    ensures
        r@ == clip(value@, max_chars as nat),
{
    let chars = chars_of(value);
    let end = if chars.len() <= max_chars {
        chars.len()
    } else {
        max_chars
    };
    let kept = slice_chars(&chars, 0, end);
    assert(chars@.subrange(0, end as int) == clip(value@, max_chars as nat));
    string_of(&kept)
}

/// Whether the UTF-8 encoding of `s` takes at most `limit` bytes.
fn fits_utf8_bytes(s: &[char], limit: usize) -> (r: bool)
    ensures
        r == (utf8_len(s@) <= limit),
{
    let mut total: usize = 0;
    let mut i: usize = 0;
    while i < s.len()
        invariant
            i <= s@.len(),
            total == utf8_len(s@.take(i as int)),
            total <= limit,
        decreases s@.len() - i,
    {
        let u = s[i] as u32;
        let w: usize = if u < 0x80 {
            1
        } else if u < 0x800 {
            2
        } else if u < 0x10000 {
            3
        } else {
            4
        };
        proof {
            assert(s@.take(i + 1).drop_last() == s@.take(i as int));
        }
        if w > limit - total {
            proof {
                lemma_utf8_len_prefix(s@, i + 1);
            }
            return false;
        }
        total = total + w;
        i = i + 1;
    }
    assert(s@.take(s@.len() as int) == s@);
    true
}

proof fn lemma_utf8_len_prefix(s: Seq<char>, k: int)
    requires
        0 <= k <= s.len(),
    ensures
        utf8_len(s.take(k)) <= utf8_len(s),
    decreases s.len(),
{
    if k < s.len() {
        assert(s.drop_last().take(k) == s.take(k));
        lemma_utf8_len_prefix(s.drop_last(), k);
    } else {
        assert(s.take(k) == s);
    }
}

/// Checks a request before anything is sent, returning the trimmed contact.
pub fn check_request(message: &str, contact: Option<&str>, consent: bool) -> (r: Result<
    Option<String>,
    SubmitError,
>)
    ensures
        r is Ok <==> request_accepted(message@, str_opt_view(contact), consent),
        r matches Ok(c) ==> string_opt_view(c) == contact_of(str_opt_view(contact)),
        !consent || trim(message@).len() == 0 ==> (r matches Err(SubmitError::InvalidPayload(m))
            && m@ == "message or consent is missing"@),
        consent && trim(message@).len() > 0 && !request_accepted(
            message@,
            str_opt_view(contact),
            consent,
        ) ==> (r matches Err(SubmitError::InvalidPayload(m))
            && m@ == "contact must be a valid email or empty"@),
{
    let trimmed_message = trim_chars(&chars_of(message));
    if !consent || trimmed_message.len() == 0 {
        return Err(SubmitError::InvalidPayload(message_of("message or consent is missing")));
    }
    let trimmed_contact = match contact {
        Some(c) => {
            let t = trim_chars(&chars_of(c));
            if t.len() > 0 {
                Some(t)
            } else {
                None
            }
        },
        None => None,
    };
    match &trimmed_contact {
        Some(text) => {
            let at = chars_of("@");
            if !fits_utf8_bytes(text, MAX_CONTACT_BYTES) || !contains_chars(text, &at) {
                return Err(
                    SubmitError::InvalidPayload(
                        message_of("contact must be a valid email or empty"),
                    ),
                );
            }
            Ok(Some(string_of(text)))
        },
        None => Ok(None),
    }
}

/// Bounds a reading for a report.
fn reported<V: Copy>(sensor: &SensorReading<V>) -> (r: ReportedSensor<V>)
    ensures
        r.name@ == clip(sensor.name@, MAX_SENSOR_NAME_CHARS as nat),
        r.unit@ == clip(sensor.unit@, MAX_SENSOR_UNIT_CHARS as nat),
        r.value == sensor.value,
{
    ReportedSensor {
        name: clipped(sensor.name.as_str(), MAX_SENSOR_NAME_CHARS),
        value: sensor.value,
        unit: clipped(sensor.unit.as_str(), MAX_SENSOR_UNIT_CHARS),
    }
}

fn clipped_option(value: &Option<String>, max_chars: usize) -> (r: Option<String>)
    ensures
        string_opt_view(r) == clip_opt(string_opt_view(*value), max_chars as nat),
{
    match value {
        Some(v) => Some(clipped(v.as_str(), max_chars)),
        None => None,
    }
}

/// The fields of a report: at most 128 sensors from `sensors` (in order, each
/// with its name and unit clipped), the GPU name and provider error clipped,
/// and the trimmed message clipped. `sensors` holds the readings with finite
/// values.
pub fn build_report<V: Copy>(
    gpu_name: &Option<String>,
    provider_error: &Option<String>,
    sensors: &[SensorReading<V>],
    message: &str,
    contact: Option<String>,
    locale: &str,
) -> (r: FeedbackReport<V>)
    ensures
        r.locale@ == locale@,
        string_opt_view(r.gpu_name) == clip_opt(string_opt_view(*gpu_name), MAX_GPU_NAME_CHARS as nat),
        string_opt_view(r.provider_error) == clip_opt(
            string_opt_view(*provider_error),
            MAX_PROVIDER_ERROR_CHARS as nat,
        ),
        r.message@ == clip(trim(message@), MAX_MESSAGE_CHARS as nat),
        r.contact == contact,
        r.sensors@.len() == if sensors@.len() <= MAX_REPORTED_SENSORS {
            sensors@.len()
        } else {
            MAX_REPORTED_SENSORS as nat
        },
        forall|i: int|
            0 <= i < r.sensors@.len() ==> {
                &&& (#[trigger] r.sensors@[i]).name@ == clip(
                    sensors@[i].name@,
                    MAX_SENSOR_NAME_CHARS as nat,
                )
                &&& r.sensors@[i].unit@ == clip(sensors@[i].unit@, MAX_SENSOR_UNIT_CHARS as nat)
                &&& r.sensors@[i].value == sensors@[i].value
            },
{
    let mut reported_sensors: Vec<ReportedSensor<V>> = Vec::new();
    let mut i: usize = 0;
    while i < sensors.len() && i < MAX_REPORTED_SENSORS
        invariant
            i <= sensors@.len(),
            i <= MAX_REPORTED_SENSORS,
            reported_sensors@.len() == i,
            forall|k: int|
                0 <= k < i ==> {
                    &&& (#[trigger] reported_sensors@[k]).name@ == clip(
                        sensors@[k].name@,
                        MAX_SENSOR_NAME_CHARS as nat,
                    )
                    &&& reported_sensors@[k].unit@ == clip(
                        sensors@[k].unit@,
                        MAX_SENSOR_UNIT_CHARS as nat,
                    )
                    &&& reported_sensors@[k].value == sensors@[k].value
                },
        decreases sensors@.len() - i,
    {
        reported_sensors.push(reported(&sensors[i]));
        i = i + 1;
    }
    let trimmed = string_of(&trim_chars(&chars_of(message)));
    FeedbackReport {
        locale: String::from_str(locale),
        gpu_name: clipped_option(gpu_name, MAX_GPU_NAME_CHARS),
        provider_error: clipped_option(provider_error, MAX_PROVIDER_ERROR_CHARS),
        sensors: reported_sensors,
        message: clipped(trimmed.as_str(), MAX_MESSAGE_CHARS),
        contact,
    }
}

/// Refuses a serialized report larger than the server accepts.
pub fn check_payload_size(body_len: usize) -> (r: Result<(), SubmitError>)
    ensures
        r is Ok <==> body_len <= MAX_PAYLOAD,
        r is Err ==> r matches Err(SubmitError::PayloadTooLarge),
{
    if body_len > MAX_PAYLOAD {
        Err(SubmitError::PayloadTooLarge)
    } else {
        Ok(())
    }
}

/// What the server's HTTP status says about a report.
pub fn classify_response(status: u32) -> (r: ResponseKind)
    ensures
        r == response_kind(status),
{
    if status == 201 {
        ResponseKind::Created
    } else if status == 400 {
        ResponseKind::Rejected
    } else if status == 413 {
        ResponseKind::TooLarge
    } else if status == 429 {
        ResponseKind::RateLimited
    } else if 500 <= status && status <= 599 {
        ResponseKind::ServerError
    } else {
        ResponseKind::Unexpected
    }
}

/// The outcome of a response that carries no body of interest: every kind
/// but `Created` and `Rejected`.
pub fn status_error(status: u32) -> (r: SubmitError)
    requires
        response_kind(status) != ResponseKind::Created,
        response_kind(status) != ResponseKind::Rejected,
    ensures
        response_kind(status) == ResponseKind::TooLarge ==> r is PayloadTooLarge,
        response_kind(status) == ResponseKind::RateLimited ==> r is RateLimited,
        response_kind(status) == ResponseKind::ServerError ==> r is Server,
        response_kind(status) == ResponseKind::Unexpected ==> (r matches SubmitError::Network(m)
            && m@ == "Unexpected HTTP status "@ + crate::text::decimal(status as nat)),
{
    match classify_response(status) {
        ResponseKind::TooLarge => SubmitError::PayloadTooLarge,
        ResponseKind::RateLimited => SubmitError::RateLimited,
        ResponseKind::ServerError => SubmitError::Server,
        _ => {
            let mut m = chars_of("Unexpected HTTP status ");
            crate::text::push_decimal(&mut m, status as u64);
            SubmitError::Network(string_of(&m))
        },
    }
}

/// The report id of a 201 response, given what parsing its body gave
/// (`Err` holds the parser's message): the status must read `accepted` and
/// the id must not be blank.
pub fn confirmation(parsed: Result<AcceptedResponse, String>) -> (r: Result<String, SubmitError>)
    ensures
        parsed matches Err(e) ==> (r matches Err(SubmitError::Network(m)) && m@
            == "Invalid success response: "@ + e@),
        parsed matches Ok(a) ==> (r is Ok <==> (a.status@ == "accepted"@ && trim(a.report_id@).len()
            > 0)),
        parsed matches Ok(a) ==> (r is Ok ==> (r matches Ok(id) && id@ == a.report_id@)),
        parsed matches Ok(a) ==> (r is Err ==> (r matches Err(SubmitError::Network(m)) && m@
            == "Invalid report confirmation"@)),
{
    match parsed {
        Err(e) => Err(SubmitError::Network(prefixed("Invalid success response: ", e.as_str()))),
        Ok(accepted) => {
            let status = chars_of(accepted.status.as_str());
            let expected = chars_of("accepted");
            let id = trim_chars(&chars_of(accepted.report_id.as_str()));
            if !crate::text::chars_equal(&status, &expected) || id.len() == 0 {
                Err(SubmitError::Network(message_of("Invalid report confirmation")))
            } else {
                Ok(accepted.report_id)
            }
        },
    }
}

impl FeedbackStatus {
    /// The status line's text in `language`.
    pub fn localized(&self, language: Language) -> (r: String)
        ensures
            r@ == status_text(*self, language),
    {
        match self {
            FeedbackStatus::Empty => String::new(),
            FeedbackStatus::Required => String::from_str(language.feedback_required()),
            FeedbackStatus::Sending => String::from_str(language.feedback_sending_status()),
            FeedbackStatus::Accepted(id) => language.feedback_accepted(id.as_str()),
            FeedbackStatus::Rejected(detail) => language.feedback_rejected(detail.as_str()),
            FeedbackStatus::PayloadTooLarge => String::from_str(
                language.feedback_payload_too_large(),
            ),
            FeedbackStatus::RateLimited => String::from_str(language.feedback_rate_limited()),
            FeedbackStatus::Server => String::from_str(language.feedback_server_error()),
            FeedbackStatus::Network(error) => language.feedback_network_error(error.as_str()),
        }
    }
}

/// Largest server answer read, in bytes.
pub const MAX_RESPONSE_BYTES: usize = 65536;

/// Refuses a server answer that grew past `MAX_RESPONSE_BYTES`.
pub fn check_response_size(len: usize) -> (r: Result<(), SubmitError>)
    ensures
        r is Ok <==> len <= MAX_RESPONSE_BYTES,
        r is Err ==> (r matches Err(SubmitError::Network(m)) && m@
            == "Server response is too large"@),
{
    if len > MAX_RESPONSE_BYTES {
        Err(SubmitError::Network(message_of("Server response is too large")))
    } else {
        Ok(())
    }
}

/// The status line for how a submission ended.
pub open spec fn outcome_status(result: Result<String, SubmitError>) -> FeedbackStatus {
    match result {
        Ok(id) => FeedbackStatus::Accepted(id),
        Err(SubmitError::InvalidPayload(d)) => FeedbackStatus::Rejected(d),
        Err(SubmitError::PayloadTooLarge) => FeedbackStatus::PayloadTooLarge,
        Err(SubmitError::RateLimited) => FeedbackStatus::RateLimited,
        Err(SubmitError::Server) => FeedbackStatus::Server,
        Err(SubmitError::Network(e)) => FeedbackStatus::Network(e),
    }
}

impl FeedbackStatus {
    /// The status line for how a submission ended.
    pub fn from_outcome(result: Result<String, SubmitError>) -> (r: FeedbackStatus)
        ensures
            r == outcome_status(result),
    {
        match result {
            Ok(id) => FeedbackStatus::Accepted(id),
            Err(SubmitError::InvalidPayload(d)) => FeedbackStatus::Rejected(d),
            Err(SubmitError::PayloadTooLarge) => FeedbackStatus::PayloadTooLarge,
            Err(SubmitError::RateLimited) => FeedbackStatus::RateLimited,
            Err(SubmitError::Server) => FeedbackStatus::Server,
            Err(SubmitError::Network(e)) => FeedbackStatus::Network(e),
        }
    }
}

/// The feedback form: the consent box, whether a report is on its way, and
/// the status line. One report is sent at a time.
pub struct FeedbackForm {
    consent: bool,
    sending: bool,
    status: FeedbackStatus,
}

impl FeedbackForm {
    pub closed spec fn consented(&self) -> bool {
        self.consent
    }

    pub closed spec fn is_sending(&self) -> bool {
        self.sending
    }

    pub closed spec fn line(&self) -> FeedbackStatus {
        self.status
    }

    /// No consent, nothing sent, an empty status line.
    pub fn new() -> (r: Self)
        ensures
            !r.consented(),
            !r.is_sending(),
            r.line() == FeedbackStatus::Empty,
    {
        FeedbackForm { consent: false, sending: false, status: FeedbackStatus::Empty }
    }

    /// Whether the consent box is ticked.
    pub fn consent(&self) -> (r: bool)
        ensures
            r == self.consented(),
    {
        self.consent
    }

    /// Whether a report is on its way.
    pub fn sending(&self) -> (r: bool)
        ensures
            r == self.is_sending(),
    {
        self.sending
    }

    /// The status line's text in `language`.
    pub fn status_line(&self, language: Language) -> (r: String)
        ensures
            r@ == status_text(self.line(), language),
    {
        self.status.localized(language)
    }

    /// Flips the consent box.
    pub fn toggle_consent(&mut self)
        ensures
            final(self).consented() == !old(self).consented(),
            final(self).is_sending() == old(self).is_sending(),
            final(self).line() == old(self).line(),
    {
        self.consent = !self.consent;
    }

    /// Asked to send `message`: nothing happens while a report is on its
    /// way; without a message (blank counts as none) or consent the status
    /// line asks for both; otherwise sending starts. Says whether to send.
    pub fn begin_submit(&mut self, message: &str) -> (send: bool)
        ensures
            send == (!old(self).is_sending() && old(self).consented() && trim(message@).len()
                > 0),
            final(self).consented() == old(self).consented(),
            old(self).is_sending() ==> final(self).is_sending() && final(self).line() == old(
                self,
            ).line(),
            !old(self).is_sending() && !send ==> !final(self).is_sending() && final(self).line()
                == FeedbackStatus::Required,
            send ==> final(self).is_sending() && final(self).line() == FeedbackStatus::Sending,
    {
        if self.sending {
            return false;
        }
        let trimmed = trim_chars(&chars_of(message));
        if trimmed.len() == 0 || !self.consent {
            self.status = FeedbackStatus::Required;
            return false;
        }
        self.sending = true;
        self.status = FeedbackStatus::Sending;
        true
    }

    /// Takes in how sending ended.
    pub fn finish_submit(&mut self, result: Result<String, SubmitError>)
        ensures
            final(self).consented() == old(self).consented(),
            !final(self).is_sending(),
            final(self).line() == outcome_status(result),
    {
        self.status = FeedbackStatus::from_outcome(result);
        self.sending = false;
    }
}

} // verus!
