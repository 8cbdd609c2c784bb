//! Dashboard geometry, sensor row order and labels, and colours.

use vstd::prelude::*;
use crate::gui_i18n::{Key, Language, text_of};
use crate::gui_state::SensorHistory;
use crate::sensor_model::{
    SensorGroup, SensorId, SensorKind, group_of, metadata, priority_of, reading_kind, sensor_id,
};
use crate::settings::{AccentTheme, UiLanguage};
use crate::telemetry::{SensorReading, SysInfo};
use crate::text::{
    chars_equal, chars_of, contains, contains_chars, lower_ascii, lower_chars, occurs_at,
    occurs_at_exec,
    seq_less, slice_chars, string_of, trim, trim_chars, is_ascii_digit,
};

verus! {

/// An axis-aligned rectangle in logical client coordinates.
#[derive(Clone, Copy, Debug, PartialEq, Eq, Structural)]
pub struct Rect {
    pub left: i32,
    pub top: i32,
    pub right: i32,
    pub bottom: i32,
}

pub const LIST_LEFT: i32 = 16;

pub const LIST_TOP: i32 = 124;

pub const LIST_WIDTH: i32 = 548;

pub const ROW_HEIGHT: i32 = 23;

pub const MAX_ROWS: usize = 14;

/// Height of a group heading in the sensor list.
pub const GROUP_HEADING_HEIGHT: i32 = 22;

/// Offset of the first heading below the top of the list panel.
pub const LIST_HEADER_HEIGHT: i32 = 35;

/// The contact edit box of the feedback form.
pub fn feedback_contact_edit() -> (r: Rect)
    ensures
        r == (Rect { left: 36, top: 244, right: 936, bottom: 272 }),
{
    Rect { left: 36, top: 244, right: 936, bottom: 272 }
}

/// The message edit box of the feedback form.
pub fn feedback_message_edit() -> (r: Rect)
    ensures
        r == (Rect { left: 36, top: 310, right: 936, bottom: 420 }),
{
    Rect { left: 36, top: 310, right: 936, bottom: 420 }
}

/// The clickable consent line of the feedback form.
pub fn feedback_consent_hit() -> (r: Rect)
    ensures
        r == (Rect { left: 30, top: 430, right: 720, bottom: 472 }),
{
    Rect { left: 30, top: 430, right: 720, bottom: 472 }
}

/// The clickable submit line of the feedback form.
pub fn feedback_submit_hit() -> (r: Rect)
    ensures
        r == (Rect { left: 30, top: 476, right: 480, bottom: 518 }),
{
    Rect { left: 30, top: 476, right: 480, bottom: 518 }
}

/// The update action line of the about panel (check, download and
/// install, or restart to update).
pub fn update_action_hit() -> (r: Rect)
    ensures
        r == (Rect { left: 214, top: 448, right: 620, bottom: 480 }),
{
    Rect { left: 214, top: 448, right: 620, bottom: 480 }
}

/// The release page link of the about panel.
pub fn update_page_hit() -> (r: Rect)
    ensures
        r == (Rect { left: 214, top: 484, right: 620, bottom: 516 }),
{
    Rect { left: 214, top: 484, right: 620, bottom: 516 }
}

/// Horizontal extents of the three header links.
#[derive(Clone, Copy, Debug, PartialEq, Eq)]
pub struct HeaderNavLayout {
    pub about: (i32, i32),
    pub settings: (i32, i32),
    pub feedback: (i32, i32),
}

pub const HEADER_NAV_GAP: i32 = 24;

pub const HEADER_NAV_RIGHT_MARGIN: i32 = 16;

/// Pixels around a header link that still count as a hit.
pub const HEADER_HIT_PADDING: i32 = 8;

/// Whether the header can be laid out without leaving the `i32` range.
pub open spec fn header_fits(
    client_right: int,
    about_width: int,
    settings_width: int,
    feedback_width: int,
) -> bool {
    let low = client_right - HEADER_NAV_RIGHT_MARGIN - feedback_width - HEADER_NAV_GAP
        - settings_width - HEADER_NAV_GAP - about_width;
    &&& i32::MIN <= client_right - HEADER_NAV_RIGHT_MARGIN <= i32::MAX
    &&& i32::MIN <= client_right - HEADER_NAV_RIGHT_MARGIN - feedback_width <= i32::MAX
    &&& i32::MIN <= client_right - HEADER_NAV_RIGHT_MARGIN - feedback_width - HEADER_NAV_GAP
        <= i32::MAX
    &&& i32::MIN <= client_right - HEADER_NAV_RIGHT_MARGIN - feedback_width - HEADER_NAV_GAP
        - settings_width <= i32::MAX
    &&& i32::MIN <= client_right - HEADER_NAV_RIGHT_MARGIN - feedback_width - HEADER_NAV_GAP
        - settings_width - HEADER_NAV_GAP <= i32::MAX
    &&& i32::MIN <= low <= i32::MAX
}

/// Lays the header links out from the right edge: feedback, settings and
/// about, each `HEADER_NAV_GAP` apart.
pub fn header_nav_layout(
    client_right: i32,
    about_width: i32,
    settings_width: i32,
    feedback_width: i32,
) -> (r: HeaderNavLayout)
    requires
        header_fits(
            client_right as int,
            about_width as int,
            settings_width as int,
            feedback_width as int,
        ),
    ensures
        r.feedback.1 == client_right - HEADER_NAV_RIGHT_MARGIN,
        r.feedback.0 == r.feedback.1 - feedback_width,
        r.settings.1 == r.feedback.0 - HEADER_NAV_GAP,
        r.settings.0 == r.settings.1 - settings_width,
        r.about.1 == r.settings.0 - HEADER_NAV_GAP,
        r.about.0 == r.about.1 - about_width,
{
    let feedback_right = client_right - HEADER_NAV_RIGHT_MARGIN;
    let feedback_left = feedback_right - feedback_width;
    let settings_right = feedback_left - HEADER_NAV_GAP;
    let settings_left = settings_right - settings_width;
    let about_right = settings_left - HEADER_NAV_GAP;
    let about_left = about_right - about_width;
    HeaderNavLayout {
        about: (about_left, about_right),
        settings: (settings_left, settings_right),
        feedback: (feedback_left, feedback_right),
    }
}

/// Whether `x` hits a header link, with `HEADER_HIT_PADDING` to spare.
pub fn header_link_contains(link: (i32, i32), x: i32) -> (r: bool)
    requires
        link.0 - HEADER_HIT_PADDING >= i32::MIN,
        link.1 + HEADER_HIT_PADDING <= i32::MAX,
    ensures
        r == (link.0 - HEADER_HIT_PADDING <= x <= link.1 + HEADER_HIT_PADDING),
{
    x >= link.0 - HEADER_HIT_PADDING && x <= link.1 + HEADER_HIT_PADDING
}

/// Whether a point lies in a rectangle, edges included.
pub fn point_in_rect(rect: &Rect, x: i32, y: i32) -> (r: bool)
    ensures
        r == (rect.left <= x <= rect.right && rect.top <= y <= rect.bottom),
{
    x >= rect.left && x <= rect.right && y >= rect.top && y <= rect.bottom
}

/// A GDI colour value (`0x00BBGGRR`).
pub open spec fn rgb_value(r: u8, g: u8, b: u8) -> u32 {
    (r as int + g as int * 256 + b as int * 65536) as u32
}

/// Packs a colour as GDI expects it.
pub fn rgb(r: u8, g: u8, b: u8) -> (c: u32)
    ensures
        c == rgb_value(r, g, b),
        c as int == r as int + g as int * 256 + b as int * 65536,
{
    (r as u32) + (g as u32) * 256 + (b as u32) * 65536
}

pub open spec fn luminance(r: int, g: int, b: int) -> int {
    (r * 299 + g * 587 + b * 114) / 1000
}

/// A channel moved halfway toward white.
pub open spec fn halfway_to_white(c: int) -> int {
    (c + 255) / 2
}

/// Brightens a colour, halving each channel's distance to white, until its
/// luminance reaches 145.
pub open spec fn brightened(r: int, g: int, b: int) -> (int, int, int)
    decreases 765 - r - g - b,
    when 0 <= r <= 255 && 0 <= g <= 255 && 0 <= b <= 255
{
    if luminance(r, g, b) < 145 {
        proof {
            lemma_brighten_progress(r, g, b);
        }
        brightened(halfway_to_white(r), halfway_to_white(g), halfway_to_white(b))
    } else {
        (r, g, b)
    }
}

pub proof fn lemma_brighten_progress(r: int, g: int, b: int)
    requires
        0 <= r <= 255,
        0 <= g <= 255,
        0 <= b <= 255,
        luminance(r, g, b) < 145,
    ensures
        0 <= halfway_to_white(r) <= 255,
        0 <= halfway_to_white(g) <= 255,
        0 <= halfway_to_white(b) <= 255,
        halfway_to_white(r) + halfway_to_white(g) + halfway_to_white(b) > r + g + b,
{
    if r >= 254 && g >= 254 && b >= 254 {
        assert(r * 299 + g * 587 + b * 114 >= 254000);
    }
}

/// The accent colour derived from the desktop colorization `raw`
/// (`0xAARRGGBB`), brightened until readable on a dark background.
pub open spec fn desktop_accent(raw: u32) -> u32 {
    let c = brightened(
        ((raw as int) / 65536) % 256,
        ((raw as int) / 256) % 256,
        (raw as int) % 256,
    );
    rgb_value(c.0 as u8, c.1 as u8, c.2 as u8)
}

fn half_to_white(c: u8) -> (r: u8)
    ensures
        r == halfway_to_white(c as int),
{
    (((c as u16) + 255) / 2) as u8
}

/// The accent colour made from the desktop colorization value.
pub fn brightened_accent(raw: u32) -> (c: u32)
    ensures
        c == desktop_accent(raw),
{
    let mut red: u8 = ((raw / 65536) % 256) as u8;
    let mut green: u8 = ((raw / 256) % 256) as u8;
    let mut blue: u8 = (raw % 256) as u8;
    let ghost target = brightened(red as int, green as int, blue as int);
    while ((red as u32) * 299 + (green as u32) * 587 + (blue as u32) * 114) / 1000 < 145
        invariant
            brightened(red as int, green as int, blue as int) == target,
        decreases 765 - red - green - blue,
    {
        proof {
            lemma_brighten_progress(red as int, green as int, blue as int);
        }
        red = half_to_white(red);
        green = half_to_white(green);
        blue = half_to_white(blue);
    }
    rgb(red, green, blue)
}

/// The fixed accent colours; the Windows theme follows the desktop.
pub open spec fn accent_value(theme: AccentTheme, colorization: Option<u32>) -> u32 {
    match theme {
        AccentTheme::Green => rgb_value(87, 227, 137),
        AccentTheme::Blue => rgb_value(96, 172, 255),
        AccentTheme::Purple => rgb_value(199, 145, 255),
        AccentTheme::Orange => rgb_value(255, 178, 94),
        AccentTheme::Windows => match colorization {
            Some(raw) => desktop_accent(raw),
            None => rgb_value(87, 227, 137),
        },
    }
}

/// The accent colour of a theme. `colorization` is the desktop colorization
/// value, or `None` when the desktop could not report it.
pub fn accent_color(theme: AccentTheme, colorization: Option<u32>) -> (c: u32)
    ensures
        c == accent_value(theme, colorization),
{
    match theme {
        AccentTheme::Green => rgb(87, 227, 137),
        AccentTheme::Blue => rgb(96, 172, 255),
        AccentTheme::Purple => rgb(199, 145, 255),
        AccentTheme::Orange => rgb(255, 178, 94),
        AccentTheme::Windows => match colorization {
            Some(raw) => brightened_accent(raw),
            None => rgb(87, 227, 137),
        },
    }
}

/// The accent colour the interface draws with, green until set.
pub struct AccentCell {
    color: u32,
}

impl AccentCell {
    /// The colour held.
    pub closed spec fn color(&self) -> u32 {
        self.color
    }

    /// Holds the green accent.
    pub fn new() -> (r: Self)
        ensures
            r.color() == rgb_value(87, 227, 137),
    {
        AccentCell { color: rgb(87, 227, 137) }
    }

    /// The accent colour.
    pub fn accent(&self) -> (r: u32)
        ensures
            r == self.color(),
    {
        self.color
    }

    /// Replaces the accent colour.
    pub fn set_accent(&mut self, color: u32)
        ensures
            final(self).color() == color,
    {
        self.color = color;
    }

    /// Switches to the accent of `theme`; `colorization` is the desktop
    /// colorization value, if the desktop reported one.
    pub fn apply_accent(&mut self, theme: AccentTheme, colorization: Option<u32>)
        ensures
            final(self).color() == accent_value(theme, colorization),
    {
        let color = accent_color(theme, colorization);
        self.set_accent(color);
    }
}

/// The English name of an accent theme.
pub fn accent_label(theme: AccentTheme) -> (r: &'static str)
    ensures
        r@ == (match theme {
            AccentTheme::Green => "Green"@,
            AccentTheme::Blue => "Blue"@,
            AccentTheme::Purple => "Purple"@,
            AccentTheme::Orange => "Orange"@,
            AccentTheme::Windows => "Windows"@,
        }),
{
    match theme {
        AccentTheme::Green => "Green",
        AccentTheme::Blue => "Blue",
        AccentTheme::Purple => "Purple",
        AccentTheme::Orange => "Orange",
        AccentTheme::Windows => "Windows",
    }
}

/// The label of a refresh interval: 500 ms, 2 s, and 1 s for anything else.
pub fn refresh_label(value: u64) -> (r: &'static str)
    ensures
        r@ == (if value == 500 {
            "500 ms"@
        } else if value == 2000 {
            "2 s"@
        } else {
            "1 s"@
        }),
{
    if value == 500 {
        "500 ms"
    } else if value == 2000 {
        "2 s"
    } else {
        "1 s"
    }
}

/// Shown while the telemetry runtime is being loaded.
pub fn connect_message(language: UiLanguage) -> (r: String)
    ensures
        r@ == (if language == UiLanguage::Russian {
            "Подключение к локальному источнику телеметрии…"@
        } else {
            "Connecting to the local telemetry provider…"@
        }),
{
    if language == UiLanguage::Russian {
        String::from_str("Подключение к локальному источнику телеметрии…")
    } else {
        String::from_str("Connecting to the local telemetry provider…")
    }
}

/// The tooltip of a sensor row.
pub fn sensor_tooltip(kind: SensorKind, language: Language) -> (r: &'static str)
    ensures
        r@ == (match (kind, language) {
            (SensorKind::PerfCap, Language::Russian) =>
                "Причина текущего ограничения производительности NVIDIA. Это категориальное состояние."@,
            (SensorKind::PerfCap, Language::English) =>
                "The current NVIDIA performance-limit reason. This is a categorical state."@,
            (SensorKind::HotspotTemperature, Language::Russian) =>
                "HotSpot отображается только когда источник действительно предоставляет подтверждённое значение."@,
            (SensorKind::HotspotTemperature, Language::English) =>
                "HotSpot is shown only when the provider exposes a validated value."@,
            (_, Language::Russian) =>
                "Клик — график детали; двойной клик включает максимум сессии."@,
            (_, Language::English) =>
                "Click for the detail graph; double-click toggles the session maximum."@,
        }),
{
    match (kind, language) {
        (SensorKind::PerfCap, Language::Russian) =>
            "Причина текущего ограничения производительности NVIDIA. Это категориальное состояние.",
        (SensorKind::PerfCap, Language::English) =>
            "The current NVIDIA performance-limit reason. This is a categorical state.",
        (SensorKind::HotspotTemperature, Language::Russian) =>
            "HotSpot отображается только когда источник действительно предоставляет подтверждённое значение.",
        (SensorKind::HotspotTemperature, Language::English) =>
            "HotSpot is shown only when the provider exposes a validated value.",
        (_, Language::Russian) => "Клик — график детали; двойной клик включает максимум сессии.",
        (_, Language::English) =>
            "Click for the detail graph; double-click toggles the session maximum.",
    }
}

/// The heading of a sensor group.
pub fn group_title(group: SensorGroup, language: Language) -> (r: &'static str)
    ensures
        r@ == (match group {
            SensorGroup::Gpu => "GPU"@,
            SensorGroup::Activity => text_of(language, Key::GpuActivity),
            SensorGroup::System => text_of(language, Key::System),
        }),
{
    match group {
        SensorGroup::Gpu => "GPU",
        SensorGroup::Activity => language.text(Key::GpuActivity),
        SensorGroup::System => language.text(Key::System),
    }
}

// ---------------------------------------------------------------------------
// History graph
// ---------------------------------------------------------------------------

/// Where sample `index` of `count` goes across a graph from `left` to
/// `right`: 8 pixels in from each side, spread evenly.
pub open spec fn graph_x_at(left: int, right: int, index: int, count: int) -> int {
    left + 8 + (right - left - 16) * index / (count - 1)
}

/// The horizontal position of sample `index` of `count` in a graph.
pub fn graph_x(left: i32, right: i32, index: usize, count: usize) -> (r: i32)
    requires
        count >= 2,
        index < count,
        16 <= right - left <= i32::MAX,
    ensures
        r == graph_x_at(left as int, right as int, index as int, count as int),
{
    let inner = (right - left - 16) as usize;
    assert((inner as int) * (index as int) <= (inner as int) * (count as int)) by (nonlinear_arith)
        requires
            index < count,
            inner >= 0,
    ;
    assert((inner as int) * (index as int) / ((count - 1) as int) <= inner as int) by (
    nonlinear_arith)
        requires
            index <= count - 1,
            count >= 2,
            inner >= 0,
    ;
    assert((inner as int) * (count as int) <= 0x8000_0000 * (count as int)) by (nonlinear_arith)
        requires
            inner <= 0x8000_0000,
            count >= 0,
    ;
    let scaled = (inner as u128) * (index as u128) / ((count - 1) as u128);
    left + 8 + scaled as i32
}

// ---------------------------------------------------------------------------
// Fitting text into a width
// ---------------------------------------------------------------------------

/// The first `n` characters of `value` followed by an ellipsis.
pub open spec fn with_ellipsis(value: Seq<char>, n: int) -> Seq<char> {
    value.take(n) + seq!['…']
}

/// Whether `fits` answered `answer` for a text that reads `text`.
pub open spec fn measured<F: Fn(String) -> bool>(fits: F, text: Seq<char>, answer: bool) -> bool {
    exists|s: String| s@ == text && call_ensures(fits, (s,), answer)
}

/// Fits `value` into the width that `fits` tests: the whole text when it
/// fits; otherwise the longest prefix that fits with an ellipsis after it,
/// trying one character less each time; nothing when not even one
/// character fits. How wide a text is depends on the font and the screen,
/// so `fits` is asked, not predicted.
pub fn fit_to_width<F: Fn(String) -> bool>(value: &str, fits: F) -> (r: Option<String>)
    requires
        forall|s: String| call_requires(fits, (s,)),
    ensures
        (match r {
            Some(t) => (t@ == value@ && measured(fits, value@, true)) || (measured(
                fits,
                value@,
                false,
            ) && exists|n: int|
                1 <= n <= value@.len() && t@ == with_ellipsis(value@, n) && measured(
                    fits,
                    t@,
                    true,
                ) && forall|m: int|
                    n < m <= value@.len() ==> measured(
                        fits,
                        #[trigger] with_ellipsis(value@, m),
                        false,
                    )),
            None => measured(fits, value@, false) && forall|m: int|
                1 <= m <= value@.len() ==> measured(fits, #[trigger] with_ellipsis(value@, m), false),
        }),
{
    let chars = chars_of(value);
    let whole = String::from_str(value);
    let ghost whole_ghost = whole;
    if fits(whole) {
        assert(measured(fits, value@, true));
        return Some(String::from_str(value));
    }
    assert(measured(fits, value@, false));
    let mut n: usize = chars.len();
    while n > 0
        invariant
            n <= chars@.len(),
            chars@ == value@,
            forall|s: String| call_requires(fits, (s,)),
            measured(fits, value@, false),
            forall|m: int|
                n < m <= value@.len() ==> measured(fits, #[trigger] with_ellipsis(value@, m), false),
        decreases n,
    {
        let mut candidate = slice_chars(&chars, 0, n);
        candidate.push('…');
        assert(candidate@ == with_ellipsis(value@, n as int));
        let text = string_of(&candidate);
        let ghost text_ghost = text;
        if fits(text) {
            assert(measured(fits, with_ellipsis(value@, n as int), true));
            return Some(string_of(&candidate));
        }
        assert(measured(fits, with_ellipsis(value@, n as int), false));
        n = n - 1;
    }
    None
}

// ---------------------------------------------------------------------------
// Dashboard state
// ---------------------------------------------------------------------------

/// The latest word from the telemetry worker.
pub enum Snapshot<V> {
    /// A telemetry snapshot.
    Data(SysInfo<V>),
    /// The runtime library could not be loaded; the text says why.
    LoadFailed(String),
    /// The runtime answered with an error or an unusable answer.
    FetchError(String),
}

/// What the dashboard says instead of telemetry: nothing when there is
/// telemetry, the load or fetch error, or that the provider is still being
/// reached.
pub open spec fn unavailable_text<V>(snapshot: Option<Snapshot<V>>, language: UiLanguage) -> Option<
    Seq<char>,
> {
    match snapshot {
        Some(Snapshot::Data(_)) => None,
        Some(Snapshot::LoadFailed(e)) => Some("Could not load gs.dll: "@ + e@),
        Some(Snapshot::FetchError(e)) => Some(e@),
        None => Some(
            if language == UiLanguage::Russian {
                "Подключение к локальному источнику телеметрии…"@
            } else {
                "Connecting to the local telemetry provider…"@
            },
        ),
    }
}

/// What the dashboard says instead of telemetry, if anything.
pub fn unavailable_message<V>(snapshot: &Option<Snapshot<V>>, language: UiLanguage) -> (r: Option<
    String,
>)
    ensures
        crate::text::string_opt_view(r) == unavailable_text(*snapshot, language),
{
    match snapshot {
        Some(Snapshot::Data(_)) => None,
        Some(Snapshot::LoadFailed(e)) => {
            let mut m = chars_of("Could not load ");
            crate::text::append_str(&mut m, crate::telemetry::dll_library_path());
            crate::text::append_str(&mut m, ": ");
            crate::text::append_str(&mut m, e.as_str());
            proof {
                reveal_strlit("Could not load ");
                reveal_strlit("Could not load gs.dll: ");
                reveal_strlit("gs.dll");
                reveal_strlit(": ");
                assert(m@ =~= "Could not load gs.dll: "@ + e@);
            }
            Some(string_of(&m))
        },
        Some(Snapshot::FetchError(e)) => Some(e.clone()),
        None => Some(connect_message(language)),
    }
}

/// The heading of the window: the GPU's name, `Unknown GPU` when the
/// snapshot has none, and the application's name before any telemetry.
pub open spec fn title_text<V>(snapshot: Option<Snapshot<V>>) -> Seq<char> {
    match snapshot {
        Some(Snapshot::Data(info)) => match info.gpu_name {
            Some(n) => n@,
            None => "Unknown GPU"@,
        },
        _ => "GPU Shark"@,
    }
}

/// The heading of the window.
pub fn window_heading<V>(snapshot: &Option<Snapshot<V>>) -> (r: String)
    ensures
        r@ == title_text(*snapshot),
{
    match snapshot {
        Some(Snapshot::Data(info)) => match &info.gpu_name {
            Some(n) => n.clone(),
            None => String::from_str("Unknown GPU"),
        },
        _ => String::from_str("GPU Shark"),
    }
}

// ---------------------------------------------------------------------------
// Sensor rows
// ---------------------------------------------------------------------------

/// A reading as the row model sees it: name, value and unit.
pub open spec fn row_of<V>(s: SensorReading<V>) -> (Seq<char>, V, Seq<char>) {
    (s.name@, s.value, s.unit@)
}

pub open spec fn rows_of<V>(s: Seq<SensorReading<V>>) -> Seq<(Seq<char>, V, Seq<char>)> {
    s.map_values(|x: SensorReading<V>| row_of(x))
}

pub open spec fn row_kind<V>(r: (Seq<char>, V, Seq<char>)) -> SensorKind {
    crate::sensor_model::kind_of(lower_ascii(trim(r.0)), lower_ascii(trim(r.2)))
}

/// The position of a group in the list: GPU, then activity, then system.
pub open spec fn group_rank(g: SensorGroup) -> int {
    match g {
        SensorGroup::Gpu => 0,
        SensorGroup::Activity => 1,
        SensorGroup::System => 2,
    }
}

pub open spec fn row_rank<V>(r: (Seq<char>, V, Seq<char>)) -> int {
    group_rank(group_of(row_kind(r)))
}

pub open spec fn row_priority<V>(r: (Seq<char>, V, Seq<char>)) -> int {
    priority_of(row_kind(r)) as int
}

/// Rows order by group, then priority, then name.
pub open spec fn key_less<V>(a: (Seq<char>, V, Seq<char>), b: (Seq<char>, V, Seq<char>)) -> bool {
    ||| row_rank(a) < row_rank(b)
    ||| row_rank(a) == row_rank(b) && row_priority(a) < row_priority(b)
    ||| row_rank(a) == row_rank(b) && row_priority(a) == row_priority(b) && seq_less(a.0, b.0)
}

pub open spec fn key_same<V>(a: (Seq<char>, V, Seq<char>), b: (Seq<char>, V, Seq<char>)) -> bool {
    row_rank(a) == row_rank(b) && row_priority(a) == row_priority(b) && a.0 == b.0
}

/// `out` is `src` sorted by key, rows with equal keys keeping their order:
/// `p` says where in `src` each row of `out` came from.
pub open spec fn sort_witness<V>(
    src: Seq<(Seq<char>, V, Seq<char>)>,
    out: Seq<(Seq<char>, V, Seq<char>)>,
    p: Seq<int>,
) -> bool {
    &&& p.len() == src.len()
    &&& out.len() == src.len()
    &&& forall|k: int| 0 <= k < out.len() ==> 0 <= #[trigger] p[k] < src.len()
    &&& forall|k: int| 0 <= k < out.len() ==> #[trigger] out[k] == src[p[k]]
    &&& forall|k: int, l: int| 0 <= k < l < out.len() ==> p[k] != p[l]
    &&& forall|k: int, l: int| 0 <= k < l < out.len() ==> !key_less(out[l], out[k])
    &&& forall|k: int, l: int|
        0 <= k < l < out.len() && key_same(out[k], out[l]) ==> p[k] < p[l]
}

pub open spec fn stable_sorted<V>(
    src: Seq<(Seq<char>, V, Seq<char>)>,
    out: Seq<(Seq<char>, V, Seq<char>)>,
) -> bool {
    exists|p: Seq<int>| sort_witness(src, out, p)
}

/// The rows other than performance-limit rows.
pub open spec fn without_perfcap<V>(s: Seq<(Seq<char>, V, Seq<char>)>) -> Seq<
    (Seq<char>, V, Seq<char>),
>
    decreases s.len(),
{
    if s.len() == 0 {
        Seq::empty()
    } else if row_kind(s.last()) == SensorKind::PerfCap {
        without_perfcap(s.drop_last())
    } else {
        without_perfcap(s.drop_last()).push(s.last())
    }
}

/// The rows that are shown: all but the memory clock.
pub open spec fn visible_rows<V>(s: Seq<(Seq<char>, V, Seq<char>)>) -> Seq<
    (Seq<char>, V, Seq<char>),
>
    decreases s.len(),
{
    if s.len() == 0 {
        Seq::empty()
    } else if row_kind(s.last()) == SensorKind::MemoryClock {
        visible_rows(s.drop_last())
    } else {
        visible_rows(s.drop_last()).push(s.last())
    }
}

/// The decoded performance-limit reason, when the snapshot has a non-blank one.
pub open spec fn perfcap_reason_of<V>(info: SysInfo<V>) -> Option<Seq<char>> {
    match info.perfcap_reason {
        Some(r) => if trim(r@).len() > 0 {
            Some(trim(r@))
        } else {
            None
        },
        None => None,
    }
}

/// The rows of a snapshot before ordering. With a decoded reason, the
/// provider's performance-limit rows give way to one categorical row named
/// `PerfCap Reason` whose unit is the reason and whose value is `filler`.
pub open spec fn listed_rows<V>(info: SysInfo<V>, filler: V) -> Seq<(Seq<char>, V, Seq<char>)> {
    let base = rows_of(info.sensors@);
    visible_rows(
        match perfcap_reason_of(info) {
            Some(t) => without_perfcap(base).push(("PerfCap Reason"@, filler, t)),
            None => base,
        },
    )
}

/// Key order is transitive.
proof fn lemma_key_less_transitive<V>(
    a: (Seq<char>, V, Seq<char>),
    b: (Seq<char>, V, Seq<char>),
    c: (Seq<char>, V, Seq<char>),
)
    requires
        key_less(a, b),
        key_less(b, c),
    ensures
        key_less(a, c),
{
    if row_rank(a) == row_rank(b) && row_rank(b) == row_rank(c) && row_priority(a) == row_priority(
        b,
    ) && row_priority(b) == row_priority(c) {
        crate::text::lemma_seq_less_transitive(a.0, b.0, c.0);
    }
}

/// Two rows whose keys are not ordered either way have the same key.
proof fn lemma_key_trichotomy<V>(a: (Seq<char>, V, Seq<char>), b: (Seq<char>, V, Seq<char>))
    ensures
        key_less(a, b) || key_less(b, a) || key_same(a, b),
{
    crate::text::lemma_seq_less_total(a.0, b.0);
}

proof fn lemma_key_not_less_transitive<V>(
    a: (Seq<char>, V, Seq<char>),
    b: (Seq<char>, V, Seq<char>),
    c: (Seq<char>, V, Seq<char>),
)
    requires
        !key_less(b, a),
        !key_less(c, b),
    ensures
        !key_less(c, a),
{
    lemma_key_trichotomy(a, b);
    lemma_key_trichotomy(b, c);
    if key_less(c, a) {
        if key_less(a, b) {
            lemma_key_less_transitive(c, a, b);
            if key_less(b, c) {
                lemma_key_less_transitive(b, c, b);
                crate::version::lemma_seq_less_irreflexive(b.0);
            }
        } else {
            assert(key_same(a, b));
        }
    }
}

/// A row's sort key: group rank, priority and name.
struct RowKey {
    rank: u8,
    priority: u8,
    name: Vec<char>,
}

spec fn key_of_row<V>(k: RowKey, r: (Seq<char>, V, Seq<char>)) -> bool {
    &&& k.rank as int == row_rank(r)
    &&& k.priority as int == row_priority(r)
    &&& k.name@ == r.0
}

fn row_key<V>(reading: &SensorReading<V>) -> (r: RowKey)
    ensures
        key_of_row(r, row_of(*reading)),
{
    let m = metadata(reading);
    let rank: u8 = match m.group {
        SensorGroup::Gpu => 0,
        SensorGroup::Activity => 1,
        SensorGroup::System => 2,
    };
    RowKey { rank, priority: m.priority, name: chars_of(reading.name.as_str()) }
}

/// Whether the row keyed `a` orders before the row keyed `b`.
fn row_key_less<V>(
    a: &RowKey,
    b: &RowKey,
    Ghost(ra): Ghost<(Seq<char>, V, Seq<char>)>,
    Ghost(rb): Ghost<(Seq<char>, V, Seq<char>)>,
) -> (r: bool)
    requires
        key_of_row(*a, ra),
        key_of_row(*b, rb),
    ensures
        r == key_less(ra, rb),
{
    if a.rank != b.rank {
        a.rank < b.rank
    } else if a.priority != b.priority {
        a.priority < b.priority
    } else {
        crate::text::chars_less(&a.name, &b.name)
    }
}

proof fn lemma_key_less_asymmetric<V>(a: (Seq<char>, V, Seq<char>), b: (Seq<char>, V, Seq<char>))
    ensures
        !(key_less(a, b) && key_less(b, a)),
        key_less(a, b) ==> !key_same(a, b),
{
    crate::version::lemma_seq_less_asymmetric(a.0, b.0);
    crate::version::lemma_seq_less_irreflexive(a.0);
}

/// The rows of `src` at the positions `order`.
spec fn picked<V>(src: Seq<(Seq<char>, V, Seq<char>)>, order: Seq<usize>) -> Seq<
    (Seq<char>, V, Seq<char>),
> {
    order.map_values(|k: usize| src[k as int])
}

spec fn positions(order: Seq<usize>) -> Seq<int> {
    order.map_values(|k: usize| k as int)
}

/// Inserting the next row where the scan stopped keeps a stable sort.
proof fn lemma_insert_keeps_sort<V>(
    src: Seq<(Seq<char>, V, Seq<char>)>,
    order: Seq<usize>,
    i: usize,
    j: int,
)
    requires
        i < src.len(),
        0 <= j <= order.len(),
        sort_witness(src.take(i as int), picked(src, order), positions(order)),
        forall|m: int| j <= m < order.len() ==> key_less(src[i as int], #[trigger] src[order[m] as int]),
        j > 0 ==> !key_less(src[i as int], src[order[j - 1] as int]),
    ensures
        sort_witness(src.take(i + 1), picked(src, order.insert(j, i)), positions(order.insert(j, i))),
{
    let o = picked(src, order);
    let p = positions(order);
    let x = src[i as int];
    let order2 = order.insert(j, i);
    let o2 = picked(src, order2);
    let p2 = positions(order2);
    let s2 = src.take(i + 1);
    order.insert_ensures(j, i);
    assert(o2.len() == o.len() + 1);
    assert forall|k: int| 0 <= k < o2.len() implies (k < j ==> o2[k] == o[k] && p2[k] == p[k]) && (
    k == j ==> o2[k] == x && p2[k] == i) && (k > j ==> o2[k] == o[k - 1] && p2[k] == p[k - 1]) by {
        if k < j {
            assert(order2[k] == order[k]);
        } else if k > j {
            assert(order2[k - 1 + 1] == order[k - 1]);
        } else {
            assert(order2[k] == i);
        }
    }
    assert forall|k: int| 0 <= k < o2.len() implies 0 <= #[trigger] p2[k] < s2.len() by {
        if k < j {
            assert(p[k] < i);
        } else if k > j {
            assert(p[k - 1] < i);
        }
    }
    assert forall|k: int| 0 <= k < o2.len() implies #[trigger] o2[k] == s2[p2[k]] by {
        if k < j {
            assert(o[k] == src.take(i as int)[p[k]]);
        } else if k > j {
            assert(o[k - 1] == src.take(i as int)[p[k - 1]]);
        }
    }
    assert forall|k: int, l: int| 0 <= k < l < o2.len() implies p2[k] != p2[l] by {
        if k != j && l != j {
            let kk = if k < j {
                k
            } else {
                k - 1
            };
            let ll = if l < j {
                l
            } else {
                l - 1
            };
            assert(p[kk] != p[ll]);
        } else if k == j {
            assert(p[l - 1] < i);
        } else {
            assert(p[k] < i);
        }
    }
    assert forall|k: int, l: int| 0 <= k < l < o2.len() implies !key_less(o2[l], o2[k]) by {
        if k != j && l != j {
            let kk = if k < j {
                k
            } else {
                k - 1
            };
            let ll = if l < j {
                l
            } else {
                l - 1
            };
            assert(kk < ll);
            assert(!key_less(o[ll], o[kk]));
        } else if k == j {
            assert(o[l - 1] == src[order[l - 1] as int]);
            lemma_key_less_asymmetric(x, o[l - 1]);
        } else {
            assert(l == j);
            assert(o[j - 1] == src[order[j - 1] as int]);
            if k < j - 1 {
                assert(!key_less(o[j - 1], o[k]));
                lemma_key_not_less_transitive(o[k], o[j - 1], x);
            }
        }
    }
    assert forall|k: int, l: int|
        0 <= k < l < o2.len() && key_same(o2[k], o2[l]) implies p2[k] < p2[l] by {
        if k != j && l != j {
            let kk = if k < j {
                k
            } else {
                k - 1
            };
            let ll = if l < j {
                l
            } else {
                l - 1
            };
            assert(kk < ll);
            assert(p[kk] < p[ll]);
        } else if k == j {
            assert(o[l - 1] == src[order[l - 1] as int]);
            lemma_key_less_asymmetric(x, o[l - 1]);
        } else {
            assert(p[k] < i);
        }
    }
}

/// The positions of `rows` in stable key order.
fn sorted_order<V>(rows: &Vec<SensorReading<V>>) -> (order: Vec<usize>)
    ensures
        sort_witness(rows_of(rows@), picked(rows_of(rows@), order@), positions(order@)),
{
    let ghost src = rows_of(rows@);
    let mut keys: Vec<RowKey> = Vec::new();
    let mut i: usize = 0;
    while i < rows.len()
        invariant
            i <= rows@.len(),
            src == rows_of(rows@),
            keys@.len() == i,
            forall|k: int| 0 <= k < i ==> key_of_row(#[trigger] keys@[k], src[k]),
        decreases rows@.len() - i,
    {
        keys.push(row_key(&rows[i]));
        i = i + 1;
    }
    let mut order: Vec<usize> = Vec::new();
    let mut i: usize = 0;
    assert(src.take(0).len() == 0);
    while i < rows.len()
        invariant
            i <= rows@.len(),
            src == rows_of(rows@),
            src.len() == rows@.len(),
            keys@.len() == rows@.len(),
            forall|k: int| 0 <= k < rows@.len() ==> key_of_row(#[trigger] keys@[k], src[k]),
            sort_witness(src.take(i as int), picked(src, order@), positions(order@)),
            forall|m: int| 0 <= m < order@.len() ==> #[trigger] order@[m] < i,
        decreases rows@.len() - i,
    {
        let mut j: usize = order.len();
        while j > 0 && row_key_less::<V>(
            &keys[i],
            &keys[order[j - 1]],
            Ghost(src[i as int]),
            Ghost(src[order@[j - 1] as int]),
        )
            invariant
                j <= order@.len(),
                i < rows@.len(),
                src == rows_of(rows@),
                keys@.len() == rows@.len(),
                forall|k: int| 0 <= k < rows@.len() ==> key_of_row(#[trigger] keys@[k], src[k]),
                sort_witness(src.take(i as int), picked(src, order@), positions(order@)),
                forall|m: int| 0 <= m < order@.len() ==> #[trigger] order@[m] < i,
                forall|m: int|
                    j <= m < order@.len() ==> key_less(
                        src[i as int],
                        #[trigger] src[order@[m] as int],
                    ),
            decreases j,
        {
            proof {
                assert(positions(order@)[j - 1] == order@[j - 1] as int);
            }
            j = j - 1;
        }
        proof {
            lemma_insert_keeps_sort(src, order@, i, j as int);
        }
        let ghost before = order@;
        order.insert(j, i);
        proof {
            before.insert_ensures(j as int, i);
            assert forall|m: int| 0 <= m < order@.len() implies #[trigger] order@[m] < i + 1 by {
                if m < j {
                    assert(order@[m] == before[m]);
                } else if m > j {
                    assert(order@[m - 1 + 1] == before[m - 1]);
                }
            }
        }
        i = i + 1;
    }
    assert(src.take(rows@.len() as int) == src);
    order
}

/// A copy of a reading.
fn copy_reading<V: Copy>(s: &SensorReading<V>) -> (r: SensorReading<V>)
    ensures
        row_of(r) == row_of(*s),
{
    SensorReading { name: s.name.clone(), value: s.value, unit: s.unit.clone() }
}

/// The readings of `info` in list order: the categorical `PerfCap Reason`
/// row stands in for performance-limit rows when a reason was decoded, the
/// memory clock is hidden, and rows order by group, priority and name, rows
/// with equal keys keeping their order. The categorical row's value is
/// `V::default()`.
pub fn ordered_sensors<V: Copy + Default>(info: &SysInfo<V>) -> (r: Vec<SensorReading<V>>)
    ensures
        exists|filler: V|
            (perfcap_reason_of(*info) is Some ==> call_ensures(V::default, (), filler))
                && stable_sorted(listed_rows(*info, filler), rows_of(r@)),
{
    let reason: Option<Vec<char>> = match &info.perfcap_reason {
        Some(text) => {
            let t = trim_chars(&chars_of(text.as_str()));
            if t.len() > 0 {
                Some(t)
            } else {
                None
            }
        },
        None => None,
    };
    let ghost base = rows_of(info.sensors@);
    let mut candidates: Vec<SensorReading<V>> = Vec::new();
    let drop_perfcap = reason.is_some();
    let mut i: usize = 0;
    while i < info.sensors.len()
        invariant
            i <= info.sensors@.len(),
            base == rows_of(info.sensors@),
            rows_of(candidates@) == (if drop_perfcap {
                without_perfcap(base.take(i as int))
            } else {
                base.take(i as int)
            }),
        decreases info.sensors@.len() - i,
    {
        let sensor = &info.sensors[i];
        proof {
            assert(base.take(i + 1).drop_last() == base.take(i as int));
            assert(base.take(i + 1).last() == row_of(*sensor));
        }
        if !drop_perfcap || metadata(sensor).kind != SensorKind::PerfCap {
            candidates.push(copy_reading(sensor));
        }
        i = i + 1;
    }
    assert(base.take(info.sensors@.len() as int) == base);
    let ghost mut filler: V = vstd::pervasive::arbitrary();
    match reason {
        Some(t) => {
            let value = V::default();
            proof {
                filler = value;
            }
            candidates.push(
                SensorReading { name: String::from_str("PerfCap Reason"), value, unit: string_of(&t) },
            );
        },
        None => {},
    }
    let ghost unfiltered = rows_of(candidates@);
    assert(unfiltered == (match perfcap_reason_of(*info) {
        Some(t) => without_perfcap(base).push(("PerfCap Reason"@, filler, t)),
        None => base,
    }));
    let mut visible: Vec<SensorReading<V>> = Vec::new();
    let mut k: usize = 0;
    while k < candidates.len()
        invariant
            k <= candidates@.len(),
            unfiltered == rows_of(candidates@),
            rows_of(visible@) == visible_rows(unfiltered.take(k as int)),
        decreases candidates@.len() - k,
    {
        let sensor = &candidates[k];
        proof {
            assert(unfiltered.take(k + 1).drop_last() == unfiltered.take(k as int));
            assert(unfiltered.take(k + 1).last() == row_of(*sensor));
        }
        if metadata(sensor).visible {
            visible.push(copy_reading(sensor));
        }
        k = k + 1;
    }
    assert(unfiltered.take(candidates@.len() as int) == unfiltered);
    let order = sorted_order(&visible);
    let ghost src = rows_of(visible@);
    let mut result: Vec<SensorReading<V>> = Vec::new();
    let mut m: usize = 0;
    while m < order.len()
        invariant
            m <= order@.len(),
            src == rows_of(visible@),
            sort_witness(src, picked(src, order@), positions(order@)),
            rows_of(result@) == picked(src, order@).take(m as int),
        decreases order@.len() - m,
    {
        proof {
            assert(positions(order@)[m as int] == order@[m as int] as int);
        }
        result.push(copy_reading(&visible[order[m]]));
        m = m + 1;
        assert(picked(src, order@).take(m as int) == picked(src, order@).take(m - 1).push(
            picked(src, order@)[m - 1],
        ));
    }
    assert(picked(src, order@).take(order@.len() as int) == picked(src, order@));
    assert(sort_witness(listed_rows(*info, filler), rows_of(result@), positions(order@)));
    result
}

/// What `ordered_sensors` gives for `info`, with `filler` as the value of
/// the categorical row.
pub open spec fn is_list_order<V: Default>(info: SysInfo<V>, filler: V, rows: Seq<(Seq<char>, V, Seq<char>)>) -> bool {
    &&& perfcap_reason_of(info) is Some ==> call_ensures(V::default, (), filler)
    &&& stable_sorted(listed_rows(info, filler), rows)
}

proof fn lemma_visible_rows_hide_memory_clock<V>(s: Seq<(Seq<char>, V, Seq<char>)>)
    ensures
        forall|i: int|
            0 <= i < visible_rows(s).len() ==> row_kind(#[trigger] visible_rows(s)[i])
                != SensorKind::MemoryClock,
        forall|i: int|
            0 <= i < visible_rows(s).len() ==> exists|j: int|
                0 <= j < s.len() && #[trigger] visible_rows(s)[i] == s[j],
    decreases s.len(),
{
    if s.len() > 0 {
        lemma_visible_rows_hide_memory_clock(s.drop_last());
        let v = visible_rows(s);
        let w = visible_rows(s.drop_last());
        assert forall|i: int| 0 <= i < v.len() implies exists|j: int|
            0 <= j < s.len() && #[trigger] v[i] == s[j] by {
            if i < w.len() {
                assert(v[i] == w[i]);
                let j = choose|j: int| 0 <= j < s.drop_last().len() && w[i] == s.drop_last()[j];
                assert(s[j] == s.drop_last()[j]);
            } else {
                assert(v[i] == s[s.len() - 1]);
            }
        }
        assert forall|i: int| 0 <= i < v.len() implies row_kind(#[trigger] v[i])
            != SensorKind::MemoryClock by {
            if i < w.len() {
                assert(v[i] == w[i]);
            }
        }
    }
}

proof fn lemma_without_perfcap_has_none<V>(s: Seq<(Seq<char>, V, Seq<char>)>)
    ensures
        forall|i: int|
            0 <= i < without_perfcap(s).len() ==> row_kind(#[trigger] without_perfcap(s)[i])
                != SensorKind::PerfCap,
    decreases s.len(),
{
    if s.len() > 0 {
        lemma_without_perfcap_has_none(s.drop_last());
        let v = without_perfcap(s);
        let w = without_perfcap(s.drop_last());
        assert forall|i: int| 0 <= i < v.len() implies row_kind(#[trigger] v[i])
            != SensorKind::PerfCap by {
            if i < w.len() {
                assert(v[i] == w[i]);
            }
        }
    }
}

proof fn lemma_filtered_lengths<V>(s: Seq<(Seq<char>, V, Seq<char>)>)
    ensures
        visible_rows(s).len() <= s.len(),
        without_perfcap(s).len() <= s.len(),
    decreases s.len(),
{
    if s.len() > 0 {
        lemma_filtered_lengths(s.drop_last());
    }
}

/// The ordered list has at most one row more than the snapshot has readings.
pub proof fn lemma_list_order_length<V: Default>(
    info: SysInfo<V>,
    filler: V,
    rows: Seq<(Seq<char>, V, Seq<char>)>,
)
    requires
        is_list_order(info, filler, rows),
    ensures
        rows.len() <= info.sensors@.len() + 1,
{
    let base = rows_of(info.sensors@);
    lemma_filtered_lengths(base);
    let pre = match perfcap_reason_of(info) {
        Some(t) => without_perfcap(base).push(("PerfCap Reason"@, filler, t)),
        None => base,
    };
    lemma_filtered_lengths(pre);
    let p = choose|p: Seq<int>| sort_witness(listed_rows(info, filler), rows, p);
}

/// The ordered sensor list never shows a memory clock row.
pub proof fn law_ordered_rows_hide_memory_clock<V: Default>(
    info: SysInfo<V>,
    filler: V,
    rows: Seq<(Seq<char>, V, Seq<char>)>,
)
    requires
        is_list_order(info, filler, rows),
    ensures
        forall|i: int| 0 <= i < rows.len() ==> row_kind(#[trigger] rows[i]) != SensorKind::MemoryClock,
{
    let src = listed_rows(info, filler);
    let p = choose|p: Seq<int>| sort_witness(src, rows, p);
    let base = rows_of(info.sensors@);
    let pre = match perfcap_reason_of(info) {
        Some(t) => without_perfcap(base).push(("PerfCap Reason"@, filler, t)),
        None => base,
    };
    lemma_visible_rows_hide_memory_clock(pre);
    assert forall|i: int| 0 <= i < rows.len() implies row_kind(#[trigger] rows[i])
        != SensorKind::MemoryClock by {
        assert(rows[i] == src[p[i]]);
    }
}

/// With a decoded reason, the only performance-limit row of the ordered
/// list is the categorical one, named `PerfCap Reason` and showing the
/// reason as its unit; the provider's own limit rows are gone.
#[verifier::spinoff_prover]
pub proof fn law_perfcap_reason_replaces_provider_rows<V: Default>(
    info: SysInfo<V>,
    filler: V,
    rows: Seq<(Seq<char>, V, Seq<char>)>,
    reason: Seq<char>,
)
    requires
        is_list_order(info, filler, rows),
        perfcap_reason_of(info) == Some(reason),
    ensures
        forall|i: int|
            0 <= i < rows.len() && row_kind(#[trigger] rows[i]) == SensorKind::PerfCap ==> rows[i]
                == ("PerfCap Reason"@, filler, reason),
        forall|i: int, j: int|
            0 <= i < rows.len() && 0 <= j < rows.len() && row_kind(#[trigger] rows[i])
                == SensorKind::PerfCap && row_kind(#[trigger] rows[j]) == SensorKind::PerfCap
                ==> i == j,
{
    let src = listed_rows(info, filler);
    let p = choose|p: Seq<int>| sort_witness(src, rows, p);
    let wp = without_perfcap(rows_of(info.sensors@));
    let row = ("PerfCap Reason"@, filler, reason);
    let pre = wp.push(row);
    lemma_without_perfcap_has_none(rows_of(info.sensors@));
    lemma_visible_rows_hide_memory_clock(pre);
    // Every row of `src` other than `row` itself comes from `wp`.
    assert forall|k: int| 0 <= k < src.len() && row_kind(#[trigger] src[k]) == SensorKind::PerfCap
        implies src[k] == row by {
        let j = choose|j: int| 0 <= j < pre.len() && src[k] == pre[j];
        if j < wp.len() {
            assert(pre[j] == wp[j]);
        }
    }
    assert forall|i: int|
        0 <= i < rows.len() && row_kind(#[trigger] rows[i]) == SensorKind::PerfCap implies rows[i]
        == row by {
        assert(rows[i] == src[p[i]]);
    }
    // `src` holds `row` at most once: it is `visible_rows(wp)` followed by
    // `row`, and `wp` has no performance-limit row.
    let vw = visible_rows(wp);
    assert(pre.drop_last() == wp);
    assert(pre.last() == row);
    if row_kind(row) == SensorKind::MemoryClock {
        assert(src == vw);
    } else {
        assert(src == vw.push(row));
    }
    lemma_visible_rows_hide_memory_clock(wp);
    assert forall|k: int| 0 <= k < vw.len() implies row_kind(#[trigger] vw[k])
        != SensorKind::PerfCap by {
        let j = choose|j: int| 0 <= j < wp.len() && vw[k] == wp[j];
    }
    assert forall|i: int, j: int|
        0 <= i < rows.len() && 0 <= j < rows.len() && row_kind(#[trigger] rows[i])
            == SensorKind::PerfCap && row_kind(#[trigger] rows[j]) == SensorKind::PerfCap
        implies i == j by {
        assert(rows[i] == src[p[i]]);
        assert(rows[j] == src[p[j]]);
        if p[i] < vw.len() {
            assert(src[p[i]] == vw[p[i]]);
        }
        if p[j] < vw.len() {
            assert(src[p[j]] == vw[p[j]]);
        }
        if i != j {
            if i < j {
                assert(p[i] != p[j]);
            } else {
                assert(p[j] != p[i]);
            }
        }
    }
}

// ---------------------------------------------------------------------------
// GeForce RTX 50 detection and row labels
// ---------------------------------------------------------------------------

/// The first position at or after `i` where `needle` occurs in `hay`, or
/// `hay.len() + 1` when there is none.
pub open spec fn first_occurrence_from(hay: Seq<char>, needle: Seq<char>, i: int) -> int
    decreases hay.len() + 1 - i,
{
    if i < 0 || i > hay.len() {
        hay.len() + 1int
    } else if occurs_at(hay, needle, i) {
        i
    } else {
        first_occurrence_from(hay, needle, i + 1)
    }
}

/// The number of ASCII digits that `s` starts with.
pub open spec fn leading_digits(s: Seq<char>) -> nat
    decreases s.len(),
{
    if s.len() > 0 && is_ascii_digit(s[0]) {
        1 + leading_digits(s.drop_first())
    } else {
        0
    }
}

/// Whether a GPU name names a GeForce RTX 50-series board: after the first
/// `rtx ` (ignoring ASCII case) come at least four digits starting `50`.
pub open spec fn rtx_50_name(name: Seq<char>) -> bool {
    let l = lower_ascii(name);
    let k = first_occurrence_from(l, "rtx "@, 0);
    &&& contains(l, "geforce rtx"@)
    &&& k + 4 <= l.len()
    &&& leading_digits(l.skip(k + 4)) >= 4
    &&& l.skip(k + 4).take(2) == "50"@
}

pub open spec fn rtx_50(gpu_name: Option<Seq<char>>) -> bool {
    match gpu_name {
        Some(n) => rtx_50_name(n),
        None => false,
    }
}

proof fn lemma_first_occurrence_found(hay: Seq<char>, needle: Seq<char>, i: int)
    requires
        0 <= i <= hay.len(),
    ensures
        first_occurrence_from(hay, needle, i) <= hay.len() ==> occurs_at(
            hay,
            needle,
            first_occurrence_from(hay, needle, i),
        ),
    decreases hay.len() + 1 - i,
{
    if !occurs_at(hay, needle, i) {
        if i < hay.len() {
            lemma_first_occurrence_found(hay, needle, i + 1);
        } else {
            assert(first_occurrence_from(hay, needle, i + 1) == hay.len() + 1);
        }
    }
}

proof fn lemma_no_occurrence_near_end(hay: Seq<char>, needle: Seq<char>, i: int)
    requires
        i >= 0,
        i + needle.len() > hay.len(),
    ensures
        first_occurrence_from(hay, needle, i) == hay.len() + 1,
    decreases hay.len() + 1 - i,
{
    if i <= hay.len() {
        lemma_no_occurrence_near_end(hay, needle, i + 1);
    }
}

fn count_leading_digits(s: &[char], from: usize) -> (r: usize)
    requires
        from <= s@.len(),
    ensures
        r as nat == leading_digits(s@.skip(from as int)),
        from + r <= s@.len(),
{
    let mut i: usize = from;
    assert(leading_digits(s@.skip(from as int)) == (i - from) + leading_digits(s@.skip(i as int)));
    while i < s.len() && '0' <= s[i] && s[i] <= '9'
        invariant
            from <= i <= s@.len(),
            leading_digits(s@.skip(from as int)) == (i - from) + leading_digits(s@.skip(i as int)),
        decreases s@.len() - i,
    {
        proof {
            assert(s@.skip(i as int).drop_first() == s@.skip(i + 1));
            assert(s@.skip(i as int)[0] == s@[i as int]);
        }
        i = i + 1;
    }
    proof {
        if i < s@.len() {
            assert(s@.skip(i as int)[0] == s@[i as int]);
        }
    }
    i - from
}

/// Whether the GPU is a GeForce RTX 50-series board.
pub fn is_geforce_rtx_50_series(gpu_name: Option<&str>) -> (r: bool)
    ensures
        r == rtx_50(crate::text::str_opt_view(gpu_name)),
{
    let name = match gpu_name {
        Some(n) => n,
        None => return false,
    };
    let l = lower_chars(&chars_of(name));
    if !contains_chars(&l, &chars_of("geforce rtx")) {
        return false;
    }
    let needle = chars_of("rtx ");
    proof {
        reveal_strlit("rtx ");
    }
    if l.len() < 4 {
        proof {
            lemma_no_occurrence_near_end(l@, needle@, 0);
        }
        return false;
    }
    let last = l.len() - 4;
    let mut k: usize = 0;
    while k <= last && !occurs_at_exec(&l, &needle, k)
        invariant
            k <= last + 1,
            last + 4 == l.len(),
            last == l@.len() - 4,
            needle@ == "rtx "@,
            needle@.len() == 4,
            first_occurrence_from(l@, needle@, 0) == first_occurrence_from(l@, needle@, k as int),
        decreases last + 1 - k,
    {
        k = k + 1;
    }
    if k > last {
        proof {
            lemma_no_occurrence_near_end(l@, needle@, k as int);
        }
        return false;
    }
    assert(first_occurrence_from(l@, needle@, 0) == k);
    let digits = count_leading_digits(&l, k + 4);
    if digits < 4 {
        return false;
    }
    proof {
        reveal_strlit("50");
        assert(l@.skip(k + 4).take(2) == seq![l@[k + 4], l@[k + 5]]);
        assert("50"@ == seq!['5', '0']);
    }
    l[k + 4] == '5' && l[k + 5] == '0'
}

/// The list label of a reading: a HotSpot on a GeForce RTX 50-series board
/// carries the localized beta mark; the sensor id is not affected.
pub open spec fn label_of<V>(sensor: SensorReading<V>, info: SysInfo<V>, language: Language) -> Seq<char> {
    if reading_kind(sensor) == SensorKind::HotspotTemperature && rtx_50(
        crate::text::string_opt_view(info.gpu_name),
    ) {
        sensor.name@ + " ("@ + text_of(language, Key::Beta) + ")"@
    } else {
        sensor.name@
    }
}

/// The label shown for a sensor row.
pub fn sensor_label<V>(sensor: &SensorReading<V>, info: &SysInfo<V>, language: Language) -> (r: String)
    ensures
        r@ == label_of(*sensor, *info, language),
{
    let gpu_name: Option<&str> = match &info.gpu_name {
        Some(n) => Some(n.as_str()),
        None => None,
    };
    if metadata(sensor).kind == SensorKind::HotspotTemperature && is_geforce_rtx_50_series(gpu_name) {
        let mut r = sensor.name.clone();
        r.append(" (");
        r.append(language.text(Key::Beta));
        r.append(")");
        r
    } else {
        sensor.name.clone()
    }
}

// ---------------------------------------------------------------------------
// Hit testing of the sensor list
// ---------------------------------------------------------------------------

pub open spec fn row_group<V>(r: (Seq<char>, V, Seq<char>)) -> SensorGroup {
    group_of(row_kind(r))
}

/// How many group headings the list draws down to row `k`.
pub open spec fn heading_count<V>(rows: Seq<(Seq<char>, V, Seq<char>)>, k: int) -> int
    decreases k + 1,
{
    if k < 0 {
        0
    } else {
        heading_count(rows, k - 1) + if k == 0 || row_group(rows[k]) != row_group(rows[k - 1]) {
            1int
        } else {
            0int
        }
    }
}

/// The top edge of row `k` of the list.
pub open spec fn row_top<V>(rows: Seq<(Seq<char>, V, Seq<char>)>, k: int) -> int {
    LIST_TOP + LIST_HEADER_HEIGHT + GROUP_HEADING_HEIGHT * heading_count(rows, k) + ROW_HEIGHT * k
}

/// The number of rows the list shows.
pub open spec fn shown_rows<V>(rows: Seq<(Seq<char>, V, Seq<char>)>) -> int {
    if rows.len() < MAX_ROWS {
        rows.len() as int
    } else {
        MAX_ROWS as int
    }
}

/// The first shown row, from row `k` on, whose band holds `y`.
pub open spec fn row_at_from<V>(rows: Seq<(Seq<char>, V, Seq<char>)>, y: int, k: int) -> Option<
    (Seq<char>, V, Seq<char>),
>
    decreases shown_rows(rows) - k,
{
    if k < 0 || k >= shown_rows(rows) {
        None
    } else if row_top(rows, k) <= y < row_top(rows, k) + ROW_HEIGHT {
        Some(rows[k])
    } else {
        row_at_from(rows, y, k + 1)
    }
}

pub open spec fn row_at<V>(rows: Seq<(Seq<char>, V, Seq<char>)>, y: int) -> Option<
    (Seq<char>, V, Seq<char>),
> {
    row_at_from(rows, y, 0)
}

pub open spec fn opt_row<V>(r: Option<SensorReading<V>>) -> Option<(Seq<char>, V, Seq<char>)> {
    match r {
        Some(s) => Some(row_of(s)),
        None => None,
    }
}

/// The sensor whose list row spans height `y`.
pub fn sensor_at<V: Copy + Default>(info: &SysInfo<V>, y: i32) -> (r: Option<SensorReading<V>>)
    ensures
        exists|filler: V, rows: Seq<(Seq<char>, V, Seq<char>)>|
            is_list_order(*info, filler, rows) && opt_row(r) == row_at(rows, y as int),
{
    let sensors = ordered_sensors(info);
    let ghost rows = rows_of(sensors@);
    let ghost filler = choose|filler: V|
        (perfcap_reason_of(*info) is Some ==> call_ensures(V::default, (), filler))
            && stable_sorted(listed_rows(*info, filler), rows);
    assert(is_list_order(*info, filler, rows));
    let shown: usize = if sensors.len() < MAX_ROWS {
        sensors.len()
    } else {
        MAX_ROWS
    };
    let mut current_y: i32 = LIST_TOP + LIST_HEADER_HEIGHT;
    let mut previous: Option<SensorGroup> = None;
    let mut k: usize = 0;
    assert(row_at(rows, y as int) == row_at_from(rows, y as int, 0));
    while k < shown
        invariant
            k <= shown,
            shown as int == shown_rows(rows),
            rows == rows_of(sensors@),
            is_list_order(*info, filler, rows),
            row_at(rows, y as int) == row_at_from(rows, y as int, k as int),
            current_y == LIST_TOP + LIST_HEADER_HEIGHT + GROUP_HEADING_HEIGHT * heading_count(
                rows,
                k - 1,
            ) + ROW_HEIGHT * k,
            heading_count(rows, k - 1) <= k,
            k == 0 <==> previous is None,
            k > 0 ==> previous == Some(row_group(rows[k - 1])),
        decreases shown - k,
    {
        let group = metadata(&sensors[k]).group;
        proof {
            assert(rows[k as int] == row_of(sensors@[k as int]));
        }
        let starts = match previous {
            Some(g) => g != group,
            None => true,
        };
        if starts {
            current_y = current_y + GROUP_HEADING_HEIGHT;
            previous = Some(group);
        }
        proof {
            assert(heading_count(rows, k as int) == heading_count(rows, k - 1) + if starts {
                1int
            } else {
                0int
            });
        }
        if current_y <= y && y < current_y + ROW_HEIGHT {
            let found = copy_reading(&sensors[k]);
            proof {
                assert(row_top(rows, k as int) == current_y);
                assert(row_at_from(rows, y as int, k as int) == Some(rows[k as int]));
                assert(is_list_order(*info, filler, rows) && opt_row(Some(found)) == row_at(
                    rows,
                    y as int,
                ));
            }
            return Some(found);
        }
        current_y = current_y + ROW_HEIGHT;
        k = k + 1;
    }
    assert(is_list_order(*info, filler, rows) && opt_row(None::<SensorReading<V>>) == row_at(
        rows,
        y as int,
    ));
    None
}

/// The sensor under a point of the list; points right or left of the list
/// hit nothing.
pub fn sensor_at_point<V: Copy + Default>(info: &SysInfo<V>, x: i32, y: i32) -> (r: Option<
    SensorReading<V>,
>)
    ensures
        !(LIST_LEFT <= x < LIST_LEFT + LIST_WIDTH) ==> r is None,
        LIST_LEFT <= x < LIST_LEFT + LIST_WIDTH ==> exists|
            filler: V,
            rows: Seq<(Seq<char>, V, Seq<char>)>,
        | is_list_order(*info, filler, rows) && opt_row(r) == row_at(rows, y as int),
{
    if !(LIST_LEFT <= x && x < LIST_LEFT + LIST_WIDTH) {
        return None;
    }
    sensor_at(info, y)
}

// ---------------------------------------------------------------------------
// What the dashboard shows
// ---------------------------------------------------------------------------

/// The stable id of a row.
pub open spec fn row_id<V>(r: (Seq<char>, V, Seq<char>)) -> Seq<char> {
    crate::sensor_model::id_of(r.0, r.2)
}

/// The list label of a row (see `label_of`).
pub open spec fn row_label<V>(r: (Seq<char>, V, Seq<char>), info: SysInfo<V>, language: Language) -> Seq<char> {
    if row_kind(r) == SensorKind::HotspotTemperature && rtx_50(
        crate::text::string_opt_view(info.gpu_name),
    ) {
        r.0 + " ("@ + text_of(language, Key::Beta) + ")"@
    } else {
        r.0
    }
}

/// Whether a row shows its unit as its value: the categorical
/// `PerfCap Reason` row, whose unit is the decoded reason.
pub open spec fn shows_unit_only<V>(r: (Seq<char>, V, Seq<char>)) -> bool {
    row_kind(r) == SensorKind::PerfCap && lower_ascii(trim(r.0)) == "perfcap reason"@
}

/// The value text of a reading when it is not a number: the unit of the
/// categorical `PerfCap Reason` row; `None` for every reading shown as its
/// number and unit.
pub fn categorical_value<V>(sensor: &SensorReading<V>) -> (r: Option<String>)
    ensures
        shows_unit_only(row_of(*sensor)) ==> (r matches Some(t) && t@ == sensor.unit@),
        !shows_unit_only(row_of(*sensor)) ==> r is None,
{
    if metadata(sensor).kind == SensorKind::PerfCap {
        let name = lower_chars(&trim_chars(&chars_of(sensor.name.as_str())));
        if chars_equal(&name, &chars_of("perfcap reason")) {
            return Some(sensor.unit.clone());
        }
    }
    None
}

/// The first row at or after `k` whose id is `id`; the length when none is.
pub open spec fn first_with_id<V>(rows: Seq<(Seq<char>, V, Seq<char>)>, id: Seq<char>, k: int) -> int
    decreases rows.len() - k,
{
    if k < 0 || k >= rows.len() {
        rows.len() as int
    } else if row_id(rows[k]) == id {
        k
    } else {
        first_with_id(rows, id, k + 1)
    }
}

/// What the selected-sensor panel shows.
#[derive(Debug)]
pub enum SelectedPanel<V> {
    /// Nothing is selected, or the selected sensor is not in the snapshot:
    /// the prompt to choose a sensor.
    Choose,
    /// The categorical performance-limit row: its label and value as text,
    /// with no numeric graph.
    Categorical { label: String, reading: SensorReading<V> },
    /// A numeric row: its label, its reading, and whether its session
    /// maximum is shown in place of its current value.
    Numeric { label: String, reading: SensorReading<V>, shows_maximum: bool },
}

/// The panel for list `rows`, the selected id and the tracked ids.
pub open spec fn panel_for<V>(
    rows: Seq<(Seq<char>, V, Seq<char>)>,
    selection: Option<Seq<char>>,
    tracking: Set<Seq<char>>,
    info: SysInfo<V>,
    language: Language,
    p: SelectedPanel<V>,
) -> bool {
    match selection {
        None => p is Choose,
        Some(id) => {
            let k = first_with_id(rows, id, 0);
            if k >= rows.len() {
                p is Choose
            } else if row_kind(rows[k]) == SensorKind::PerfCap {
                p matches SelectedPanel::Categorical { label, reading } && label@ == row_label(
                    rows[k],
                    info,
                    language,
                ) && row_of(reading) == rows[k]
            } else {
                p matches SelectedPanel::Numeric { label, reading, shows_maximum } && label@
                    == row_label(rows[k], info, language) && row_of(reading) == rows[k]
                    && shows_maximum == tracking.contains(id)
            }
        },
    }
}

/// What the selected-sensor panel shows: the prompt to choose a sensor when
/// nothing is selected or the selected id is on no row of the list; the
/// first row with that id as text only when it is a performance-limit row;
/// otherwise that row as a number, showing its maximum when it is tracked.
pub fn selected_panel<V: Copy + Default, S>(
    info: &SysInfo<V>,
    history: &SensorHistory<V, S>,
    language: Language,
) -> (r: SelectedPanel<V>)
    ensures
        exists|filler: V, rows: Seq<(Seq<char>, V, Seq<char>)>|
            is_list_order(*info, filler, rows) && panel_for(
                rows,
                history.selection(),
                history.tracking(),
                *info,
                language,
                r,
            ),
{
    let sensors = ordered_sensors(info);
    let ghost rows = rows_of(sensors@);
    let ghost filler = choose|filler: V|
        (perfcap_reason_of(*info) is Some ==> call_ensures(V::default, (), filler))
            && stable_sorted(listed_rows(*info, filler), rows);
    assert(is_list_order(*info, filler, rows));
    let id = match history.selected_id() {
        None => {
            assert(panel_for(rows, history.selection(), history.tracking(), *info, language, SelectedPanel::<V>::Choose));
            return SelectedPanel::Choose;
        },
        Some(id) => id,
    };
    let mut k: usize = 0;
    while k < sensors.len()
        invariant
            k <= sensors@.len(),
            rows == rows_of(sensors@),
            first_with_id(rows, id@, 0) == first_with_id(rows, id@, k as int),
            history.selection() == Some(id@),
            is_list_order(*info, filler, rows),
        decreases sensors@.len() - k,
    {
        proof {
            assert(rows[k as int] == row_of(sensors@[k as int]));
        }
        if sensor_id(&sensors[k]).same_as(id) {
            let label = sensor_label(&sensors[k], info, language);
            let reading = copy_reading(&sensors[k]);
            proof {
                assert(first_with_id(rows, id@, k as int) == k);
                assert(label@ == row_label(rows[k as int], *info, language));
            }
            if metadata(&sensors[k]).kind == SensorKind::PerfCap {
                let r = SelectedPanel::Categorical { label, reading };
                assert(history.selection() == Some(id@));
                assert(first_with_id(rows, id@, 0) == k);
                assert(row_kind(rows[k as int]) == SensorKind::PerfCap);
                assert(row_of(reading) == rows[k as int]);
                assert(panel_for(rows, history.selection(), history.tracking(), *info, language, r));
                return r;
            }
            let shows_maximum = history.is_tracked(id);
            let r = SelectedPanel::Numeric { label, reading, shows_maximum };
            assert(panel_for(rows, history.selection(), history.tracking(), *info, language, r));
            return r;
        }
        k = k + 1;
    }
    SelectedPanel::Choose
}

/// The line on which row `k` of the list is drawn: group headings take 20
/// pixels, with 3 more between groups.
pub open spec fn row_text_y<V>(rows: Seq<(Seq<char>, V, Seq<char>)>, k: int) -> int {
    LIST_TOP + 39 + 23 * heading_count(rows, k) + ROW_HEIGHT * k
}

/// Whether row `k` opens a group, and so has the group's heading above it.
pub open spec fn opens_group<V>(rows: Seq<(Seq<char>, V, Seq<char>)>, k: int) -> bool {
    k == 0 || row_group(rows[k]) != row_group(rows[k - 1])
}

/// A row of the dashboard's sensor list as it is drawn.
#[derive(Debug)]
pub struct DashboardRow<V> {
    pub reading: SensorReading<V>,
    pub label: String,
    /// The group heading drawn above the row, when the row opens a group.
    pub heading: Option<SensorGroup>,
    /// The top of the band in which a click picks this row.
    pub top: i32,
    /// The line on which the row's text is drawn.
    pub text_y: i32,
    /// Whether the row is the selected one.
    pub highlighted: bool,
}

/// Row `k` of the drawn list for list `rows` and the selected id.
pub open spec fn dashboard_row_for<V>(
    rows: Seq<(Seq<char>, V, Seq<char>)>,
    k: int,
    selected: Option<Seq<char>>,
    info: SysInfo<V>,
    language: Language,
    d: DashboardRow<V>,
) -> bool {
    &&& row_of(d.reading) == rows[k]
    &&& d.label@ == row_label(rows[k], info, language)
    &&& d.heading == (if opens_group(rows, k) {
        Some(row_group(rows[k]))
    } else {
        None
    })
    &&& d.top == row_top(rows, k)
    &&& d.text_y == row_text_y(rows, k)
    &&& d.highlighted == (selected == Some(row_id(rows[k])))
}

/// The rows the dashboard draws, in list order and at most `MAX_ROWS` of
/// them: each with its label, the heading of the group it opens, the band
/// in which a click picks it (the one `sensor_at_point` tests), the line its
/// text is drawn on, and whether it is the selected row.
pub fn dashboard_rows<V: Copy + Default>(
    info: &SysInfo<V>,
    selected: Option<&SensorId>,
    language: Language,
) -> (r: Vec<DashboardRow<V>>)
    ensures
        exists|filler: V, rows: Seq<(Seq<char>, V, Seq<char>)>|
            {
                &&& is_list_order(*info, filler, rows)
                &&& r@.len() == shown_rows(rows)
                &&& forall|k: int|
                    0 <= k < r@.len() ==> dashboard_row_for(
                        rows,
                        k,
                        match selected {
                            Some(id) => Some(id@),
                            None => None,
                        },
                        *info,
                        language,
                        #[trigger] r@[k],
                    )
            },
{
    let sensors = ordered_sensors(info);
    let ghost rows = rows_of(sensors@);
    let ghost chosen: Option<Seq<char>> = match selected {
        Some(id) => Some(id@),
        None => None,
    };
    let ghost filler = choose|filler: V|
        (perfcap_reason_of(*info) is Some ==> call_ensures(V::default, (), filler))
            && stable_sorted(listed_rows(*info, filler), rows);
    assert(is_list_order(*info, filler, rows));
    let shown: usize = if sensors.len() < MAX_ROWS {
        sensors.len()
    } else {
        MAX_ROWS
    };
    let mut out: Vec<DashboardRow<V>> = Vec::new();
    let mut previous: Option<SensorGroup> = None;
    let mut headings: i32 = 0;
    let mut k: usize = 0;
    while k < shown
        invariant
            k <= shown,
            shown as int == shown_rows(rows),
            shown <= MAX_ROWS,
            rows == rows_of(sensors@),
            is_list_order(*info, filler, rows),
            out@.len() == k,
            headings == heading_count(rows, k - 1),
            0 <= heading_count(rows, k - 1) <= k,
            k == 0 <==> previous is None,
            k > 0 ==> previous == Some(row_group(rows[k - 1])),
            chosen == (match selected {
                Some(id) => Some(id@),
                None => None,
            }),
            forall|j: int| 0 <= j < k ==> dashboard_row_for(rows, j, chosen, *info, language, #[trigger] out@[j]),
        decreases shown - k,
    {
        let group = metadata(&sensors[k]).group;
        proof {
            assert(rows[k as int] == row_of(sensors@[k as int]));
        }
        let starts = match previous {
            Some(g) => g != group,
            None => true,
        };
        if starts {
            headings = headings + 1;
            previous = Some(group);
        }
        proof {
            assert(heading_count(rows, k as int) == heading_count(rows, k - 1) + if starts {
                1int
            } else {
                0int
            });
        }
        let kk = k as i32;
        let top = LIST_TOP + LIST_HEADER_HEIGHT + GROUP_HEADING_HEIGHT * headings + ROW_HEIGHT * kk;
        let text_y = LIST_TOP + 39 + 23 * headings + ROW_HEIGHT * kk;
        let highlighted = match selected {
            Some(id) => sensor_id(&sensors[k]).same_as(id),
            None => false,
        };
        let row = DashboardRow {
            reading: copy_reading(&sensors[k]),
            label: sensor_label(&sensors[k], info, language),
            heading: if starts {
                Some(group)
            } else {
                None
            },
            top,
            text_y,
            highlighted,
        };
        proof {
            assert(row.label@ == row_label(rows[k as int], *info, language));
            assert(row.highlighted == (chosen == Some(row_id(rows[k as int]))));
            assert(dashboard_row_for(rows, k as int, chosen, *info, language, row));
        }
        let ghost before = out@;
        out.push(row);
        proof {
            assert forall|j: int| 0 <= j < k + 1 implies dashboard_row_for(rows, j, chosen, *info, language, #[trigger] out@[j]) by {
                if j < k {
                    assert(out@[j] == before[j]);
                }
            }
        }
        k = k + 1;
    }
    out
}

proof fn lemma_heading_count_grows<V>(rows: Seq<(Seq<char>, V, Seq<char>)>, j: int, k: int)
    requires
        j <= k,
    ensures
        heading_count(rows, j) <= heading_count(rows, k),
    decreases k - j,
{
    if j < k {
        lemma_heading_count_grows(rows, j, k - 1);
    }
}

proof fn lemma_band_found_from<V>(rows: Seq<(Seq<char>, V, Seq<char>)>, k: int, y: int, j: int)
    requires
        0 <= j <= k < shown_rows(rows),
        row_top(rows, k) <= y < row_top(rows, k) + ROW_HEIGHT,
    ensures
        row_at_from(rows, y, j) == Some(rows[k]),
    decreases k - j,
{
    if j < k {
        lemma_heading_count_grows(rows, j, k);
        lemma_band_found_from(rows, k, y, j + 1);
    }
}

/// A click anywhere in the band of a listed row picks that row: the bands
/// that `dashboard_rows` reports are the ones that `sensor_at_point` tests.
pub proof fn law_drawn_rows_are_clicked_rows<V>(rows: Seq<(Seq<char>, V, Seq<char>)>, k: int, y: int)
    requires
        0 <= k < shown_rows(rows),
        row_top(rows, k) <= y < row_top(rows, k) + ROW_HEIGHT,
    ensures
        row_at(rows, y) == Some(rows[k]),
{
    lemma_band_found_from(rows, k, y, 0);
}

/// The list is in order: GPU rows come first, then activity rows, then
/// system rows; within a group, rows of a kind with a smaller priority come
/// first; rows of one group and priority are listed by name in ascending
/// lexicographic order, rows that agree on all three keeping the
/// snapshot's order; and every listed row is one of the snapshot's rows,
/// each taken once.
pub proof fn law_list_order_is_group_priority_name<V: Default>(
    info: SysInfo<V>,
    filler: V,
    rows: Seq<(Seq<char>, V, Seq<char>)>,
    i: int,
    j: int,
)
    requires
        is_list_order(info, filler, rows),
        0 <= i < j < rows.len(),
    ensures
        group_of(row_kind(rows[j])) == SensorGroup::Gpu ==> group_of(row_kind(rows[i]))
            == SensorGroup::Gpu,
        group_of(row_kind(rows[i])) == SensorGroup::System ==> group_of(row_kind(rows[j]))
            == SensorGroup::System,
        group_of(row_kind(rows[i])) == group_of(row_kind(rows[j])) ==> priority_of(
            row_kind(rows[i]),
        ) <= priority_of(row_kind(rows[j])),
        group_of(row_kind(rows[i])) == group_of(row_kind(rows[j])) && priority_of(
            row_kind(rows[i]),
        ) == priority_of(row_kind(rows[j])) ==> !seq_less(rows[j].0, rows[i].0),
        rows.len() == listed_rows(info, filler).len(),
        group_of(row_kind(rows[i])) == group_of(row_kind(rows[j])) && priority_of(
            row_kind(rows[i]),
        ) == priority_of(row_kind(rows[j])) && rows[i].0 == rows[j].0 ==> exists|a: int, b: int|
            0 <= a < b < listed_rows(info, filler).len() && rows[i] == listed_rows(info, filler)[a]
                && rows[j] == listed_rows(info, filler)[b],
        exists|a: int, b: int|
            0 <= a < listed_rows(info, filler).len() && 0 <= b < listed_rows(info, filler).len()
                && a != b && rows[i] == listed_rows(info, filler)[a] && rows[j] == listed_rows(
                info,
                filler,
            )[b],
{
    let src = listed_rows(info, filler);
    let p = choose|p: Seq<int>| sort_witness(src, rows, p);
    assert(!key_less(rows[j], rows[i]));
    assert(rows[i] == src[p[i]] && rows[j] == src[p[j]] && p[i] != p[j]);
    if group_of(row_kind(rows[i])) == group_of(row_kind(rows[j])) && priority_of(row_kind(rows[i]))
        == priority_of(row_kind(rows[j])) && rows[i].0 == rows[j].0 {
        assert(key_same(rows[i], rows[j]));
        assert(p[i] < p[j]);
    }
}

} // verus!
