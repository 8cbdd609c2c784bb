//! Stable sensor identities and presentation metadata.
//!
//! A reading's kind is decided from its (trimmed, ASCII-lowercased) name and
//! unit; known aliases of the same physical sensor share one stable id, and
//! every other sensor gets an id built from its normalized unit and name.

use vstd::prelude::*;
use crate::telemetry::SensorReading;
use crate::text::{
    chars_of, contains, contains_chars, lower_ascii, lower_chars, string_of, trim, trim_chars,
    append_str,
};

verus! {

/// A stable identity for a sensor row, kept across provider renames.
#[derive(Clone, Debug, Eq, Hash)]
pub struct SensorId(String);

impl View for SensorId {
    type V = Seq<char>;

    closed spec fn view(&self) -> Seq<char> {
        self.0@
    }
}

impl PartialEq for SensorId {
    fn eq(&self, other: &Self) -> (r: bool) {
        self.0 == other.0
    }
}

impl vstd::std_specs::cmp::PartialEqSpecImpl for SensorId {
    open spec fn obeys_eq_spec() -> bool {
        true
    }

    open spec fn eq_spec(&self, other: &Self) -> bool {
        self@ == other@
    }
}

impl SensorId {
    /// Whether both ids name the same sensor.
    pub fn same_as(&self, other: &SensorId) -> (r: bool)
        ensures
            r == (self@ == other@),
    {
        self.0 == other.0
    }

    /// The id's text.
    pub fn as_str(&self) -> (r: &str)
        ensures
            r@ == self@,
    {
        self.0.as_str()
    }

    /// A copy of this id.
    pub fn duplicate(&self) -> (r: SensorId)
        ensures
            r@ == self@,
    {
        SensorId(self.0.clone())
    }
}

#[derive(Clone, Copy, Debug, PartialEq, Eq, Structural, PartialOrd, Ord, Hash)]
pub enum SensorGroup {
    Gpu,
    Activity,
    System,
}

#[derive(Clone, Copy, Debug, PartialEq, Eq, Structural, Hash)]
pub enum SensorKind {
    GpuCoreTemperature,
    HotspotTemperature,
    MemoryTemperature,
    Fan,
    GpuClock,
    MemoryClock,
    Power,
    Voltage,
    PerfCap,
    Cpu,
    Other,
}

#[derive(Clone, Debug)]
pub struct SensorMetadata {
    pub id: SensorId,
    pub group: SensorGroup,
    pub kind: SensorKind,
    pub priority: u8,
    pub visible: bool,
    pub graphable: bool,
}

// ---------------------------------------------------------------------------
// Model
// ---------------------------------------------------------------------------

/// What `char::to_lowercase` yields for `c` (Unicode lowercase mapping).
pub uninterp spec fn unicode_lowercase(c: char) -> Seq<char>;

/// What `char::is_alphanumeric` says of `c` (Unicode Alphabetic or Numeric).
pub uninterp spec fn unicode_alphanumeric(c: char) -> bool;

/// `s` with every character replaced by its Unicode lowercase mapping.
pub open spec fn lowercased(s: Seq<char>) -> Seq<char>
    decreases s.len(),
{
    if s.len() == 0 {
        Seq::empty()
    } else {
        lowercased(s.drop_last()) + unicode_lowercase(s.last())
    }
}

/// Joins the runs of characters flagged alphanumeric with single dots,
/// dropping everything else: the text written so far and whether a
/// separator is pending.
pub open spec fn join_runs_state(chars: Seq<char>, alphanumeric: Seq<bool>) -> (Seq<char>, bool)
    decreases chars.len(),
{
    if chars.len() == 0 {
        (Seq::empty(), false)
    } else {
        let (r, pending) = join_runs_state(chars.drop_last(), alphanumeric);
        let i = chars.len() - 1;
        if alphanumeric[i] {
            ((if pending && r.len() > 0 {
                r.push('.')
            } else {
                r
            }).push(chars[i]), false)
        } else {
            (r, true)
        }
    }
}

pub open spec fn join_runs(chars: Seq<char>, alphanumeric: Seq<bool>) -> Seq<char> {
    join_runs_state(chars, alphanumeric).0
}

/// Lowercased `s` reduced to its alphanumeric runs joined by dots.
pub open spec fn normalized_text(s: Seq<char>) -> Seq<char> {
    let l = lowercased(s);
    join_runs(l, l.map_values(|c: char| unicode_alphanumeric(c)))
}

pub open spec fn is_temperature_unit(unit: Seq<char>) -> bool {
    contains(unit, "°"@) && contains(unit, "c"@)
}

pub open spec fn is_clock_unit(unit: Seq<char>) -> bool {
    unit == "mhz"@ || unit == "ghz"@
}

/// The kind of a sensor from its lowercased, trimmed name and unit.
pub open spec fn kind_of(lower: Seq<char>, unit: Seq<char>) -> SensorKind {
    let temperature = is_temperature_unit(unit);
    let clock = is_clock_unit(unit);
    if temperature && (contains(lower, "hot spot"@) || contains(lower, "hotspot"@)) {
        SensorKind::HotspotTemperature
    } else if temperature && (contains(lower, "memory temperature"@) || contains(
        lower,
        "memory junction"@,
    )) {
        SensorKind::MemoryTemperature
    } else if temperature && contains(lower, "gpu core"@) {
        SensorKind::GpuCoreTemperature
    } else if contains(lower, "perfcap"@) || contains(lower, "performance limit"@) {
        SensorKind::PerfCap
    } else if contains(lower, "fan"@) && unit == "rpm"@ {
        SensorKind::Fan
    } else if clock && contains(lower, "memory clock"@) {
        SensorKind::MemoryClock
    } else if clock && (contains(lower, "gpu clock"@) || contains(lower, "gpu core clock"@)) {
        SensorKind::GpuClock
    } else if contains(lower, "power"@) && unit == "w"@ {
        SensorKind::Power
    } else if contains(lower, "voltage"@) && unit == "v"@ {
        SensorKind::Voltage
    } else if contains(lower, "cpu"@) || contains(lower, "system"@) {
        SensorKind::Cpu
    } else {
        SensorKind::Other
    }
}

pub open spec fn group_of(kind: SensorKind) -> SensorGroup {
    match kind {
        SensorKind::Cpu => SensorGroup::System,
        SensorKind::Other => SensorGroup::Activity,
        _ => SensorGroup::Gpu,
    }
}

pub open spec fn priority_of(kind: SensorKind) -> u8 {
    match kind {
        SensorKind::GpuCoreTemperature => 0,
        SensorKind::HotspotTemperature => 1,
        SensorKind::MemoryTemperature => 2,
        SensorKind::Fan => 3,
        SensorKind::GpuClock => 4,
        SensorKind::MemoryClock => 5,
        SensorKind::Power => 6,
        SensorKind::Voltage => 7,
        SensorKind::PerfCap => 8,
        SensorKind::Cpu | SensorKind::Other => 9,
    }
}

/// The stable id of a reading with the given name and unit.
pub open spec fn id_of(name: Seq<char>, unit: Seq<char>) -> Seq<char> {
    let lower = lower_ascii(trim(name));
    let kind = kind_of(lower, lower_ascii(trim(unit)));
    match kind {
        SensorKind::GpuCoreTemperature => "gpu.temperature.core"@,
        SensorKind::HotspotTemperature => "gpu.temperature.hotspot"@,
        SensorKind::MemoryTemperature => "gpu.temperature.memory"@,
        SensorKind::GpuClock => "gpu.clock.core"@,
        SensorKind::MemoryClock => "gpu.clock.memory"@,
        SensorKind::PerfCap => "gpu.performance.limit"@,
        _ => if kind == SensorKind::Cpu && contains(lower, "package"@) {
            "cpu.temperature.package"@
        } else {
            "sensor."@ + normalized_text(unit) + "."@ + normalized_text(name)
        },
    }
}

/// The kind of a reading.
pub open spec fn reading_kind<V>(sensor: SensorReading<V>) -> SensorKind {
    kind_of(lower_ascii(trim(sensor.name@)), lower_ascii(trim(sensor.unit@)))
}

/// Whether a reading is shown in sensor lists.
pub open spec fn reading_visible<V>(sensor: SensorReading<V>) -> bool {
    reading_kind(sensor) != SensorKind::MemoryClock
}

/// Whether a reading has a numeric history.
pub open spec fn reading_graphable<V>(sensor: SensorReading<V>) -> bool {
    reading_kind(sensor) != SensorKind::PerfCap
}

/// The stable id of a reading.
pub open spec fn reading_id<V>(sensor: SensorReading<V>) -> Seq<char> {
    id_of(sensor.name@, sensor.unit@)
}

/// The kinds whose rows have one fixed id, whatever the provider calls them.
pub open spec fn has_fixed_id(kind: SensorKind) -> bool {
    ||| kind == SensorKind::GpuCoreTemperature
    ||| kind == SensorKind::HotspotTemperature
    ||| kind == SensorKind::MemoryTemperature
    ||| kind == SensorKind::GpuClock
    ||| kind == SensorKind::MemoryClock
    ||| kind == SensorKind::PerfCap
}

/// Known provider aliases keep one stable id: two readings of the same kind
/// with a fixed id share it, and no reading's id depends on its value.
pub proof fn law_known_aliases_share_ids<V>(a: SensorReading<V>, b: SensorReading<V>)
    requires
        reading_kind(a) == reading_kind(b),
        has_fixed_id(reading_kind(a)),
    ensures
        reading_id(a) == reading_id(b),
        reading_id(a) == reading_id(SensorReading { name: a.name, value: b.value, unit: a.unit }),
{
}

/// The id that every performance-limit reading has.
pub open spec fn limit_id() -> Seq<char> {
    "gpu.performance.limit"@
}

/// A reading has a numeric history exactly when its id is not the
/// performance-limit id: no other kind of reading shares that id.
pub proof fn law_graphable_iff_not_limit_id<V>(s: SensorReading<V>)
    ensures
        reading_graphable(s) <==> reading_id(s) != limit_id(),
{
    let lower = lower_ascii(trim(s.name@));
    let kind = kind_of(lower, lower_ascii(trim(s.unit@)));
    let id = reading_id(s);
    let l = limit_id();
    reveal_strlit("gpu.performance.limit");
    reveal_strlit("gpu.temperature.core");
    reveal_strlit("gpu.temperature.hotspot");
    reveal_strlit("gpu.temperature.memory");
    reveal_strlit("gpu.clock.core");
    reveal_strlit("gpu.clock.memory");
    reveal_strlit("cpu.temperature.package");
    reveal_strlit("sensor.");
    if kind != SensorKind::PerfCap {
        match kind {
            SensorKind::GpuCoreTemperature | SensorKind::HotspotTemperature
            | SensorKind::MemoryTemperature | SensorKind::GpuClock | SensorKind::MemoryClock => {
                assert(id[4] != l[4]);
            },
            _ => {
                assert(id[0] != l[0]);
            },
        }
    }
}

/// A reading's name as classification reads it: trimmed, ASCII-lowercased.
pub open spec fn lowered_name<V>(s: SensorReading<V>) -> Seq<char> {
    lower_ascii(trim(s.name@))
}

/// A reading's unit as classification reads it: trimmed, ASCII-lowercased.
pub open spec fn lowered_unit<V>(s: SensorReading<V>) -> Seq<char> {
    lower_ascii(trim(s.unit@))
}

/// Each kind is given only to readings that carry its words: the
/// temperature kinds need a unit with `°` and `c`, the fan a unit of `rpm`,
/// the clocks a unit of `mhz` or `ghz`, power a unit of `w`, voltage a unit
/// of `v`, and each kind the words of its name.
pub proof fn law_each_kind_has_its_words<V>(s: SensorReading<V>)
    ensures
        ({
            let name = lowered_name(s);
            let unit = lowered_unit(s);
            let temperature = contains(unit, "°"@) && contains(unit, "c"@);
            let clock = unit == "mhz"@ || unit == "ghz"@;
            &&& reading_kind(s) == SensorKind::HotspotTemperature ==> temperature && (contains(
                name,
                "hot spot"@,
            ) || contains(name, "hotspot"@))
            &&& reading_kind(s) == SensorKind::MemoryTemperature ==> temperature && (contains(
                name,
                "memory temperature"@,
            ) || contains(name, "memory junction"@))
            &&& reading_kind(s) == SensorKind::GpuCoreTemperature ==> temperature && contains(
                name,
                "gpu core"@,
            )
            &&& reading_kind(s) == SensorKind::PerfCap ==> contains(name, "perfcap"@) || contains(
                name,
                "performance limit"@,
            )
            &&& reading_kind(s) == SensorKind::Fan ==> unit == "rpm"@ && contains(name, "fan"@)
            &&& reading_kind(s) == SensorKind::MemoryClock ==> clock && contains(
                name,
                "memory clock"@,
            )
            &&& reading_kind(s) == SensorKind::GpuClock ==> clock && (contains(name, "gpu clock"@)
                || contains(name, "gpu core clock"@))
            &&& reading_kind(s) == SensorKind::Power ==> unit == "w"@ && contains(name, "power"@)
            &&& reading_kind(s) == SensorKind::Voltage ==> unit == "v"@ && contains(
                name,
                "voltage"@,
            )
            &&& reading_kind(s) == SensorKind::Cpu ==> contains(name, "cpu"@) || contains(
                name,
                "system"@,
            )
        }),
{
}

/// CPU and system rows form the system group and every other row but the
/// activity rows the GPU group; within the GPU group the kinds come in the
/// order core temperature, HotSpot, memory temperature, fan, GPU clock,
/// memory clock, power, voltage, performance limit, all before CPU and
/// activity rows, which share the last place.
pub proof fn law_kind_groups_and_priorities()
    ensures
        group_of(SensorKind::Cpu) == SensorGroup::System,
        group_of(SensorKind::Other) == SensorGroup::Activity,
        forall|k: SensorKind|
            k != SensorKind::Cpu && k != SensorKind::Other ==> #[trigger] group_of(k)
                == SensorGroup::Gpu,
        priority_of(SensorKind::GpuCoreTemperature) < priority_of(SensorKind::HotspotTemperature),
        priority_of(SensorKind::HotspotTemperature) < priority_of(SensorKind::MemoryTemperature),
        priority_of(SensorKind::MemoryTemperature) < priority_of(SensorKind::Fan),
        priority_of(SensorKind::Fan) < priority_of(SensorKind::GpuClock),
        priority_of(SensorKind::GpuClock) < priority_of(SensorKind::MemoryClock),
        priority_of(SensorKind::MemoryClock) < priority_of(SensorKind::Power),
        priority_of(SensorKind::Power) < priority_of(SensorKind::Voltage),
        priority_of(SensorKind::Voltage) < priority_of(SensorKind::PerfCap),
        priority_of(SensorKind::PerfCap) < priority_of(SensorKind::Cpu),
        priority_of(SensorKind::Cpu) == priority_of(SensorKind::Other),
        priority_of(SensorKind::GpuCoreTemperature) == 0,
{
}

/// A temperature reading (a unit with `°` and `c`) is the HotSpot when its
/// name says hot spot; otherwise the memory temperature when it says
/// memory temperature or memory junction; otherwise the GPU core
/// temperature when it says GPU core.
pub proof fn law_temperature_kinds<V>(s: SensorReading<V>)
    requires
        contains(lowered_unit(s), "°"@),
        contains(lowered_unit(s), "c"@),
    ensures
        ({
            let name = lowered_name(s);
            let hot = contains(name, "hot spot"@) || contains(name, "hotspot"@);
            let memory = contains(name, "memory temperature"@) || contains(
                name,
                "memory junction"@,
            );
            &&& hot ==> reading_kind(s) == SensorKind::HotspotTemperature
            &&& !hot && memory ==> reading_kind(s) == SensorKind::MemoryTemperature
            &&& !hot && !memory && contains(name, "gpu core"@) ==> reading_kind(s)
                == SensorKind::GpuCoreTemperature
        }),
{
}

/// A reading whose name mentions a performance limit is the
/// performance-limit row unless its unit is a temperature.
pub proof fn law_performance_limit_readings<V>(s: SensorReading<V>)
    requires
        contains(lowered_name(s), "perfcap"@) || contains(lowered_name(s), "performance limit"@),
        !contains(lowered_unit(s), "°"@),
    ensures
        reading_kind(s) == SensorKind::PerfCap,
        group_of(reading_kind(s)) == SensorGroup::Gpu,
        priority_of(reading_kind(s)) == 8,
{
}

proof fn lemma_no_degree_sign(u: Seq<char>)
    requires
        forall|i: int| 0 <= i < u.len() ==> u[i] != '°',
    ensures
        !contains(u, "°"@),
{
    reveal_strlit("°");
    if contains(u, "°"@) {
        let i = choose|i: int| crate::text::occurs_at(u, "°"@, i);
        assert(u.subrange(i, i + 1)[0] == u[i]);
    }
}

/// With no performance-limit words in its name, a reading's unit and name
/// decide its kind: `rpm` with "fan" is a fan; `mhz` or `ghz` with "memory
/// clock" the memory clock, and otherwise with "gpu clock" or "gpu core
/// clock" the GPU clock; `w` with "power" is power (a GPU row of priority
/// 6); `v` with "voltage" a voltage; and a percentage is a CPU or system row
/// when its name says "cpu" or "system", and an activity row otherwise.
pub proof fn law_unit_kinds<V>(s: SensorReading<V>)
    requires
        !contains(lowered_name(s), "perfcap"@),
        !contains(lowered_name(s), "performance limit"@),
    ensures
        ({
            let name = lowered_name(s);
            let unit = lowered_unit(s);
            &&& unit == "rpm"@ && contains(name, "fan"@) ==> reading_kind(s) == SensorKind::Fan
            &&& (unit == "mhz"@ || unit == "ghz"@) && contains(name, "memory clock"@)
                ==> reading_kind(s) == SensorKind::MemoryClock
            &&& (unit == "mhz"@ || unit == "ghz"@) && !contains(name, "memory clock"@) && (
            contains(name, "gpu clock"@) || contains(name, "gpu core clock"@)) ==> reading_kind(s)
                == SensorKind::GpuClock
            &&& unit == "w"@ && contains(name, "power"@) ==> reading_kind(s) == SensorKind::Power
                && group_of(reading_kind(s)) == SensorGroup::Gpu && priority_of(reading_kind(s))
                == 6
            &&& unit == "v"@ && contains(name, "voltage"@) ==> reading_kind(s)
                == SensorKind::Voltage
            &&& unit == "%"@ && (contains(name, "cpu"@) || contains(name, "system"@))
                ==> reading_kind(s) == SensorKind::Cpu && group_of(reading_kind(s))
                == SensorGroup::System
            &&& unit == "%"@ && !contains(name, "cpu"@) && !contains(name, "system"@)
                ==> reading_kind(s) == SensorKind::Other && group_of(reading_kind(s))
                == SensorGroup::Activity
        }),
{
    let unit = lowered_unit(s);
    reveal_strlit("rpm");
    reveal_strlit("mhz");
    reveal_strlit("ghz");
    reveal_strlit("w");
    reveal_strlit("v");
    reveal_strlit("%");
    if unit == "rpm"@ || unit == "mhz"@ || unit == "ghz"@ || unit == "w"@ || unit == "v"@
        || unit == "%"@ {
        lemma_no_degree_sign(unit);
    }
    assert("rpm"@[0] != "mhz"@[0] && "rpm"@[0] != "ghz"@[0]);
    assert("w"@.len() != "mhz"@.len() && "v"@.len() != "mhz"@.len() && "%"@.len() != "mhz"@.len());
    assert("w"@ != "rpm"@ && "v"@ != "rpm"@ && "%"@ != "rpm"@ && "w"@ != "v"@ && "%"@ != "w"@
        && "%"@ != "v"@ && "w"@ != "ghz"@ && "v"@ != "ghz"@ && "%"@ != "ghz"@ && "mhz"@ != "rpm"@ && "ghz"@ != "rpm"@) by {
        assert("w"@[0] != "v"@[0] && "%"@[0] != "w"@[0] && "%"@[0] != "v"@[0]);
    }
}

// ---------------------------------------------------------------------------
// Wrappers around std
// ---------------------------------------------------------------------------

/// `char::to_lowercase`, collected: its result is named `unicode_lowercase`.
#[verifier::external_body]
fn char_lowercase(c: char) -> (r: Vec<char>)
    ensures
        r@ == unicode_lowercase(c),
{
    c.to_lowercase().collect()
}

/// `char::is_alphanumeric`: its result is named `unicode_alphanumeric`.
#[verifier::external_body]
fn char_is_alphanumeric(c: char) -> (r: bool)
    ensures
        r == unicode_alphanumeric(c),
{
    c.is_alphanumeric()
}

// ---------------------------------------------------------------------------
// Implementation
// ---------------------------------------------------------------------------

/// Joins the runs of `chars` flagged in `alphanumeric` with single dots.
pub fn join_alphanumeric_runs(chars: &[char], alphanumeric: &[bool]) -> (r: Vec<char>)
    requires
        alphanumeric@.len() == chars@.len(),
    ensures
        r@ == join_runs(chars@, alphanumeric@),
{
    let mut r: Vec<char> = Vec::new();
    let mut pending = false;
    let mut i: usize = 0;
    while i < chars.len()
        invariant
            i <= chars@.len(),
            alphanumeric@.len() == chars@.len(),
            join_runs_state(chars@.take(i as int), alphanumeric@) == (r@, pending),
        decreases chars@.len() - i,
    {
        proof {
            assert(chars@.take(i + 1).drop_last() == chars@.take(i as int));
        }
        if alphanumeric[i] {
            if pending && r.len() > 0 {
                r.push('.');
            }
            r.push(chars[i]);
            pending = false;
        } else {
            pending = true;
        }
        i = i + 1;
    }
    assert(chars@.take(chars@.len() as int) == chars@);
    r
}

/// The lowercased text of `s` reduced to dot-joined alphanumeric runs.
fn normalized(value: &str) -> (r: Vec<char>)
    ensures
        r@ == normalized_text(value@),
{
    let source = chars_of(value);
    let mut lower: Vec<char> = Vec::new();
    let mut i: usize = 0;
    while i < source.len()
        invariant
            i <= source@.len(),
            source@ == value@,
            lower@ == lowercased(source@.take(i as int)),
        decreases source@.len() - i,
    {
        let mapped = char_lowercase(source[i]);
        let mut k: usize = 0;
        let ghost start = lower@;
        while k < mapped.len()
            invariant
                k <= mapped@.len(),
                lower@ == start + mapped@.take(k as int),
            decreases mapped@.len() - k,
        {
            lower.push(mapped[k]);
            k = k + 1;
            assert(start + mapped@.take(k as int) == (start + mapped@.take(k - 1)).push(
                mapped@[k - 1],
            ));
        }
        proof {
            assert(mapped@.take(mapped@.len() as int) == mapped@);
            assert(source@.take(i + 1).drop_last() == source@.take(i as int));
        }
        i = i + 1;
    }
    assert(source@.take(source@.len() as int) == source@);
    let mut flags: Vec<bool> = Vec::new();
    let mut j: usize = 0;
    while j < lower.len()
        invariant
            j <= lower@.len(),
            flags@ == lower@.take(j as int).map_values(|c: char| unicode_alphanumeric(c)),
        decreases lower@.len() - j,
    {
        flags.push(char_is_alphanumeric(lower[j]));
        j = j + 1;
        assert(lower@.take(j as int).map_values(|c: char| unicode_alphanumeric(c)) == lower@.take(
            j - 1,
        ).map_values(|c: char| unicode_alphanumeric(c)).push(unicode_alphanumeric(lower@[j - 1])));
    }
    assert(lower@.take(lower@.len() as int) == lower@);
    join_alphanumeric_runs(&lower, &flags)
}

fn contains_str(hay: &[char], needle: &str) -> (r: bool)
    ensures
        r == contains(hay@, needle@),
{
    let n = chars_of(needle);
    contains_chars(hay, &n)
}

fn equals_str(s: &[char], t: &str) -> (r: bool)
    ensures
        r == (s@ == t@),
{
    let c = chars_of(t);
    crate::text::chars_equal(s, &c)
}

fn stable(value: &str) -> (r: SensorId)
    ensures
        r@ == value@,
{
    SensorId(value.to_owned())
}

/// The kind of a reading from its lowercased, trimmed name and unit.
fn kind_from(lower: &[char], unit: &[char]) -> (r: SensorKind)
    ensures
        r == kind_of(lower@, unit@),
{
    let temperature = contains_str(unit, "°") && contains_str(unit, "c");
    let clock = equals_str(unit, "mhz") || equals_str(unit, "ghz");
    if temperature && (contains_str(lower, "hot spot") || contains_str(lower, "hotspot")) {
        SensorKind::HotspotTemperature
    } else if temperature && (contains_str(lower, "memory temperature") || contains_str(
        lower,
        "memory junction",
    )) {
        SensorKind::MemoryTemperature
    } else if temperature && contains_str(lower, "gpu core") {
        SensorKind::GpuCoreTemperature
    } else if contains_str(lower, "perfcap") || contains_str(lower, "performance limit") {
        SensorKind::PerfCap
    } else if contains_str(lower, "fan") && equals_str(unit, "rpm") {
        SensorKind::Fan
    } else if clock && contains_str(lower, "memory clock") {
        SensorKind::MemoryClock
    } else if clock && (contains_str(lower, "gpu clock") || contains_str(lower, "gpu core clock")) {
        SensorKind::GpuClock
    } else if contains_str(lower, "power") && equals_str(unit, "w") {
        SensorKind::Power
    } else if contains_str(lower, "voltage") && equals_str(unit, "v") {
        SensorKind::Voltage
    } else if contains_str(lower, "cpu") || contains_str(lower, "system") {
        SensorKind::Cpu
    } else {
        SensorKind::Other
    }
}

/// Classifies a reading: its stable id, group, kind, sort priority, and
/// whether it is listed and graphed.
pub fn metadata<V>(sensor: &SensorReading<V>) -> (r: SensorMetadata)
    ensures
        r.kind == reading_kind(*sensor),
        r.id@ == reading_id(*sensor),
        r.group == group_of(r.kind),
        r.priority == priority_of(r.kind),
        r.visible == reading_visible(*sensor),
        r.graphable == reading_graphable(*sensor),
{
    let name = chars_of(sensor.name.as_str());
    let unit_all = chars_of(sensor.unit.as_str());
    let lower = lower_chars(&trim_chars(&name));
    let unit = lower_chars(&trim_chars(&unit_all));
    let kind = kind_from(&lower, &unit);
    let group = match kind {
        SensorKind::Cpu => SensorGroup::System,
        SensorKind::Other => SensorGroup::Activity,
        _ => SensorGroup::Gpu,
    };
    let priority: u8 = match kind {
        SensorKind::GpuCoreTemperature => 0,
        SensorKind::HotspotTemperature => 1,
        SensorKind::MemoryTemperature => 2,
        SensorKind::Fan => 3,
        SensorKind::GpuClock => 4,
        SensorKind::MemoryClock => 5,
        SensorKind::Power => 6,
        SensorKind::Voltage => 7,
        SensorKind::PerfCap => 8,
        SensorKind::Cpu | SensorKind::Other => 9,
    };
    let id = match kind {
        SensorKind::GpuCoreTemperature => stable("gpu.temperature.core"),
        SensorKind::HotspotTemperature => stable("gpu.temperature.hotspot"),
        SensorKind::MemoryTemperature => stable("gpu.temperature.memory"),
        SensorKind::GpuClock => stable("gpu.clock.core"),
        SensorKind::MemoryClock => stable("gpu.clock.memory"),
        SensorKind::PerfCap => stable("gpu.performance.limit"),
        _ => {
            if kind == SensorKind::Cpu && contains_str(&lower, "package") {
                stable("cpu.temperature.package")
            } else {
                let mut text: Vec<char> = Vec::new();
                append_str(&mut text, "sensor.");
                let u = normalized(sensor.unit.as_str());
                let n = normalized(sensor.name.as_str());
                let mut composed = crate::text::concat_chars(&text, &u);
                append_str(&mut composed, ".");
                let composed = crate::text::concat_chars(&composed, &n);
                SensorId(string_of(&composed))
            }
        },
    };
    SensorMetadata {
        id,
        group,
        kind,
        priority,
        visible: kind != SensorKind::MemoryClock,
        graphable: kind != SensorKind::PerfCap,
    }
}

/// The stable id of a reading.
pub fn sensor_id<V>(sensor: &SensorReading<V>) -> (r: SensorId)
    ensures
        r@ == reading_id(*sensor),
{
    metadata(sensor).id
}

} // verus!
