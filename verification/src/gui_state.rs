//! Per-sensor history: which row is selected, which rows keep their session
//! maximum on screen, and the recent samples of every graphable row.
//!
//! A sample's value `V` is carried, never inspected. Each row also keeps a
//! summary `S` of all its samples, which the caller's `fold` computes from
//! the previous summary (none for a new row) and the new sample.

use vstd::prelude::*;
use crate::sensor_model::{
    SensorId, law_graphable_iff_not_limit_id, limit_id, metadata, reading_graphable, reading_id,
    sensor_id,
};
use crate::gui_view::{
    is_list_order, lemma_list_order_length, listed_rows, ordered_sensors, perfcap_reason_of, rows_of,
    stable_sorted,
};
use crate::telemetry::{SensorReading, SysInfo};
use std::collections::VecDeque;

verus! {

/// How many recent samples a row keeps.
pub const ROW_SAMPLE_LIMIT: usize = 120;

/// A row's recent samples, the summary of all its samples, and how many
/// samples it has taken.
pub struct RowRecord<V, S> {
    id: SensorId,
    samples: VecDeque<V>,
    summary: S,
    count: u64,
}

/// The latest sample of a row with the row's summary and sample count.
#[derive(Clone, Copy, Debug)]
pub struct RowStats<V, S> {
    pub current: V,
    pub summary: S,
    pub count: u64,
}

pub struct SensorHistory<V, S> {
    selected: Option<SensorId>,
    maxima: Vec<SensorId>,
    rows: Vec<RowRecord<V, S>>,
}

/// A row as the model sees it: samples, summary, count.
pub closed spec fn row_model<V, S>(r: RowRecord<V, S>) -> (Seq<V>, S, nat) {
    (r.samples@, r.summary, r.count as nat)
}

spec fn ids_unique<V, S>(rows: Seq<RowRecord<V, S>>) -> bool {
    forall|i: int, j: int| 0 <= i < j < rows.len() ==> rows[i].id@ != rows[j].id@
}

spec fn maxima_unique(t: Seq<SensorId>) -> bool {
    forall|i: int, j: int| 0 <= i < j < t.len() ==> t[i]@ != t[j]@
}

/// The rows keyed by sensor id.
pub closed spec fn rows_map<V, S>(rows: Seq<RowRecord<V, S>>) -> Map<Seq<char>, (Seq<V>, S, nat)> {
    Map::new(
        |k: Seq<char>| exists|i: int| 0 <= i < rows.len() && rows[i].id@ == k,
        |k: Seq<char>|
            row_model(rows[choose|i: int| 0 <= i < rows.len() && rows[i].id@ == k]),
    )
}

/// The ids of a list of sensor ids.
pub open spec fn id_set(t: Seq<SensorId>) -> Set<Seq<char>> {
    Set::new(|k: Seq<char>| exists|i: int| 0 <= i < t.len() && t[i]@ == k)
}

/// The last `ROW_SAMPLE_LIMIT` samples of `s`.
pub open spec fn window<V>(s: Seq<V>) -> Seq<V> {
    if s.len() > ROW_SAMPLE_LIMIT {
        s.skip(s.len() - ROW_SAMPLE_LIMIT)
    } else {
        s
    }
}

/// The summary a row had before a new sample: none for a new row.
pub open spec fn previous_summary<V, S>(m: Map<Seq<char>, (Seq<V>, S, nat)>, id: Seq<char>) -> Option<S> {
    if m.contains_key(id) {
        Some(m[id].1)
    } else {
        None
    }
}

/// The rows after the row `id` took sample `v`, its summary becoming `s`.
pub open spec fn pushed<V, S>(
    m: Map<Seq<char>, (Seq<V>, S, nat)>,
    id: Seq<char>,
    v: V,
    s: S,
) -> Map<Seq<char>, (Seq<V>, S, nat)> {
    let (samples, count) = if m.contains_key(id) {
        (m[id].0, m[id].2)
    } else {
        (Seq::empty(), 0nat)
    };
    m.insert(id, (window(samples.push(v)), s, count + 1))
}

/// One reading recorded: readings without a numeric history change nothing;
/// any other reading is pushed to its row, with a summary that `fold` gave
/// for the row's previous summary and the new value.
pub open spec fn record_step<V, S, F: Fn(Option<S>, V) -> S>(
    m: Map<Seq<char>, (Seq<V>, S, nat)>,
    sensor: SensorReading<V>,
    fold: F,
    m2: Map<Seq<char>, (Seq<V>, S, nat)>,
) -> bool {
    if !reading_graphable(sensor) {
        m2 == m
    } else {
        let id = reading_id(sensor);
        exists|s: S|
            call_ensures(fold, (previous_summary(m, id), sensor.value), s) && m2 == pushed(
                m,
                id,
                sensor.value,
                s,
            )
    }
}

/// `m2` is what recording `sensors` in order makes of `m`.
pub open spec fn recorded<V, S, F: Fn(Option<S>, V) -> S>(
    m: Map<Seq<char>, (Seq<V>, S, nat)>,
    sensors: Seq<SensorReading<V>>,
    fold: F,
    m2: Map<Seq<char>, (Seq<V>, S, nat)>,
) -> bool {
    exists|trace: Seq<Map<Seq<char>, (Seq<V>, S, nat)>>|
        {
            &&& trace.len() == sensors.len() + 1
            &&& trace[0] == m
            &&& trace.last() == m2
            &&& forall|i: int|
                0 <= i < sensors.len() ==> record_step(
                    #[trigger] trace[i],
                    sensors[i],
                    fold,
                    trace[i + 1],
                )
        }
}

/// `t` with `id` taken out if it was there, put in if it was not.
pub open spec fn toggled(t: Set<Seq<char>>, id: Seq<char>) -> Set<Seq<char>> {
    if t.contains(id) {
        t.remove(id)
    } else {
        t.insert(id)
    }
}

/// Double-clicking the same graphable row twice leaves maximum tracking as
/// it was.
pub proof fn law_double_toggle_restores_tracking(t: Set<Seq<char>>, id: Seq<char>)
    ensures
        toggled(toggled(t, id), id) == t,
{
    if t.contains(id) {
        assert(t.remove(id).insert(id) =~= t);
    } else {
        assert(t.insert(id).remove(id) =~= t);
    }
}

/// Readings without a numeric history leave every recorded row as it was.
pub proof fn law_ungraphable_readings_leave_rows_unchanged<V, S, F: Fn(Option<S>, V) -> S>(
    m: Map<Seq<char>, (Seq<V>, S, nat)>,
    sensors: Seq<SensorReading<V>>,
    fold: F,
    m2: Map<Seq<char>, (Seq<V>, S, nat)>,
)
    requires
        forall|i: int| 0 <= i < sensors.len() ==> !reading_graphable(#[trigger] sensors[i]),
        recorded(m, sensors, fold, m2),
    ensures
        m2 == m,
{
    let trace = choose|trace: Seq<Map<Seq<char>, (Seq<V>, S, nat)>>|
        {
            &&& trace.len() == sensors.len() + 1
            &&& trace[0] == m
            &&& trace.last() == m2
            &&& forall|i: int|
                0 <= i < sensors.len() ==> record_step(
                    #[trigger] trace[i],
                    sensors[i],
                    fold,
                    trace[i + 1],
                )
        };
    lemma_unchanged_prefix(trace, sensors, fold, sensors.len() as int);
}

proof fn lemma_unchanged_prefix<V, S, F: Fn(Option<S>, V) -> S>(
    trace: Seq<Map<Seq<char>, (Seq<V>, S, nat)>>,
    sensors: Seq<SensorReading<V>>,
    fold: F,
    j: int,
)
    requires
        0 <= j <= sensors.len(),
        trace.len() == sensors.len() + 1,
        forall|i: int| 0 <= i < sensors.len() ==> !reading_graphable(#[trigger] sensors[i]),
        forall|i: int|
            0 <= i < sensors.len() ==> record_step(
                #[trigger] trace[i],
                sensors[i],
                fold,
                trace[i + 1],
            ),
    ensures
        trace[j] == trace[0],
    decreases j,
{
    if j > 0 {
        lemma_unchanged_prefix(trace, sensors, fold, j - 1);
        assert(record_step(trace[j - 1], sensors[j - 1], fold, trace[j]));
        assert(!reading_graphable(sensors[j - 1]));
    }
}

pub open spec fn opt_id(o: Option<SensorId>) -> Option<Seq<char>> {
    match o {
        Some(id) => Some(id@),
        None => None,
    }
}

proof fn lemma_lookup<V, S>(rows: Seq<RowRecord<V, S>>, i: int)
    requires
        ids_unique(rows),
        0 <= i < rows.len(),
    ensures
        rows_map(rows).contains_key(rows[i].id@),
        rows_map(rows)[rows[i].id@] == row_model(rows[i]),
{
    let k = rows[i].id@;
    assert(exists|j: int| 0 <= j < rows.len() && rows[j].id@ == k);
    let j = choose|j: int| 0 <= j < rows.len() && rows[j].id@ == k;
    if j != i {
        if j < i {
            assert(rows[j].id@ != rows[i].id@);
        } else {
            assert(rows[i].id@ != rows[j].id@);
        }
    }
}

/// Replacing (or adding) the row with `new_row`'s id keeps ids unique and
/// updates the map at that id only.
proof fn lemma_replace_row<V, S>(rows: Seq<RowRecord<V, S>>, p: int, new_row: RowRecord<V, S>)
    requires
        ids_unique(rows),
        0 <= p <= rows.len(),
        p < rows.len() ==> rows[p].id@ == new_row.id@,
        p == rows.len() ==> forall|i: int| 0 <= i < rows.len() ==> rows[i].id@ != new_row.id@,
    ensures
        ({
            let rows2 = (if p < rows.len() {
                rows.remove(p)
            } else {
                rows
            }).push(new_row);
            &&& ids_unique(rows2)
            &&& rows_map(rows2) == rows_map(rows).insert(new_row.id@, row_model(new_row))
        }),
{
    let base = if p < rows.len() {
        rows.remove(p)
    } else {
        rows
    };
    let rows2 = base.push(new_row);
    let id = new_row.id@;
    // `base` is `rows` without the row `id`, in order.
    assert forall|i: int| 0 <= i < base.len() implies base[i] == rows[if p < rows.len() && i >= p {
        i + 1
    } else {
        i
    }] by {}
    assert forall|i: int| 0 <= i < base.len() implies base[i].id@ != id by {
        if p < rows.len() {
            if i < p {
                assert(rows[i].id@ != rows[p].id@);
            } else {
                assert(rows[p].id@ != rows[i + 1].id@);
            }
        }
    }
    assert forall|a: int, b: int| 0 <= a < b < rows2.len() implies rows2[a].id@ != rows2[b].id@ by {
        if b == base.len() {
            assert(base[a].id@ != id);
        } else if p < rows.len() {
            let ra = if a >= p {
                a + 1
            } else {
                a
            };
            let rb = if b >= p {
                b + 1
            } else {
                b
            };
            assert(rows[ra].id@ != rows[rb].id@);
        } else {
            assert(rows[a].id@ != rows[b].id@);
        }
    }
    let m = rows_map(rows);
    let m2 = rows_map(rows2);
    let target = m.insert(id, row_model(new_row));
    assert forall|k: Seq<char>| #[trigger] m2.contains_key(k) == target.contains_key(k) by {
        if m2.contains_key(k) {
            let j = choose|j: int| 0 <= j < rows2.len() && rows2[j].id@ == k;
            if j < base.len() {
                let rj = if p < rows.len() && j >= p {
                    j + 1
                } else {
                    j
                };
                assert(rows[rj].id@ == k);
            }
        }
        if target.contains_key(k) && k != id {
            let j = choose|j: int| 0 <= j < rows.len() && rows[j].id@ == k;
            if p < rows.len() {
                assert(j != p);
                let bj = if j > p {
                    j - 1
                } else {
                    j
                };
                assert(rows2[bj].id@ == k);
            } else {
                assert(rows2[j].id@ == k);
            }
        }
        if k == id {
            assert(rows2[base.len() as int].id@ == k);
        }
    }
    assert forall|k: Seq<char>| m2.contains_key(k) implies #[trigger] m2[k] == target[k] by {
        let j = choose|j: int| 0 <= j < rows2.len() && rows2[j].id@ == k;
        lemma_lookup(rows2, j);
        if j < base.len() {
            let rj = if p < rows.len() && j >= p {
                j + 1
            } else {
                j
            };
            lemma_lookup(rows, rj);
        }
    }
    assert(m2 =~= target);
}

/// A row's position in `rows`, if it has one.
fn row_position<V, S>(rows: &Vec<RowRecord<V, S>>, id: &SensorId) -> (r: Option<usize>)
    ensures
        r matches Some(i) ==> i < rows@.len() && rows@[i as int].id@ == id@,
        r is None ==> forall|i: int| 0 <= i < rows@.len() ==> rows@[i].id@ != id@,
{
    let mut i: usize = 0;
    while i < rows.len()
        invariant
            i <= rows@.len(),
            forall|k: int| 0 <= k < i ==> rows@[k].id@ != id@,
        decreases rows@.len() - i,
    {
        if rows[i].id.same_as(id) {
            return Some(i);
        }
        i = i + 1;
    }
    None
}

/// `samples` after taking `v`, keeping the last `ROW_SAMPLE_LIMIT`.
fn push_sample<V>(samples: VecDeque<V>, v: V) -> (r: VecDeque<V>)
    requires
        samples@.len() <= ROW_SAMPLE_LIMIT,
    ensures
        r@ == window(samples@.push(v)),
        1 <= r@.len() <= ROW_SAMPLE_LIMIT,
{
    let mut samples = samples;
    samples.push_back(v);
    if samples.len() > ROW_SAMPLE_LIMIT {
        let ghost full = samples@;
        let _ = samples.pop_front();
        assert(samples@ == full.skip(1));
    }
    samples
}

/// The ids of the graphable readings among `sensors`.
pub open spec fn graphable_ids<V>(sensors: Seq<SensorReading<V>>) -> Set<Seq<char>> {
    Set::new(
        |k: Seq<char>|
            exists|i: int|
                0 <= i < sensors.len() && reading_graphable(#[trigger] sensors[i])
                    && reading_id(sensors[i]) == k,
    )
}

fn with_id(list: Vec<SensorId>, id: &SensorId) -> (r: Vec<SensorId>)
    requires
        maxima_unique(list@),
    ensures
        maxima_unique(r@),
        id_set(r@) == id_set(list@).insert(id@),
{
    let mut i: usize = 0;
    while i < list.len()
        invariant
            i <= list@.len(),
            maxima_unique(list@),
            forall|k: int| 0 <= k < i ==> list@[k]@ != id@,
        decreases list@.len() - i,
    {
        if list[i].same_as(id) {
            assert(id_set(list@).contains(id@));
            assert(id_set(list@).insert(id@) =~= id_set(list@));
            return list;
        }
        i = i + 1;
    }
    let ghost before = list@;
    let mut list = list;
    list.push(id.duplicate());
    assert forall|a: int, b: int| 0 <= a < b < list@.len() implies list@[a]@ != list@[b]@ by {}
    assert forall|k: Seq<char>| #[trigger] id_set(list@).contains(k) == id_set(before).insert(
        id@,
    ).contains(k) by {
        if k == id@ {
            assert(list@[before.len() as int]@ == k);
        }
        if id_set(before).contains(k) {
            let j = choose|j: int| 0 <= j < before.len() && before[j]@ == k;
            assert(list@[j]@ == k);
        }
        if id_set(list@).contains(k) && k != id@ {
            let j = choose|j: int| 0 <= j < list@.len() && list@[j]@ == k;
            assert(before[j]@ == k);
        }
    }
    assert(id_set(list@) =~= id_set(before).insert(id@));
    list
}

impl<V, S> SensorHistory<V, S> {
    #[verifier::type_invariant]
    spec fn well_formed(self) -> bool {
        &&& ids_unique(self.rows@)
        &&& maxima_unique(self.maxima@)
        &&& !id_set(self.maxima@).contains(limit_id())
        &&& forall|i: int|
            0 <= i < self.rows@.len() ==> 1 <= (#[trigger] self.rows@[i]).samples@.len()
                <= ROW_SAMPLE_LIMIT
    }

    /// The selected row's id.
    pub closed spec fn selection(&self) -> Option<Seq<char>> {
        opt_id(self.selected)
    }

    /// The ids of the rows whose maximum stays on screen.
    pub closed spec fn tracking(&self) -> Set<Seq<char>> {
        id_set(self.maxima@)
    }

    /// The recorded rows by id.
    pub closed spec fn rows(&self) -> Map<Seq<char>, (Seq<V>, S, nat)> {
        rows_map(self.rows@)
    }

    /// An empty history: nothing selected, followed or recorded.
    pub fn new() -> (r: Self)
        ensures
            r.selection() is None,
            r.tracking() == Set::<Seq<char>>::empty(),
            r.rows() == Map::<Seq<char>, (Seq<V>, S, nat)>::empty(),
    {
        let r = SensorHistory { selected: None, maxima: Vec::new(), rows: Vec::new() };
        assert(id_set(r.maxima@) == Set::<Seq<char>>::empty());
        assert(rows_map(r.rows@) == Map::<Seq<char>, (Seq<V>, S, nat)>::empty());
        r
    }

    /// Selects the row of `sensor`.
    pub fn select(&mut self, sensor: &SensorReading<V>)
        ensures
            final(self).selection() == Some(reading_id(*sensor)),
            final(self).tracking() == old(self).tracking(),
            final(self).rows() == old(self).rows(),
    {
        proof {
            use_type_invariant(&*self);
        }
        self.selected = Some(sensor_id(sensor));
    }

    /// Clears the selection.
    pub fn clear_selection(&mut self)
        ensures
            final(self).selection() is None,
            final(self).tracking() == old(self).tracking(),
            final(self).rows() == old(self).rows(),
    {
        proof {
            use_type_invariant(&*self);
        }
        self.selected = None;
    }

    fn maxima_position(&self, id: &SensorId) -> (r: Option<usize>)
        ensures
            r matches Some(i) ==> i < self.maxima@.len() && self.maxima@[i as int]@ == id@,
            r is None ==> !id_set(self.maxima@).contains(id@),
    {
        let mut i: usize = 0;
        while i < self.maxima.len()
            invariant
                i <= self.maxima@.len(),
                forall|k: int| 0 <= k < i ==> self.maxima@[k]@ != id@,
            decreases self.maxima@.len() - i,
        {
            if self.maxima[i].same_as(id) {
                return Some(i);
            }
            i = i + 1;
        }
        None
    }

    /// Whether the row `id` keeps its maximum on screen; the
    /// performance-limit row never does.
    pub fn is_tracked(&self, id: &SensorId) -> (r: bool)
        ensures
            r == self.tracking().contains(id@),
            id@ == limit_id() ==> !r,
    {
        proof {
            use_type_invariant(self);
        }
        self.maxima_position(id).is_some()
    }

    /// Double-click toggles per-sensor maximum tracking. Tracked sensors keep
    /// their session maximum visible and recorded independently of selection.
    pub fn select_maximum(&mut self, sensor: &SensorReading<V>)
        ensures
            final(self).selection() == Some(reading_id(*sensor)),
            final(self).rows() == old(self).rows(),
            !reading_graphable(*sensor) ==> final(self).tracking() == old(self).tracking(),
            reading_graphable(*sensor) ==> final(self).tracking() == toggled(
                old(self).tracking(),
                reading_id(*sensor),
            ),
            final(self).tracking().contains(reading_id(*sensor)) == (reading_graphable(*sensor)
                && !old(self).tracking().contains(reading_id(*sensor))),
    {
        proof {
            use_type_invariant(&*self);
            law_graphable_iff_not_limit_id(*sensor);
        }
        let id = sensor_id(sensor);
        if metadata(sensor).graphable {
            let ghost before = self.maxima@;
            match self.maxima_position(&id) {
                Some(i) => {
                    let mut list: Vec<SensorId> = Vec::new();
                    std::mem::swap(&mut list, &mut self.maxima);
                    list.remove(i);
                    self.maxima = list;
                    proof {
                        assert(id_set(self.maxima@) =~= id_set(before).remove(id@)) by {
                            assert forall|k: Seq<char>| #[trigger] id_set(
                                self.maxima@,
                            ).contains(k) == id_set(before).remove(id@).contains(k) by {
                                if id_set(before).remove(id@).contains(k) {
                                    let j = choose|j: int| 0 <= j < before.len() && before[j]@ == k;
                                    if j < i {
                                        assert(self.maxima@[j]@ == k);
                                    } else {
                                        assert(j != i);
                                        assert(self.maxima@[j - 1]@ == k);
                                    }
                                }
                                if id_set(self.maxima@).contains(k) {
                                    let j = choose|j: int|
                                        0 <= j < self.maxima@.len() && self.maxima@[j]@ == k;
                                    if j < i {
                                        assert(before[j]@ == k);
                                    } else {
                                        assert(before[j + 1]@ == k);
                                    }
                                }
                            }
                        }
                    }
                },
                None => {
                    let mut list: Vec<SensorId> = Vec::new();
                    std::mem::swap(&mut list, &mut self.maxima);
                    list.push(id.duplicate());
                    proof {
                        assert forall|a: int, b: int| 0 <= a < b < list@.len() implies list@[a]@
                            != list@[b]@ by {
                            if b == before.len() {
                                assert(id_set(before).contains(before[a]@));
                            }
                        }
                    }
                    self.maxima = list;
                    proof {
                        assert(id_set(self.maxima@) =~= id_set(before).insert(id@)) by {
                            assert forall|k: Seq<char>| #[trigger] id_set(
                                self.maxima@,
                            ).contains(k) == id_set(before).insert(id@).contains(k) by {
                                if k == id@ {
                                    assert(self.maxima@[before.len() as int]@ == k);
                                }
                                if id_set(before).contains(k) {
                                    let j = choose|j: int| 0 <= j < before.len() && before[j]@ == k;
                                    assert(self.maxima@[j]@ == k);
                                }
                                if id_set(self.maxima@).contains(k) && k != id@ {
                                    let j = choose|j: int|
                                        0 <= j < self.maxima@.len() && self.maxima@[j]@ == k;
                                    assert(before[j]@ == k);
                                }
                            }
                        }
                    }
                },
            }
        }
        self.selected = Some(id);
    }

    /// A click on a row of the sensor table: a double-click toggles the
    /// row's maximum tracking as `select_maximum` does; a single click on
    /// the selected row clears the selection, and on any other row selects
    /// it.
    pub fn click_row(&mut self, sensor: &SensorReading<V>, double_clicked: bool)
        ensures
            final(self).rows() == old(self).rows(),
            double_clicked ==> final(self).selection() == Some(reading_id(*sensor)),
            double_clicked ==> final(self).tracking().contains(reading_id(*sensor)) == (
            reading_graphable(*sensor) && !old(self).tracking().contains(reading_id(*sensor))),
            double_clicked && reading_graphable(*sensor) ==> final(self).tracking() == toggled(
                old(self).tracking(),
                reading_id(*sensor),
            ),
            double_clicked && !reading_graphable(*sensor) ==> final(self).tracking() == old(
                self,
            ).tracking(),
            !double_clicked ==> final(self).tracking() == old(self).tracking(),
            !double_clicked ==> final(self).selection() == (if old(self).selection() == Some(
                reading_id(*sensor),
            ) {
                None
            } else {
                Some(reading_id(*sensor))
            }),
    {
        if double_clicked {
            self.select_maximum(sensor);
        } else {
            let selected = match &self.selected {
                Some(id) => id.same_as(&sensor_id(sensor)),
                None => false,
            };
            if selected {
                self.clear_selection();
            } else {
                self.select(sensor);
            }
        }
    }

    /// Whether the selected row keeps its maximum on screen.
    pub fn shows_maximum(&self) -> (r: bool)
        ensures
            r == (self.selection() matches Some(id) && self.tracking().contains(id)),
    {
        match &self.selected {
            Some(id) => self.is_tracked(id),
            None => false,
        }
    }

    /// The selected row's id.
    pub fn selected_id(&self) -> (r: Option<&SensorId>)
        ensures
            (match r {
                Some(id) => Some(id@),
                None => None,
            }) == self.selection(),
    {
        self.selected.as_ref()
    }

    /// Clears every recorded row and tracking state. Selection is preserved.
    pub fn reset(&mut self)
        ensures
            final(self).selection() == old(self).selection(),
            final(self).tracking() == Set::<Seq<char>>::empty(),
            final(self).rows() == Map::<Seq<char>, (Seq<V>, S, nat)>::empty(),
    {
        proof {
            use_type_invariant(&*self);
        }
        self.rows = Vec::new();
        self.maxima = Vec::new();
        assert(id_set(self.maxima@) =~= Set::<Seq<char>>::empty());
        assert(rows_map(self.rows@) =~= Map::<Seq<char>, (Seq<V>, S, nat)>::empty());
    }

    /// Tracks every graphable sensor, as if each row had been double-clicked.
    pub fn track_all(&mut self, sensors: &[SensorReading<V>])
        ensures
            final(self).selection() == old(self).selection(),
            final(self).rows() == old(self).rows(),
            final(self).tracking() == old(self).tracking().union(graphable_ids(sensors@)),
    {
        proof {
            use_type_invariant(&*self);
        }
        let mut list: Vec<SensorId> = Vec::new();
        std::mem::swap(&mut list, &mut self.maxima);
        let ghost start = id_set(list@);
        let mut i: usize = 0;
        while i < sensors.len()
            invariant
                i <= sensors@.len(),
                maxima_unique(list@),
                id_set(list@) == start.union(graphable_ids(sensors@.take(i as int))),
            decreases sensors@.len() - i,
        {
            let ghost before = id_set(list@);
            if metadata(&sensors[i]).graphable {
                list = with_id(list, &sensor_id(&sensors[i]));
            }
            i = i + 1;
            proof {
                let g = graphable_ids(sensors@.take(i as int));
                let g0 = graphable_ids(sensors@.take(i - 1));
                assert forall|k: Seq<char>| #[trigger] g.contains(k) == (g0.contains(k) || (
                reading_graphable(sensors@[i - 1]) && reading_id(sensors@[i - 1]) == k)) by {
                    if g.contains(k) {
                        let j = choose|j: int|
                            0 <= j < i && reading_graphable(#[trigger] sensors@.take(i as int)[j])
                                && reading_id(sensors@.take(i as int)[j]) == k;
                        if j < i - 1 {
                            assert(sensors@.take(i - 1)[j] == sensors@[j]);
                        }
                    }
                    if g0.contains(k) {
                        let j = choose|j: int|
                            0 <= j < i - 1 && reading_graphable(#[trigger] sensors@.take(i - 1)[j])
                                && reading_id(sensors@.take(i - 1)[j]) == k;
                        assert(sensors@.take(i as int)[j] == sensors@[j]);
                    }
                    if reading_graphable(sensors@[i - 1]) && reading_id(sensors@[i - 1]) == k {
                        assert(sensors@.take(i as int)[i - 1] == sensors@[i - 1]);
                    }
                }
                assert(id_set(list@) =~= start.union(g));
            }
        }
        assert(sensors@.take(sensors@.len() as int) == sensors@);
        proof {
            if graphable_ids(sensors@).contains(limit_id()) {
                let j = choose|j: int|
                    0 <= j < sensors@.len() && reading_graphable(#[trigger] sensors@[j])
                        && reading_id(sensors@[j]) == limit_id();
                law_graphable_iff_not_limit_id(sensors@[j]);
            }
        }
        self.maxima = list;
    }

    /// Records every graphable reading on its row; `fold` summarizes a row
    /// from its previous summary (none for a new row) and the new value.
    pub fn record<F: Fn(Option<S>, V) -> S>(&mut self, sensors: &[SensorReading<V>], fold: F)
        where
            V: Copy,
            S: Copy,
        requires
            forall|k: Seq<char>|
                old(self).rows().contains_key(k) ==> old(self).rows()[k].2 + sensors@.len()
                    <= u64::MAX,
            forall|prev: Option<S>, v: V| call_requires(fold, (prev, v)),
        ensures
            final(self).selection() == old(self).selection(),
            final(self).tracking() == old(self).tracking(),
            recorded(old(self).rows(), sensors@, fold, final(self).rows()),
    {
        proof {
            use_type_invariant(&*self);
        }
        let mut rows: Vec<RowRecord<V, S>> = Vec::new();
        std::mem::swap(&mut rows, &mut self.rows);
        let ghost start = rows_map(rows@);
        assert(start == old(self).rows());
        let ghost mut trace: Seq<Map<Seq<char>, (Seq<V>, S, nat)>> = seq![start];
        let mut i: usize = 0;
        while i < sensors.len()
            invariant
                i <= sensors@.len(),
                ids_unique(rows@),
                forall|j: int|
                    0 <= j < rows@.len() ==> 1 <= (#[trigger] rows@[j]).samples@.len()
                        <= ROW_SAMPLE_LIMIT,
                forall|k: Seq<char>|
                    rows_map(rows@).contains_key(k) ==> rows_map(rows@)[k].2 + (sensors@.len()
                        - i) <= u64::MAX,
                forall|prev: Option<S>, v: V| call_requires(fold, (prev, v)),
                trace.len() == i + 1,
                trace[0] == start,
                trace.last() == rows_map(rows@),
                forall|j: int|
                    0 <= j < i ==> record_step(#[trigger] trace[j], sensors@[j], fold, trace[j + 1]),
            decreases sensors@.len() - i,
        {
            let sensor = &sensors[i];
            let ghost m = rows_map(rows@);
            if metadata(sensor).graphable {
                let id = sensor_id(sensor);
                let value = sensor.value;
                match row_position(&rows, &id) {
                    Some(p) => {
                        proof {
                            lemma_lookup(rows@, p as int);
                        }
                        let ghost old_rows = rows@;
                        let row = rows.remove(p);
                        let summary = fold(Some(row.summary), value);
                        let samples = push_sample(row.samples, value);
                        let updated = RowRecord {
                            id: row.id,
                            samples,
                            summary,
                            count: row.count + 1,
                        };
                        proof {
                            lemma_replace_row(old_rows, p as int, updated);
                            assert(previous_summary(m, id@) == Some(row.summary));
                        }
                        rows.push(updated);
                        proof {
                            assert(rows_map(rows@) == pushed(m, id@, value, summary));
                        }
                    },
                    None => {
                        let summary = fold(None, value);
                        let mut samples: VecDeque<V> = VecDeque::new();
                        samples.push_back(value);
                        let fresh = RowRecord { id, samples, summary, count: 1 };
                        proof {
                            lemma_replace_row(rows@, rows@.len() as int, fresh);
                            assert(!m.contains_key(id@));
                            assert(window(Seq::<V>::empty().push(value)) == samples@);
                        }
                        rows.push(fresh);
                        proof {
                            assert(rows_map(rows@) == pushed(m, id@, value, summary));
                        }
                    },
                }
            }
            proof {
                assert(record_step(m, sensors@[i as int], fold, rows_map(rows@)));
                trace = trace.push(rows_map(rows@));
            }
            i = i + 1;
        }
        self.rows = rows;
    }

    /// Takes in a telemetry snapshot: its readings in list order are
    /// recorded, after every graphable one is tracked when `track_all` is
    /// set. Returns the readings in list order.
    pub fn observe<F: Fn(Option<S>, V) -> S>(
        &mut self,
        info: &SysInfo<V>,
        track_all: bool,
        fold: F,
    ) -> (r: Vec<SensorReading<V>>)
        where
            V: Copy + Default,
            S: Copy,
        requires
            forall|k: Seq<char>|
                old(self).rows().contains_key(k) ==> old(self).rows()[k].2 + info.sensors@.len()
                    + 1 <= u64::MAX,
            forall|prev: Option<S>, v: V| call_requires(fold, (prev, v)),
        ensures
            exists|filler: V| is_list_order(*info, filler, rows_of(r@)),
            final(self).selection() == old(self).selection(),
            track_all ==> final(self).tracking() == old(self).tracking().union(
                graphable_ids(r@),
            ),
            !track_all ==> final(self).tracking() == old(self).tracking(),
            recorded(old(self).rows(), r@, fold, final(self).rows()),
    {
        let sensors = ordered_sensors(info);
        proof {
            let filler = choose|filler: V|
                (perfcap_reason_of(*info) is Some ==> call_ensures(V::default, (), filler))
                    && stable_sorted(listed_rows(*info, filler), rows_of(sensors@));
            assert(is_list_order(*info, filler, rows_of(sensors@)));
            lemma_list_order_length(*info, filler, rows_of(sensors@));
        }
        if track_all {
            self.track_all(sensors.as_slice());
        }
        self.record(sensors.as_slice(), fold);
        sensors
    }

    fn row_index(&self, id: &SensorId) -> (r: Option<usize>)
        ensures
            r matches Some(i) ==> i < self.rows@.len() && self.rows@[i as int].id@ == id@
                && self.rows().contains_key(id@) && self.rows()[id@] == row_model(
                self.rows@[i as int],
            ),
            r is None ==> !self.rows().contains_key(id@),
    {
        proof {
            use_type_invariant(self);
        }
        let r = row_position(&self.rows, id);
        proof {
            match r {
                Some(i) => lemma_lookup(self.rows@, i as int),
                None => {},
            }
        }
        r
    }

    /// The recent samples of row `id`, oldest first; none for a row never
    /// recorded.
    pub fn row_samples(&self, id: &SensorId) -> (r: Vec<V>)
        where
            V: Copy,
        ensures
            self.rows().contains_key(id@) ==> r@ == self.rows()[id@].0,
            !self.rows().contains_key(id@) ==> r@.len() == 0,
            r@.len() <= ROW_SAMPLE_LIMIT,
    {
        proof {
            use_type_invariant(self);
        }
        match self.row_index(id) {
            Some(i) => {
                let samples = &self.rows[i].samples;
                let mut r: Vec<V> = Vec::new();
                let mut k: usize = 0;
                while k < samples.len()
                    invariant
                        k <= samples@.len(),
                        r@ == samples@.take(k as int),
                    decreases samples@.len() - k,
                {
                    r.push(samples[k]);
                    k = k + 1;
                    assert(samples@.take(k as int) == samples@.take(k - 1).push(samples@[k - 1]));
                }
                assert(samples@.take(samples@.len() as int) == samples@);
                r
            },
            None => Vec::new(),
        }
    }

    /// The latest sample, summary and sample count of row `id`.
    pub fn row_stats(&self, id: &SensorId) -> (r: Option<RowStats<V, S>>)
        where
            V: Copy,
            S: Copy,
        ensures
            !self.rows().contains_key(id@) ==> r is None,
            self.rows().contains_key(id@) ==> (r matches Some(st) && st.current
                == self.rows()[id@].0.last() && st.summary == self.rows()[id@].1 && st.count
                == self.rows()[id@].2),
    {
        proof {
            use_type_invariant(self);
        }
        match self.row_index(id) {
            Some(i) => {
                let row = &self.rows[i];
                let last = row.samples.len() - 1;
                Some(RowStats { current: row.samples[last], summary: row.summary, count: row.count })
            },
            None => None,
        }
    }

    /// The statistics of the selected row.
    pub fn stats(&self) -> (r: Option<RowStats<V, S>>)
        where
            V: Copy,
            S: Copy,
        ensures
            match self.selection() {
                Some(id) => if self.rows().contains_key(id) {
                    r matches Some(st) && st.current == self.rows()[id].0.last() && st.summary
                        == self.rows()[id].1 && st.count == self.rows()[id].2
                } else {
                    r is None
                },
                None => r is None,
            },
    {
        match &self.selected {
            Some(id) => self.row_stats(id),
            None => None,
        }
    }

    /// The recent samples of the selected row.
    pub fn samples(&self) -> (r: Vec<V>)
        where
            V: Copy,
        ensures
            match self.selection() {
                Some(id) => if self.rows().contains_key(id) {
                    r@ == self.rows()[id].0
                } else {
                    r@.len() == 0
                },
                None => r@.len() == 0,
            },
    {
        match &self.selected {
            Some(id) => self.row_samples(id),
            None => Vec::new(),
        }
    }
}

impl<V, S> Default for SensorHistory<V, S> {
    fn default() -> (r: Self)
        ensures
            r.selection() is None,
            r.tracking() == Set::<Seq<char>>::empty(),
            r.rows() == Map::<Seq<char>, (Seq<V>, S, nat)>::empty(),
    {
        SensorHistory::new()
    }
}

} // verus!
