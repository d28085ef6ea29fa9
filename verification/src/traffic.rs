//! Received-traffic bookkeeping per network adapter.
//!
//! The handler keeps, for every adapter, the byte counter last read and a
//! sliding window of the traffic received in the latest measurement
//! intervals; the window tells whether the Internet connection came back.
//! Adapters are kept in vectors with distinct names, modelled as maps from
//! adapter names.
use std::collections::VecDeque;
use vstd::prelude::*;
use vstd::string::StringExecFns;

use crate::log::{decimal, decimal_text};

verus! {

/// One reading of an adapter's counter of received bytes.
pub struct Reading {
    pub name: String,
    pub received: u64,
}

/// The traffic an adapter received in each of the latest measurement
/// intervals, oldest first.
pub struct AdapterLoad {
    pub name: String,
    pub loads: VecDeque<u64>,
}

/// The map that a sequence of keyed pairs describes: a later pair with the
/// same key wins.
pub open spec fn map_of<V>(pairs: Seq<(Seq<char>, V)>) -> Map<Seq<char>, V>
    decreases pairs.len(),
{
    if pairs.len() == 0 {
        Map::empty()
    } else {
        map_of(pairs.drop_last()).insert(pairs.last().0, pairs.last().1)
    }
}

/// No two pairs share a key.
pub open spec fn keys_distinct<V>(pairs: Seq<(Seq<char>, V)>) -> bool {
    forall|i: int, j: int| 0 <= i < j < pairs.len() ==> pairs[i].0 != pairs[j].0
}

/// Readings as keyed pairs.
pub open spec fn reading_pairs(readings: Seq<Reading>) -> Seq<(Seq<char>, u64)> {
    readings.map_values(|r: Reading| (r.name@, r.received))
}

/// Adapter windows as keyed pairs.
pub open spec fn load_pairs(loads: Seq<AdapterLoad>) -> Seq<(Seq<char>, Seq<u64>)> {
    loads.map_values(|a: AdapterLoad| (a.name@, a.loads@))
}

/// The loopback adapter, which never carries Internet traffic.
pub open spec fn is_loopback(name: Seq<char>) -> bool {
    name == "lo"@
}

/// `a - b`, or zero if `b` is larger.
pub open spec fn saturating_diff(a: u64, b: u64) -> u64 {
    if a >= b { (a - b) as u64 } else { 0 }
}

proof fn lemma_map_of_domain<V>(pairs: Seq<(Seq<char>, V)>, key: Seq<char>)
    ensures
        map_of(pairs).dom().contains(key) <==> exists|i: int| 0 <= i < pairs.len() && pairs[i].0 == key,
    decreases pairs.len(),
{
    if pairs.len() > 0 {
        lemma_map_of_domain(pairs.drop_last(), key);
        if map_of(pairs.drop_last()).dom().contains(key) {
            let i = choose|i: int| 0 <= i < pairs.drop_last().len() && pairs.drop_last()[i].0 == key;
            assert(pairs[i].0 == key);
        }
        if exists|i: int| 0 <= i < pairs.len() && pairs[i].0 == key {
            let i = choose|i: int| 0 <= i < pairs.len() && pairs[i].0 == key;
            if i < pairs.len() - 1 {
                assert(pairs.drop_last()[i].0 == key);
            }
        }
    }
}

proof fn lemma_map_of_at<V>(pairs: Seq<(Seq<char>, V)>, i: int)
    requires
        keys_distinct(pairs),
        0 <= i < pairs.len(),
    ensures
        map_of(pairs).dom().contains(pairs[i].0),
        map_of(pairs)[pairs[i].0] == pairs[i].1,
    decreases pairs.len(),
{
    if i < pairs.len() - 1 {
        assert(keys_distinct(pairs.drop_last()));
        lemma_map_of_at(pairs.drop_last(), i);
        assert(pairs.drop_last()[i] == pairs[i]);
    }
}

proof fn lemma_map_of_update<V>(pairs: Seq<(Seq<char>, V)>, i: int, value: V)
    requires
        keys_distinct(pairs),
        0 <= i < pairs.len(),
    ensures
        keys_distinct(pairs.update(i, (pairs[i].0, value))),
        map_of(pairs.update(i, (pairs[i].0, value))) == map_of(pairs).insert(pairs[i].0, value),
    decreases pairs.len(),
{
    let updated = pairs.update(i, (pairs[i].0, value));
    if i == pairs.len() - 1 {
        assert(updated.drop_last() =~= pairs.drop_last());
        assert(map_of(updated) =~= map_of(pairs).insert(pairs[i].0, value));
    } else {
        assert(keys_distinct(pairs.drop_last()));
        lemma_map_of_update(pairs.drop_last(), i, value);
        assert(updated.drop_last() =~= pairs.drop_last().update(i, (pairs[i].0, value)));
        assert(pairs.last().0 != pairs[i].0);
        assert(map_of(updated) =~= map_of(pairs).insert(pairs[i].0, value));
    }
}

proof fn lemma_map_of_push<V>(pairs: Seq<(Seq<char>, V)>, key: Seq<char>, value: V)
    requires
        keys_distinct(pairs),
        forall|i: int| 0 <= i < pairs.len() ==> pairs[i].0 != key,
    ensures
        keys_distinct(pairs.push((key, value))),
        map_of(pairs.push((key, value))) == map_of(pairs).insert(key, value),
{
    assert(pairs.push((key, value)).drop_last() =~= pairs);
}

/// Finds the reading of the adapter called `name`.
fn find_reading(readings: &Vec<Reading>, name: &String) -> (found: Option<usize>)
    ensures
        found is Some ==> found->0 < readings@.len() && readings@[found->0 as int].name@ == name@,
        found is None ==> forall|i: int| 0 <= i < readings@.len() ==> readings@[i].name@ != name@,
{
    let mut i: usize = 0;
    while i < readings.len()
        invariant
            i <= readings@.len(),
            forall|j: int| 0 <= j < i ==> readings@[j].name@ != name@,
        decreases readings.len() - i,
    {
        if readings[i].name == *name {
            return Some(i);
        }
        i = i + 1;
    }
    None
}

/// The latest reading of an adapter known to `readings`.
fn latest_reading(readings: &Vec<Reading>, name: &String) -> (received: u64)
    requires
        keys_distinct(reading_pairs(readings@)),
        map_of(reading_pairs(readings@)).dom().contains(name@),
    ensures
        received == map_of(reading_pairs(readings@))[name@],
{
    proof {
        lemma_map_of_domain(reading_pairs(readings@), name@);
    }
    match find_reading(readings, name) {
        Some(k) => {
            proof {
                lemma_map_of_at(reading_pairs(readings@), k as int);
            }
            readings[k].received
        },
        None => {
            proof {
                let i = choose|i: int| 0 <= i < reading_pairs(readings@).len() && reading_pairs(readings@)[i].0 == name@;
                assert(readings@[i].name@ == name@);
            }
            0
        },
    }
}

/// Finds the window of the adapter called `name`.
fn find_load(loads: &Vec<AdapterLoad>, name: &String) -> (found: Option<usize>)
    ensures
        found is Some ==> found->0 < loads@.len() && loads@[found->0 as int].name@ == name@,
        found is None ==> forall|i: int| 0 <= i < loads@.len() ==> loads@[i].name@ != name@,
{
    let mut i: usize = 0;
    while i < loads.len()
        invariant
            i <= loads@.len(),
            forall|j: int| 0 <= j < i ==> loads@[j].name@ != name@,
        decreases loads.len() - i,
    {
        if loads[i].name == *name {
            return Some(i);
        }
        i = i + 1;
    }
    None
}

/// Stores `received` as the latest reading of the adapter `name`.
fn upsert_reading(readings: &mut Vec<Reading>, name: String, received: u64)
    requires
        keys_distinct(reading_pairs(old(readings)@)),
    ensures
        keys_distinct(reading_pairs(final(readings)@)),
        map_of(reading_pairs(final(readings)@)) == map_of(reading_pairs(old(readings)@)).insert(name@, received),
{
    let ghost pairs = reading_pairs(readings@);
    let ghost key = name@;
    match find_reading(readings, &name) {
        Some(i) => {
            readings.set(i, Reading { name, received });
            assert(reading_pairs(readings@) =~= pairs.update(i as int, (pairs[i as int].0, received)));
            proof {
                lemma_map_of_update(pairs, i as int, received);
            }
        },
        None => {
            readings.push(Reading { name, received });
            assert(reading_pairs(readings@) =~= pairs.push((key, received)));
            proof {
                lemma_map_of_push(pairs, key, received);
            }
        },
    }
}

/// Stores `window` as the window of the adapter `name`.
fn upsert_load(loads: &mut Vec<AdapterLoad>, name: String, window: VecDeque<u64>)
    requires
        keys_distinct(load_pairs(old(loads)@)),
    ensures
        keys_distinct(load_pairs(final(loads)@)),
        map_of(load_pairs(final(loads)@)) == map_of(load_pairs(old(loads)@)).insert(name@, window@),
{
    let ghost pairs = load_pairs(loads@);
    let ghost key = name@;
    let ghost value = window@;
    match find_load(loads, &name) {
        Some(i) => {
            loads.set(i, AdapterLoad { name, loads: window });
            assert(load_pairs(loads@) =~= pairs.update(i as int, (pairs[i as int].0, value)));
            proof {
                lemma_map_of_update(pairs, i as int, value);
            }
        },
        None => {
            loads.push(AdapterLoad { name, loads: window });
            assert(load_pairs(loads@) =~= pairs.push((key, value)));
            proof {
                lemma_map_of_push(pairs, key, value);
            }
        },
    }
}

/// The latest reading of each adapter but the loopback one, after taking
/// `readings` in order into `last`.
pub open spec fn record_readings(last: Map<Seq<char>, u64>, readings: Seq<Reading>) -> Map<Seq<char>, u64>
    decreases readings.len(),
{
    if readings.len() == 0 {
        last
    } else {
        let before = record_readings(last, readings.drop_last());
        let r = readings.last();
        if is_loopback(r.name@) {
            before
        } else {
            before.insert(r.name@, r.received)
        }
    }
}

/// The first windows (one measurement each) and the adapters that received
/// traffic, from the readings taken after `last`, in order.
pub open spec fn first_windows(last: Map<Seq<char>, u64>, readings: Seq<Reading>) -> (
    Map<Seq<char>, Seq<u64>>,
    Seq<Seq<char>>,
)
    decreases readings.len(),
{
    if readings.len() == 0 {
        (Map::empty(), Seq::empty())
    } else {
        let (windows, active) = first_windows(last, readings.drop_last());
        let r = readings.last();
        if is_loopback(r.name@) {
            (windows, active)
        } else {
            let load = saturating_diff(r.received, last[r.name@]);
            (windows.insert(r.name@, seq![load]), if load > 0 { active.push(r.name@) } else { active })
        }
    }
}

/// Every adapter but the loopback one read in `second` was read in `first` too.
pub open spec fn covers(first: Seq<Reading>, second: Seq<Reading>) -> bool {
    forall|i: int|
        0 <= i < second.len() && !is_loopback(#[trigger] second[i].name@)
            ==> record_readings(Map::empty(), first).dom().contains(second[i].name@)
}

/// Traffic bookkeeping for every network adapter but the loopback one.
pub struct NetworkTrafficHandler {
    pub load_map: Vec<AdapterLoad>,
    pub active_adapters: Vec<String>,
    last_received_map: Vec<Reading>,
    window: usize,
}

fn loopback_name() -> (name: String)
    ensures
        is_loopback(name@),
{
    String::from_str("lo")
}

impl NetworkTrafficHandler {
    /// The window of each adapter.
    pub closed spec fn loads(&self) -> Map<Seq<char>, Seq<u64>> {
        map_of(load_pairs(self.load_map@))
    }

    /// The latest counter reading of each adapter.
    pub closed spec fn last(&self) -> Map<Seq<char>, u64> {
        map_of(reading_pairs(self.last_received_map@))
    }

    /// The adapters seen receiving traffic, in the order they were first seen.
    pub closed spec fn active(&self) -> Seq<Seq<char>> {
        self.active_adapters@.map_values(|a: String| a@)
    }

    /// How many measurements a full window holds.
    pub closed spec fn window(&self) -> nat {
        self.window as nat
    }

    /// Each adapter appears once in the windows and once in the readings.
    pub closed spec fn wf(&self) -> bool {
        &&& keys_distinct(load_pairs(self.load_map@))
        &&& keys_distinct(reading_pairs(self.last_received_map@))
    }

    /// Whether every adapter read in `second` (but the loopback one) was
    /// read in `first`, as `new` needs.
    pub fn covers(first: &Vec<Reading>, second: &Vec<Reading>) -> (covered: bool)
        ensures
            covered == covers(first@, second@),
    {
        let mut seen: Vec<Reading> = Vec::new();
        let lo = loopback_name();
        let mut i: usize = 0;
        assert(first@.take(0) =~= Seq::<Reading>::empty());
        while i < first.len()
            invariant
                i <= first@.len(),
                is_loopback(lo@),
                keys_distinct(reading_pairs(seen@)),
                map_of(reading_pairs(seen@)) == record_readings(Map::empty(), first@.take(i as int)),
            decreases first.len() - i,
        {
            assert(first@.take(i + 1).drop_last() =~= first@.take(i as int));
            if first[i].name != lo {
                upsert_reading(&mut seen, first[i].name.clone(), first[i].received);
            }
            i = i + 1;
        }
        assert(first@.take(i as int) =~= first@);
        let mut j: usize = 0;
        while j < second.len()
            invariant
                j <= second@.len(),
                is_loopback(lo@),
                keys_distinct(reading_pairs(seen@)),
                map_of(reading_pairs(seen@)) == record_readings(Map::empty(), first@),
                forall|k: int|
                    0 <= k < j && !is_loopback(#[trigger] second@[k].name@)
                        ==> record_readings(Map::empty(), first@).dom().contains(second@[k].name@),
            decreases second.len() - j,
        {
            if second[j].name != lo {
                match find_reading(&seen, &second[j].name) {
                    Some(k) => {
                        proof {
                            lemma_map_of_at(reading_pairs(seen@), k as int);
                        }
                    },
                    None => {
                        proof {
                            lemma_map_of_domain(reading_pairs(seen@), second@[j as int].name@);
                        }
                        return false;
                    },
                }
            }
            j = j + 1;
        }
        true
    }

    /// Bookkeeping from two rounds of readings taken some time apart: the
    /// first round gives each adapter's counter, the second the traffic
    /// received in between, which starts each window; adapters that
    /// received anything count as active.
    pub fn new(first: &Vec<Reading>, second: &Vec<Reading>, window: usize) -> (handler: Self)
        requires
            covers(first@, second@),
        ensures
            handler.wf(),
            handler.window() == window,
            handler.last() == record_readings(Map::empty(), first@),
            handler.loads() == first_windows(handler.last(), second@).0,
            handler.active() == first_windows(handler.last(), second@).1,
            forall|name: Seq<char>|
                #[trigger] handler.active().contains(name) <==> exists|i: int|
                    0 <= i < second@.len() && #[trigger] second@[i].name@ == name && !is_loopback(name)
                        && second@[i].received > handler.last()[name],
    {
        let lo = loopback_name();
        let mut last_received_map: Vec<Reading> = Vec::new();
        let mut i: usize = 0;
        assert(first@.take(0) =~= Seq::<Reading>::empty());
        assert(reading_pairs(last_received_map@) =~= Seq::empty());
        while i < first.len()
            invariant
                i <= first@.len(),
                is_loopback(lo@),
                keys_distinct(reading_pairs(last_received_map@)),
                map_of(reading_pairs(last_received_map@)) == record_readings(Map::empty(), first@.take(i as int)),
            decreases first.len() - i,
        {
            assert(first@.take(i + 1).drop_last() =~= first@.take(i as int));
            if first[i].name != lo {
                upsert_reading(&mut last_received_map, first[i].name.clone(), first[i].received);
            }
            i = i + 1;
        }
        assert(first@.take(i as int) =~= first@);
        let ghost last = record_readings(Map::empty(), first@);
        let mut load_map: Vec<AdapterLoad> = Vec::new();
        let mut active_adapters: Vec<String> = Vec::new();
        let mut j: usize = 0;
        assert(second@.take(0) =~= Seq::<Reading>::empty());
        assert(load_pairs(load_map@) =~= Seq::empty());
        assert(active_adapters@.map_values(|a: String| a@) =~= Seq::empty());
        while j < second.len()
            invariant
                j <= second@.len(),
                is_loopback(lo@),
                covers(first@, second@),
                last == record_readings(Map::empty(), first@),
                keys_distinct(reading_pairs(last_received_map@)),
                map_of(reading_pairs(last_received_map@)) == last,
                keys_distinct(load_pairs(load_map@)),
                map_of(load_pairs(load_map@)) == first_windows(last, second@.take(j as int)).0,
                active_adapters@.map_values(|a: String| a@) == first_windows(last, second@.take(j as int)).1,
            decreases second.len() - j,
        {
            assert(second@.take(j + 1).drop_last() =~= second@.take(j as int));
            let reading = &second[j];
            if reading.name != lo {
                assert(last.dom().contains(second@[j as int].name@));
                let previous = latest_reading(&last_received_map, &reading.name);
                let load = reading.received.saturating_sub(previous);
                if load > 0 {
                    let ghost before = active_adapters@.map_values(|a: String| a@);
                    active_adapters.push(reading.name.clone());
                    assert(active_adapters@.map_values(|a: String| a@) =~= before.push(reading.name@));
                }
                let mut window_loads: VecDeque<u64> = VecDeque::new();
                window_loads.push_back(load);
                assert(window_loads@ =~= seq![load]);
                upsert_load(&mut load_map, reading.name.clone(), window_loads);
            }
            j = j + 1;
        }
        assert(second@.take(j as int) =~= second@);
        let handler = NetworkTrafficHandler { load_map, active_adapters, last_received_map, window };
        assert forall|name: Seq<char>|
            #[trigger] handler.active().contains(name) <==> exists|i: int|
                0 <= i < second@.len() && #[trigger] second@[i].name@ == name && !is_loopback(name)
                    && second@[i].received > handler.last()[name] by {
            lemma_first_active(last, second@, name);
        }
        handler
    }

    /// The whole bookkeeping as one value.
    pub closed spec fn traffic(&self) -> TrafficView {
        TrafficView { loads: self.loads(), active: self.active(), last: self.last() }
    }

    /// Like `new`, with the windows then replaced by `load_map`.
    pub fn new_with_load_map(
        first: &Vec<Reading>,
        second: &Vec<Reading>,
        window: usize,
        load_map: Vec<AdapterLoad>,
    ) -> (handler: Self)
        requires
            covers(first@, second@),
            keys_distinct(load_pairs(load_map@)),
        ensures
            handler.wf(),
            handler.window() == window,
            handler.last() == record_readings(Map::empty(), first@),
            handler.loads() == map_of(load_pairs(load_map@)),
            handler.active() == first_windows(handler.last(), second@).1,
    {
        let mut default_self = Self::new(first, second, window);
        default_self.load_map = load_map;
        default_self
    }

    /// Whether every adapter read in `readings` (but the loopback one) is
    /// already known, as `update` needs.
    pub fn knows_all(&self, readings: &Vec<Reading>) -> (known: bool)
        requires
            self.wf(),
        ensures
            known == knows(self.traffic(), readings@),
    {
        let lo = loopback_name();
        let mut j: usize = 0;
        while j < readings.len()
            invariant
                j <= readings@.len(),
                is_loopback(lo@),
                self.wf(),
                forall|k: int|
                    0 <= k < j && !is_loopback(#[trigger] readings@[k].name@) ==> self.traffic().last.dom().contains(
                        readings@[k].name@,
                    ) && self.traffic().loads.dom().contains(readings@[k].name@),
            decreases readings.len() - j,
        {
            if readings[j].name != lo {
                let ghost name = readings@[j as int].name@;
                proof {
                    lemma_map_of_domain(reading_pairs(self.last_received_map@), name);
                    lemma_map_of_domain(load_pairs(self.load_map@), name);
                }
                match find_reading(&self.last_received_map, &readings[j].name) {
                    Some(k) => {
                        assert(reading_pairs(self.last_received_map@)[k as int].0 == name);
                    },
                    None => {
                        return false;
                    },
                }
                match find_load(&self.load_map, &readings[j].name) {
                    Some(k) => {
                        assert(load_pairs(self.load_map@)[k as int].0 == name);
                    },
                    None => {
                        return false;
                    },
                }
            }
            j = j + 1;
        }
        true
    }

    /// Takes a new round of counter readings: each adapter's traffic since
    /// its last reading (never negative) is added to its window, which drops
    /// its oldest measurement once full; an adapter that received anything
    /// is added to the active ones if it is not among them yet.
    pub fn update(&mut self, readings: &Vec<Reading>)
        requires
            old(self).wf(),
            knows(old(self).traffic(), readings@),
        ensures
            final(self).wf(),
            final(self).window() == old(self).window(),
            final(self).traffic() == take_samples(old(self).traffic(), readings@, old(self).window()),
            forall|name: Seq<char>|
                #[trigger] final(self).active().contains(name) <==> (old(self).active().contains(name) || exists|i: int|
                    0 <= i < readings@.len() && #[trigger] readings@[i].name@ == name && !is_loopback(name)
                        && readings@[i].received > last_before(old(self).last(), readings@, i, name)),
    {
        let lo = loopback_name();
        let ghost initial = self.traffic();
        let mut j: usize = 0;
        assert(readings@.take(0) =~= Seq::<Reading>::empty());
        while j < readings.len()
            invariant
                j <= readings@.len(),
                is_loopback(lo@),
                self.wf(),
                self.window() == old(self).window(),
                initial == old(self).traffic(),
                knows(initial, readings@),
                self.traffic() == take_samples(initial, readings@.take(j as int), self.window()),
                self.traffic().last.dom() == initial.last.dom(),
                self.traffic().loads.dom() == initial.loads.dom(),
            decreases readings.len() - j,
        {
            assert(readings@.take(j + 1).drop_last() =~= readings@.take(j as int));
            let reading = &readings[j];
            if reading.name != lo {
                self.take_reading(reading);
            }
            j = j + 1;
        }
        assert(readings@.take(j as int) =~= readings@);
        assert forall|name: Seq<char>|
            #[trigger] self.active().contains(name) <==> (initial.active.contains(name) || exists|i: int|
                0 <= i < readings@.len() && #[trigger] readings@[i].name@ == name && !is_loopback(name)
                    && readings@[i].received > last_before(initial.last, readings@, i, name)) by {
            lemma_active_adapters(initial, readings@, self.window(), name);
        }
    }

    /// Takes the reading of one known adapter other than the loopback one.
    fn take_reading(&mut self, reading: &Reading)
        requires
            old(self).wf(),
            !is_loopback(reading.name@),
            old(self).traffic().last.dom().contains(reading.name@),
            old(self).traffic().loads.dom().contains(reading.name@),
        ensures
            final(self).wf(),
            final(self).window() == old(self).window(),
            final(self).traffic() == take_sample(old(self).traffic(), *reading, old(self).window()),
            final(self).traffic().last.dom() == old(self).traffic().last.dom(),
            final(self).traffic().loads.dom() == old(self).traffic().loads.dom(),
    {
        let ghost before = self.traffic();
        let ghost name = reading.name@;
        proof {
            lemma_map_of_domain(reading_pairs(self.last_received_map@), name);
            lemma_map_of_domain(load_pairs(self.load_map@), name);
        }
        let last_received = latest_reading(&self.last_received_map, &reading.name);
        assert(last_received == before.last[name]);
        upsert_reading(&mut self.last_received_map, reading.name.clone(), reading.received);
        let load = reading.received.saturating_sub(last_received);
        if load > 0 && !contains_name(&self.active_adapters, &reading.name) {
            let ghost active = self.active();
            self.active_adapters.push(reading.name.clone());
            assert(self.active() =~= active.push(name));
        }
        let mut window_loads: VecDeque<u64> = match find_load(&self.load_map, &reading.name) {
            Some(k) => {
                proof {
                    lemma_map_of_at(load_pairs(self.load_map@), k as int);
                }
                copy_loads(&self.load_map[k].loads)
            },
            None => VecDeque::new(),
        };
        assert(window_loads@ == before.loads[name]);
        let ghost old_window = window_loads@;
        if window_loads.len() == self.window {
            window_loads.pop_front();
        }
        window_loads.push_back(load);
        assert(window_loads@ =~= slide(old_window, load, self.window as nat));
        upsert_load(&mut self.load_map, reading.name.clone(), window_loads);
        assert(self.traffic() =~~= take_sample(before, *reading, self.window as nat));
    }

    /// Whether the Internet connection of `adapter` is back: its window is
    /// full and the traffic in it reaches `threshold`.
    pub fn internet_restored(&self, adapter: &String, threshold: u64) -> (restored: bool)
        requires
            self.wf(),
        ensures
            restored == (self.loads().dom().contains(adapter@) && self.loads()[adapter@].len() == self.window()
                && window_sum(self.loads()[adapter@]) >= threshold),
    {
        proof {
            lemma_map_of_domain(load_pairs(self.load_map@), adapter@);
        }
        match find_load(&self.load_map, adapter) {
            Some(k) => {
                proof {
                    lemma_map_of_at(load_pairs(self.load_map@), k as int);
                }
                let loads = &self.load_map[k].loads;
                if loads.len() != self.window {
                    return false;
                }
                reaches(loads, threshold)
            },
            None => false,
        }
    }
}

/// A copy of a window.
fn copy_loads(loads: &VecDeque<u64>) -> (copy: VecDeque<u64>)
    ensures
        copy@ == loads@,
{
    let mut copy: VecDeque<u64> = VecDeque::new();
    let mut i: usize = 0;
    while i < loads.len()
        invariant
            i <= loads@.len(),
            copy@ == loads@.take(i as int),
        decreases loads.len() - i,
    {
        copy.push_back(loads[i]);
        assert(copy@ =~= loads@.take(i + 1));
        i = i + 1;
    }
    assert(loads@.take(i as int) =~= loads@);
    copy
}

/// Whether `names` holds `name`.
fn contains_name(names: &Vec<String>, name: &String) -> (found: bool)
    ensures
        found == names@.map_values(|a: String| a@).contains(name@),
{
    let mut i: usize = 0;
    while i < names.len()
        invariant
            i <= names@.len(),
            forall|j: int| 0 <= j < i ==> names@[j]@ != name@,
        decreases names.len() - i,
    {
        if names[i] == *name {
            assert(names@.map_values(|a: String| a@)[i as int] == name@);
            return true;
        }
        i = i + 1;
    }
    false
}

/// Whether the traffic in `loads` adds up to at least `threshold`.
fn reaches(loads: &VecDeque<u64>, threshold: u64) -> (reached: bool)
    ensures
        reached == (window_sum(loads@) >= threshold),
{
    let mut total: u128 = 0;
    let mut i: usize = 0;
    while i < loads.len()
        invariant
            i <= loads@.len(),
            total == window_sum(loads@.take(i as int)),
            total < threshold || i == 0,
            i == 0 ==> total == 0,
        decreases loads.len() - i,
    {
        assert(loads@.take(i + 1).drop_last() =~= loads@.take(i as int));
        total = total + loads[i] as u128;
        i = i + 1;
        if total >= threshold as u128 {
            proof {
                lemma_window_sum_grows(loads@, i as int, loads@.len() as int);
                assert(loads@.take(loads@.len() as int) =~= loads@);
            }
            return true;
        }
    }
    assert(loads@.take(i as int) =~= loads@);
    total >= threshold as u128
}

/// The traffic in a window, added up.
pub open spec fn window_sum(window: Seq<u64>) -> int
    decreases window.len(),
{
    if window.len() == 0 {
        0
    } else {
        window_sum(window.drop_last()) + window.last()
    }
}

proof fn lemma_window_sum_grows(window: Seq<u64>, i: int, j: int)
    requires
        0 <= i <= j <= window.len(),
    ensures
        window_sum(window.take(i)) <= window_sum(window.take(j)),
    decreases j - i,
{
    if i < j {
        lemma_window_sum_grows(window, i, j - 1);
        assert(window.take(j).drop_last() =~= window.take(j - 1));
    }
}

/// The traffic bookkeeping as mathematical values: each adapter's window,
/// the active adapters, and each adapter's latest counter reading.
pub struct TrafficView {
    pub loads: Map<Seq<char>, Seq<u64>>,
    pub active: Seq<Seq<char>>,
    pub last: Map<Seq<char>, u64>,
}

/// A window after one more measurement: once it holds `len` measurements,
/// the oldest one is dropped.
pub open spec fn slide(window: Seq<u64>, load: u64, len: nat) -> Seq<u64> {
    if window.len() == len && len > 0 {
        window.drop_first().push(load)
    } else {
        window.push(load)
    }
}

/// The bookkeeping after one reading.
pub open spec fn take_sample(v: TrafficView, reading: Reading, len: nat) -> TrafficView {
    let name = reading.name@;
    if is_loopback(name) {
        v
    } else {
        let load = saturating_diff(reading.received, v.last[name]);
        TrafficView {
            loads: v.loads.insert(name, slide(v.loads[name], load, len)),
            active: if load > 0 && !v.active.contains(name) { v.active.push(name) } else { v.active },
            last: v.last.insert(name, reading.received),
        }
    }
}

/// The bookkeeping after a round of readings, taken in order.
pub open spec fn take_samples(v: TrafficView, readings: Seq<Reading>, len: nat) -> TrafficView
    decreases readings.len(),
{
    if readings.len() == 0 {
        v
    } else {
        take_sample(take_samples(v, readings.drop_last(), len), readings.last(), len)
    }
}

/// Every adapter read (but the loopback one) is known to the bookkeeping.
pub open spec fn knows(v: TrafficView, readings: Seq<Reading>) -> bool {
    forall|i: int|
        0 <= i < readings.len() && !is_loopback(#[trigger] readings[i].name@) ==> v.last.dom().contains(
            readings[i].name@,
        ) && v.loads.dom().contains(readings[i].name@)
}

/// The name of the file that records an incident that started at the given date and time.
pub fn incident_file_name(start_date: &str, start_time: &str) -> (name: String)
    ensures
        name@ == start_date@ + "-"@ + start_time@ + ".xff"@,
{
    String::from_str(start_date).concat("-").concat(start_time).concat(".xff")
}

/// The fields that record an incident: when it started and ended, and how
/// long it lasted in milliseconds.
pub open spec fn incident_fields(
    start_date: Seq<char>,
    start_time: Seq<char>,
    end_date: Seq<char>,
    end_time: Seq<char>,
    duration_ms: nat,
) -> Seq<(Seq<char>, Seq<char>)> {
    seq![
        ("start-date"@, start_date),
        ("start-time"@, start_time),
        ("end-date"@, end_date),
        ("end-time"@, end_time),
        ("duration"@, decimal(duration_ms)),
    ]
}

/// The record of an incident, as named fields in order.
pub fn incident_report(
    start_date: &str,
    start_time: &str,
    end_date: &str,
    end_time: &str,
    duration_ms: u128,
) -> (report: Vec<(String, String)>)
    ensures
        report@.map_values(|f: (String, String)| (f.0@, f.1@)) == incident_fields(
            start_date@,
            start_time@,
            end_date@,
            end_time@,
            duration_ms as nat,
        ),
{
    let mut report: Vec<(String, String)> = Vec::new();
    report.push((String::from_str("start-date"), String::from_str(start_date)));
    report.push((String::from_str("start-time"), String::from_str(start_time)));
    report.push((String::from_str("end-date"), String::from_str(end_date)));
    report.push((String::from_str("end-time"), String::from_str(end_time)));
    report.push((String::from_str("duration"), decimal_text(duration_ms)));
    assert(report@.map_values(|f: (String, String)| (f.0@, f.1@)) =~= incident_fields(
        start_date@,
        start_time@,
        end_date@,
        end_time@,
        duration_ms as nat,
    ));
    report
}

/// No window holds more than `len` measurements.
pub open spec fn windows_bounded(v: TrafficView, len: nat) -> bool {
    forall|name: Seq<char>| #[trigger] v.loads.dom().contains(name) ==> v.loads[name].len() <= len
}

/// Once no window is longer than the full length, none ever grows longer:
/// a full window drops its oldest measurement for each new one.
pub proof fn lemma_windows_stay_bounded(v: TrafficView, readings: Seq<Reading>, len: nat)
    requires
        len > 0,
        windows_bounded(v, len),
        knows(v, readings),
    ensures
        windows_bounded(take_samples(v, readings, len), len),
    decreases readings.len(),
{
    if readings.len() > 0 {
        assert(knows(v, readings.drop_last())) by {
            assert forall|i: int|
                0 <= i < readings.drop_last().len() && !is_loopback(#[trigger] readings.drop_last()[i].name@)
                implies v.last.dom().contains(readings.drop_last()[i].name@) && v.loads.dom().contains(
                readings.drop_last()[i].name@,
            ) by {
                assert(readings.drop_last()[i] == readings[i]);
            }
        }
        lemma_windows_stay_bounded(v, readings.drop_last(), len);
        lemma_samples_keep_domains(v, readings.drop_last(), len);
        let r = readings.last();
        assert(readings[readings.len() - 1] == r);
    }
}

/// An adapter that a round does not read keeps its window and its latest reading.
pub proof fn lemma_update_leaves_unread(v: TrafficView, readings: Seq<Reading>, len: nat, name: Seq<char>)
    requires
        forall|i: int| 0 <= i < readings.len() ==> #[trigger] readings[i].name@ != name,
    ensures
        take_samples(v, readings, len).last[name] == v.last[name],
        take_samples(v, readings, len).loads[name] == v.loads[name],
    decreases readings.len(),
{
    if readings.len() > 0 {
        assert forall|i: int| 0 <= i < readings.drop_last().len() implies #[trigger] readings.drop_last()[i].name@
            != name by {
            assert(readings.drop_last()[i] == readings[i]);
        }
        lemma_update_leaves_unread(v, readings.drop_last(), len, name);
        assert(readings[readings.len() - 1] == readings.last());
    }
}

/// An adapter read once in a round (loopback aside) ends the round with
/// that reading as its latest one and with its window slid by the traffic
/// since its reading before the round.
pub proof fn lemma_update_per_reading(v: TrafficView, readings: Seq<Reading>, len: nat, i: int)
    requires
        0 <= i < readings.len(),
        !is_loopback(readings[i].name@),
        forall|j: int| 0 <= j < readings.len() && j != i ==> #[trigger] readings[j].name@ != readings[i].name@,
    ensures
        take_samples(v, readings, len).last[readings[i].name@] == readings[i].received,
        take_samples(v, readings, len).loads[readings[i].name@] == slide(
            v.loads[readings[i].name@],
            saturating_diff(readings[i].received, v.last[readings[i].name@]),
            len,
        ),
    decreases readings.len(),
{
    let name = readings[i].name@;
    let prefix = readings.drop_last();
    if i == readings.len() - 1 {
        assert forall|j: int| 0 <= j < prefix.len() implies #[trigger] prefix[j].name@ != name by {
            assert(prefix[j] == readings[j]);
        }
        lemma_update_leaves_unread(v, prefix, len, name);
        assert(readings.last() == readings[i]);
    } else {
        assert(prefix[i] == readings[i]);
        assert forall|j: int| 0 <= j < prefix.len() && j != i implies #[trigger] prefix[j].name@ != prefix[i].name@ by {
            assert(prefix[j] == readings[j]);
        }
        lemma_update_per_reading(v, prefix, len, i);
        assert(readings.last() == readings[readings.len() - 1]);
        assert(readings[readings.len() - 1].name@ != name);
    }
}

/// No adapter but the loopback one is read twice in a round.
pub open spec fn reads_each_once(readings: Seq<Reading>) -> bool {
    forall|i: int, j: int|
        0 <= i < readings.len() && 0 <= j < readings.len() && i != j && !is_loopback(readings[i].name@)
            ==> #[trigger] readings[i].name@ != #[trigger] readings[j].name@
}

/// One round of readings, as a whole: each adapter read (loopback aside)
/// gets that reading as its latest one and its window slid by the traffic
/// since its reading before the round, dropping its oldest measurement
/// once full; no window grows past its full length; the set of adapters
/// stays the same.
pub proof fn lemma_update_round(v: TrafficView, readings: Seq<Reading>, len: nat)
    requires
        len > 0,
        knows(v, readings),
        reads_each_once(readings),
        windows_bounded(v, len),
    ensures
        forall|i: int|
            0 <= i < readings.len() && !is_loopback(#[trigger] readings[i].name@) ==> {
                &&& take_samples(v, readings, len).last[readings[i].name@] == readings[i].received
                &&& take_samples(v, readings, len).loads[readings[i].name@] == slide(
                    v.loads[readings[i].name@],
                    saturating_diff(readings[i].received, v.last[readings[i].name@]),
                    len,
                )
            },
        windows_bounded(take_samples(v, readings, len), len),
        take_samples(v, readings, len).loads.dom() == v.loads.dom(),
        take_samples(v, readings, len).last.dom() == v.last.dom(),
{
    assert forall|i: int| 0 <= i < readings.len() && !is_loopback(#[trigger] readings[i].name@) implies {
        &&& take_samples(v, readings, len).last[readings[i].name@] == readings[i].received
        &&& take_samples(v, readings, len).loads[readings[i].name@] == slide(
            v.loads[readings[i].name@],
            saturating_diff(readings[i].received, v.last[readings[i].name@]),
            len,
        )
    } by {
        assert forall|j: int| 0 <= j < readings.len() && j != i implies #[trigger] readings[j].name@
            != readings[i].name@ by {
            assert(readings[i].name@ != readings[j].name@);
        }
        lemma_update_per_reading(v, readings, len, i);
    }
    lemma_windows_stay_bounded(v, readings, len);
    lemma_samples_keep_domains(v, readings, len);
}

/// Taking readings of known adapters keeps the set of adapters.
pub proof fn lemma_samples_keep_domains(v: TrafficView, readings: Seq<Reading>, len: nat)
    requires
        knows(v, readings),
    ensures
        take_samples(v, readings, len).loads.dom() == v.loads.dom(),
        take_samples(v, readings, len).last.dom() == v.last.dom(),
    decreases readings.len(),
{
    if readings.len() > 0 {
        assert(knows(v, readings.drop_last())) by {
            assert forall|i: int|
                0 <= i < readings.drop_last().len() && !is_loopback(#[trigger] readings.drop_last()[i].name@)
                implies v.last.dom().contains(readings.drop_last()[i].name@) && v.loads.dom().contains(
                readings.drop_last()[i].name@,
            ) by {
                assert(readings.drop_last()[i] == readings[i]);
            }
        }
        lemma_samples_keep_domains(v, readings.drop_last(), len);
        let r = readings.last();
        assert(readings[readings.len() - 1] == r);
        let before = take_samples(v, readings.drop_last(), len);
        if !is_loopback(r.name@) {
            assert(before.loads.dom().insert(r.name@) =~= before.loads.dom());
            assert(before.last.dom().insert(r.name@) =~= before.last.dom());
        }
    }
}

/// The active adapters only ever grow, keep their order, and never hold
/// an adapter twice.
pub proof fn lemma_active_grows_without_repeats(v: TrafficView, readings: Seq<Reading>, len: nat)
    requires
        v.active.no_duplicates(),
    ensures
        take_samples(v, readings, len).active.no_duplicates(),
        v.active.is_prefix_of(take_samples(v, readings, len).active),
    decreases readings.len(),
{
    if readings.len() > 0 {
        lemma_active_grows_without_repeats(v, readings.drop_last(), len);
        let before = take_samples(v, readings.drop_last(), len);
        let after = take_samples(v, readings, len);
        if after.active != before.active {
            let name = readings.last().name@;
            assert(after.active == before.active.push(name));
            assert(!before.active.contains(name));
            assert forall|i: int, j: int| 0 <= i < after.active.len() && 0 <= j < after.active.len() && i != j
                implies after.active[i] != after.active[j] by {
                if i < before.active.len() && j < before.active.len() {
                } else if i == before.active.len() {
                    assert(before.active[j] == after.active[j]);
                } else {
                    assert(before.active[i] == after.active[i]);
                }
            }
        }
    }
}

/// The counter of adapter `name` just before the reading at position `i`
/// of a round is taken: the latest earlier reading of it in the round, or
/// the one known before the round. (The loopback adapter is never updated.)
pub open spec fn last_before(last: Map<Seq<char>, u64>, readings: Seq<Reading>, i: int, name: Seq<char>) -> u64
    decreases i,
{
    if i <= 0 {
        last[name]
    } else if readings[i - 1].name@ == name && !is_loopback(name) {
        readings[i - 1].received
    } else {
        last_before(last, readings, i - 1, name)
    }
}

proof fn lemma_last_before_prefix(last: Map<Seq<char>, u64>, readings: Seq<Reading>, i: int, name: Seq<char>)
    requires
        0 <= i < readings.len(),
    ensures
        last_before(last, readings.drop_last(), i, name) == last_before(last, readings, i, name),
    decreases i,
{
    if i > 0 {
        assert(readings.drop_last()[i - 1] == readings[i - 1]);
        lemma_last_before_prefix(last, readings, i - 1, name);
    }
}

/// After a round, each adapter's latest counter is its last reading in the
/// round, or the one known before if the round did not read it.
pub proof fn lemma_last_tracks_readings(v: TrafficView, readings: Seq<Reading>, len: nat, name: Seq<char>)
    ensures
        take_samples(v, readings, len).last[name] == last_before(v.last, readings, readings.len() as int, name),
    decreases readings.len(),
{
    if readings.len() > 0 {
        let prefix = readings.drop_last();
        lemma_last_tracks_readings(v, prefix, len, name);
        lemma_last_before_prefix(v.last, readings, readings.len() - 1, name);
        assert(readings[readings.len() - 1] == readings.last());
    }
}

/// An adapter is active after a round exactly when it was active before or
/// some reading in the round shows it received something since the counter
/// reading before it; an adapter whose counter did not move stays inactive.
pub proof fn lemma_active_adapters(v: TrafficView, readings: Seq<Reading>, len: nat, name: Seq<char>)
    ensures
        take_samples(v, readings, len).active.contains(name) <==> (v.active.contains(name) || exists|i: int|
            0 <= i < readings.len() && #[trigger] readings[i].name@ == name && !is_loopback(name)
                && readings[i].received > last_before(v.last, readings, i, name)),
    decreases readings.len(),
{
    if readings.len() > 0 {
        let prefix = readings.drop_last();
        let n = readings.len() - 1;
        lemma_active_adapters(v, prefix, len, name);
        lemma_last_tracks_readings(v, prefix, len, name);
        lemma_last_before_prefix(v.last, readings, n, name);
        let before = take_samples(v, prefix, len);
        let r = readings.last();
        assert(readings[n] == r);
        let grows = exists|i: int|
            0 <= i < readings.len() && #[trigger] readings[i].name@ == name && !is_loopback(name)
                && readings[i].received > last_before(v.last, readings, i, name);
        let grew = exists|i: int|
            0 <= i < prefix.len() && #[trigger] prefix[i].name@ == name && !is_loopback(name)
                && prefix[i].received > last_before(v.last, prefix, i, name);
        if grew {
            let i = choose|i: int|
                0 <= i < prefix.len() && #[trigger] prefix[i].name@ == name && !is_loopback(name)
                    && prefix[i].received > last_before(v.last, prefix, i, name);
            assert(prefix[i] == readings[i]);
            lemma_last_before_prefix(v.last, readings, i, name);
            assert(readings[i].name@ == name);
        }
        if grows {
            let i = choose|i: int|
                0 <= i < readings.len() && #[trigger] readings[i].name@ == name && !is_loopback(name)
                    && readings[i].received > last_before(v.last, readings, i, name);
            if i < n {
                assert(prefix[i] == readings[i]);
                lemma_last_before_prefix(v.last, readings, i, name);
                assert(prefix[i].name@ == name);
            }
        }
        let after = take_samples(v, readings, len);
        if !is_loopback(r.name@) {
            let load = saturating_diff(r.received, before.last[r.name@]);
            if load > 0 && !before.active.contains(r.name@) {
                assert(after.active == before.active.push(r.name@));
                if r.name@ != name {
                    assert(after.active.contains(name) == before.active.contains(name)) by {
                        if after.active.contains(name) {
                            let k = choose|k: int| 0 <= k < after.active.len() && after.active[k] == name;
                            assert(k < before.active.len());
                            assert(before.active[k] == name);
                        }
                        if before.active.contains(name) {
                            let k = choose|k: int| 0 <= k < before.active.len() && before.active[k] == name;
                            assert(after.active[k] == name);
                        }
                    }
                } else {
                    assert(after.active[before.active.len() as int] == name);
                }
            }
        }
    }
}

/// The adapters that start out active are exactly those that received
/// something between the two readings.
pub proof fn lemma_first_active(last: Map<Seq<char>, u64>, readings: Seq<Reading>, name: Seq<char>)
    ensures
        first_windows(last, readings).1.contains(name) <==> exists|i: int|
            0 <= i < readings.len() && #[trigger] readings[i].name@ == name && !is_loopback(name)
                && readings[i].received > last[name],
    decreases readings.len(),
{
    if readings.len() > 0 {
        let prefix = readings.drop_last();
        let n = readings.len() - 1;
        lemma_first_active(last, prefix, name);
        let r = readings.last();
        assert(readings[n] == r);
        let before = first_windows(last, prefix).1;
        let after = first_windows(last, readings).1;
        if exists|i: int|
            0 <= i < prefix.len() && #[trigger] prefix[i].name@ == name && !is_loopback(name)
                && prefix[i].received > last[name] {
            let i = choose|i: int|
                0 <= i < prefix.len() && #[trigger] prefix[i].name@ == name && !is_loopback(name)
                    && prefix[i].received > last[name];
            assert(prefix[i] == readings[i]);
            assert(readings[i].name@ == name);
        }
        if exists|i: int|
            0 <= i < readings.len() && #[trigger] readings[i].name@ == name && !is_loopback(name)
                && readings[i].received > last[name] {
            let i = choose|i: int|
                0 <= i < readings.len() && #[trigger] readings[i].name@ == name && !is_loopback(name)
                    && readings[i].received > last[name];
            if i < n {
                assert(prefix[i] == readings[i]);
                assert(prefix[i].name@ == name);
            }
        }
        if !is_loopback(r.name@) && saturating_diff(r.received, last[r.name@]) > 0 {
            assert(after == before.push(r.name@));
            if r.name@ != name {
                assert(after.contains(name) == before.contains(name)) by {
                    if after.contains(name) {
                        let k = choose|k: int| 0 <= k < after.len() && after[k] == name;
                        assert(k < before.len());
                        assert(before[k] == name);
                    }
                    if before.contains(name) {
                        let k = choose|k: int| 0 <= k < before.len() && before[k] == name;
                        assert(after[k] == name);
                    }
                }
            } else {
                assert(after[before.len() as int] == name);
            }
        }
    }
}

} // verus!
