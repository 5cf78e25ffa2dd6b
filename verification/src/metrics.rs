//! The metric catalog and the value transforms.
//!
//! A `Metric` binds an output family name to the NUT variable it is read
//! from, its metadata, and the transform that turns the raw text value
//! into a number. The catalog is built once and handed to the renderer by
//! reference; nothing here does I/O.

use vstd::prelude::*;

use crate::decimal::{
    dec_view, spec_parse_decimal, spec_shift_right2, parse_decimal, div_hundred, Decimal,
};
use crate::strutil::{
    eq_str, lemma_split_at_first_space, lemma_split_no_space, spec_split_spaces, substring_copy,
};

verus! {

/// The reserved pseudo-variable holding a device's free-text description.
/// It is seeded by the device-listing query and never overwritten by the
/// variable-listing query.
pub const UPS_DESCRIPTION_PSEUDOVAR: &'static str = "_description";

/// How a raw variable value becomes a metric value.
#[derive(Debug, Copy, Clone, PartialEq, Eq, Structural)]
pub enum VarTransform {
    /// The raw value read as a plain decimal number.
    Identity,
    /// The raw value read as a decimal and divided by one hundred.
    PercentageToFraction,
    /// Beeper state words mapped to an ordinal; anything else to zero.
    EnumToOrdinal,
    /// The first status token mapped to an ordinal; anything else to zero.
    StatusPrefixToOrdinal,
}

/// One metric family definition of the catalog.
#[derive(Debug, Clone)]
pub struct Metric {
    pub metric: &'static str,
    pub help: &'static str,
    pub type_: &'static str,
    pub unit: &'static str,
    pub nut_var: &'static str,
    pub var_transform: VarTransform,
    pub is_integer: bool,
}

/// Keys of an association list are pairwise distinct.
pub open spec fn unique_keys<V>(s: Seq<(Seq<char>, V)>) -> bool {
    forall|i: int, j: int| 0 <= i < j < s.len() ==> (#[trigger] s[i]).0 != (#[trigger] s[j]).0
}

/// The value under the first entry with key `k`, if any.
pub open spec fn spec_lookup<V>(s: Seq<(Seq<char>, V)>, k: Seq<char>) -> Option<V>
    decreases s.len(),
{
    if s.len() == 0 {
        None
    } else if s[0].0 == k {
        Some(s[0].1)
    } else {
        spec_lookup(s.drop_first(), k)
    }
}

/// Replaces the value under `k` in place, or appends a new entry.
pub open spec fn spec_insert<V>(s: Seq<(Seq<char>, V)>, k: Seq<char>, v: V) -> Seq<(Seq<char>, V)>
    decreases s.len(),
{
    if s.len() == 0 {
        seq![(k, v)]
    } else if s[0].0 == k {
        seq![(k, v)] + s.drop_first()
    } else {
        seq![s[0]] + spec_insert(s.drop_first(), k, v)
    }
}

/// Inserting where `k` already stands at the first matching index `i`
/// is an update in place.
pub proof fn lemma_insert_at<V>(s: Seq<(Seq<char>, V)>, k: Seq<char>, v: V, i: int)
    requires
        0 <= i < s.len(),
        s[i].0 == k,
        forall|j: int| 0 <= j < i ==> (#[trigger] s[j]).0 != k,
    ensures
        spec_insert(s, k, v) == s.update(i, (k, v)),
    decreases s.len(),
{
    if i == 0 {
        assert(spec_insert(s, k, v) =~= s.update(0, (k, v)));
    } else {
        lemma_insert_at(s.drop_first(), k, v, i - 1);
        assert(spec_insert(s, k, v) =~= s.update(i, (k, v)));
    }
}

/// Inserting a missing key appends.
pub proof fn lemma_insert_missing<V>(s: Seq<(Seq<char>, V)>, k: Seq<char>, v: V)
    requires
        forall|j: int| 0 <= j < s.len() ==> (#[trigger] s[j]).0 != k,
    ensures
        spec_insert(s, k, v) == s.push((k, v)),
    decreases s.len(),
{
    if s.len() == 0 {
        assert(spec_insert(s, k, v) =~= s.push((k, v)));
    } else {
        lemma_insert_missing(s.drop_first(), k, v);
        assert(spec_insert(s, k, v) =~= s.push((k, v)));
    }
}

/// Looking a key up after an insert: the inserted key maps to the new
/// value, every other key as before.
pub proof fn lemma_lookup_insert<V>(s: Seq<(Seq<char>, V)>, k: Seq<char>, v: V, probe: Seq<char>)
    ensures
        probe == k ==> spec_lookup(spec_insert(s, k, v), probe) == Some(v),
        probe != k ==> spec_lookup(spec_insert(s, k, v), probe) == spec_lookup(s, probe),
    decreases s.len(),
{
    if s.len() == 0 {
        assert(spec_insert(s, k, v)[0] == (k, v));
        assert(spec_insert(s, k, v).drop_first() =~= s);
    } else if s[0].0 == k {
        assert(spec_insert(s, k, v)[0] == (k, v));
        assert(spec_insert(s, k, v).drop_first() =~= s.drop_first());
        if probe != k {
            lemma_lookup_drop_head(s, k, probe);
        }
    } else {
        assert(spec_insert(s, k, v)[0] == s[0]);
        assert(spec_insert(s, k, v).drop_first() =~= spec_insert(s.drop_first(), k, v));
        lemma_lookup_insert(s.drop_first(), k, v, probe);
    }
}

proof fn lemma_lookup_drop_head<V>(s: Seq<(Seq<char>, V)>, k: Seq<char>, probe: Seq<char>)
    requires
        s.len() > 0,
        s[0].0 == k,
        probe != k,
    ensures
        spec_lookup(s.drop_first(), probe) == spec_lookup(s, probe),
{
}

/// A mapping from variable names to raw string values, scoped to one
/// device. Keys are unique; entries keep their insertion position.
#[derive(Debug)]
pub struct VarMap {
    pub entries: Vec<(String, String)>,
}

impl VarMap {
    /// The entries as character sequences, in storage order.
    pub open spec fn view_entries(&self) -> Seq<(Seq<char>, Seq<char>)> {
        self.entries@.map_values(|p: (String, String)| (p.0@, p.1@))
    }

    pub open spec fn wf(&self) -> bool {
        unique_keys(self.view_entries())
    }

    /// What `get` returns for `k`.
    pub open spec fn spec_get(&self, k: Seq<char>) -> Option<Seq<char>> {
        spec_lookup(self.view_entries(), k)
    }

    pub fn new() -> (r: VarMap)
        ensures
            r.view_entries() == Seq::<(Seq<char>, Seq<char>)>::empty(),
            r.wf(),
    {
        let r = VarMap { entries: Vec::new() };
        proof {
            assert(r.view_entries() =~= Seq::<(Seq<char>, Seq<char>)>::empty());
        }
        r
    }

    pub fn len(&self) -> (r: usize)
        ensures
            r == self.view_entries().len(),
    {
        self.entries.len()
    }

    /// The raw value stored under `key`, if any.
    pub fn get(&self, key: &str) -> (r: Option<String>)
        ensures
            match r {
                Some(v) => self.spec_get(key@) == Some(v@),
                None => self.spec_get(key@) is None,
            },
    {
        let n = self.entries.len();
        proof {
            assert(self.view_entries().subrange(0, n as int) =~= self.view_entries());
        }
        let mut i: usize = 0;
        while i < n
            invariant
                i <= n,
                n == self.entries@.len(),
                forall|j: int| 0 <= j < i ==> (#[trigger] self.view_entries()[j]).0 != key@,
                spec_lookup(
                    self.view_entries().subrange(i as int, n as int),
                    key@,
                ) == spec_lookup(self.view_entries(), key@),
            decreases n - i,
        {
            let hit = eq_str(self.entries[i].0.as_str(), key);
            let ghost tail = self.view_entries().subrange(i as int, n as int);
            proof {
                assert(tail[0] == self.view_entries()[i as int]);
            }
            if hit {
                let v = self.entries[i].1.clone();
                return Some(v);
            }
            proof {
                assert(tail.drop_first() =~= self.view_entries().subrange(i + 1, n as int));
            }
            i += 1;
        }
        proof {
            assert(self.view_entries().subrange(n as int, n as int) =~= Seq::<(
                Seq<char>,
                Seq<char>,
            )>::empty());
        }
        None
    }

    /// Stores `value` under `key`, overwriting any previous value for the
    /// same key in place and appending otherwise.
    pub fn insert(&mut self, key: String, value: String)
        ensures
            final(self).view_entries() == spec_insert(old(self).view_entries(), key@, value@),
            old(self).wf() ==> final(self).wf(),
    {
        let ghost orig = self.view_entries();
        let ghost kk = key@;
        let ghost vv = value@;
        let n = self.entries.len();
        let mut i: usize = 0;
        while i < n
            invariant
                i <= n,
                n == self.entries@.len(),
                self == old(self),
                orig == old(self).view_entries(),
                kk == key@,
                vv == value@,
                forall|j: int| 0 <= j < i ==> (#[trigger] orig[j]).0 != kk,
            decreases n - i,
        {
            let hit = eq_str(self.entries[i].0.as_str(), key.as_str());
            proof {
                assert(orig[i as int] == (self.entries@[i as int].0@, self.entries@[i as int].1@));
            }
            if hit {
                self.entries[i] = (key, value);
                proof {
                    lemma_insert_at(orig, kk, vv, i as int);
                    assert(self.view_entries() =~= orig.update(i as int, (kk, vv)));
                    if unique_keys(orig) {
                        assert(unique_keys(self.view_entries()));
                    }
                }
                return ;
            }
            i += 1;
        }
        proof {
            lemma_insert_missing(orig, kk, vv);
        }
        self.entries.push((key, value));
        proof {
            assert(self.view_entries() =~= orig.push((kk, vv)));
            if unique_keys(orig) {
                assert forall|a: int, b: int|
                    0 <= a < b < self.view_entries().len() implies (#[trigger] self.view_entries()[a]).0
                    != (#[trigger] self.view_entries()[b]).0 by {
                    if b < orig.len() {
                        assert(self.view_entries()[a] == orig[a] && self.view_entries()[b]
                            == orig[b]);
                    } else {
                        assert(self.view_entries()[b].0 == kk);
                        assert(orig[a].0 != kk);
                    }
                }
            }
        }
    }
}

/// A mapping from device identifiers to their variable maps, in insertion
/// order. Built once per scrape and then only read.
#[derive(Debug)]
pub struct UpsVarMap {
    pub entries: Vec<(String, VarMap)>,
}

impl UpsVarMap {
    /// Device names with the views of their variable maps, in order.
    pub open spec fn view_entries(&self) -> Seq<(Seq<char>, Seq<(Seq<char>, Seq<char>)>)> {
        self.entries@.map_values(|p: (String, VarMap)| (p.0@, p.1.view_entries()))
    }

    pub open spec fn wf(&self) -> bool {
        unique_keys(self.view_entries()) && forall|i: int|
            0 <= i < self.entries@.len() ==> (#[trigger] self.entries@[i]).1.wf()
    }

    pub fn new() -> (r: UpsVarMap)
        ensures
            r.view_entries() == Seq::<(Seq<char>, Seq<(Seq<char>, Seq<char>)>)>::empty(),
            r.wf(),
    {
        let r = UpsVarMap { entries: Vec::new() };
        proof {
            assert(r.view_entries() =~= Seq::<(Seq<char>, Seq<(Seq<char>, Seq<char>)>)>::empty());
        }
        r
    }

    pub fn len(&self) -> (r: usize)
        ensures
            r == self.view_entries().len(),
    {
        self.entries.len()
    }

    /// Adds a device under `name`, replacing any previous entry with the
    /// same identifier in place.
    pub fn insert_ups(&mut self, name: String, vars: VarMap)
        ensures
            final(self).view_entries() == spec_insert(old(self).view_entries(), name@, vars.view_entries()),
            old(self).wf() && vars.wf() ==> final(self).wf(),
    {
        let ghost orig = self.view_entries();
        let ghost kk = name@;
        let ghost vv = vars.view_entries();
        let ghost vars_wf = vars.wf();
        let n = self.entries.len();
        let mut i: usize = 0;
        while i < n
            invariant
                i <= n,
                n == self.entries@.len(),
                self == old(self),
                orig == old(self).view_entries(),
                kk == name@,
                vv == vars.view_entries(),
                vars_wf == vars.wf(),
                forall|j: int| 0 <= j < i ==> (#[trigger] orig[j]).0 != kk,
            decreases n - i,
        {
            let hit = eq_str(self.entries[i].0.as_str(), name.as_str());
            proof {
                assert(orig[i as int] == (self.entries@[i as int].0@, self.entries@[i as int].1.view_entries()));
            }
            if hit {
                self.entries[i] = (name, vars);
                proof {
                    lemma_insert_at(orig, kk, vv, i as int);
                    assert(self.view_entries() =~= orig.update(i as int, (kk, vv)));
                    if old(self).wf() && unique_keys(orig) {
                        assert(unique_keys(self.view_entries()));
                    }
                }
                return ;
            }
            i += 1;
        }
        proof {
            lemma_insert_missing(orig, kk, vv);
        }
        self.entries.push((name, vars));
        proof {
            assert(self.view_entries() =~= orig.push((kk, vv)));
            if old(self).wf() && vars.wf() {
                assert forall|a: int, b: int|
                    0 <= a < b < self.view_entries().len() implies (#[trigger] self.view_entries()[a]).0
                    != (#[trigger] self.view_entries()[b]).0 by {
                    if b < orig.len() {
                        assert(self.view_entries()[a] == orig[a] && self.view_entries()[b]
                            == orig[b]);
                    } else {
                        assert(self.view_entries()[b].0 == kk);
                        assert(orig[a].0 != kk);
                    }
                }
            }
        }
    }
}

/// A captured server version string; empty until parsed.
pub type NutVersion = String;

/// The fixed, ordered set of status flags that the status field expands
/// into, one boolean series per flag.
pub open spec fn spec_status_elements() -> Seq<Seq<char>> {
    seq![
        "OL"@,
        "OB"@,
        "LB"@,
        "CHRG"@,
        "RB"@,
        "FSD"@,
        "BYPASS"@,
        "SD"@,
        "CP"@,
        "OFF"@,
    ]
}

/// The status flags, in their fixed order.
pub fn ups_status_elements() -> (r: Vec<&'static str>)
    ensures
        r@.map_values(|s: &str| s@) == spec_status_elements(),
{
    let mut r: Vec<&'static str> = Vec::new();
    r.push("OL");
    r.push("OB");
    r.push("LB");
    r.push("CHRG");
    r.push("RB");
    r.push("FSD");
    r.push("BYPASS");
    r.push("SD");
    r.push("CP");
    r.push("OFF");
    proof {
        assert(r@.map_values(|s: &str| s@) =~= spec_status_elements());
    }
    r
}

/// The beeper state as an ordinal digit: enabled, disabled and muted in
/// that order, anything else zero. Never declines.
pub open spec fn spec_beeper_ordinal(raw: Seq<char>) -> char {
    if raw == "enabled"@ {
        '1'
    } else if raw == "disabled"@ {
        '2'
    } else if raw == "muted"@ {
        '3'
    } else {
        '0'
    }
}

/// The first space-separated token of the status as an ordinal digit:
/// OL, OB and LB in that order, anything else zero. Never declines.
pub open spec fn spec_status_ordinal(raw: Seq<char>) -> char {
    let tok = spec_split_spaces(raw)[0];
    if tok == "OL"@ {
        '1'
    } else if tok == "OB"@ {
        '2'
    } else if tok == "LB"@ {
        '3'
    } else {
        '0'
    }
}

/// What a transform yields on a raw value: a decimal number, or nothing
/// when a numeric transform cannot read the text.
pub open spec fn spec_apply_transform(t: VarTransform, raw: Seq<char>) -> Option<
    (bool, Seq<char>, Seq<char>),
> {
    match t {
        VarTransform::Identity => spec_parse_decimal(raw),
        VarTransform::PercentageToFraction => match spec_parse_decimal(raw) {
            Some(d) => Some((d.0, spec_shift_right2(d.1, d.2).0, spec_shift_right2(d.1, d.2).1)),
            None => None,
        },
        VarTransform::EnumToOrdinal => Some(
            (false, seq![spec_beeper_ordinal(raw)], Seq::<char>::empty()),
        ),
        VarTransform::StatusPrefixToOrdinal => Some(
            (false, seq![spec_status_ordinal(raw)], Seq::<char>::empty()),
        ),
    }
}

/// Law: the two ordinal transforms are total — they yield a value on
/// every raw text, the empty string and unrecognised words included, so
/// they never suppress their series.
pub proof fn lemma_ordinal_transforms_total(raw: Seq<char>)
    ensures
        spec_apply_transform(VarTransform::EnumToOrdinal, raw) is Some,
        spec_apply_transform(VarTransform::StatusPrefixToOrdinal, raw) is Some,
{
}

/// Applies a transform to a raw field value. The two ordinal transforms
/// always yield a value; the two numeric ones decline on text that is not
/// a plain decimal, which suppresses that one series and nothing else.
pub fn apply_transform(t: VarTransform, raw: &str) -> (r: Option<Decimal>)
    ensures
        r is Some <==> spec_apply_transform(t, raw@) is Some,
        r is Some ==> dec_view(r->0) == spec_apply_transform(t, raw@)->0 && r->0.wf(),
{
    match t {
        VarTransform::Identity => parse_decimal(raw),
        VarTransform::PercentageToFraction => {
            match parse_decimal(raw) {
                Some(d) => Some(div_hundred(&d)),
                None => None,
            }
        },
        VarTransform::EnumToOrdinal => {
            let c: char = if eq_str(raw, "enabled") {
                '1'
            } else if eq_str(raw, "disabled") {
                '2'
            } else if eq_str(raw, "muted") {
                '3'
            } else {
                '0'
            };
            let mut digs: Vec<char> = Vec::new();
            digs.push(c);
            let d = Decimal { neg: false, int_digits: digs, frac_digits: Vec::new() };
            proof {
                assert(d.int_digits@ =~= seq![spec_beeper_ordinal(raw@)]);
            }
            Some(d)
        },
        VarTransform::StatusPrefixToOrdinal => {
            let len = raw.unicode_len();
            let mut i: usize = 0;
            while i < len && raw.get_char(i) != ' '
                invariant
                    i <= len,
                    len == raw@.len(),
                    forall|j: int| 0 <= j < i ==> raw@[j] != ' ',
                decreases len - i,
            {
                i += 1;
            }
            proof {
                if i < len {
                    lemma_split_at_first_space(raw@, i as int);
                } else {
                    lemma_split_no_space(raw@);
                    assert(raw@.subrange(0, i as int) =~= raw@);
                }
            }
            let tok = substring_copy(raw, 0, i);
            let c: char = if eq_str(tok.as_str(), "OL") {
                '1'
            } else if eq_str(tok.as_str(), "OB") {
                '2'
            } else if eq_str(tok.as_str(), "LB") {
                '3'
            } else {
                '0'
            };
            let mut digs: Vec<char> = Vec::new();
            digs.push(c);
            let d = Decimal { neg: false, int_digits: digs, frac_digits: Vec::new() };
            proof {
                assert(d.int_digits@ =~= seq![spec_status_ordinal(raw@)]);
            }
            Some(d)
        },
    }
}

/// A metric definition reduced to plain values, for stating the catalog.
pub open spec fn spec_metric_view(m: Metric) -> (
    Seq<char>,
    Seq<char>,
    Seq<char>,
    Seq<char>,
    Seq<char>,
    VarTransform,
    bool,
) {
    (m.metric@, m.help@, m.type_@, m.unit@, m.nut_var@, m.var_transform, m.is_integer)
}

/// The fixed table of variable-driven families, in declaration order.
pub open spec fn spec_basic_table() -> Seq<
    (Seq<char>, Seq<char>, Seq<char>, Seq<char>, Seq<char>, VarTransform, bool),
> {
    seq![
        (
            "nut_beeper_status"@,
            "If the beeper is enabled. Unknown (0), enabled (1), disabled (2) or muted (3)."@,
            "gauge"@,
            ""@,
            "ups.beeper.status"@,
            VarTransform::EnumToOrdinal,
            true,
        ),
        (
            "nut_uptime_seconds"@,
            "Device uptime."@,
            "gauge"@,
            "seconds"@,
            "device.uptime"@,
            VarTransform::Identity,
            true,
        ),
        (
            "nut_load"@,
            "Load. (0-1)"@,
            "gauge"@,
            ""@,
            "ups.load"@,
            VarTransform::PercentageToFraction,
            false,
        ),
        (
            "nut_temperature_celsius"@,
            "UPS temperature"@,
            "gauge"@,
            "celsius"@,
            "ups.temperature"@,
            VarTransform::Identity,
            false,
        ),
        (
            "nut_battery_charge"@,
            "Battery level. (0-1)"@,
            "gauge"@,
            ""@,
            "battery.charge"@,
            VarTransform::PercentageToFraction,
            false,
        ),
        (
            "nut_battery_charge_low"@,
            "Battery level threshold for low state. (0-1)"@,
            "gauge"@,
            ""@,
            "battery.charge.low"@,
            VarTransform::PercentageToFraction,
            false,
        ),
        (
            "nut_battery_charge_warning"@,
            "Battery level threshold for warning state. (0-1)"@,
            "gauge"@,
            ""@,
            "battery.charge.warning"@,
            VarTransform::PercentageToFraction,
            false,
        ),
        (
            "nut_battery_charge_restart"@,
            "Battery level threshold for restarting after power-off. (0-1)"@,
            "gauge"@,
            ""@,
            "battery.charge.restart"@,
            VarTransform::PercentageToFraction,
            false,
        ),
        (
            "nut_battery_runtime_seconds"@,
            "Battery runtime."@,
            "gauge"@,
            "seconds"@,
            "battery.runtime"@,
            VarTransform::Identity,
            true,
        ),
        (
            "nut_battery_runtime_low_seconds"@,
            "Battery runtime threshold for state low."@,
            "gauge"@,
            "seconds"@,
            "battery.runtime.low"@,
            VarTransform::Identity,
            true,
        ),
        (
            "nut_battery_runtime_restart_seconds"@,
            "Battery runtime threshold for restart after power-off."@,
            "gauge"@,
            "seconds"@,
            "battery.runtime.restart"@,
            VarTransform::Identity,
            true,
        ),
        (
            "nut_delay_shutdown_seconds"@,
            "Interval to wait after shutdown with delay command."@,
            "gauge"@,
            "seconds"@,
            "ups.delay.shutdown"@,
            VarTransform::Identity,
            true,
        ),
        (
            "nut_delay_start_seconds"@,
            "Interval to wait before (re)starting the load."@,
            "gauge"@,
            "seconds"@,
            "ups.delay.start"@,
            VarTransform::Identity,
            true,
        ),
        (
            "nut_battery_voltage_volts"@,
            "Battery voltage."@,
            "gauge"@,
            "volts"@,
            "battery.voltage"@,
            VarTransform::Identity,
            false,
        ),
        (
            "nut_battery_voltage_nominal_volts"@,
            "Battery voltage (nominal)."@,
            "gauge"@,
            "volts"@,
            "battery.voltage.nominal"@,
            VarTransform::Identity,
            false,
        ),
        (
            "nut_battery_voltage_high_volts"@,
            "Battery voltage for full (charge level calculation)."@,
            "gauge"@,
            "volts"@,
            "battery.voltage.high"@,
            VarTransform::Identity,
            false,
        ),
        (
            "nut_battery_voltage_low_volts"@,
            "Battery voltage for empty (charge level calculation)."@,
            "gauge"@,
            "volts"@,
            "battery.voltage.low"@,
            VarTransform::Identity,
            false,
        ),
        (
            "nut_battery_temperature_celsius"@,
            "Battery temperature."@,
            "gauge"@,
            "celsius"@,
            "battery.temperature"@,
            VarTransform::Identity,
            false,
        ),
        (
            "nut_input_voltage_volts"@,
            "Input voltage."@,
            "gauge"@,
            "volts"@,
            "input.voltage"@,
            VarTransform::Identity,
            false,
        ),
        (
            "nut_input_voltage_nominal_volts"@,
            "Input voltage (nominal)."@,
            "gauge"@,
            "volts"@,
            "input.voltage.nominal"@,
            VarTransform::Identity,
            false,
        ),
        (
            "nut_input_voltage_minimum_volts"@,
            "Input voltage (minimum seen)."@,
            "gauge"@,
            "volts"@,
            "input.voltage.minimum"@,
            VarTransform::Identity,
            false,
        ),
        (
            "nut_input_voltage_maximum_volts"@,
            "Input voltage (maximum seen)."@,
            "gauge"@,
            "volts"@,
            "input.voltage.maximum"@,
            VarTransform::Identity,
            false,
        ),
        (
            "nut_input_transfer_low_volts"@,
            "Input lower transfer threshold."@,
            "gauge"@,
            "volts"@,
            "input.transfer.low"@,
            VarTransform::Identity,
            false,
        ),
        (
            "nut_input_transfer_high_volts"@,
            "Input upper transfer threshold."@,
            "gauge"@,
            "volts"@,
            "input.transfer.high"@,
            VarTransform::Identity,
            false,
        ),
        (
            "nut_input_current_amperes"@,
            "Input current."@,
            "gauge"@,
            "amperes"@,
            "input.current"@,
            VarTransform::Identity,
            false,
        ),
        (
            "nut_input_current_nominal_amperes"@,
            "Input current (nominal)."@,
            "gauge"@,
            "amperes"@,
            "input.current.nominal"@,
            VarTransform::Identity,
            false,
        ),
        (
            "nut_input_frequency_hertz"@,
            "Input frequency."@,
            "gauge"@,
            "hertz"@,
            "input.frequency"@,
            VarTransform::Identity,
            false,
        ),
        (
            "nut_input_frequency_nominal_hertz"@,
            "Input frequency (nominal)."@,
            "gauge"@,
            "hertz"@,
            "input.frequency.nominal"@,
            VarTransform::Identity,
            false,
        ),
        (
            "nut_input_frequency_low_hertz"@,
            "Input frequency (low)."@,
            "gauge"@,
            "hertz"@,
            "input.frequency.low"@,
            VarTransform::Identity,
            false,
        ),
        (
            "nut_input_frequency_high_hertz"@,
            "Input frequency (high)."@,
            "gauge"@,
            "hertz"@,
            "input.frequency.high"@,
            VarTransform::Identity,
            false,
        ),
        (
            "nut_output_voltage_volts"@,
            "Output voltage."@,
            "gauge"@,
            "volts"@,
            "output.voltage"@,
            VarTransform::Identity,
            false,
        ),
        (
            "nut_output_voltage_nominal_volts"@,
            "Output voltage (nominal)."@,
            "gauge"@,
            "volts"@,
            "output.voltage.nominal"@,
            VarTransform::Identity,
            false,
        ),
        (
            "nut_output_current_amperes"@,
            "Output current."@,
            "gauge"@,
            "amperes"@,
            "output.current"@,
            VarTransform::Identity,
            false,
        ),
        (
            "nut_output_current_nominal_amperes"@,
            "Output current (nominal)."@,
            "gauge"@,
            "amperes"@,
            "output.current.nominal"@,
            VarTransform::Identity,
            false,
        ),
        (
            "nut_output_frequency_hertz"@,
            "Output frequency."@,
            "gauge"@,
            "hertz"@,
            "output.frequency"@,
            VarTransform::Identity,
            false,
        ),
        (
            "nut_output_frequency_nominal_hertz"@,
            "Output frequency (nominal)."@,
            "gauge"@,
            "hertz"@,
            "output.frequency.nominal"@,
            VarTransform::Identity,
            false,
        ),
        (
            "nut_power_watts"@,
            "Apparent power."@,
            "gauge"@,
            "watts"@,
            "ups.power"@,
            VarTransform::Identity,
            false,
        ),
        (
            "nut_power_nominal_watts"@,
            "Apparent power (nominal)."@,
            "gauge"@,
            "watts"@,
            "ups.power.nominal"@,
            VarTransform::Identity,
            false,
        ),
        (
            "nut_real_power_watts"@,
            "Real power."@,
            "gauge"@,
            "watts"@,
            "ups.realpower"@,
            VarTransform::Identity,
            false,
        ),
        (
            "nut_real_power_nominal_watts"@,
            "Real power (nominal)."@,
            "gauge"@,
            "watts"@,
            "ups.realpower.nominal"@,
            VarTransform::Identity,
            false,
        ),
        (
            "nut_status"@,
            "UPS status. Unknown (0), on line (1, \"OL\"), on battery (2, \"OB\"), or low battery (3, \"LB\"). (Deprecated, use nut_ups_status instead.)"@,
            "gauge"@,
            ""@,
            "ups.status"@,
            VarTransform::StatusPrefixToOrdinal,
            true,
        ),
        (
            "nut_battery_volts"@,
            "Battery voltage. (Deprecated, use nut_battery_voltage_volts instead.)"@,
            "gauge"@,
            "volts"@,
            "battery.voltage"@,
            VarTransform::Identity,
            false,
        ),
        (
            "nut_input_volts"@,
            "Input voltage. (Deprecated, use nut_input_voltage_volts instead.)"@,
            "gauge"@,
            "volts"@,
            "input.voltage"@,
            VarTransform::Identity,
            false,
        ),
        (
            "nut_output_volts"@,
            "Output voltage. (Deprecated, use nut_output_voltage_volts instead.)"@,
            "gauge"@,
            "volts"@,
            "output.voltage"@,
            VarTransform::Identity,
            false,
        ),
    ]
}

/// The immutable metric catalog: the special families first, then the
/// variable-driven families, in the declaration order that also orders
/// the rendered document.
pub struct Catalog {
    pub exporter_info: Metric,
    pub server_info: Metric,
    pub ups_info: Metric,
    pub old_server_info: Metric,
    pub ups_status: Metric,
    pub basic: Vec<Metric>,
}

impl Catalog {
    /// All families in document order: the five special ones, then the
    /// variable-driven table.
    pub open spec fn families(&self) -> Seq<Metric> {
        seq![
            self.exporter_info,
            self.server_info,
            self.ups_info,
            self.old_server_info,
            self.ups_status,
        ] + self.basic@
    }

    /// Builds the fixed catalog.
    #[verifier::rlimit(60)]
    pub fn new() -> (r: Catalog)
        ensures
            r.basic@.map_values(|m: Metric| spec_metric_view(m)) == spec_basic_table(),
            r.basic@.len() == 44,
            spec_metric_view(r.exporter_info) == (
            "nut_exporter_info"@,
            "Metadata about the exporter."@,
            "info"@,
            ""@,
            ""@,
            VarTransform::Identity,
            true,
        ),
            spec_metric_view(r.server_info) == (
            "nut_server_info"@,
            "Metadata about the NUT server."@,
            "info"@,
            ""@,
            ""@,
            VarTransform::Identity,
            true,
        ),
            spec_metric_view(r.ups_info) == (
            "nut_ups_info"@,
            "Metadata about the UPS."@,
            "info"@,
            ""@,
            ""@,
            VarTransform::Identity,
            true,
        ),
            spec_metric_view(r.old_server_info) == (
            "nut_info"@,
            "Metadata about the NUT server. (Depreacted, use nut_server_info instead.)"@,
            "info"@,
            ""@,
            ""@,
            VarTransform::Identity,
            true,
        ),
            spec_metric_view(r.ups_status) == (
            "nut_ups_status"@,
            "UPS status."@,
            "stateset"@,
            ""@,
            "ups.status"@,
            VarTransform::Identity,
            true,
        ),
    {
        let mut basic: Vec<Metric> = Vec::new();
        basic.push(
            Metric {
                metric: "nut_beeper_status",
                help: "If the beeper is enabled. Unknown (0), enabled (1), disabled (2) or muted (3).",
                type_: "gauge",
                unit: "",
                nut_var: "ups.beeper.status",
                var_transform: VarTransform::EnumToOrdinal,
                is_integer: true,
            },
        );
        basic.push(
            Metric {
                metric: "nut_uptime_seconds",
                help: "Device uptime.",
                type_: "gauge",
                unit: "seconds",
                nut_var: "device.uptime",
                var_transform: VarTransform::Identity,
                is_integer: true,
            },
        );
        basic.push(
            Metric {
                metric: "nut_load",
                help: "Load. (0-1)",
                type_: "gauge",
                unit: "",
                nut_var: "ups.load",
                var_transform: VarTransform::PercentageToFraction,
                is_integer: false,
            },
        );
        basic.push(
            Metric {
                metric: "nut_temperature_celsius",
                help: "UPS temperature",
                type_: "gauge",
                unit: "celsius",
                nut_var: "ups.temperature",
                var_transform: VarTransform::Identity,
                is_integer: false,
            },
        );
        basic.push(
            Metric {
                metric: "nut_battery_charge",
                help: "Battery level. (0-1)",
                type_: "gauge",
                unit: "",
                nut_var: "battery.charge",
                var_transform: VarTransform::PercentageToFraction,
                is_integer: false,
            },
        );
        basic.push(
            Metric {
                metric: "nut_battery_charge_low",
                help: "Battery level threshold for low state. (0-1)",
                type_: "gauge",
                unit: "",
                nut_var: "battery.charge.low",
                var_transform: VarTransform::PercentageToFraction,
                is_integer: false,
            },
        );
        basic.push(
            Metric {
                metric: "nut_battery_charge_warning",
                help: "Battery level threshold for warning state. (0-1)",
                type_: "gauge",
                unit: "",
                nut_var: "battery.charge.warning",
                var_transform: VarTransform::PercentageToFraction,
                is_integer: false,
            },
        );
        basic.push(
            Metric {
                metric: "nut_battery_charge_restart",
                help: "Battery level threshold for restarting after power-off. (0-1)",
                type_: "gauge",
                unit: "",
                nut_var: "battery.charge.restart",
                var_transform: VarTransform::PercentageToFraction,
                is_integer: false,
            },
        );
        basic.push(
            Metric {
                metric: "nut_battery_runtime_seconds",
                help: "Battery runtime.",
                type_: "gauge",
                unit: "seconds",
                nut_var: "battery.runtime",
                var_transform: VarTransform::Identity,
                is_integer: true,
            },
        );
        basic.push(
            Metric {
                metric: "nut_battery_runtime_low_seconds",
                help: "Battery runtime threshold for state low.",
                type_: "gauge",
                unit: "seconds",
                nut_var: "battery.runtime.low",
                var_transform: VarTransform::Identity,
                is_integer: true,
            },
        );
        basic.push(
            Metric {
                metric: "nut_battery_runtime_restart_seconds",
                help: "Battery runtime threshold for restart after power-off.",
                type_: "gauge",
                unit: "seconds",
                nut_var: "battery.runtime.restart",
                var_transform: VarTransform::Identity,
                is_integer: true,
            },
        );
        basic.push(
            Metric {
                metric: "nut_delay_shutdown_seconds",
                help: "Interval to wait after shutdown with delay command.",
                type_: "gauge",
                unit: "seconds",
                nut_var: "ups.delay.shutdown",
                var_transform: VarTransform::Identity,
                is_integer: true,
            },
        );
        basic.push(
            Metric {
                metric: "nut_delay_start_seconds",
                help: "Interval to wait before (re)starting the load.",
                type_: "gauge",
                unit: "seconds",
                nut_var: "ups.delay.start",
                var_transform: VarTransform::Identity,
                is_integer: true,
            },
        );
        basic.push(
            Metric {
                metric: "nut_battery_voltage_volts",
                help: "Battery voltage.",
                type_: "gauge",
                unit: "volts",
                nut_var: "battery.voltage",
                var_transform: VarTransform::Identity,
                is_integer: false,
            },
        );
        basic.push(
            Metric {
                metric: "nut_battery_voltage_nominal_volts",
                help: "Battery voltage (nominal).",
                type_: "gauge",
                unit: "volts",
                nut_var: "battery.voltage.nominal",
                var_transform: VarTransform::Identity,
                is_integer: false,
            },
        );
        basic.push(
            Metric {
                metric: "nut_battery_voltage_high_volts",
                help: "Battery voltage for full (charge level calculation).",
                type_: "gauge",
                unit: "volts",
                nut_var: "battery.voltage.high",
                var_transform: VarTransform::Identity,
                is_integer: false,
            },
        );
        basic.push(
            Metric {
                metric: "nut_battery_voltage_low_volts",
                help: "Battery voltage for empty (charge level calculation).",
                type_: "gauge",
                unit: "volts",
                nut_var: "battery.voltage.low",
                var_transform: VarTransform::Identity,
                is_integer: false,
            },
        );
        basic.push(
            Metric {
                metric: "nut_battery_temperature_celsius",
                help: "Battery temperature.",
                type_: "gauge",
                unit: "celsius",
                nut_var: "battery.temperature",
                var_transform: VarTransform::Identity,
                is_integer: false,
            },
        );
        basic.push(
            Metric {
                metric: "nut_input_voltage_volts",
                help: "Input voltage.",
                type_: "gauge",
                unit: "volts",
                nut_var: "input.voltage",
                var_transform: VarTransform::Identity,
                is_integer: false,
            },
        );
        basic.push(
            Metric {
                metric: "nut_input_voltage_nominal_volts",
                help: "Input voltage (nominal).",
                type_: "gauge",
                unit: "volts",
                nut_var: "input.voltage.nominal",
                var_transform: VarTransform::Identity,
                is_integer: false,
            },
        );
        basic.push(
            Metric {
                metric: "nut_input_voltage_minimum_volts",
                help: "Input voltage (minimum seen).",
                type_: "gauge",
                unit: "volts",
                nut_var: "input.voltage.minimum",
                var_transform: VarTransform::Identity,
                is_integer: false,
            },
        );
        basic.push(
            Metric {
                metric: "nut_input_voltage_maximum_volts",
                help: "Input voltage (maximum seen).",
                type_: "gauge",
                unit: "volts",
                nut_var: "input.voltage.maximum",
                var_transform: VarTransform::Identity,
                is_integer: false,
            },
        );
        basic.push(
            Metric {
                metric: "nut_input_transfer_low_volts",
                help: "Input lower transfer threshold.",
                type_: "gauge",
                unit: "volts",
                nut_var: "input.transfer.low",
                var_transform: VarTransform::Identity,
                is_integer: false,
            },
        );
        basic.push(
            Metric {
                metric: "nut_input_transfer_high_volts",
                help: "Input upper transfer threshold.",
                type_: "gauge",
                unit: "volts",
                nut_var: "input.transfer.high",
                var_transform: VarTransform::Identity,
                is_integer: false,
            },
        );
        basic.push(
            Metric {
                metric: "nut_input_current_amperes",
                help: "Input current.",
                type_: "gauge",
                unit: "amperes",
                nut_var: "input.current",
                var_transform: VarTransform::Identity,
                is_integer: false,
            },
        );
        basic.push(
            Metric {
                metric: "nut_input_current_nominal_amperes",
                help: "Input current (nominal).",
                type_: "gauge",
                unit: "amperes",
                nut_var: "input.current.nominal",
                var_transform: VarTransform::Identity,
                is_integer: false,
            },
        );
        basic.push(
            Metric {
                metric: "nut_input_frequency_hertz",
                help: "Input frequency.",
                type_: "gauge",
                unit: "hertz",
                nut_var: "input.frequency",
                var_transform: VarTransform::Identity,
                is_integer: false,
            },
        );
        basic.push(
            Metric {
                metric: "nut_input_frequency_nominal_hertz",
                help: "Input frequency (nominal).",
                type_: "gauge",
                unit: "hertz",
                nut_var: "input.frequency.nominal",
                var_transform: VarTransform::Identity,
                is_integer: false,
            },
        );
        basic.push(
            Metric {
                metric: "nut_input_frequency_low_hertz",
                help: "Input frequency (low).",
                type_: "gauge",
                unit: "hertz",
                nut_var: "input.frequency.low",
                var_transform: VarTransform::Identity,
                is_integer: false,
            },
        );
        basic.push(
            Metric {
                metric: "nut_input_frequency_high_hertz",
                help: "Input frequency (high).",
                type_: "gauge",
                unit: "hertz",
                nut_var: "input.frequency.high",
                var_transform: VarTransform::Identity,
                is_integer: false,
            },
        );
        basic.push(
            Metric {
                metric: "nut_output_voltage_volts",
                help: "Output voltage.",
                type_: "gauge",
                unit: "volts",
                nut_var: "output.voltage",
                var_transform: VarTransform::Identity,
                is_integer: false,
            },
        );
        basic.push(
            Metric {
                metric: "nut_output_voltage_nominal_volts",
                help: "Output voltage (nominal).",
                type_: "gauge",
                unit: "volts",
                nut_var: "output.voltage.nominal",
                var_transform: VarTransform::Identity,
                is_integer: false,
            },
        );
        basic.push(
            Metric {
                metric: "nut_output_current_amperes",
                help: "Output current.",
                type_: "gauge",
                unit: "amperes",
                nut_var: "output.current",
                var_transform: VarTransform::Identity,
                is_integer: false,
            },
        );
        basic.push(
            Metric {
                metric: "nut_output_current_nominal_amperes",
                help: "Output current (nominal).",
                type_: "gauge",
                unit: "amperes",
                nut_var: "output.current.nominal",
                var_transform: VarTransform::Identity,
                is_integer: false,
            },
        );
        basic.push(
            Metric {
                metric: "nut_output_frequency_hertz",
                help: "Output frequency.",
                type_: "gauge",
                unit: "hertz",
                nut_var: "output.frequency",
                var_transform: VarTransform::Identity,
                is_integer: false,
            },
        );
        basic.push(
            Metric {
                metric: "nut_output_frequency_nominal_hertz",
                help: "Output frequency (nominal).",
                type_: "gauge",
                unit: "hertz",
                nut_var: "output.frequency.nominal",
                var_transform: VarTransform::Identity,
                is_integer: false,
            },
        );
        basic.push(
            Metric {
                metric: "nut_power_watts",
                help: "Apparent power.",
                type_: "gauge",
                unit: "watts",
                nut_var: "ups.power",
                var_transform: VarTransform::Identity,
                is_integer: false,
            },
        );
        basic.push(
            Metric {
                metric: "nut_power_nominal_watts",
                help: "Apparent power (nominal).",
                type_: "gauge",
                unit: "watts",
                nut_var: "ups.power.nominal",
                var_transform: VarTransform::Identity,
                is_integer: false,
            },
        );
        basic.push(
            Metric {
                metric: "nut_real_power_watts",
                help: "Real power.",
                type_: "gauge",
                unit: "watts",
                nut_var: "ups.realpower",
                var_transform: VarTransform::Identity,
                is_integer: false,
            },
        );
        basic.push(
            Metric {
                metric: "nut_real_power_nominal_watts",
                help: "Real power (nominal).",
                type_: "gauge",
                unit: "watts",
                nut_var: "ups.realpower.nominal",
                var_transform: VarTransform::Identity,
                is_integer: false,
            },
        );
        basic.push(
            Metric {
                metric: "nut_status",
                help: "UPS status. Unknown (0), on line (1, \"OL\"), on battery (2, \"OB\"), or low battery (3, \"LB\"). (Deprecated, use nut_ups_status instead.)",
                type_: "gauge",
                unit: "",
                nut_var: "ups.status",
                var_transform: VarTransform::StatusPrefixToOrdinal,
                is_integer: true,
            },
        );
        basic.push(
            Metric {
                metric: "nut_battery_volts",
                help: "Battery voltage. (Deprecated, use nut_battery_voltage_volts instead.)",
                type_: "gauge",
                unit: "volts",
                nut_var: "battery.voltage",
                var_transform: VarTransform::Identity,
                is_integer: false,
            },
        );
        basic.push(
            Metric {
                metric: "nut_input_volts",
                help: "Input voltage. (Deprecated, use nut_input_voltage_volts instead.)",
                type_: "gauge",
                unit: "volts",
                nut_var: "input.voltage",
                var_transform: VarTransform::Identity,
                is_integer: false,
            },
        );
        basic.push(
            Metric {
                metric: "nut_output_volts",
                help: "Output voltage. (Deprecated, use nut_output_voltage_volts instead.)",
                type_: "gauge",
                unit: "volts",
                nut_var: "output.voltage",
                var_transform: VarTransform::Identity,
                is_integer: false,
            },
        );
        let r = Catalog {
            exporter_info:
                Metric {
                    metric: "nut_exporter_info",
                    help: "Metadata about the exporter.",
                    type_: "info",
                    unit: "",
                    nut_var: "",
                    var_transform: VarTransform::Identity,
                    is_integer: true,
                },
            server_info:
                Metric {
                    metric: "nut_server_info",
                    help: "Metadata about the NUT server.",
                    type_: "info",
                    unit: "",
                    nut_var: "",
                    var_transform: VarTransform::Identity,
                    is_integer: true,
                },
            ups_info:
                Metric {
                    metric: "nut_ups_info",
                    help: "Metadata about the UPS.",
                    type_: "info",
                    unit: "",
                    nut_var: "",
                    var_transform: VarTransform::Identity,
                    is_integer: true,
                },
            old_server_info:
                Metric {
                    metric: "nut_info",
                    help: "Metadata about the NUT server. (Depreacted, use nut_server_info instead.)",
                    type_: "info",
                    unit: "",
                    nut_var: "",
                    var_transform: VarTransform::Identity,
                    is_integer: true,
                },
            ups_status:
                Metric {
                    metric: "nut_ups_status",
                    help: "UPS status.",
                    type_: "stateset",
                    unit: "",
                    nut_var: "ups.status",
                    var_transform: VarTransform::Identity,
                    is_integer: true,
                },
            basic,
        };
        proof {
            assert(r.basic@.map_values(|m: Metric| spec_metric_view(m)) =~= spec_basic_table());
        }
        r
    }
}


/// One markdown table cell: the text in backticks, nothing when empty.
pub open spec fn spec_md_cell(s: Seq<char>) -> Seq<char> {
    if s.len() == 0 {
        s
    } else {
        "`"@ + s + "`"@
    }
}

/// One markdown row describing a metric: name, source variable, unit
/// and description.
pub open spec fn spec_md_row(m: Metric) -> Seq<char> {
    "| "@ + spec_md_cell(m.metric@) + " | "@ + spec_md_cell(m.nut_var@) + " | "@ + spec_md_cell(
        m.unit@,
    ) + " | "@ + m.help@ + " |\n"@
}

/// The rows of a run of metrics, in order.
pub open spec fn spec_md_rows(ms: Seq<Metric>) -> Seq<char>
    decreases ms.len(),
{
    if ms.len() == 0 {
        Seq::<char>::empty()
    } else {
        spec_md_rows(ms.drop_last()) + spec_md_row(ms.last())
    }
}

/// The whole catalog as a markdown table: a header, then one row per
/// family, special families first, in catalog order.
pub open spec fn spec_metrics_markdown(cat: Catalog) -> Seq<char> {
    "| Metric | NUT Var | Unit | Description |\n"@ + "| - | - | - | - |\n"@ + spec_md_row(
        cat.exporter_info,
    ) + spec_md_row(cat.server_info) + spec_md_row(cat.ups_info) + spec_md_row(cat.old_server_info)
        + spec_md_row(cat.ups_status) + spec_md_rows(cat.basic@)
}

fn append_md_cell(out: &mut String, s: &str)
    ensures
        final(out)@ == old(out)@ + spec_md_cell(s@),
{
    if !s.is_empty() {
        out.append("`");
        out.append(s);
        out.append("`");
    } else {
        proof {
            assert(old(out)@ + spec_md_cell(s@) =~= old(out)@);
        }
    }
}

fn append_md_row(out: &mut String, m: &Metric)
    ensures
        final(out)@ == old(out)@ + spec_md_row(*m),
{
    out.append("| ");
    append_md_cell(out, m.metric);
    out.append(" | ");
    append_md_cell(out, m.nut_var);
    out.append(" | ");
    append_md_cell(out, m.unit);
    out.append(" | ");
    out.append(m.help);
    out.append(" |\n");
}

/// Renders the catalog as the markdown table the exporter can print on
/// request.
pub fn metrics_markdown(catalog: &Catalog) -> (r: String)
    ensures
        r@ == spec_metrics_markdown(*catalog),
{
    let ghost cat = *catalog;
    let mut out = String::new();
    out.append("| Metric | NUT Var | Unit | Description |\n");
    out.append("| - | - | - | - |\n");
    append_md_row(&mut out, &catalog.exporter_info);
    append_md_row(&mut out, &catalog.server_info);
    append_md_row(&mut out, &catalog.ups_info);
    append_md_row(&mut out, &catalog.old_server_info);
    append_md_row(&mut out, &catalog.ups_status);
    let ghost base = out@;
    let n = catalog.basic.len();
    let mut j: usize = 0;
    proof {
        assert(spec_md_rows(catalog.basic@.subrange(0, 0)) =~= Seq::<char>::empty());
        assert(out@ =~= base + spec_md_rows(catalog.basic@.subrange(0, 0)));
    }
    while j < n
        invariant
            j <= n,
            n == catalog.basic@.len(),
            cat == *catalog,
            base + spec_md_rows(cat.basic@) == spec_metrics_markdown(cat),
            out@ == base + spec_md_rows(cat.basic@.subrange(0, j as int)),
        decreases n - j,
    {
        append_md_row(&mut out, &catalog.basic[j]);
        proof {
            assert(cat.basic@.subrange(0, j + 1).drop_last() =~= cat.basic@.subrange(0, j as int));
            assert(cat.basic@.subrange(0, j + 1).last() == cat.basic@[j as int]);
            assert(base + spec_md_rows(cat.basic@.subrange(0, j as int)) + spec_md_row(
                cat.basic@[j as int],
            ) =~= base + spec_md_rows(cat.basic@.subrange(0, j + 1)));
        }
        j += 1;
    }
    proof {
        assert(cat.basic@.subrange(0, n as int) =~= cat.basic@);
    }
    out
}

} // verus!
