//! The OpenMetrics renderer.
//!
//! Turns a device registry, the captured server version and the static
//! exporter identity into the text exposition document. The whole output
//! is pinned to one spec-level rendering function, so the document is
//! byte-for-byte determined by the registry content: family blocks come
//! in catalog declaration order, series of one family stand together,
//! and series within a family follow the registry's insertion order.

use vstd::prelude::*;

use crate::decimal::spec_render_number;
use crate::metrics::{
    apply_transform, spec_apply_transform, spec_lookup, spec_status_elements, ups_status_elements,
    Catalog, Metric, UpsVarMap, VarMap,
};
use crate::strutil::{contains_str, push_char, spec_split_spaces, split_spaces};

verus! {

/// The exporter's own version label value.
pub open spec fn spec_app_version() -> Seq<char> {
    "1.1.1"@
}

/// The exporter's own version.
pub fn app_version() -> (r: &'static str)
    ensures
        r@ == spec_app_version(),
{
    "1.1.1"
}

/// How one character renders inside a quoted label value or a metadata
/// value: backslash, double quote and newline take a two-character
/// escape; nothing else is altered.
pub open spec fn esc_char(c: char) -> Seq<char> {
    if c == '\n' {
        seq!['\\', 'n']
    } else if c == '"' {
        seq!['\\', '"']
    } else if c == '\\' {
        seq!['\\', '\\']
    } else {
        seq![c]
    }
}

/// The escaped form of a free-text value.
pub open spec fn spec_escape(s: Seq<char>) -> Seq<char>
    decreases s.len(),
{
    if s.len() == 0 {
        Seq::<char>::empty()
    } else {
        esc_char(s[0]) + spec_escape(s.drop_first())
    }
}

/// Escaping one more character appends its escape.
pub proof fn lemma_escape_snoc(s: Seq<char>, c: char)
    ensures
        spec_escape(s.push(c)) == spec_escape(s) + esc_char(c),
    decreases s.len(),
{
    reveal_with_fuel(spec_escape, 2);
    if s.len() == 0 {
        assert(s.push(c)[0] == c);
        assert(s.push(c).drop_first() =~= Seq::<char>::empty());
        assert(spec_escape(s.push(c)) =~= spec_escape(s) + esc_char(c));
    } else {
        assert(s.push(c).drop_first() =~= s.drop_first().push(c));
        lemma_escape_snoc(s.drop_first(), c);
        assert(esc_char(s[0]) + (spec_escape(s.drop_first()) + esc_char(c)) =~= (esc_char(s[0])
            + spec_escape(s.drop_first())) + esc_char(c));
        assert(spec_escape(s.push(c)) =~= spec_escape(s) + esc_char(c));
    }
}

/// Escapes backslash, double quote and newline; all other characters
/// pass through unchanged.
pub fn escape_om(raw_text: &str) -> (r: String)
    ensures
        r@ == spec_escape(raw_text@),
{
    let len = raw_text.unicode_len();
    let mut out = String::new();
    let mut i: usize = 0;
    proof {
        assert(raw_text@.subrange(0, 0) =~= Seq::<char>::empty());
    }
    while i < len
        invariant
            i <= len,
            len == raw_text@.len(),
            out@ == spec_escape(raw_text@.subrange(0, i as int)),
        decreases len - i,
    {
        let c = raw_text.get_char(i);
        let ghost prefix = raw_text@.subrange(0, i as int);
        if c == '\n' {
            push_char(&mut out, '\\');
            push_char(&mut out, 'n');
        } else if c == '"' {
            push_char(&mut out, '\\');
            push_char(&mut out, '"');
        } else if c == '\\' {
            push_char(&mut out, '\\');
            push_char(&mut out, '\\');
        } else {
            push_char(&mut out, c);
        }
        proof {
            lemma_escape_snoc(prefix, c);
            assert(prefix.push(c) =~= raw_text@.subrange(0, i + 1));
            assert(out@ =~= spec_escape(prefix) + esc_char(c));
        }
        i += 1;
    }
    proof {
        assert(raw_text@.subrange(0, len as int) =~= raw_text@);
    }
    out
}

/// The inverse reading of an escaped value: a backslash takes the next
/// character as an escape, everything else stands for itself.
pub open spec fn spec_unescape(t: Seq<char>) -> Seq<char>
    decreases t.len(),
{
    if t.len() == 0 {
        Seq::<char>::empty()
    } else if t[0] == '\\' {
        if t.len() == 1 {
            t
        } else {
            seq![unesc_char(t[1])] + spec_unescape(t.subrange(2, t.len() as int))
        }
    } else {
        seq![t[0]] + spec_unescape(t.drop_first())
    }
}

pub open spec fn unesc_char(c: char) -> char {
    if c == 'n' {
        '\n'
    } else {
        c
    }
}

/// Escaping loses nothing: reading the escaped text back yields the
/// original value, whatever quotes, backslashes or newlines it held.
pub proof fn lemma_escape_roundtrip(s: Seq<char>)
    ensures
        spec_unescape(spec_escape(s)) == s,
    decreases s.len(),
{
    if s.len() == 0 {
        assert(spec_unescape(spec_escape(s)) =~= s);
    } else {
        let rest = s.drop_first();
        lemma_escape_roundtrip(rest);
        let t = spec_escape(s);
        assert(t == esc_char(s[0]) + spec_escape(rest));
        if s[0] == '\n' || s[0] == '"' || s[0] == '\\' {
            assert(t.len() >= 2);
            assert(t[0] == '\\');
            assert(t.subrange(2, t.len() as int) =~= spec_escape(rest));
            assert(unesc_char(t[1]) == s[0]);
            assert(spec_unescape(t) =~= s);
        } else {
            assert(t[0] == s[0]);
            assert(t.drop_first() =~= spec_escape(rest));
            assert(spec_unescape(t) =~= s);
        }
    }
}

/// A left-to-right reader that consumes two characters at every
/// backslash: true when it meets a double quote outside an escape — the
/// quote that would end the quoted value early.
pub open spec fn has_bare_quote(t: Seq<char>) -> bool
    decreases t.len(),
{
    if t.len() == 0 {
        false
    } else if t[0] == '\\' {
        if t.len() == 1 {
            false
        } else {
            has_bare_quote(t.subrange(2, t.len() as int))
        }
    } else if t[0] == '"' {
        true
    } else {
        has_bare_quote(t.drop_first())
    }
}

/// Escaped text never holds a bare quote, so an escaped value can never
/// break the series-line grammar around it.
pub proof fn lemma_escape_no_bare_quote(s: Seq<char>)
    ensures
        !has_bare_quote(spec_escape(s)),
    decreases s.len(),
{
    if s.len() > 0 {
        let rest = s.drop_first();
        lemma_escape_no_bare_quote(rest);
        let t = spec_escape(s);
        assert(t == esc_char(s[0]) + spec_escape(rest));
        if s[0] == '\n' || s[0] == '"' || s[0] == '\\' {
            assert(t[0] == '\\');
            assert(t.len() >= 2);
            assert(t.subrange(2, t.len() as int) =~= spec_escape(rest));
        } else {
            assert(t[0] == s[0]);
            assert(t[0] != '\\' && t[0] != '"');
            assert(t.drop_first() =~= spec_escape(rest));
        }
    }
}

/// One self-identification series: the family name with a single
/// `version` label and the fixed value one.
pub open spec fn spec_version_info_line(name: Seq<char>, version: Seq<char>) -> Seq<char> {
    name + "{version=\""@ + spec_escape(version) + "\"} 1\n"@
}

/// The exporter's own identification series.
pub fn print_exporter_info_metric() -> (r: String)
    ensures
        r@ == spec_version_info_line("nut_exporter_info"@, spec_app_version()),
{
    let mut out = String::new();
    out.append("nut_exporter_info");
    out.append("{version=\"");
    out.append(escape_om(app_version()).as_str());
    out.append("\"} 1\n");
    out
}

/// The remote server's identification series.
pub fn print_server_info_metric(nut_version: &str) -> (r: String)
    ensures
        r@ == spec_version_info_line("nut_server_info"@, nut_version@),
{
    let mut out = String::new();
    out.append("nut_server_info");
    out.append("{version=\"");
    out.append(escape_om(nut_version).as_str());
    out.append("\"} 1\n");
    out
}

/// The deprecated twin of the server identification series.
pub fn print_old_server_info_metric(nut_version: &str) -> (r: String)
    ensures
        r@ == spec_version_info_line("nut_info"@, nut_version@),
{
    let mut out = String::new();
    out.append("nut_info");
    out.append("{version=\"");
    out.append(escape_om(nut_version).as_str());
    out.append("\"} 1\n");
    out
}

/// The metadata block of one family: its type, unit and help lines; the
/// help names the originating variable when the family is field-derived.
pub open spec fn spec_metadata_block(m: Metric) -> Seq<char> {
    "# TYPE "@ + m.metric@ + " "@ + m.type_@ + "\n"@ + "# UNIT "@ + m.metric@ + " "@ + m.unit@
        + "\n"@ + "# HELP "@ + m.metric@ + " "@ + spec_escape(m.help@) + (if m.nut_var@.len() > 0 {
        " (\""@ + spec_escape(m.nut_var@) + "\")"@
    } else {
        Seq::<char>::empty()
    }) + "\n"@
}

/// Renders the `TYPE`/`UNIT`/`HELP` metadata of one family.
pub fn print_metric_metadata(metric: &Metric) -> (r: String)
    ensures
        r@ == spec_metadata_block(*metric),
{
    let mut out = String::new();
    out.append("# TYPE ");
    out.append(metric.metric);
    out.append(" ");
    out.append(metric.type_);
    out.append("\n");
    out.append("# UNIT ");
    out.append(metric.metric);
    out.append(" ");
    out.append(metric.unit);
    out.append("\n");
    out.append("# HELP ");
    out.append(metric.metric);
    out.append(" ");
    out.append(escape_om(metric.help).as_str());
    if !metric.nut_var.is_empty() {
        out.append(" (\"");
        out.append(escape_om(metric.nut_var).as_str());
        out.append("\")");
    }
    out.append("\n");
    out
}

/// One optional label: present exactly when the variable is set, as
/// `,<label>="<escaped value>"` with the prefix holding label and quote.
pub open spec fn spec_label_part(
    vars: Seq<(Seq<char>, Seq<char>)>,
    label_prefix: Seq<char>,
    var: Seq<char>,
) -> Seq<char> {
    match spec_lookup(vars, var) {
        Some(v) => label_prefix + spec_escape(v) + "\""@,
        None => Seq::<char>::empty(),
    }
}

fn append_var_label(out: &mut String, vars: &VarMap, label_prefix: &str, var: &str)
    ensures
        final(out)@ == old(out)@ + spec_label_part(vars.view_entries(), label_prefix@, var@),
{
    match vars.get(var) {
        Some(v) => {
            out.append(label_prefix);
            out.append(escape_om(v.as_str()).as_str());
            out.append("\"");
        },
        None => {},
    }
}

/// The device information series: one line per device, its identifier
/// first, then one label per present descriptive variable, in a fixed
/// label order, with every free-text value escaped.
pub open spec fn spec_ups_info_line(ups: Seq<char>, vars: Seq<(Seq<char>, Seq<char>)>) -> Seq<
    char,
> {
    "nut_ups_info{ups=\""@ + spec_escape(ups) + "\""@
        + spec_label_part(vars, ",description=\""@, "_description"@)
        + spec_label_part(vars, ",description2=\""@, "device.description"@)
        + spec_label_part(vars, ",device_type=\""@, "device.type"@)
        + spec_label_part(vars, ",location=\""@, "device.location"@)
        + spec_label_part(vars, ",manufacturer=\""@, "device.mfr"@)
        + spec_label_part(vars, ",manufacturing_date=\""@, "device.mfr.date"@)
        + spec_label_part(vars, ",model=\""@, "device.model"@)
        + spec_label_part(vars, ",battery_type=\""@, "battery.type"@)
        + spec_label_part(vars, ",driver=\""@, "driver.name"@)
        + spec_label_part(vars, ",driver_version=\""@, "driver.version"@)
        + spec_label_part(vars, ",driver_version_internal=\""@, "driver.version.internal"@)
        + spec_label_part(vars, ",driver_version_data=\""@, "driver.version.data"@)
        + spec_label_part(vars, ",usb_vendor_id=\""@, "ups.vendorid"@)
        + spec_label_part(vars, ",usb_product_id=\""@, "ups.productid"@)
        + spec_label_part(vars, ",ups_firmware=\""@, "ups.firmware"@)
        + spec_label_part(vars, ",ups_type=\""@, "ups.type"@)
        + spec_label_part(vars, ",type=\""@, "device.type"@)
        + spec_label_part(vars, ",nut_version=\""@, "driver.version"@)
        + "} 1\n"@
}

/// Renders the device information series of one device.
pub fn print_ups_info_metric(ups: &str, vars: &VarMap) -> (r: String)
    ensures
        r@ == spec_ups_info_line(ups@, vars.view_entries()),
{
    let mut out = String::new();
    out.append("nut_ups_info{ups=\"");
    out.append(escape_om(ups).as_str());
    out.append("\"");
    append_var_label(&mut out, vars, ",description=\"", "_description");
    append_var_label(&mut out, vars, ",description2=\"", "device.description");
    append_var_label(&mut out, vars, ",device_type=\"", "device.type");
    append_var_label(&mut out, vars, ",location=\"", "device.location");
    append_var_label(&mut out, vars, ",manufacturer=\"", "device.mfr");
    append_var_label(&mut out, vars, ",manufacturing_date=\"", "device.mfr.date");
    append_var_label(&mut out, vars, ",model=\"", "device.model");
    append_var_label(&mut out, vars, ",battery_type=\"", "battery.type");
    append_var_label(&mut out, vars, ",driver=\"", "driver.name");
    append_var_label(&mut out, vars, ",driver_version=\"", "driver.version");
    append_var_label(&mut out, vars, ",driver_version_internal=\"", "driver.version.internal");
    append_var_label(&mut out, vars, ",driver_version_data=\"", "driver.version.data");
    append_var_label(&mut out, vars, ",usb_vendor_id=\"", "ups.vendorid");
    append_var_label(&mut out, vars, ",usb_product_id=\"", "ups.productid");
    append_var_label(&mut out, vars, ",ups_firmware=\"", "ups.firmware");
    append_var_label(&mut out, vars, ",ups_type=\"", "ups.type");
    append_var_label(&mut out, vars, ",type=\"", "device.type");
    append_var_label(&mut out, vars, ",nut_version=\"", "driver.version");
    out.append("} 1\n");
    out
}

/// One status flag series: value one exactly when the flag token stands
/// in the space-separated raw status value.
pub open spec fn spec_status_line(ups: Seq<char>, flag: Seq<char>, present: bool) -> Seq<char> {
    "nut_ups_status{ups=\""@ + spec_escape(ups) + "\",status=\""@ + flag + "\"} "@ + (if present {
        "1"@
    } else {
        "0"@
    }) + "\n"@
}

/// The flag expansion of one device: nothing without a status variable,
/// else exactly one series per fixed flag, in fixed flag order.
pub open spec fn spec_status_lines(ups: Seq<char>, vars: Seq<(Seq<char>, Seq<char>)>) -> Seq<
    Seq<char>,
> {
    match spec_lookup(vars, "ups.status"@) {
        None => Seq::<Seq<char>>::empty(),
        Some(raw) => Seq::new(
            spec_status_elements().len(),
            |i: int| spec_status_line(
                ups,
                spec_status_elements()[i],
                spec_split_spaces(raw).contains(spec_status_elements()[i]),
            ),
        ),
    }
}

/// Renders the status flag expansion of one device: one boolean series
/// per known flag whenever the status variable is present, even when
/// every value is zero.
pub fn print_ups_status_metrics(ups: &str, vars: &VarMap) -> (r: Vec<String>)
    ensures
        r@.map_values(|t: String| t@) == spec_status_lines(ups@, vars.view_entries()),
{
    let mut lines: Vec<String> = Vec::new();
    let status_raw = match vars.get("ups.status") {
        Some(x) => x,
        None => {
            proof {
                assert(lines@.map_values(|t: String| t@) =~= Seq::<Seq<char>>::empty());
            }
            return lines;
        },
    };
    let tokens = split_spaces(status_raw.as_str());
    let elements = ups_status_elements();
    let n = elements.len();
    let ghost elems = spec_status_elements();
    proof {
        assert(elements@.map_values(|s: &str| s@) =~= elems);
        assert(elems.len() == 10);
    }
    let mut f: usize = 0;
    while f < n
        invariant
            f <= n,
            n == elements@.len(),
            n == elems.len(),
            elements@.map_values(|s: &str| s@) == elems,
            tokens@.map_values(|t: String| t@) == spec_split_spaces(status_raw@),
            lines@.map_values(|t: String| t@) =~= Seq::new(
                f as nat,
                |i: int| spec_status_line(
                    ups@,
                    elems[i],
                    spec_split_spaces(status_raw@).contains(elems[i]),
                ),
            ),
        decreases n - f,
    {
        let flag = elements[f];
        proof {
            assert(elements@.map_values(|s: &str| s@)[f as int] == flag@);
        }
        let present = contains_str(&tokens, flag);
        let mut out = String::new();
        out.append("nut_ups_status{ups=\"");
        out.append(escape_om(ups).as_str());
        out.append("\",status=\"");
        out.append(flag);
        out.append("\"} ");
        if present {
            out.append("1");
        } else {
            out.append("0");
        }
        out.append("\n");
        proof {
            assert(out@ == spec_status_line(ups@, elems[f as int], spec_split_spaces(
                status_raw@,
            ).contains(elems[f as int])));
        }
        let ghost before = lines@.map_values(|t: String| t@);
        lines.push(out);
        proof {
            assert(lines@.map_values(|t: String| t@) =~= before.push(
                spec_status_line(
                    ups@,
                    elems[f as int],
                    spec_split_spaces(status_raw@).contains(elems[f as int]),
                ),
            ));
            assert(lines@.map_values(|t: String| t@) =~= Seq::new(
                (f + 1) as nat,
                |i: int| spec_status_line(
                    ups@,
                    elems[i],
                    spec_split_spaces(status_raw@).contains(elems[i]),
                ),
            ));
        }
        f += 1;
    }
    lines
}

/// Law: whenever the status variable is present, the flag expansion
/// holds exactly one series per fixed flag, in fixed flag order, with
/// value one exactly when the flag token stands in the space-separated
/// raw value — every scrape, even when every value is zero.
pub proof fn lemma_flag_expansion_complete(
    ups: Seq<char>,
    vars: Seq<(Seq<char>, Seq<char>)>,
    raw: Seq<char>,
)
    requires
        spec_lookup(vars, "ups.status"@) == Some(raw),
    ensures
        spec_status_lines(ups, vars).len() == spec_status_elements().len(),
        forall|i: int|
            0 <= i < spec_status_elements().len() ==> #[trigger] spec_status_lines(ups, vars)[i]
                == spec_status_line(
                ups,
                spec_status_elements()[i],
                spec_split_spaces(raw).contains(spec_status_elements()[i]),
            ),
{
}

/// One value series of a field-derived family, when its transform
/// accepts the raw value: the family name, the device label, and the
/// number rendered by the family's integer flag.
pub open spec fn spec_basic_var_line(ups: Seq<char>, value: Seq<char>, m: Metric) -> Option<
    Seq<char>,
> {
    match spec_apply_transform(m.var_transform, value) {
        None => None,
        Some(d) => Some(
            m.metric@ + "{ups=\""@ + spec_escape(ups) + "\"} "@ + spec_render_number(
                d.0,
                d.1,
                d.2,
                m.is_integer,
            ) + "\n"@,
        ),
    }
}

/// Renders one value series, or nothing when the transform declines the
/// raw value — which suppresses only this series.
pub fn print_basic_var_metric(ups: &str, value: &str, metric: &Metric) -> (r: Option<String>)
    ensures
        r is Some <==> spec_basic_var_line(ups@, value@, *metric) is Some,
        r is Some ==> r->0@ == spec_basic_var_line(ups@, value@, *metric)->0,
{
    let d = match apply_transform(metric.var_transform, value) {
        Some(d) => d,
        None => {
            return None;
        },
    };
    let num = crate::decimal::render_number(&d, metric.is_integer);
    let mut out = String::new();
    out.append(metric.metric);
    out.append("{ups=\"");
    out.append(escape_om(ups).as_str());
    out.append("\"} ");
    out.append(num.as_str());
    out.append("\n");
    Some(out)
}

/// A line list as character sequences.
pub open spec fn lines_view(s: Seq<String>) -> Seq<Seq<char>> {
    s.map_values(|t: String| t@)
}

/// All lines of a bucket, concatenated in order.
pub open spec fn spec_concat_lines(lines: Seq<Seq<char>>) -> Seq<char>
    decreases lines.len(),
{
    if lines.len() == 0 {
        Seq::<char>::empty()
    } else {
        spec_concat_lines(lines.drop_last()) + lines.last()
    }
}

fn append_lines(out: &mut String, lines: &Vec<String>)
    ensures
        final(out)@ == old(out)@ + spec_concat_lines(lines_view(lines@)),
{
    let n = lines.len();
    let mut i: usize = 0;
    proof {
        assert(lines_view(lines@).subrange(0, 0) =~= Seq::<Seq<char>>::empty());
    }
    while i < n
        invariant
            i <= n,
            n == lines@.len(),
            out@ == old(out)@ + spec_concat_lines(lines_view(lines@).subrange(0, i as int)),
        decreases n - i,
    {
        out.append(lines[i].as_str());
        proof {
            let lv = lines_view(lines@);
            assert(lv.subrange(0, i + 1).drop_last() =~= lv.subrange(0, i as int));
            assert(lv.subrange(0, i + 1).last() == lines@[i as int]@);
        }
        i += 1;
    }
    proof {
        assert(lines_view(lines@).subrange(0, n as int) =~= lines_view(lines@));
    }
}

/// The status flag lines of every device, in registry order.
pub open spec fn spec_all_status_lines(
    reg: Seq<(Seq<char>, Seq<(Seq<char>, Seq<char>)>)>,
) -> Seq<Seq<char>>
    decreases reg.len(),
{
    if reg.len() == 0 {
        Seq::<Seq<char>>::empty()
    } else {
        spec_all_status_lines(reg.drop_last()) + spec_status_lines(
            reg.last().0,
            reg.last().1,
        )
    }
}

fn collect_status_lines(upses: &UpsVarMap) -> (r: Vec<String>)
    ensures
        lines_view(r@) == spec_all_status_lines(upses.view_entries()),
{
    let ghost reg = upses.view_entries();
    let mut out: Vec<String> = Vec::new();
    let n = upses.entries.len();
    let mut i: usize = 0;
    proof {
        assert(lines_view(out@) =~= spec_all_status_lines(reg.subrange(0, 0)));
    }
    while i < n
        invariant
            i <= n,
            n == upses.entries@.len(),
            reg == upses.view_entries(),
            lines_view(out@) == spec_all_status_lines(reg.subrange(0, i as int)),
        decreases n - i,
    {
        let dev = &upses.entries[i];
        let mut ls = print_ups_status_metrics(dev.0.as_str(), &dev.1);
        let ghost before = lines_view(out@);
        let ghost added = lines_view(ls@);
        out.append(&mut ls);
        proof {
            assert(reg[i as int] == (dev.0@, dev.1.view_entries()));
            assert(lines_view(out@) =~= before + added);
            assert(reg.subrange(0, i + 1).drop_last() =~= reg.subrange(0, i as int));
            assert(reg.subrange(0, i + 1).last() == reg[i as int]);
        }
        i += 1;
    }
    proof {
        assert(reg.subrange(0, n as int) =~= reg);
    }
    out
}

/// The device information lines, one per device, in registry order.
pub open spec fn spec_info_lines(reg: Seq<(Seq<char>, Seq<(Seq<char>, Seq<char>)>)>) -> Seq<
    Seq<char>,
> {
    Seq::new(reg.len(), |i: int| spec_ups_info_line(reg[i].0, reg[i].1))
}

fn collect_info_lines(upses: &UpsVarMap) -> (r: Vec<String>)
    ensures
        lines_view(r@) == spec_info_lines(upses.view_entries()),
{
    let ghost reg = upses.view_entries();
    let mut out: Vec<String> = Vec::new();
    let n = upses.entries.len();
    let mut i: usize = 0;
    while i < n
        invariant
            i <= n,
            n == upses.entries@.len(),
            reg == upses.view_entries(),
            lines_view(out@) =~= spec_info_lines(reg.subrange(0, i as int)),
        decreases n - i,
    {
        let dev = &upses.entries[i];
        let line = print_ups_info_metric(dev.0.as_str(), &dev.1);
        let ghost before = lines_view(out@);
        out.push(line);
        proof {
            assert(reg[i as int] == (dev.0@, dev.1.view_entries()));
            assert(lines_view(out@) =~= before.push(spec_ups_info_line(
                reg[i as int].0,
                reg[i as int].1,
            )));
            assert(lines_view(out@) =~= spec_info_lines(reg.subrange(0, i + 1)));
        }
        i += 1;
    }
    proof {
        assert(reg.subrange(0, n as int) =~= reg);
    }
    out
}

/// The value series one device contributes to one family: its variables
/// in storage order, each matching the family's source field and
/// accepted by its transform.
pub open spec fn spec_dev_lines(
    m: Metric,
    ups: Seq<char>,
    vars: Seq<(Seq<char>, Seq<char>)>,
) -> Seq<Seq<char>>
    decreases vars.len(),
{
    if vars.len() == 0 {
        Seq::<Seq<char>>::empty()
    } else {
        spec_dev_lines(m, ups, vars.drop_last()) + (if vars.last().0 == m.nut_var@ {
            match spec_basic_var_line(ups, vars.last().1, m) {
                Some(l) => seq![l],
                None => Seq::<Seq<char>>::empty(),
            }
        } else {
            Seq::<Seq<char>>::empty()
        })
    }
}

/// The value series of one family over the whole registry, devices in
/// registry order.
pub open spec fn spec_var_lines(
    m: Metric,
    reg: Seq<(Seq<char>, Seq<(Seq<char>, Seq<char>)>)>,
) -> Seq<Seq<char>>
    decreases reg.len(),
{
    if reg.len() == 0 {
        Seq::<Seq<char>>::empty()
    } else {
        spec_var_lines(m, reg.drop_last()) + spec_dev_lines(m, reg.last().0, reg.last().1)
    }
}

fn collect_var_lines(metric: &Metric, upses: &UpsVarMap) -> (r: Vec<String>)
    ensures
        lines_view(r@) == spec_var_lines(*metric, upses.view_entries()),
{
    let ghost reg = upses.view_entries();
    let mut out: Vec<String> = Vec::new();
    let n = upses.entries.len();
    let mut i: usize = 0;
    proof {
        assert(lines_view(out@) =~= spec_var_lines(*metric, reg.subrange(0, 0)));
    }
    while i < n
        invariant
            i <= n,
            n == upses.entries@.len(),
            reg == upses.view_entries(),
            lines_view(out@) == spec_var_lines(*metric, reg.subrange(0, i as int)),
        decreases n - i,
    {
        let dev = &upses.entries[i];
        let ghost vars = dev.1.view_entries();
        let vn = dev.1.entries.len();
        let mut k: usize = 0;
        proof {
            assert(reg[i as int] == (dev.0@, dev.1.view_entries()));
            assert(spec_dev_lines(*metric, dev.0@, vars.subrange(0, 0)) =~= Seq::<
                Seq<char>,
            >::empty());
        }
        while k < vn
            invariant
                k <= vn,
                i < n,
                n == upses.entries@.len(),
                vn == upses.entries@[i as int].1.entries@.len(),
                reg == upses.view_entries(),
                vars == upses.entries@[i as int].1.view_entries(),
                reg[i as int] == (upses.entries@[i as int].0@, vars),
                lines_view(out@) == spec_var_lines(*metric, reg.subrange(0, i as int))
                    + spec_dev_lines(*metric, upses.entries@[i as int].0@, vars.subrange(
                    0,
                    k as int,
                )),
            decreases vn - k,
        {
            let dev2 = &upses.entries[i];
            let entry = &dev2.1.entries[k];
            proof {
                assert(vars[k as int] == (entry.0@, entry.1@));
            }
            let ghost before = lines_view(out@);
            let ghost added = if vars[k as int].0 == metric.nut_var@ {
                match spec_basic_var_line(dev2.0@, vars[k as int].1, *metric) {
                    Some(l) => seq![l],
                    None => Seq::<Seq<char>>::empty(),
                }
            } else {
                Seq::<Seq<char>>::empty()
            };
            if crate::strutil::eq_str(entry.0.as_str(), metric.nut_var) {
                match print_basic_var_metric(dev2.0.as_str(), entry.1.as_str(), metric) {
                    Some(line) => {
                        out.push(line);
                        proof {
                            assert(lines_view(out@) =~= before + added);
                        }
                    },
                    None => {
                        proof {
                            assert(added =~= Seq::<Seq<char>>::empty());
                            assert(lines_view(out@) =~= before + added);
                        }
                    },
                }
            } else {
                proof {
                    assert(lines_view(out@) =~= before + added);
                }
            }
            proof {
                assert(vars.subrange(0, k + 1).drop_last() =~= vars.subrange(0, k as int));
                assert(vars.subrange(0, k + 1).last() == vars[k as int]);
                assert(spec_dev_lines(*metric, upses.entries@[i as int].0@, vars.subrange(0, k + 1))
                    == spec_dev_lines(*metric, upses.entries@[i as int].0@, vars.subrange(
                    0,
                    k as int,
                )) + added);
            }
            k += 1;
        }
        proof {
            assert(vars.subrange(0, vn as int) =~= vars);
            assert(reg.subrange(0, i + 1).drop_last() =~= reg.subrange(0, i as int));
            assert(reg.subrange(0, i + 1).last() == reg[i as int]);
        }
        i += 1;
    }
    proof {
        assert(reg.subrange(0, n as int) =~= reg);
    }
    out
}

/// The lines of the family at catalog position `i`, for the fixed layout:
/// exporter identity, server identity, device information, the
/// deprecated server identity, the status flag expansion, then one
/// bucket per variable-driven family.
pub open spec fn spec_bucket(
    cat: Catalog,
    reg: Seq<(Seq<char>, Seq<(Seq<char>, Seq<char>)>)>,
    ver: Seq<char>,
    i: int,
) -> Seq<Seq<char>> {
    if i == 0 {
        seq![spec_version_info_line("nut_exporter_info"@, spec_app_version())]
    } else if i == 1 {
        seq![spec_version_info_line("nut_server_info"@, ver)]
    } else if i == 2 {
        spec_info_lines(reg)
    } else if i == 3 {
        seq![spec_version_info_line("nut_info"@, ver)]
    } else if i == 4 {
        spec_all_status_lines(reg)
    } else {
        spec_var_lines(cat.basic@[i - 5], reg)
    }
}

/// A non-empty bucket renders as its metadata block followed by all its
/// series lines; an empty bucket renders nothing.
pub open spec fn spec_family_block(m: Metric, lines: Seq<Seq<char>>) -> Seq<char> {
    if lines.len() == 0 {
        Seq::<char>::empty()
    } else {
        spec_metadata_block(m) + spec_concat_lines(lines)
    }
}

/// The document up to (excluding) family `n`, families in catalog order.
pub open spec fn spec_render_upto(
    cat: Catalog,
    reg: Seq<(Seq<char>, Seq<(Seq<char>, Seq<char>)>)>,
    ver: Seq<char>,
    n: int,
) -> Seq<char>
    decreases n,
{
    if n <= 0 {
        Seq::<char>::empty()
    } else {
        spec_render_upto(cat, reg, ver, n - 1) + spec_family_block(
            cat.families()[n - 1],
            spec_bucket(cat, reg, ver, n - 1),
        )
    }
}

/// The whole document: every family block in catalog order, then the
/// end-of-document marker.
pub open spec fn spec_render(
    cat: Catalog,
    reg: Seq<(Seq<char>, Seq<(Seq<char>, Seq<char>)>)>,
    ver: Seq<char>,
) -> Seq<char> {
    spec_render_upto(cat, reg, ver, 5 + cat.basic@.len() as int) + "# EOF\n"@
}

/// Appends one family: nothing when the bucket is empty, else the
/// metadata block followed by every series line of the bucket.
fn append_family(out: &mut String, m: &Metric, lines: &Vec<String>)
    ensures
        final(out)@ == old(out)@ + spec_family_block(*m, lines_view(lines@)),
{
    proof {
        assert(lines_view(lines@).len() == lines@.len());
    }
    if lines.len() > 0 {
        out.append(print_metric_metadata(m).as_str());
        append_lines(out, lines);
    } else {
        proof {
            assert(old(out)@ + spec_family_block(*m, lines_view(lines@)) =~= old(out)@);
        }
    }
}

/// One more family extends the rendered prefix by its block.
pub proof fn lemma_render_step(
    cat: Catalog,
    reg: Seq<(Seq<char>, Seq<(Seq<char>, Seq<char>)>)>,
    ver: Seq<char>,
    n: int,
)
    requires
        n >= 0,
    ensures
        spec_render_upto(cat, reg, ver, n + 1) == spec_render_upto(cat, reg, ver, n)
            + spec_family_block(cat.families()[n], spec_bucket(cat, reg, ver, n)),
{
}

/// Law: the document is the concatenation, in catalog declaration
/// order, of one block per family, each non-empty block holding the
/// family's metadata followed by all of its series lines together — so
/// all series of one family stand contiguously, and family order never
/// depends on the registry. Together with the contract of
/// `build_openmetrics_content`, whose result is a function of catalog,
/// registry content and version alone, two renders of the same registry
/// content are byte-for-byte identical.
pub proof fn lemma_document_groups_families(
    cat: Catalog,
    reg: Seq<(Seq<char>, Seq<(Seq<char>, Seq<char>)>)>,
    ver: Seq<char>,
)
    ensures
        spec_render(cat, reg, ver) == spec_render_upto(cat, reg, ver, 5 + cat.basic@.len() as int)
            + "# EOF\n"@,
        forall|n: int|
            0 <= n < 5 + cat.basic@.len() ==> #[trigger] spec_render_upto(cat, reg, ver, n + 1)
                == spec_render_upto(cat, reg, ver, n) + spec_family_block(
                cat.families()[n],
                spec_bucket(cat, reg, ver, n),
            ),
{
}

/// Renders the metrics document for one scrape: the registry, the
/// captured server version and the exporter identity, laid out exactly
/// as `spec_render` states — deterministic for a given registry content.
pub fn build_openmetrics_content(catalog: &Catalog, upses: &UpsVarMap, nut_version: &str) -> (r:
    String)
    ensures
        r@ == spec_render(*catalog, upses.view_entries(), nut_version@),
{
    let ghost cat = *catalog;
    let ghost reg = upses.view_entries();
    let ghost ver = nut_version@;
    let mut out = String::new();

    // Family 0: exporter identity, always one series.
    let mut bucket0: Vec<String> = Vec::new();
    bucket0.push(print_exporter_info_metric());
    append_family(&mut out, &catalog.exporter_info, &bucket0);
    proof {
        assert(lines_view(bucket0@) =~= spec_bucket(cat, reg, ver, 0));
        assert(cat.families()[0] == cat.exporter_info);
        lemma_render_step(cat, reg, ver, 0);
        assert(out@ =~= spec_render_upto(cat, reg, ver, 1));
    }

    // Family 1: server identity, always one series.
    let mut bucket1: Vec<String> = Vec::new();
    bucket1.push(print_server_info_metric(nut_version));
    append_family(&mut out, &catalog.server_info, &bucket1);
    proof {
        assert(lines_view(bucket1@) =~= spec_bucket(cat, reg, ver, 1));
        assert(cat.families()[1] == cat.server_info);
        lemma_render_step(cat, reg, ver, 1);
        assert(out@ =~= spec_render_upto(cat, reg, ver, 2));
    }

    // Family 2: device information, one series per device.
    let info_lines = collect_info_lines(upses);
    append_family(&mut out, &catalog.ups_info, &info_lines);
    proof {
        assert(lines_view(info_lines@) == spec_bucket(cat, reg, ver, 2));
        assert(cat.families()[2] == cat.ups_info);
        lemma_render_step(cat, reg, ver, 2);
        assert(out@ =~= spec_render_upto(cat, reg, ver, 3));
    }

    // Family 3: the deprecated server identity, always one series.
    let mut bucket3: Vec<String> = Vec::new();
    bucket3.push(print_old_server_info_metric(nut_version));
    append_family(&mut out, &catalog.old_server_info, &bucket3);
    proof {
        assert(lines_view(bucket3@) =~= spec_bucket(cat, reg, ver, 3));
        assert(cat.families()[3] == cat.old_server_info);
        lemma_render_step(cat, reg, ver, 3);
        assert(out@ =~= spec_render_upto(cat, reg, ver, 4));
    }

    // Family 4: the status flag expansion of every device.
    let status_lines = collect_status_lines(upses);
    append_family(&mut out, &catalog.ups_status, &status_lines);
    proof {
        assert(lines_view(status_lines@) == spec_bucket(cat, reg, ver, 4));
        assert(cat.families()[4] == cat.ups_status);
        lemma_render_step(cat, reg, ver, 4);
        assert(out@ =~= spec_render_upto(cat, reg, ver, 5));
    }

    // The variable-driven families, in catalog order.
    let n = catalog.basic.len();
    let mut j: usize = 0;
    while j < n
        invariant
            j <= n,
            n == catalog.basic@.len(),
            cat == *catalog,
            reg == upses.view_entries(),
            ver == nut_version@,
            out@ == spec_render_upto(cat, reg, ver, 5 + j),
        decreases n - j,
    {
        let metric = &catalog.basic[j];
        let lines = collect_var_lines(metric, upses);
        append_family(&mut out, metric, &lines);
        proof {
            assert(cat.families()[5 + j] == cat.basic@[j as int]);
            assert(lines_view(lines@) == spec_bucket(cat, reg, ver, 5 + j));
            lemma_render_step(cat, reg, ver, 5 + j);
            assert(out@ =~= spec_render_upto(cat, reg, ver, 5 + j + 1));
        }
        j += 1;
    }
    out.append("# EOF\n");
    out
}

} // verus!
