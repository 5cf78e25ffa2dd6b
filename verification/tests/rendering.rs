use nut_exporter::metrics::{Catalog, Metric, UpsVarMap, VarMap, VarTransform};
use nut_exporter::openmetrics_builder::{
    build_openmetrics_content, escape_om, print_basic_var_metric, print_exporter_info_metric,
    print_metric_metadata, print_old_server_info_metric, print_server_info_metric,
    print_ups_info_metric, print_ups_status_metrics,
};

fn gauge(name: &'static str, var: &'static str, transform: VarTransform, integer: bool) -> Metric {
    Metric {
        metric: name,
        help: "Help text.",
        type_: "gauge",
        unit: "",
        nut_var: var,
        var_transform: transform,
        is_integer: integer,
    }
}

#[test]
fn escaping_handles_the_three_special_characters() {
    assert_eq!(escape_om("plain"), "plain");
    assert_eq!(escape_om("a\"b\\c\nd"), "a\\\"b\\\\c\\nd");
    assert_eq!(escape_om(""), "");
}

#[test]
fn escaped_description_breaks_no_series_line() {
    let mut vars = VarMap::new();
    vars.insert(
        String::from("_description"),
        String::from("quote \" and backslash \\"),
    );
    let line = print_ups_info_metric("ups1", &vars);
    assert_eq!(
        line,
        "nut_ups_info{ups=\"ups1\",description=\"quote \\\" and backslash \\\\\"} 1\n"
    );
}

#[test]
fn percentage_to_fraction_is_deterministic() {
    let m = gauge("nut_load", "ups.load", VarTransform::PercentageToFraction, false);
    let line = print_basic_var_metric("ups1", "55.0", &m).unwrap();
    assert_eq!(line, "nut_load{ups=\"ups1\"} 0.55000000000000000\n");
    let again = print_basic_var_metric("ups1", "55.0", &m).unwrap();
    assert_eq!(line, again);
}

#[test]
fn identity_renders_floats_in_fixed_notation() {
    let m = gauge("nut_temperature_celsius", "ups.temperature", VarTransform::Identity, false);
    let line = print_basic_var_metric("u", "230.1", &m).unwrap();
    assert_eq!(line, "nut_temperature_celsius{ups=\"u\"} 230.10000000000000000\n");
    let line = print_basic_var_metric("u", "5.", &m).unwrap();
    assert_eq!(line, "nut_temperature_celsius{ups=\"u\"} 5.00000000000000000\n");
    let line = print_basic_var_metric("u", ".5", &m).unwrap();
    assert_eq!(line, "nut_temperature_celsius{ups=\"u\"} 0.50000000000000000\n");
    let line = print_basic_var_metric("u", "-3.25", &m).unwrap();
    assert_eq!(line, "nut_temperature_celsius{ups=\"u\"} -3.25000000000000000\n");
}

#[test]
fn identity_declines_non_numeric_input() {
    let m = gauge("nut_uptime_seconds", "device.uptime", VarTransform::Identity, true);
    assert!(print_basic_var_metric("u", "soon", &m).is_none());
    assert!(print_basic_var_metric("u", "", &m).is_none());
    assert!(print_basic_var_metric("u", "1.2.3", &m).is_none());
    assert!(print_basic_var_metric("u", "1e3", &m).is_none());
}

#[test]
fn integer_metrics_round_half_to_even() {
    let m = gauge("nut_uptime_seconds", "device.uptime", VarTransform::Identity, true);
    assert_eq!(
        print_basic_var_metric("u", "42", &m).unwrap(),
        "nut_uptime_seconds{ups=\"u\"} 42\n"
    );
    assert_eq!(
        print_basic_var_metric("u", "55.5", &m).unwrap(),
        "nut_uptime_seconds{ups=\"u\"} 56\n"
    );
    assert_eq!(
        print_basic_var_metric("u", "0.5", &m).unwrap(),
        "nut_uptime_seconds{ups=\"u\"} 0\n"
    );
    assert_eq!(
        print_basic_var_metric("u", "007", &m).unwrap(),
        "nut_uptime_seconds{ups=\"u\"} 7\n"
    );
}

#[test]
fn enum_to_ordinal_never_declines() {
    let m = gauge("nut_beeper_status", "ups.beeper.status", VarTransform::EnumToOrdinal, true);
    for (raw, val) in [
        ("enabled", "1"),
        ("disabled", "2"),
        ("muted", "3"),
        ("", "0"),
        ("whatever", "0"),
    ] {
        let line = print_basic_var_metric("u", raw, &m).unwrap();
        assert_eq!(line, format!("nut_beeper_status{{ups=\"u\"}} {}\n", val));
    }
}

#[test]
fn status_prefix_to_ordinal_uses_only_the_first_token() {
    let m = gauge("nut_status", "ups.status", VarTransform::StatusPrefixToOrdinal, true);
    for (raw, val) in [
        ("OB LB", "2"),
        ("OL", "1"),
        ("LB", "3"),
        ("XX", "0"),
        ("", "0"),
    ] {
        let line = print_basic_var_metric("u", raw, &m).unwrap();
        assert_eq!(line, format!("nut_status{{ups=\"u\"}} {}\n", val));
    }
}

#[test]
fn flag_set_expansion_emits_every_flag_once() {
    let mut vars = VarMap::new();
    vars.insert(String::from("ups.status"), String::from("OL CHRG"));
    let lines = print_ups_status_metrics("ups1", &vars);
    assert_eq!(lines.len(), 10);
    let expect = [
        ("OL", "1"),
        ("OB", "0"),
        ("LB", "0"),
        ("CHRG", "1"),
        ("RB", "0"),
        ("FSD", "0"),
        ("BYPASS", "0"),
        ("SD", "0"),
        ("CP", "0"),
        ("OFF", "0"),
    ];
    for (line, (flag, val)) in lines.iter().zip(expect.iter()) {
        assert_eq!(
            line,
            &format!("nut_ups_status{{ups=\"ups1\",status=\"{}\"}} {}\n", flag, val)
        );
    }
}

#[test]
fn flag_set_expansion_needs_the_status_field() {
    let vars = VarMap::new();
    let lines = print_ups_status_metrics("ups1", &vars);
    assert!(lines.is_empty());
}

#[test]
fn info_metrics_carry_the_version_label() {
    assert_eq!(
        print_exporter_info_metric(),
        "nut_exporter_info{version=\"1.1.1\"} 1\n"
    );
    assert_eq!(
        print_server_info_metric("2.8.0"),
        "nut_server_info{version=\"2.8.0\"} 1\n"
    );
    assert_eq!(print_old_server_info_metric("2.8.0"), "nut_info{version=\"2.8.0\"} 1\n");
}

#[test]
fn metadata_names_the_source_field_when_one_exists() {
    let m = gauge("nut_load", "ups.load", VarTransform::PercentageToFraction, false);
    assert_eq!(
        print_metric_metadata(&m),
        "# TYPE nut_load gauge\n# UNIT nut_load \n# HELP nut_load Help text. (\"ups.load\")\n"
    );
    let special = Metric {
        metric: "nut_server_info",
        help: "Metadata about the NUT server.",
        type_: "info",
        unit: "",
        nut_var: "",
        var_transform: VarTransform::Identity,
        is_integer: true,
    };
    assert_eq!(
        print_metric_metadata(&special),
        "# TYPE nut_server_info info\n# UNIT nut_server_info \n# HELP nut_server_info Metadata about the NUT server.\n"
    );
}

#[test]
fn device_info_line_lists_present_labels_in_fixed_order() {
    let mut vars = VarMap::new();
    vars.insert(String::from("device.mfr"), String::from("ACME"));
    vars.insert(String::from("_description"), String::from("Test UPS"));
    vars.insert(String::from("device.model"), String::from("Volt 1000"));
    let line = print_ups_info_metric("ups1", &vars);
    assert_eq!(
        line,
        "nut_ups_info{ups=\"ups1\",description=\"Test UPS\",manufacturer=\"ACME\",model=\"Volt 1000\"} 1\n"
    );
}

fn two_device_registry() -> UpsVarMap {
    let mut reg = UpsVarMap::new();
    let mut vars_a = VarMap::new();
    vars_a.insert(String::from("_description"), String::from("A"));
    vars_a.insert(String::from("battery.charge"), String::from("50"));
    let mut vars_b = VarMap::new();
    vars_b.insert(String::from("_description"), String::from("B"));
    vars_b.insert(String::from("battery.charge"), String::from("75"));
    reg.insert_ups(String::from("a"), vars_a);
    reg.insert_ups(String::from("b"), vars_b);
    reg
}

#[test]
fn families_group_their_series_contiguously_in_catalog_order() {
    let catalog = Catalog::new();
    let reg = two_device_registry();
    let doc = build_openmetrics_content(&catalog, &reg, "2.8.0");
    let block = "# TYPE nut_battery_charge gauge\n\
                 # UNIT nut_battery_charge \n\
                 # HELP nut_battery_charge Battery level. (0-1) (\"battery.charge\")\n\
                 nut_battery_charge{ups=\"a\"} 0.50000000000000000\n\
                 nut_battery_charge{ups=\"b\"} 0.75000000000000000\n";
    assert!(doc.contains(block));
    let info_pos = doc.find("# TYPE nut_ups_info info").unwrap();
    let charge_pos = doc.find("# TYPE nut_battery_charge gauge").unwrap();
    assert!(info_pos < charge_pos);
    assert!(doc.ends_with("# EOF\n"));
}

#[test]
fn rendering_is_deterministic_for_the_same_registry_content() {
    let catalog = Catalog::new();
    let reg = two_device_registry();
    let first = build_openmetrics_content(&catalog, &reg, "2.8.0");
    let second = build_openmetrics_content(&catalog, &reg, "2.8.0");
    assert_eq!(first, second);
}

#[test]
fn empty_registry_still_identifies_exporter_and_server() {
    let catalog = Catalog::new();
    let reg = UpsVarMap::new();
    let doc = build_openmetrics_content(&catalog, &reg, "2.8.0");
    assert!(doc.contains("nut_exporter_info{version=\"1.1.1\"} 1\n"));
    assert!(doc.contains("nut_server_info{version=\"2.8.0\"} 1\n"));
    assert!(doc.contains("nut_info{version=\"2.8.0\"} 1\n"));
    assert!(!doc.contains("nut_ups_info{"));
    assert!(!doc.contains("nut_battery_charge"));
    assert!(doc.ends_with("# EOF\n"));
}

#[test]
fn fraction_rendering_rounds_half_to_even_at_the_cut() {
    let m = gauge("nut_temperature_celsius", "ups.temperature", VarTransform::Identity, false);
    // Eighteen fraction digits: the last one is cut and rounds the rest.
    let line = print_basic_var_metric("u", "0.123456789012345678", &m).unwrap();
    assert_eq!(line, "nut_temperature_celsius{ups=\"u\"} 0.12345678901234568\n");
    // A carry that runs through every digit crosses the decimal point.
    let line = print_basic_var_metric("u", "0.999999999999999999", &m).unwrap();
    assert_eq!(line, "nut_temperature_celsius{ups=\"u\"} 1.00000000000000000\n");
    // An exact half with an even digit before it stays down.
    let line = print_basic_var_metric("u", "0.123456789012345625", &m).unwrap();
    assert_eq!(line, "nut_temperature_celsius{ups=\"u\"} 0.12345678901234562\n");
}

#[test]
fn negative_values_keep_their_sign() {
    let m = gauge("nut_uptime_seconds", "device.uptime", VarTransform::Identity, true);
    assert_eq!(
        print_basic_var_metric("u", "-2", &m).unwrap(),
        "nut_uptime_seconds{ups=\"u\"} -2\n"
    );
    assert_eq!(
        print_basic_var_metric("u", "-0.2", &m).unwrap(),
        "nut_uptime_seconds{ups=\"u\"} -0\n"
    );
    assert_eq!(
        print_basic_var_metric("u", "+7", &m).unwrap(),
        "nut_uptime_seconds{ups=\"u\"} 7\n"
    );
}

#[test]
fn catalog_family_names_are_unique() {
    let catalog = Catalog::new();
    let mut names: Vec<&str> = Vec::new();
    names.push(catalog.exporter_info.metric);
    names.push(catalog.server_info.metric);
    names.push(catalog.ups_info.metric);
    names.push(catalog.old_server_info.metric);
    names.push(catalog.ups_status.metric);
    for m in catalog.basic.iter() {
        names.push(m.metric);
    }
    assert_eq!(names.len(), 49);
    for i in 0..names.len() {
        for j in (i + 1)..names.len() {
            assert_ne!(names[i], names[j]);
        }
    }
}
