use nut_exporter::metrics::{Catalog, VarMap};
use nut_exporter::nut_client::{
    apply_vars_at, parse_version_reply, registry_from_ups_records, ListKind, ListSession, Record,
};
use nut_exporter::openmetrics_builder::build_openmetrics_content;
use nut_exporter::target::parse_target;

fn run_session(kind: ListKind, lines: &[&str]) -> Vec<Record> {
    let mut session = ListSession::new(kind);
    for line in lines {
        if session.feed_line(line) {
            break;
        }
    }
    session.finish().unwrap()
}

#[test]
fn a_whole_scrape_produces_the_expected_document() {
    // The synthetic server session, reply by reply.
    let version = parse_version_reply("Server 2.8.0 -").unwrap();
    assert_eq!(version, "2.8.0");

    let ups_records = run_session(
        ListKind::Ups,
        &["BEGIN LIST UPS", "UPS ups1 \"Test UPS\"", "END LIST UPS"],
    );
    let mut registry = registry_from_ups_records(&ups_records);
    assert_eq!(registry.entries.len(), 1);

    let var_records = run_session(
        ListKind::Var,
        &[
            "BEGIN LIST VAR ups1",
            "VAR ups1 battery.charge \"55.0\"",
            "VAR ups1 ups.status \"OL\"",
            "END LIST VAR ups1",
        ],
    );
    apply_vars_at(&mut registry, 0, &var_records);

    let catalog = Catalog::new();
    let doc = build_openmetrics_content(&catalog, &registry, &version);

    assert!(doc.contains("nut_server_info{version=\"2.8.0\"} 1\n"));
    assert!(doc.contains("nut_battery_charge{ups=\"ups1\"} 0.55000000000000000\n"));
    assert!(doc.contains("description=\"Test UPS\""));
    assert!(doc.contains("nut_ups_status{ups=\"ups1\",status=\"OL\"} 1\n"));
    for flag in ["OB", "LB", "CHRG", "RB", "FSD", "BYPASS", "SD", "CP", "OFF"] {
        assert!(doc.contains(&format!("nut_ups_status{{ups=\"ups1\",status=\"{}\"}} 0\n", flag)));
    }
    // The deprecated single-value status summary comes out as well.
    assert!(doc.contains("nut_status{ups=\"ups1\"} 1\n"));
    assert!(doc.ends_with("# EOF\n"));
}

#[test]
fn target_addresses_are_normalised() {
    assert_eq!(parse_target("localhost").unwrap(), "localhost:3493");
    assert_eq!(parse_target("example.com:3494").unwrap(), "example.com:3494");
    assert_eq!(parse_target("10.0.0.1").unwrap(), "10.0.0.1:3493");
    assert_eq!(parse_target("[::1]").unwrap(), "[::1]:3493");
    assert_eq!(parse_target("[fe80::1]:3494").unwrap(), "[fe80::1]:3494");
    assert!(parse_target("").is_none());
    assert!(parse_target("host:port").is_none());
    assert!(parse_target(":3493").is_none());
    assert!(parse_target("host:").is_none());
}

#[test]
fn markdown_table_lists_the_catalog() {
    let catalog = Catalog::new();
    let table = nut_exporter::metrics::metrics_markdown(&catalog);
    assert!(table.starts_with("| Metric | NUT Var | Unit | Description |\n| - | - | - | - |\n"));
    assert!(table.contains("| `nut_exporter_info` |  |  | Metadata about the exporter. |\n"));
    assert!(table.contains("| `nut_load` | `ups.load` |  | Load. (0-1) |\n"));
    assert!(table.contains(
        "| `nut_battery_runtime_seconds` | `battery.runtime` | `seconds` | Battery runtime. |\n"
    ));
}

#[test]
fn description_pseudo_variable_survives_the_variable_query() {
    let ups_records = run_session(
        ListKind::Ups,
        &["BEGIN LIST UPS", "UPS ups1 \"Kept\"", "END LIST UPS"],
    );
    let mut registry = registry_from_ups_records(&ups_records);
    let var_records = run_session(
        ListKind::Var,
        &[
            "BEGIN LIST VAR ups1",
            "VAR ups1 device.mfr \"ACME\"",
            "END LIST VAR ups1",
        ],
    );
    apply_vars_at(&mut registry, 0, &var_records);
    let vars: &VarMap = &registry.entries[0].1;
    assert_eq!(vars.get("_description").unwrap(), "Kept");
    assert_eq!(vars.get("device.mfr").unwrap(), "ACME");
}
