use nut_exporter::metrics::{Catalog, NutVersion, UpsVarMap};
use nut_exporter::openmetrics_builder::build_openmetrics_content;
use nut_exporter::scrape::ScrapeSession;

/// Drives a whole session against canned replies: one reply line for the
/// version query, then one line list per further command, in order.
fn drive(version_reply: Option<&str>, lists: &[&[&str]]) -> Result<(UpsVarMap, NutVersion), String> {
    let mut session = ScrapeSession::new();
    let first = session.command().expect("a fresh session asks for the version");
    assert_eq!(first, "VER");
    session.on_version_reply(version_reply);

    let mut served: usize = 0;
    while let Some(_query) = session.command() {
        let lines = lists.get(served).copied().unwrap_or(&[]);
        served += 1;
        for line in lines {
            if session.feed_list_line(line) {
                break;
            }
        }
        session.end_list();
    }
    session.result()
}

#[test]
fn a_full_session_collects_devices_and_variables() {
    let (registry, version) = drive(
        Some("Network UPS Tools upsd 2.8.0 - http://www.networkupstools.org/"),
        &[
            &["BEGIN LIST UPS", "UPS a \"First\"", "UPS b \"Second\"", "END LIST UPS"],
            &["BEGIN LIST VAR a", "VAR a ups.load \"42\"", "END LIST VAR a"],
            &["BEGIN LIST VAR b", "VAR b ups.load \"7\"", "END LIST VAR b"],
        ],
    )
    .unwrap();
    assert_eq!(version, "2.8.0");
    assert_eq!(registry.entries.len(), 2);
    assert_eq!(registry.entries[0].1.get("ups.load").unwrap(), "42");
    assert_eq!(registry.entries[1].1.get("ups.load").unwrap(), "7");
    assert_eq!(registry.entries[0].1.get("_description").unwrap(), "First");
}

#[test]
fn the_session_asks_its_queries_in_the_fixed_order() {
    let mut session = ScrapeSession::new();
    assert_eq!(session.command().unwrap(), "VER");
    session.on_version_reply(Some("Server 2.8.0 -"));
    assert_eq!(session.command().unwrap(), "LIST UPS");
    for line in ["BEGIN LIST UPS", "UPS a \"A\"", "UPS b \"B\"", "END LIST UPS"] {
        if session.feed_list_line(line) {
            break;
        }
    }
    session.end_list();
    assert_eq!(session.command().unwrap(), "LIST VAR a");
    for line in ["BEGIN LIST VAR a", "END LIST VAR a"] {
        if session.feed_list_line(line) {
            break;
        }
    }
    session.end_list();
    assert_eq!(session.command().unwrap(), "LIST VAR b");
}

#[test]
fn an_unrecognised_greeting_fails_the_scrape() {
    let err = drive(Some("not a greeting"), &[]).unwrap_err();
    assert_eq!(err, "Failed get NUT version from NUT query. Not a NUT server?");
}

#[test]
fn a_silent_version_reply_leaves_the_version_empty() {
    let (registry, version) =
        drive(None, &[&["BEGIN LIST UPS", "END LIST UPS"]]).unwrap();
    assert_eq!(version, "");
    assert_eq!(registry.entries.len(), 0);
}

#[test]
fn a_rejected_device_listing_carries_the_server_message() {
    let err = drive(Some("Server 2.8.0 -"), &[&["ERR ACCESS-DENIED"]]).unwrap_err();
    assert_eq!(err, "Received error for query \"LIST UPS\": ACCESS-DENIED");
}

#[test]
fn a_stream_close_inside_a_variable_listing_aborts_the_whole_scrape() {
    let err = drive(
        Some("Server 2.8.0 -"),
        &[
            &["BEGIN LIST UPS", "UPS ups1 \"Test UPS\"", "END LIST UPS"],
            &["BEGIN LIST VAR ups1", "VAR ups1 ups.load \"42\""],
        ],
    )
    .unwrap_err();
    assert_eq!(err, "Malformed list for query \"LIST VAR ups1\".");
}

#[test]
fn a_scrape_driven_end_to_end_renders_the_expected_document() {
    let (registry, version) = drive(
        Some("Server 2.8.0 -"),
        &[
            &["BEGIN LIST UPS", "UPS ups1 \"Test UPS\"", "END LIST UPS"],
            &[
                "BEGIN LIST VAR ups1",
                "VAR ups1 battery.charge \"55.0\"",
                "VAR ups1 ups.status \"OL\"",
                "END LIST VAR ups1",
            ],
        ],
    )
    .unwrap();
    let catalog = Catalog::new();
    let doc = build_openmetrics_content(&catalog, &registry, &version);
    assert!(doc.contains("nut_server_info{version=\"2.8.0\"} 1\n"));
    assert!(doc.contains("nut_battery_charge{ups=\"ups1\"} 0.55000000000000000\n"));
    assert!(doc.contains("nut_ups_status{ups=\"ups1\",status=\"OL\"} 1\n"));
}
