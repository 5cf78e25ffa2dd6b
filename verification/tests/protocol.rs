use nut_exporter::nut_client::{
    apply_var_records, apply_vars_at, list_ups_command, list_var_command, parse_ups_line,
    parse_var_line, parse_version_reply, registry_from_ups_records, version_command, ListError,
    ListKind, ListSession, Record,
};
use nut_exporter::metrics::VarMap;

fn run_session(kind: ListKind, lines: &[&str]) -> Result<Vec<Record>, ListError> {
    let mut session = ListSession::new(kind);
    for line in lines {
        let done = session.feed_line(line);
        if done {
            break;
        }
    }
    session.finish()
}

#[test]
fn well_formed_session_yields_one_record_per_data_line() {
    let lines = [
        "BEGIN LIST UPS",
        "UPS ups1 \"First UPS\"",
        "UPS ups2 \"Second UPS\"",
        "END LIST UPS",
    ];
    let records = run_session(ListKind::Ups, &lines).unwrap();
    assert_eq!(records.len(), 2);
    assert_eq!(records[0].ups, "ups1");
    assert_eq!(records[0].var, "_description");
    assert_eq!(records[0].val, "First UPS");
    assert_eq!(records[1].ups, "ups2");
    assert_eq!(records[1].val, "Second UPS");
}

#[test]
fn blank_lines_are_skipped() {
    let lines = ["", "", "BEGIN LIST UPS", "", "UPS a \"x\"", "", "END LIST UPS"];
    let records = run_session(ListKind::Ups, &lines).unwrap();
    assert_eq!(records.len(), 1);
    assert_eq!(records[0].ups, "a");
}

#[test]
fn missing_end_is_a_protocol_error_never_a_partial_result() {
    let lines = ["BEGIN LIST UPS", "UPS ups1 \"First UPS\""];
    let result = run_session(ListKind::Ups, &lines);
    assert!(matches!(result, Err(ListError::Malformed)));
}

#[test]
fn data_before_begin_is_malformed() {
    let lines = ["UPS ups1 \"First UPS\"", "BEGIN LIST UPS", "END LIST UPS"];
    let result = run_session(ListKind::Ups, &lines);
    assert!(matches!(result, Err(ListError::Malformed)));
}

#[test]
fn second_begin_is_malformed() {
    let lines = ["BEGIN LIST UPS", "BEGIN LIST UPS", "END LIST UPS"];
    let result = run_session(ListKind::Ups, &lines);
    assert!(matches!(result, Err(ListError::Malformed)));
}

#[test]
fn end_without_begin_is_malformed() {
    let lines = ["END LIST UPS"];
    let result = run_session(ListKind::Ups, &lines);
    assert!(matches!(result, Err(ListError::Malformed)));
}

#[test]
fn unparsable_data_line_is_malformed() {
    let lines = ["BEGIN LIST UPS", "UPS missing-quotes", "END LIST UPS"];
    let result = run_session(ListKind::Ups, &lines);
    assert!(matches!(result, Err(ListError::Malformed)));
}

#[test]
fn err_reply_is_a_server_rejection_carrying_the_reason() {
    let lines = ["ERR ACCESS-DENIED"];
    let result = run_session(ListKind::Ups, &lines);
    match result {
        Err(ListError::Rejected(reason)) => assert_eq!(reason, "ACCESS-DENIED"),
        _ => panic!("expected a server rejection"),
    }
}

#[test]
fn err_reply_after_begin_is_still_a_server_rejection() {
    let lines = ["BEGIN LIST VAR ups1", "ERR DATA-STALE"];
    let result = run_session(ListKind::Var, &lines);
    match result {
        Err(ListError::Rejected(reason)) => assert_eq!(reason, "DATA-STALE"),
        _ => panic!("expected a server rejection"),
    }
}

#[test]
fn list_error_messages_name_the_query() {
    let rejected = ListError::Rejected(String::from("ACCESS-DENIED"));
    assert_eq!(
        rejected.describe("LIST UPS"),
        "Received error for query \"LIST UPS\": ACCESS-DENIED"
    );
    let malformed = ListError::Malformed;
    assert_eq!(malformed.describe("LIST UPS"), "Malformed list for query \"LIST UPS\".");
}

#[test]
fn ups_line_grammar() {
    assert_eq!(
        parse_ups_line("UPS ups1 \"Test UPS\"").unwrap(),
        (String::from("ups1"), String::from("Test UPS"))
    );
    assert_eq!(
        parse_ups_line("UPS\tups1   \"\"").unwrap(),
        (String::from("ups1"), String::from(""))
    );
    assert!(parse_ups_line("UPS ups1 Test").is_none());
    assert!(parse_ups_line("UPS ups1 \"Test").is_none());
    assert!(parse_ups_line("UPS \"desc only\"").is_none());
    assert!(parse_ups_line("UPS ups1 \"a\" trailing").is_none());
    assert!(parse_ups_line("UPSups1 \"x\"").is_none());
    assert!(parse_ups_line("VAR ups1 \"x\"").is_none());
}

#[test]
fn var_line_grammar() {
    assert_eq!(
        parse_var_line("VAR ups1 battery.charge \"55.0\"").unwrap(),
        (
            String::from("ups1"),
            String::from("battery.charge"),
            String::from("55.0")
        )
    );
    assert!(parse_var_line("VAR ups1 battery.charge 55.0").is_none());
    assert!(parse_var_line("VAR ups1 \"55.0\"").is_none());
    assert!(parse_var_line("UPS ups1 battery.charge \"55.0\"").is_none());
}

#[test]
fn version_reply_grammar() {
    assert_eq!(
        parse_version_reply("Network UPS Tools upsd 2.8.0 - http://www.networkupstools.org/")
            .unwrap(),
        "2.8.0"
    );
    assert_eq!(parse_version_reply("Server 2.8.0 -").unwrap(), "2.8.0");
    assert!(parse_version_reply("no dash here").is_none());
    assert!(parse_version_reply("- leading dash").is_none());
    assert!(parse_version_reply("").is_none());
}

#[test]
fn commands_match_the_wire_protocol() {
    assert_eq!(version_command(), "VER");
    assert_eq!(list_ups_command(), "LIST UPS");
    assert_eq!(list_var_command("ups1"), "LIST VAR ups1");
}

#[test]
fn registry_builds_from_records_in_order() {
    let lines = [
        "BEGIN LIST UPS",
        "UPS b \"Second\"",
        "UPS a \"First\"",
        "UPS b \"Replaced\"",
        "END LIST UPS",
    ];
    let records = run_session(ListKind::Ups, &lines).unwrap();
    let reg = registry_from_ups_records(&records);
    assert_eq!(reg.entries.len(), 2);
    assert_eq!(reg.entries[0].0, "b");
    assert_eq!(
        reg.entries[0].1.get("_description").unwrap(),
        "Replaced"
    );
    assert_eq!(reg.entries[1].0, "a");
}

#[test]
fn var_records_overwrite_but_keep_the_description() {
    let mut vars = VarMap::new();
    vars.insert(String::from("_description"), String::from("Test UPS"));
    let lines = [
        "BEGIN LIST VAR ups1",
        "VAR ups1 battery.charge \"54.0\"",
        "VAR ups1 battery.charge \"55.0\"",
        "VAR ups1 ups.status \"OL\"",
        "END LIST VAR ups1",
    ];
    let records = run_session(ListKind::Var, &lines).unwrap();
    apply_var_records(&mut vars, &records);
    assert_eq!(vars.get("battery.charge").unwrap(), "55.0");
    assert_eq!(vars.get("ups.status").unwrap(), "OL");
    assert_eq!(vars.get("_description").unwrap(), "Test UPS");
    assert!(vars.get("absent").is_none());
}

#[test]
fn vars_apply_to_the_addressed_device_only() {
    let ups_lines = [
        "BEGIN LIST UPS",
        "UPS a \"First\"",
        "UPS b \"Second\"",
        "END LIST UPS",
    ];
    let records = run_session(ListKind::Ups, &ups_lines).unwrap();
    let mut reg = registry_from_ups_records(&records);
    let var_lines = [
        "BEGIN LIST VAR a",
        "VAR a ups.load \"42\"",
        "END LIST VAR a",
    ];
    let var_records = run_session(ListKind::Var, &var_lines).unwrap();
    apply_vars_at(&mut reg, 0, &var_records);
    assert_eq!(reg.entries[0].1.get("ups.load").unwrap(), "42");
    assert!(reg.entries[1].1.get("ups.load").is_none());
}

#[test]
fn description_pseudo_variable_is_never_overwritten_by_var_records() {
    let mut vars = VarMap::new();
    vars.insert(String::from("_description"), String::from("Seeded"));
    let lines = [
        "BEGIN LIST VAR ups1",
        "VAR ups1 _description \"spoofed\"",
        "VAR ups1 device.mfr \"ACME\"",
        "END LIST VAR ups1",
    ];
    let records = run_session(ListKind::Var, &lines).unwrap();
    apply_var_records(&mut vars, &records);
    assert_eq!(vars.get("_description").unwrap(), "Seeded");
    assert_eq!(vars.get("device.mfr").unwrap(), "ACME");
}
