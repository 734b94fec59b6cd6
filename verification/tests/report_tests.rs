use detector::detection::Detection;
use detector::dispatch::ScanStats;
use detector::engine::detection_from_scan;
use detector::report::{render_json_doc, Report, ReportOutcome, ReportPolicy, WriteCommand};

fn positive(path: &str, tags: Vec<&str>) -> Detection {
    detection_from_scan(
        path.to_string(),
        None,
        11,
        1,
        42,
        Ok(tags.into_iter().map(|t| t.to_string()).collect()),
    )
}

fn clean(path: &str) -> Detection {
    detection_from_scan(path.to_string(), None, 11, 1, 42, Ok(vec![]))
}

fn failed(path: &str, msg: &str) -> Detection {
    detection_from_scan(path.to_string(), None, 11, 1, 42, Err(msg.to_string()))
}

#[test]
fn detected_iff_tags_nonempty() {
    assert!(positive("/a", vec!["R1"]).detected);
    assert!(!clean("/a").detected);
    assert!(positive("/a", vec!["R1", "R2"]).tags.len() > 0);
    assert!(clean("/a").tags.is_empty());
}

#[test]
fn disabled_policies_drop_clean_and_error_results() {
    let pol = ReportPolicy {
        report_clean: false,
        report_errors: false,
        report_json: false,
        has_output: true,
    };
    let mut rep = Report::setup(pol);

    let out = rep.report(clean("/ok.txt"));
    assert!(matches!(out.command, WriteCommand::NoWrite));
    assert!(!out.notify_user);
    assert_eq!(rep.detection_count(), 0);

    let out = rep.report(failed("/bad.txt", "io"));
    assert!(matches!(out.command, WriteCommand::NoWrite));
    assert!(!out.notify_user);

    // the in-process scan counter still moves even when nothing is written
    let mut stats = ScanStats::new();
    stats.record(false);
    assert_eq!(stats.num_scanned, 1);
    assert_eq!(stats.num_detected, 0);
}

#[test]
fn positive_detection_is_always_written_and_notifies() {
    let pol = ReportPolicy {
        report_clean: false,
        report_errors: false,
        report_json: false,
        has_output: true,
    };
    let mut rep = Report::setup(pol);
    let out = rep.report(positive("/r/mal.bin", vec!["EICAR_TEST", "OTHER"]));
    assert!(out.notify_user);
    match out.command {
        WriteCommand::Append(s) => assert_eq!(
            s,
            "MALWARE DETECTED: '/r/mal.bin' by rules: 'EICAR_TEST, OTHER'\n"
        ),
        _ => panic!("expected an appended line"),
    }
}

#[test]
fn clean_and_error_lines_when_enabled() {
    let pol = ReportPolicy {
        report_clean: true,
        report_errors: true,
        report_json: false,
        has_output: true,
    };
    let mut rep = Report::setup(pol);

    let out = rep.report(clean("/ok.txt"));
    match out.command {
        WriteCommand::Append(s) => assert_eq!(s, "/ok.txt - clean\n"),
        _ => panic!("expected an appended line"),
    }

    let out = rep.report(failed("/bad.txt", "io trouble"));
    assert!(!out.notify_user);
    match out.command {
        WriteCommand::Append(s) => assert_eq!(s, "Can't scan /bad.txt: io trouble\n"),
        _ => panic!("expected an appended line"),
    }
}

#[test]
fn no_output_configured_means_no_write() {
    let pol = ReportPolicy {
        report_clean: true,
        report_errors: true,
        report_json: true,
        has_output: false,
    };
    let mut rep = Report::setup(pol);
    let out = rep.report(positive("/r/mal.bin", vec!["R"]));
    assert!(out.notify_user);
    assert!(matches!(out.command, WriteCommand::NoWrite));
    assert_eq!(rep.detection_count(), 0);
}

fn rewrite_payload(out: ReportOutcome) -> String {
    match out.command {
        WriteCommand::Rewrite(s) => s,
        _ => panic!("expected a rewritten document"),
    }
}

#[test]
fn json_document_is_valid_and_counts_reportable_calls() {
    let pol = ReportPolicy {
        report_clean: false,
        report_errors: true,
        report_json: true,
        has_output: true,
    };
    let mut rep = Report::setup(pol);

    let s = rewrite_payload(rep.report(positive("/r/mal.bin", vec!["EICAR_TEST"])));
    let v: serde_json::Value = serde_json::from_str(&s).unwrap();
    assert_eq!(v["detections"].as_array().unwrap().len(), 1);
    assert_eq!(v["detections"][0]["path"], "/r/mal.bin");
    assert_eq!(v["detections"][0]["size"], 42);
    assert_eq!(v["detections"][0]["scanned_at"], 11);
    assert_eq!(v["detections"][0]["time"], 1);
    assert_eq!(v["detections"][0]["detected"], true);
    assert_eq!(v["detections"][0]["error"], serde_json::Value::Null);
    assert_eq!(v["detections"][0]["tags"][0], "EICAR_TEST");
    assert_eq!(rep.detection_count(), 1);

    // a non-reportable call changes neither the list nor the file
    let out = rep.report(clean("/ok.txt"));
    assert!(matches!(out.command, WriteCommand::NoWrite));
    assert_eq!(rep.detection_count(), 1);

    // each reportable call rewrites a complete, parseable document
    let s = rewrite_payload(rep.report(failed("/bad.txt", "io")));
    let v: serde_json::Value = serde_json::from_str(&s).unwrap();
    let ds = v["detections"].as_array().unwrap();
    assert_eq!(ds.len(), 2);
    assert_eq!(ds[1]["detected"], false);
    assert_eq!(ds[1]["error"], "Can't scan /bad.txt: io");
    assert_eq!(rep.detection_count(), 2);
}

#[test]
fn json_escaping_round_trips() {
    let awkward = "/tmp/we\"ird\\pa th\n\tx\u{1}";
    let doc = render_json_doc(&vec![positive(awkward, vec!["a\"b"])]);
    let v: serde_json::Value = serde_json::from_str(&doc).unwrap();
    assert_eq!(v["detections"][0]["path"], awkward);
    assert_eq!(v["detections"][0]["tags"][0], "a\"b");
}

#[test]
fn json_numbers_render_exactly() {
    let d = detection_from_scan(
        "/n".to_string(),
        None,
        1700000000,
        0,
        u64::MAX,
        Ok(vec![]),
    );
    let doc = render_json_doc(&vec![d]);
    let v: serde_json::Value = serde_json::from_str(&doc).unwrap();
    assert_eq!(v["detections"][0]["size"].as_u64(), Some(u64::MAX));
    assert_eq!(v["detections"][0]["scanned_at"].as_u64(), Some(1700000000));
    assert_eq!(v["detections"][0]["time"].as_u64(), Some(0));
}

#[test]
fn empty_document_shape() {
    let doc = render_json_doc(&vec![]);
    assert_eq!(doc, "{\"detections\":[]}");
    let v: serde_json::Value = serde_json::from_str(&doc).unwrap();
    assert_eq!(v["detections"].as_array().unwrap().len(), 0);
}

#[test]
fn one_shot_scenario_three_files_one_positive() {
    let detections = vec![
        positive("/root/a.bin", vec!["EICAR_TEST"]),
        clean("/root/b.bin"),
        clean("/root/c.bin"),
    ];
    assert!(detections[0].detected);
    assert_eq!(detections[0].tags, vec!["EICAR_TEST".to_string()]);
    assert!(!detections[1].detected && detections[1].tags.is_empty());
    assert!(!detections[2].detected && detections[2].tags.is_empty());

    let mut stats = ScanStats::new();
    for d in &detections {
        stats.record(d.detected);
    }
    assert_eq!(stats.num_scanned, 3);
    assert_eq!(stats.num_detected, 1);
}
