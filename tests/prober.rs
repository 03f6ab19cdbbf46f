use tor_prober::probe::{prepare_probe, probe_result, target_url, ProbeResult};
use tor_prober::report::{collect, emission, Emission, Stream};
use tor_prober::run::{Orchestrator, RunError};
use std::collections::HashSet;

const BASE: &str = "https://example.com/";

fn status_for(url: &str) -> Result<u16, String> {
    if url.ends_with("missing") {
        Ok(404)
    } else {
        Ok(200)
    }
}

/// Spawns one unit per line, then reports the results in `order`.
fn drive(lines: &[String], order: &[usize], respond: &dyn Fn(&str) -> Result<u16, String>) -> Orchestrator {
    let mut orch = Orchestrator::new(BASE.to_string());
    let mut units = Vec::new();
    for line in lines {
        units.push(orch.on_line(line).unwrap());
    }
    orch.close_input();
    for &k in order {
        let unit = &units[k];
        assert!(!orch.is_finished());
        let result = probe_result(unit.url.clone(), respond(&unit.url));
        orch.on_result(unit.index, result).unwrap();
    }
    orch
}

#[test]
fn target_url_concatenates_verbatim() {
    assert_eq!(target_url("https://h/", "/x y"), "https://h//x y");
    assert_eq!(target_url("", "admin"), "admin");
    assert_eq!(target_url("https://h/", ""), "https://h/");
}

#[test]
fn classification_of_statuses() {
    let u = "https://h/a".to_string();
    assert_eq!(probe_result(u.clone(), Ok(404)), ProbeResult::NotFound);
    assert_eq!(probe_result(u.clone(), Ok(200)), ProbeResult::Exists(u.clone()));
    assert_eq!(probe_result(u.clone(), Ok(301)), ProbeResult::Exists(u.clone()));
    assert_eq!(probe_result(u.clone(), Ok(500)), ProbeResult::Exists(u.clone()));
    assert_eq!(
        probe_result(u.clone(), Err("connection refused".to_string())),
        ProbeResult::Failed("connection refused".to_string())
    );
}

#[test]
fn emission_per_outcome() {
    let e = emission(&ProbeResult::Exists("https://h/admin".to_string()));
    assert_eq!(e, Some(Emission { stream: Stream::Exists, text: "URL: https://h/admin".to_string() }));
    assert_eq!(emission(&ProbeResult::NotFound), None);
    let e = emission(&ProbeResult::Failed("boom".to_string()));
    assert_eq!(e, Some(Emission { stream: Stream::Error, text: "boom".to_string() }));
}

#[test]
fn prepare_probe_builds_head_request() {
    let req = prepare_probe("https://example.com/admin").unwrap();
    assert_eq!(req.method(), hyper::Method::HEAD);
    assert_eq!(req.uri().to_string(), "https://example.com/admin");
}

#[test]
fn prepare_probe_refuses_unparsable_urls() {
    assert!(prepare_probe("https://example.com/a b").is_err());
    assert_eq!(prepare_probe("").unwrap_err(), "empty string");
    assert_eq!(prepare_probe("https://example.com/a b").unwrap_err(), "invalid uri character");
}

#[test]
fn unparsable_url_gives_one_error_entry() {
    let mut orch = Orchestrator::new(BASE.to_string());
    let unit = orch.on_line("bad path").unwrap();
    orch.close_input();
    let text = prepare_probe(&unit.url).unwrap_err();
    let e = orch.on_result(unit.index, ProbeResult::Failed(text.clone())).unwrap();
    assert_eq!(e, Some(Emission { stream: Stream::Error, text: text.clone() }));
    assert_eq!(orch.error_entries(), &vec![text]);
    assert!(orch.exists_entries().is_empty());
    assert!(orch.is_finished());
}

#[test]
fn missing_and_admin_scenario() {
    let lines = vec!["missing".to_string(), "admin".to_string()];
    let orch = drive(&lines, &[1, 0], &status_for);
    assert!(orch.is_finished());
    assert_eq!(orch.exists_entries(), &vec![format!("URL: {BASE}admin")]);
    assert!(orch.error_entries().is_empty());
}

#[test]
fn ten_thousand_lines_all_found() {
    let n = 10_000;
    let lines: Vec<String> = (0..n).map(|i| format!("p{i}")).collect();
    let order: Vec<usize> = (0..n).map(|k| (k * 7919) % n).collect();
    let orch = drive(&lines, &order, &|_| Ok(200));
    assert!(orch.is_finished());
    assert_eq!(orch.unit_count(), n);
    let found: HashSet<String> = orch.exists_entries().iter().cloned().collect();
    assert_eq!(orch.exists_entries().len(), n);
    assert_eq!(found.len(), n);
    let expected: HashSet<String> = lines.iter().map(|l| format!("URL: {BASE}{l}")).collect();
    assert_eq!(found, expected);
    assert!(orch.error_entries().is_empty());
}

#[test]
fn one_unit_per_line_and_finish_after_all() {
    let mut orch = Orchestrator::new(BASE.to_string());
    let lines = ["a", "b", "c"];
    let mut units = Vec::new();
    for (i, l) in lines.iter().enumerate() {
        let u = orch.on_line(l).unwrap();
        assert_eq!(u.index, i);
        assert_eq!(u.url, format!("{BASE}{l}"));
        units.push(u);
    }
    assert_eq!(orch.unit_count(), 3);
    orch.close_input();
    assert!(!orch.is_finished());
    orch.on_result(units[2].index, ProbeResult::NotFound).unwrap();
    orch.on_result(units[0].index, ProbeResult::Failed("x".to_string())).unwrap();
    assert!(!orch.is_finished());
    assert!(orch.is_pending(1));
    orch.on_result(units[1].index, ProbeResult::Exists(units[1].url.clone())).unwrap();
    assert!(orch.is_finished());
}

#[test]
fn not_finished_before_input_closed() {
    let mut orch = Orchestrator::new(BASE.to_string());
    let u = orch.on_line("a").unwrap();
    orch.on_result(u.index, ProbeResult::NotFound).unwrap();
    assert!(!orch.is_finished());
    orch.close_input();
    assert!(orch.is_finished());
}

#[test]
fn empty_input_finishes_at_once() {
    let mut orch = Orchestrator::new(BASE.to_string());
    orch.close_input();
    assert!(orch.is_finished());
    assert_eq!(orch.unit_count(), 0);
    assert!(orch.exists_entries().is_empty());
    assert!(orch.error_entries().is_empty());
}

#[test]
fn rerun_in_another_order_finds_the_same_set() {
    let lines: Vec<String> = ["x", "missing", "y", "z"].iter().map(|s| s.to_string()).collect();
    let first = drive(&lines, &[0, 1, 2, 3], &status_for);
    let second = drive(&lines, &[3, 1, 0, 2], &status_for);
    let a: HashSet<String> = first.exists_entries().iter().cloned().collect();
    let b: HashSet<String> = second.exists_entries().iter().cloned().collect();
    assert_eq!(a, b);
    assert_eq!(a.len(), 3);
    assert_ne!(first.exists_entries(), second.exists_entries());
}

#[test]
fn result_for_unknown_or_settled_unit_is_refused() {
    let mut orch = Orchestrator::new(BASE.to_string());
    let u = orch.on_line("a").unwrap();
    assert_eq!(orch.on_result(5, ProbeResult::NotFound), Err(RunError::NotPending));
    orch.on_result(u.index, ProbeResult::NotFound).unwrap();
    assert_eq!(orch.on_result(u.index, ProbeResult::NotFound), Err(RunError::NotPending));
}

#[test]
fn line_after_close_is_refused() {
    let mut orch = Orchestrator::new(BASE.to_string());
    orch.close_input();
    assert!(matches!(orch.on_line("a"), Err(RunError::InputClosed)));
    assert_eq!(orch.unit_count(), 0);
}

#[test]
fn collect_splits_streams_in_order() {
    let results = vec![
        ProbeResult::Exists("u1".to_string()),
        ProbeResult::NotFound,
        ProbeResult::Failed("e1".to_string()),
        ProbeResult::Exists("u2".to_string()),
    ];
    let r = collect(&results);
    assert_eq!(r.exists, vec!["URL: u1".to_string(), "URL: u2".to_string()]);
    assert_eq!(r.errors, vec!["e1".to_string()]);
    let empty = collect(&Vec::new());
    assert!(empty.exists.is_empty() && empty.errors.is_empty());
}
