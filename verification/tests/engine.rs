use nix_forecast::engine::{check_store_paths, Action, Outcome, DEFAULT_CONCURRENCY};
use nix_forecast::failure::Failure;
use nix_forecast::probe::ProbeResult;
use nix_forecast::summary::RunSummary;

/// What a run did, as its driver saw it.
struct Report {
    summary: Result<RunSummary, Failure>,
    progress: usize,
    ticks: usize,
    peak: usize,
    probed: Vec<String>,
}

fn store_path(number: usize, name: &str) -> String {
    format!("/nix/store/{number:032}-{name}")
}

fn caches(urls: &[&str]) -> Vec<String> {
    urls.iter().map(|url| url.to_string()).collect()
}

/// Drives a run as a caller does, with `answer` in place of the network.
/// The probe that ends next is the oldest one, or the newest if `newest_first`.
fn drive(
    binary_caches: Vec<String>,
    store_paths: Vec<String>,
    limit: usize,
    newest_first: bool,
    answer: &dyn Fn(&str) -> ProbeResult,
) -> Report {
    let mut check = match check_store_paths(binary_caches, store_paths, limit) {
        Ok(check) => check,
        Err(error) => {
            return Report { summary: Err(error), progress: 0, ticks: 0, peak: 0, probed: vec![] }
        }
    };
    let mut outstanding: Vec<(usize, String)> = Vec::new();
    let mut ticks = 0;
    let mut peak = 0;
    let mut probed = Vec::new();
    loop {
        match check.next_action() {
            Action::Probe { path, url } => {
                probed.push(url.clone());
                outstanding.push((path, url));
                peak = peak.max(outstanding.len());
                assert_eq!(check.paths_in_flight(), outstanding.len());
                assert!(check.paths_in_flight() <= limit);
            }
            Action::Wait => {
                let (path, url) =
                    if newest_first { outstanding.pop().unwrap() } else { outstanding.remove(0) };
                match check.record(path, answer(&url)) {
                    Outcome::Probe { url } => {
                        probed.push(url.clone());
                        outstanding.push((path, url));
                    }
                    Outcome::Resolved { .. } | Outcome::Failed => ticks += 1,
                    Outcome::Ignored => panic!("the answer of an outstanding probe was dropped"),
                }
                assert_eq!(check.progress(), ticks);
            }
            Action::Finish => {
                assert!(outstanding.is_empty());
                break;
            }
            Action::Abort => break,
        }
    }
    assert!(check.finished());
    let progress = check.progress();
    Report { summary: check.finish(), progress, ticks, peak, probed }
}

#[test]
fn one_path_in_the_only_cache() {
    let path = format!("/nix/store/{}-foo", "a".repeat(32));
    let report = drive(caches(&["https://cache"]), vec![path], 100, false, &|_| {
        ProbeResult::from_status(200)
    });
    assert_eq!(
        report.summary,
        Ok(RunSummary { total: 1, cached: 1, uncached: 0, uncached_paths: vec![] })
    );
    assert_eq!(report.probed, vec![format!("https://cache/{}.narinfo", "a".repeat(32))]);
    assert_eq!(report.ticks, 1);
}

#[test]
fn one_path_missing_from_the_only_cache() {
    let path = format!("/nix/store/{}-foo", "a".repeat(32));
    let report = drive(caches(&["https://cache"]), vec![path.clone()], 100, false, &|_| {
        ProbeResult::from_status(404)
    });
    assert_eq!(
        report.summary,
        Ok(RunSummary { total: 1, cached: 0, uncached: 1, uncached_paths: vec![path] })
    );
    assert_eq!(report.ticks, 1);
}

#[test]
fn path_in_the_second_of_two_caches() {
    let path = format!("/nix/store/{}-foo", "a".repeat(32));
    let both = caches(&["https://first", "https://second"]);
    let report = drive(both, vec![path], 100, false, &|url| {
        if url.starts_with("https://first/") {
            ProbeResult::from_status(404)
        } else {
            ProbeResult::from_status(200)
        }
    });
    let summary = report.summary.unwrap();
    assert_eq!((summary.total, summary.cached, summary.uncached), (1, 1, 0));
    assert_eq!(
        report.probed,
        vec![
            format!("https://first/{}.narinfo", "a".repeat(32)),
            format!("https://second/{}.narinfo", "a".repeat(32)),
        ]
    );
    assert_eq!(report.ticks, 1);
}

#[test]
fn cache_that_answers_503_aborts_the_run() {
    let paths: Vec<String> = (0..10).map(|i| store_path(i, "pkg")).collect();
    let report =
        drive(caches(&["https://broken"]), paths, 4, false, &|_| ProbeResult::from_status(503));
    assert_eq!(report.summary, Err(Failure::HTTPFailed(503)));
    assert_eq!(report.ticks, 1);
}

#[test]
fn two_hundred_fifty_paths_with_at_most_one_hundred_in_flight() {
    let paths: Vec<String> = (0..250).map(|i| store_path(i, "pkg")).collect();
    for newest_first in [false, true] {
        let report =
            drive(caches(&["https://cache"]), paths.clone(), 100, newest_first, &|_| {
                ProbeResult::from_status(200)
            });
        assert_eq!(
            report.summary,
            Ok(RunSummary { total: 250, cached: 250, uncached: 0, uncached_paths: vec![] })
        );
        assert_eq!(report.ticks, 250);
        assert_eq!(report.progress, 250);
        assert_eq!(report.peak, 100);
        assert_eq!(report.probed.len(), 250);
    }
}

#[test]
fn counts_add_up_to_the_number_of_paths() {
    let paths: Vec<String> = (0..37).map(|i| store_path(i, "pkg")).collect();
    let report = drive(caches(&["https://a", "https://b"]), paths, 5, true, &|url| {
        let digest: usize = url[url.len() - 40..url.len() - 8].parse().unwrap();
        if digest % 3 == 0 && url.starts_with("https://b/") {
            ProbeResult::Present
        } else {
            ProbeResult::Absent
        }
    });
    let summary = report.summary.unwrap();
    assert_eq!(summary.total, 37);
    assert_eq!(summary.cached, 13);
    assert_eq!(summary.uncached, 24);
    assert_eq!(summary.cached + summary.uncached, summary.total);
    assert_eq!(summary.uncached_paths.len(), summary.uncached);
}

#[test]
fn found_paths_are_not_listed_and_missing_ones_are() {
    let paths: Vec<String> = (0..20).map(|i| store_path(i, "pkg")).collect();
    let has = |path: &String| path.as_bytes()[42] % 2 == 0;
    let report = drive(caches(&["https://a"]), paths.clone(), 3, true, &|url| {
        if url.as_bytes()[url.len() - 9] % 2 == 0 {
            ProbeResult::Present
        } else {
            ProbeResult::Absent
        }
    });
    let summary = report.summary.unwrap();
    for path in &paths {
        assert_eq!(has(path), !summary.uncached_paths.contains(path));
    }
}

#[test]
fn missing_paths_keep_the_order_of_the_input() {
    let paths: Vec<String> =
        [9, 3, 7, 1, 8, 2, 6].iter().map(|i| store_path(*i, "pkg")).collect();
    let expected: Vec<String> = [9, 3, 7, 1].iter().map(|i| store_path(*i, "pkg")).collect();
    for newest_first in [false, true] {
        for limit in [1, 2, 7, 100] {
            let report =
                drive(caches(&["https://a"]), paths.clone(), limit, newest_first, &|url| {
                    let digest: usize = url[url.len() - 40..url.len() - 8].parse().unwrap();
                    if digest % 2 == 0 {
                        ProbeResult::Present
                    } else {
                        ProbeResult::Absent
                    }
                });
            assert_eq!(report.summary.unwrap().uncached_paths, expected);
        }
    }
}

#[test]
fn second_run_gives_the_same_summary() {
    let paths: Vec<String> = (0..50).map(|i| store_path(i * 7 % 50, "pkg")).collect();
    let answer = |url: &str| {
        let digest: usize = url[url.len() - 40..url.len() - 8].parse().unwrap();
        if url.starts_with("https://a/") && digest % 5 == 0 {
            ProbeResult::Present
        } else if url.starts_with("https://b/") && digest % 2 == 0 {
            ProbeResult::Present
        } else {
            ProbeResult::Absent
        }
    };
    let first = drive(caches(&["https://a", "https://b"]), paths.clone(), 8, false, &answer);
    let second = drive(caches(&["https://a", "https://b"]), paths, 3, true, &answer);
    assert!(first.summary.is_ok());
    assert_eq!(first.summary, second.summary);
}

#[test]
fn no_cache_is_asked_after_one_that_has_the_path() {
    let paths: Vec<String> = (0..5).map(|i| store_path(i, "pkg")).collect();
    let report = drive(caches(&["https://a", "https://b"]), paths, 2, false, &|url| {
        if url.starts_with("https://b/") {
            panic!("the second cache was asked for a path that the first has");
        }
        ProbeResult::Present
    });
    assert_eq!(report.summary.unwrap().cached, 5);
    assert_eq!(report.probed.len(), 5);
    assert!(report.probed.iter().all(|url| url.starts_with("https://a/")));
}

#[test]
fn no_paths_give_a_summary_of_nothing() {
    let report = drive(caches(&["https://a"]), vec![], 100, false, &|_| {
        panic!("there is nothing to ask for");
    });
    let summary = report.summary.unwrap();
    assert_eq!((summary.total, summary.cached, summary.uncached), (0, 0, 0));
    assert!(summary.uncached_paths.is_empty());
    assert_eq!(summary.percentage(), None);
    assert_eq!(summary.percentage_text(), None);
    assert_eq!(report.ticks, 0);
}

#[test]
fn no_caches_are_refused_before_anything_is_asked() {
    let report = drive(vec![], vec![store_path(1, "pkg")], 100, false, &|_| {
        panic!("there is no cache to ask");
    });
    assert_eq!(report.summary, Err(Failure::NoBinaryCaches));
    assert!(check_store_paths(vec![], vec![], 1).is_err());
}

#[test]
fn transport_failure_aborts_the_run() {
    let paths: Vec<String> = (0..3).map(|i| store_path(i, "pkg")).collect();
    let report = drive(caches(&["https://a", "https://b"]), paths, 100, false, &|url| {
        if url.starts_with("https://b/") {
            ProbeResult::from_transport_failure("connection refused".to_string())
        } else {
            ProbeResult::Absent
        }
    });
    assert_eq!(report.summary, Err(Failure::Transport("connection refused".to_string())));
}

#[test]
fn error_is_not_taken_for_a_miss() {
    let path = store_path(1, "pkg");
    let report = drive(caches(&["https://a", "https://b"]), vec![path], 100, false, &|url| {
        if url.starts_with("https://a/") {
            ProbeResult::from_status(500)
        } else {
            panic!("the run went on after an error");
        }
    });
    assert_eq!(report.summary, Err(Failure::HTTPFailed(500)));
}

#[test]
fn path_that_is_no_store_path_aborts_the_run() {
    let paths =
        vec![store_path(1, "pkg"), "/tmp/not-in-the-store".to_string(), store_path(2, "pkg")];
    let report = drive(caches(&["https://a"]), paths, 1, false, &|_| ProbeResult::Present);
    assert_eq!(
        report.summary,
        Err(Failure::InvalidStorePath("/tmp/not-in-the-store".to_string()))
    );
    assert_eq!(report.probed.len(), 1);
    assert_eq!(report.progress, 2);
}

#[test]
fn nothing_starts_after_a_failure() {
    let paths: Vec<String> = (0..6).map(|i| store_path(i, "pkg")).collect();
    let mut check = check_store_paths(caches(&["https://a"]), paths, 2).unwrap();
    assert!(matches!(check.next_action(), Action::Probe { path: 0, .. }));
    assert!(matches!(check.next_action(), Action::Probe { path: 1, .. }));
    assert_eq!(check.next_action(), Action::Wait);
    assert_eq!(check.record(1, ProbeResult::from_status(500)), Outcome::Failed);
    assert_eq!(check.next_action(), Action::Abort);
    assert_eq!(check.record(0, ProbeResult::Present), Outcome::Ignored);
    assert_eq!(check.next_action(), Action::Abort);
    assert_eq!(check.paths_in_flight(), 1);
    assert_eq!(check.progress(), 1);
    assert!(check.finished());
    assert_eq!(check.finish(), Err(Failure::HTTPFailed(500)));
}

#[test]
fn answer_for_a_path_that_is_not_probed_is_dropped() {
    let paths: Vec<String> = (0..3).map(|i| store_path(i, "pkg")).collect();
    let mut check = check_store_paths(caches(&["https://a"]), paths, 1).unwrap();
    assert_eq!(check.record(0, ProbeResult::Present), Outcome::Ignored);
    assert!(matches!(check.next_action(), Action::Probe { path: 0, .. }));
    assert_eq!(check.record(1, ProbeResult::Present), Outcome::Ignored);
    assert_eq!(check.record(7, ProbeResult::Present), Outcome::Ignored);
    assert_eq!(check.record(0, ProbeResult::Present), Outcome::Resolved { available: true });
    assert_eq!(check.record(0, ProbeResult::Absent), Outcome::Ignored);
    assert_eq!(check.progress(), 1);
    assert_eq!(check.total(), 3);
    assert!(!check.finished());
}

#[test]
fn a_path_waits_until_another_is_resolved() {
    let paths: Vec<String> = (0..2).map(|i| store_path(i, "pkg")).collect();
    let mut check = check_store_paths(caches(&["https://a", "https://b"]), paths, 1).unwrap();
    assert_eq!(
        check.next_action(),
        Action::Probe { path: 0, url: format!("https://a/{:032}.narinfo", 0) }
    );
    assert_eq!(check.next_action(), Action::Wait);
    assert_eq!(
        check.record(0, ProbeResult::Absent),
        Outcome::Probe { url: format!("https://b/{:032}.narinfo", 0) }
    );
    assert_eq!(check.next_action(), Action::Wait);
    assert_eq!(check.paths_in_flight(), 1);
    assert_eq!(check.record(0, ProbeResult::Absent), Outcome::Resolved { available: false });
    assert_eq!(
        check.next_action(),
        Action::Probe { path: 1, url: format!("https://a/{:032}.narinfo", 1) }
    );
    assert_eq!(check.record(1, ProbeResult::Present), Outcome::Resolved { available: true });
    assert_eq!(check.next_action(), Action::Finish);
    assert_eq!(
        check.finish(),
        Ok(RunSummary {
            total: 2,
            cached: 1,
            uncached: 1,
            uncached_paths: vec![store_path(0, "pkg")]
        })
    );
}

#[test]
fn availability_comes_in_the_order_of_the_paths() {
    let paths: Vec<String> = (0..4).map(|i| store_path(i, "pkg")).collect();
    let mut check = check_store_paths(caches(&["https://a"]), paths, 4).unwrap();
    for path in 0..4 {
        let action = check.next_action();
        assert!(matches!(action, Action::Probe { path: started, .. } if started == path));
    }
    assert_eq!(check.record(3, ProbeResult::Present), Outcome::Resolved { available: true });
    assert_eq!(check.record(1, ProbeResult::Absent), Outcome::Resolved { available: false });
    assert_eq!(check.record(0, ProbeResult::Present), Outcome::Resolved { available: true });
    assert_eq!(check.record(2, ProbeResult::Absent), Outcome::Resolved { available: false });
    assert_eq!(check.next_action(), Action::Finish);
    assert_eq!(check.into_availability(), Ok(vec![true, false, false, true]));
}

#[test]
fn failed_run_has_no_availability() {
    let mut check =
        check_store_paths(caches(&["https://a"]), vec![store_path(0, "pkg")], 1).unwrap();
    assert!(matches!(check.next_action(), Action::Probe { path: 0, .. }));
    assert_eq!(
        check.record(0, ProbeResult::from_transport_failure("timed out".to_string())),
        Outcome::Failed
    );
    assert_eq!(check.into_availability(), Err(Failure::Transport("timed out".to_string())));
}

#[test]
fn default_limit_is_one_hundred() {
    assert_eq!(DEFAULT_CONCURRENCY, 100);
}

#[test]
fn many_paths_against_several_caches() {
    let paths: Vec<String> = (0..20000).map(|i| store_path(i, "pkg")).collect();
    let report = drive(caches(&["https://a", "https://b", "https://c"]), paths, 100, true, &|url| {
        let digest: usize = url[url.len() - 40..url.len() - 8].parse().unwrap();
        if url.starts_with("https://c/") && digest % 4 != 0 {
            ProbeResult::Present
        } else {
            ProbeResult::Absent
        }
    });
    let summary = report.summary.unwrap();
    assert_eq!((summary.total, summary.cached, summary.uncached), (20000, 15000, 5000));
    assert_eq!(summary.percentage_text(), Some("75.00".to_string()));
    assert_eq!(report.ticks, 20000);
    assert_eq!(report.peak, 100);
    assert_eq!(report.probed.len(), 60000);
    assert_eq!(summary.uncached_paths[1], store_path(4, "pkg"));
}
