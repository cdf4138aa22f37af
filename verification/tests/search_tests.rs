use ip_preimage::partition::partition;
use ip_preimage::shared::SharedProgress;
use ip_preimage::worker::{run_worker, WorkerReport, WorkerState};

const LOOPBACK: u64 = 0x7f00_0001;
const LOOPBACK_DIGEST: &str = "12ca17b49af2289436f303e0166030a21e525d266e209267433801a8fd4071a0";

fn search(min_ip: u64, max_ip: u64, workers: u64, target: &[u8]) -> (Vec<WorkerReport>, bool) {
    let shared = SharedProgress::new();
    let reports = partition(min_ip, max_ip, workers)
        .iter()
        .map(|part| run_worker(part, target, &shared))
        .collect();
    (reports, shared.is_found())
}

fn matches_of(reports: &[WorkerReport]) -> Vec<u64> {
    reports
        .iter()
        .filter_map(|report| match report.state {
            WorkerState::Matched { candidate } => Some(candidate),
            _ => None,
        })
        .collect()
}

#[test]
fn end_to_end_loopback() {
    let target = hex::decode(LOOPBACK_DIGEST).unwrap();
    let (reports, found) = search(0x7f00_0000, 0x7f00_00ff, 3, &target);
    assert_eq!(matches_of(&reports), vec![0x7f00_0001]);
    assert!(found);
}

#[test]
fn the_preimage_is_reported_for_every_worker_count() {
    let target = hex::decode(LOOPBACK_DIGEST).unwrap();
    for workers in 1..=40u64 {
        let (reports, found) = search(LOOPBACK - 17, LOOPBACK + 22, workers, &target);
        assert_eq!(reports.len() as u64, workers);
        assert_eq!(matches_of(&reports), vec![LOOPBACK]);
        assert!(found);
        let completed =
            reports.iter().filter(|report| report.state == WorkerState::Completed).count();
        assert_eq!(completed as u64, workers - 1);
    }
}

#[test]
fn the_preimage_is_reported_wherever_it_lies() {
    let mut engine = ip_preimage::digest::DigestEngine::new();
    let mut buf = Vec::new();
    for candidate in [0u64, 1, 84, 85, 86, 169, 170, 171, 254, 255] {
        ip_preimage::candidate::format_candidate(candidate, &mut buf);
        let target = engine.digest(&buf);
        let (reports, found) = search(0, 255, 3, &target);
        assert_eq!(matches_of(&reports), vec![candidate]);
        assert!(found);
    }
}

#[test]
fn boundary_candidates_of_the_keyspace_are_found() {
    let lowest = hex::decode("19e36255972107d42b8cecb77ef5622e842e8a50778a6ed8dd1ce94732daca9e")
        .unwrap();
    let (reports, _) = search(0, 999, 4, &lowest);
    assert_eq!(matches_of(&reports), vec![0]);
    let highest = hex::decode("f45462bf3cd12ea2b347f32f6c4d0a0d36e01694de332b307af90d42951c5bd6")
        .unwrap();
    let (reports, _) = search(0xffff_fc00, 0xffff_ffff, 7, &highest);
    assert_eq!(matches_of(&reports), vec![0xffff_ffff]);
}

#[test]
fn without_preimage_every_worker_completes() {
    let target = hex::decode(LOOPBACK_DIGEST).unwrap();
    for workers in [1u64, 2, 5, 16] {
        let (reports, found) = search(0x0a00_0000, 0x0a00_03ff, workers, &target);
        assert!(!found);
        assert!(reports.iter().all(|report| report.state == WorkerState::Completed));
        let examined: u64 = reports.iter().map(|report| report.examined).sum();
        assert_eq!(examined, 1024);
    }
}

#[test]
fn a_target_of_the_wrong_length_has_no_preimage() {
    let mut target = hex::decode(LOOPBACK_DIGEST).unwrap();
    target.push(0);
    let (reports, found) = search(0x7f00_0000, 0x7f00_00ff, 2, &target);
    assert!(!found);
    assert!(reports.iter().all(|report| report.state == WorkerState::Completed));
}

#[test]
fn a_second_run_gives_the_same_reports() {
    let target = hex::decode(LOOPBACK_DIGEST).unwrap();
    for workers in [1u64, 3, 8] {
        let first = search(0x7f00_0000, 0x7f00_00ff, workers, &target);
        let second = search(0x7f00_0000, 0x7f00_00ff, workers, &target);
        assert_eq!(first, second);
    }
}

#[test]
fn the_match_does_not_depend_on_the_order_of_the_workers() {
    let target = hex::decode(LOOPBACK_DIGEST).unwrap();
    let parts = partition(0x7f00_0000, 0x7f00_00ff, 5);
    let shared = SharedProgress::new();
    let mut backwards: Vec<WorkerReport> =
        parts.iter().rev().map(|part| run_worker(part, &target, &shared)).collect();
    backwards.reverse();
    let (forwards, _) = search(0x7f00_0000, 0x7f00_00ff, 5, &target);
    assert_eq!(backwards, forwards);
    assert_eq!(matches_of(&backwards), vec![LOOPBACK]);
}

#[test]
fn the_counter_stays_within_the_range_that_was_split() {
    let target = hex::decode(LOOPBACK_DIGEST).unwrap();
    let shared = SharedProgress::new();
    let mut last = 0;
    for part in partition(0, 449_999, 2) {
        let report = run_worker(&part, &target, &shared);
        assert!(report.reported <= report.examined);
        assert!(report.examined <= part.len());
        assert!(shared.processed() >= last);
        last = shared.processed();
    }
    assert_eq!(shared.processed(), 400_000);
    assert!(shared.processed() <= 450_000);
}
