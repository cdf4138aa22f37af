use ip_preimage::candidate::KEYSPACE_MAX;
use ip_preimage::partition::{partition, Partition};

fn assert_covers_exactly_once(min_ip: u64, max_ip: u64, parts: &[Partition]) {
    assert_eq!(parts[0].start, min_ip);
    assert_eq!(parts[parts.len() - 1].end, max_ip);
    let mut candidates: u64 = 0;
    for (i, part) in parts.iter().enumerate() {
        assert!(part.start <= part.end);
        if i + 1 < parts.len() {
            assert_eq!(part.end + 1, parts[i + 1].start);
        }
        candidates += part.len();
    }
    assert_eq!(candidates, max_ip - min_ip + 1);
}

#[test]
fn ten_candidates_among_three_workers() {
    let parts = partition(0, 9, 3);
    assert_eq!(
        parts,
        vec![
            Partition { start: 0, end: 2 },
            Partition { start: 3, end: 5 },
            Partition { start: 6, end: 9 },
        ]
    );
}

#[test]
fn one_worker_takes_the_whole_keyspace() {
    let parts = partition(0, KEYSPACE_MAX, 1);
    assert_eq!(parts, vec![Partition { start: 0, end: 0xffff_ffff }]);
    assert_eq!(parts[0].len(), 4_294_967_296);
}

#[test]
fn whole_keyspace_among_three_workers() {
    let parts = partition(0, KEYSPACE_MAX, 3);
    assert_eq!(
        parts,
        vec![
            Partition { start: 0, end: 1_431_655_764 },
            Partition { start: 1_431_655_765, end: 2_863_311_529 },
            Partition { start: 2_863_311_530, end: 4_294_967_295 },
        ]
    );
}

#[test]
fn last_partition_absorbs_the_remainder() {
    let parts = partition(0, KEYSPACE_MAX, 7);
    assert_eq!(parts.len(), 7);
    for part in &parts[..6] {
        assert_eq!(part.len(), 613_566_756);
    }
    assert_eq!(parts[6].len(), 613_566_756 + 4);
    assert_eq!(parts[6].end, 0xffff_ffff);
}

#[test]
fn whole_keyspace_is_covered_for_many_worker_counts() {
    for workers in 1..=64u64 {
        let parts = partition(0, KEYSPACE_MAX, workers);
        assert_eq!(parts.len() as u64, workers);
        assert_covers_exactly_once(0, KEYSPACE_MAX, &parts);
    }
    for workers in [100u64, 255, 256, 1000, 4095, 65_536, 65_537] {
        let parts = partition(0, KEYSPACE_MAX, workers);
        assert_eq!(parts.len() as u64, workers);
        assert_covers_exactly_once(0, KEYSPACE_MAX, &parts);
    }
}

#[test]
fn even_split_leaves_no_remainder() {
    let parts = partition(0, KEYSPACE_MAX, 4);
    for part in &parts {
        assert_eq!(part.len(), 1 << 30);
    }
    assert_eq!(parts[3], Partition { start: 0xc000_0000, end: 0xffff_ffff });
}

#[test]
fn as_many_workers_as_candidates() {
    let parts = partition(100, 104, 5);
    assert_eq!(
        parts,
        vec![
            Partition { start: 100, end: 100 },
            Partition { start: 101, end: 101 },
            Partition { start: 102, end: 102 },
            Partition { start: 103, end: 103 },
            Partition { start: 104, end: 104 },
        ]
    );
}

#[test]
fn a_single_candidate() {
    assert_eq!(
        partition(0xffff_ffff, 0xffff_ffff, 1),
        vec![Partition { start: 0xffff_ffff, end: 0xffff_ffff }]
    );
    assert_eq!(partition(0, 0, 1), vec![Partition { start: 0, end: 0 }]);
}

#[test]
fn a_range_in_the_middle_of_the_keyspace() {
    let parts = partition(0x7f00_0000, 0x7f00_00ff, 3);
    assert_eq!(
        parts,
        vec![
            Partition { start: 0x7f00_0000, end: 0x7f00_0054 },
            Partition { start: 0x7f00_0055, end: 0x7f00_00a9 },
            Partition { start: 0x7f00_00aa, end: 0x7f00_00ff },
        ]
    );
    assert_covers_exactly_once(0x7f00_0000, 0x7f00_00ff, &parts);
}

#[test]
fn every_candidate_of_a_small_range_has_one_owner() {
    for workers in 1..=17u64 {
        let parts = partition(1000, 1016, workers);
        for candidate in 1000..=1016u64 {
            let owners = parts
                .iter()
                .filter(|part| part.start <= candidate && candidate <= part.end)
                .count();
            assert_eq!(owners, 1);
        }
    }
}

#[test]
fn partition_len_counts_both_ends() {
    assert_eq!(Partition { start: 5, end: 5 }.len(), 1);
    assert_eq!(Partition { start: 5, end: 20 }.len(), 16);
}

#[test]
fn keyspace_constants_agree() {
    assert_eq!(KEYSPACE_MAX, 4_294_967_295);
    assert_eq!(ip_preimage::candidate::KEYSPACE_SIZE, 4_294_967_296);
    let sizes: u64 = partition(0, KEYSPACE_MAX, 13).iter().map(|part| part.len()).sum();
    assert_eq!(sizes, ip_preimage::candidate::KEYSPACE_SIZE);
}
