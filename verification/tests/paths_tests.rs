use rfuzz::paths::{crash_path, tmp_path};

#[test]
fn tmp_path_format() {
    assert_eq!(tmp_path(3, "Canon_40D.jpg"), "./output/tmp_3_Canon_40D.jpg");
    assert_eq!(tmp_path(0, "seed"), "./output/tmp_0_seed");
    assert_eq!(tmp_path(1234567890123, "a"), "./output/tmp_1234567890123_a");
}

#[test]
fn crash_path_format() {
    assert_eq!(crash_path(2, 5, "x.jpg"), "./output/crash_2_5_x.jpg");
    assert_eq!(crash_path(0, 0, "Canon_40D.jpg"), "./output/crash_0_0_Canon_40D.jpg");
    assert_eq!(crash_path(10, 110, "s"), "./output/crash_10_110_s");
}

#[test]
fn tmp_paths_never_collide_across_workers() {
    // Namespacing by worker identity is collision-free for any worker set.
    let paths: Vec<String> = (0u64..10).map(|w| tmp_path(w, "Canon_40D.jpg")).collect();
    for i in 0..paths.len() {
        for j in 0..paths.len() {
            if i != j {
                assert_ne!(paths[i], paths[j]);
            }
        }
    }
}

#[test]
fn tmp_paths_distinct_when_digits_overlap() {
    // Worker one writing "1_..." never collides with worker eleven writing
    // "11_...", whatever the filename.
    assert_ne!(tmp_path(1, "1_f"), tmp_path(11, "f"));
    assert_ne!(tmp_path(1, "f"), tmp_path(11, "f"));
}

#[test]
fn crash_paths_unique_per_worker_and_count() {
    let mut paths = Vec::new();
    for w in 0u64..4 {
        for c in 0u64..25 {
            paths.push(crash_path(w, c, "Canon_40D.jpg"));
        }
    }
    for i in 0..paths.len() {
        for j in 0..paths.len() {
            if i != j {
                assert_ne!(paths[i], paths[j]);
            }
        }
    }
    // The ambiguous-looking pairs stay distinct too.
    assert_ne!(crash_path(1, 11, "f"), crash_path(11, 1, "f"));
    assert_ne!(crash_path(12, 3, "f"), crash_path(1, 23, "f"));
}
