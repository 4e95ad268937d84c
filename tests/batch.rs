use assext::batch::{label_digits, number_label, zero_padded, FileManager};

#[test]
fn labels_of_a_large_batch_have_three_digits() {
    assert_eq!(label_digits(150), 3);
    let labels: Vec<String> = (1..=150).map(|i| number_label(i, 150)).collect();
    assert_eq!(labels[0], "001");
    assert_eq!(labels[9], "010");
    assert_eq!(labels[99], "100");
    assert_eq!(labels[149], "150");
    assert!(labels.iter().all(|l| l.len() == 3));
    for (k, l) in labels.iter().enumerate() {
        assert_eq!(l.parse::<usize>().unwrap(), k + 1);
    }
}

#[test]
fn labels_of_a_small_batch_have_two_digits() {
    assert_eq!(label_digits(42), 2);
    assert_eq!(label_digits(99), 2);
    assert_eq!(label_digits(100), 3);
    let labels: Vec<String> = (1..=42).map(|i| number_label(i, 42)).collect();
    assert_eq!(labels[0], "01");
    assert_eq!(labels[41], "42");
    assert!(labels.iter().all(|l| l.len() == 2));
}

#[test]
fn zero_padding_never_cuts_digits() {
    assert_eq!(zero_padded(7, 3), "007");
    assert_eq!(zero_padded(0, 2), "00");
    assert_eq!(zero_padded(1234, 3), "1234");
    assert_eq!(zero_padded(4294967295, 0), "4294967295");
    assert_eq!(number_label(1000, 1500), "1000");
}

#[test]
fn label_matches_the_file_name_suffix() {
    for (count, single) in [(150u32, false), (42, false), (150, true), (42, true)] {
        let fm = FileManager::new("out", "hero", single);
        for i in 1..=count {
            let label = number_label(i, count);
            let name = fm.dir_name(i, count);
            assert!(name.ends_with(&format!("_{}", label)));
            let png = fm.output_png_path(i, count);
            if single {
                assert_eq!(png, format!("out/hero_{}.png", label));
            } else {
                assert_eq!(png, format!("out/hero_{}/hero.png", label));
            }
        }
    }
}

#[test]
fn subdirectories_per_frame() {
    let fm = FileManager::new("output", "lixiaolong", false);
    assert_eq!(
        fm.output_subdirs(3),
        vec!["output/lixiaolong_01", "output/lixiaolong_02", "output/lixiaolong_03"]
    );
    assert_eq!(fm.frame_dir(120, 120), "output/lixiaolong_120");
    let single = FileManager::new("output", "lixiaolong", true);
    assert!(single.is_single_image_mode());
    assert!(single.output_subdirs(3).is_empty());
}

#[test]
fn sidecar_copies() {
    let fm = FileManager::new("out", "hero", false);
    let both = fm.copy_spine_files("hero_01", "data/hero.atlas", "data/hero.png", "data/hero.skel");
    let pairs: Vec<(String, String)> = both.into_iter().map(|c| (c.from, c.to)).collect();
    assert_eq!(
        pairs,
        vec![
            ("data/hero.atlas".to_string(), "out/hero_01/hero.atlas".to_string()),
            ("data/hero.skel".to_string(), "out/hero_01/hero.skel".to_string()),
        ]
    );
    let only_skel = fm.planned_copies("hero_02", "a.atlas", "b.skel", false, true);
    assert_eq!(only_skel.len(), 1);
    assert_eq!(only_skel[0].from, "b.skel");
    assert_eq!(only_skel[0].to, "out/hero_02/hero.skel");
    let single = FileManager::new("out", "hero", true);
    assert!(single.planned_copies("hero_01", "a.atlas", "b.skel", true, true).is_empty());
}
