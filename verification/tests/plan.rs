use frots::plan::{rot_file_scheme, rot_nr_scheme};

#[test]
fn test_rot() {
    assert_eq!(rot_nr_scheme(0), vec![]);
    assert_eq!(rot_nr_scheme(1), vec![]);
    assert_eq!(rot_nr_scheme(2), vec![(0, 1)]);
    assert_eq!(rot_nr_scheme(3), vec![(1, 2), (0, 1)]);
    assert_eq!(rot_file_scheme("f", 0), vec![]);
    assert_eq!(rot_file_scheme("f", 1), vec![]);
    assert_eq!(rot_file_scheme("f", 2), vec![("f".into(), "f.1".into())]);
    assert_eq!(
        rot_file_scheme("f", 3),
        vec![("f.1".into(), "f.2".into()), ("f".into(), "f.1".into())]
    );
}

#[test]
fn plan_is_pure() {
    assert_eq!(rot_nr_scheme(7), rot_nr_scheme(7));
    assert_eq!(rot_file_scheme("log", 5), rot_file_scheme("log", 5));
}

#[test]
fn plan_covers_slots_descending() {
    let pairs = rot_nr_scheme(5);
    assert_eq!(pairs, vec![(3, 4), (2, 3), (1, 2), (0, 1)]);
    let names = rot_file_scheme("a.log", 5);
    assert_eq!(
        names,
        vec![
            ("a.log.3".to_string(), "a.log.4".to_string()),
            ("a.log.2".to_string(), "a.log.3".to_string()),
            ("a.log.1".to_string(), "a.log.2".to_string()),
            ("a.log".to_string(), "a.log.1".to_string()),
        ]
    );
}

#[test]
fn plan_with_multi_digit_slots() {
    let names = rot_file_scheme("f", 12);
    assert_eq!(names.len(), 11);
    assert_eq!(names[0], ("f.10".to_string(), "f.11".to_string()));
    assert_eq!(names[1], ("f.9".to_string(), "f.10".to_string()));
    assert_eq!(names[10], ("f".to_string(), "f.1".to_string()));
}

#[test]
fn applying_plan_keeps_retained_files() {
    // Populate a model directory with the primary file and every slot, apply
    // the renames in the plan's order, and check that nothing in the retained
    // window is lost: slot n's content ends up at slot n + 1, the primary
    // path is vacated, and the oldest slot's content is aged out.
    let r: u16 = 4;
    let mut files: std::collections::BTreeMap<String, String> = std::collections::BTreeMap::new();
    files.insert("f".to_string(), "newest".to_string());
    for n in 1..r {
        files.insert(format!("f.{n}"), format!("gen{n}"));
    }
    for (from, to) in rot_file_scheme("f", r) {
        let v = files.remove(&from).expect("rename source must exist");
        files.insert(to, v);
    }
    assert!(!files.contains_key("f"));
    assert_eq!(files.get("f.1").map(String::as_str), Some("newest"));
    assert_eq!(files.get("f.2").map(String::as_str), Some("gen1"));
    assert_eq!(files.get("f.3").map(String::as_str), Some("gen2"));
    // the old f.3 ("gen3") aged out: overwritten by gen2, never a source
    assert_eq!(files.len(), 3);
}
