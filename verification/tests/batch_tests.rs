use stellarfiles::batch::{plan_batch_rename, rename_target};

#[test]
fn test_batch_rename_invalid_regex() {
    let targets = vec!["dummy.txt".to_string()];
    // Missing closing bracket in regex
    let result = plan_batch_rename(&targets, "[a-z", "replace");

    assert!(result.is_err());
    assert!(result.unwrap_err().contains("Invalid Regex"));
}

#[test]
fn batch_rename_numbers_the_matches() {
    let targets = vec![
        "/tmp/trip/vacation_img1.jpg".to_string(),
        "/tmp/trip/vacation_img2.jpg".to_string(),
        "/tmp/trip/ignore_me.txt".to_string(),
    ];
    let plan = plan_batch_rename(&targets, r"^vacation_img\d\.jpg$", "Nova_Terra_#SEQ.jpg").unwrap();
    assert_eq!(
        plan,
        vec![
            (0, "/tmp/trip/Nova_Terra_1.jpg".to_string()),
            (1, "/tmp/trip/Nova_Terra_2.jpg".to_string()),
        ]
    );
}

#[test]
fn batch_rename_capture_groups_expand() {
    let targets = vec!["/photos/IMG_2023.jpg".to_string()];
    let plan = plan_batch_rename(&targets, r"^IMG_(\d{4})\.(jpg)$", "Photo_$1.$2").unwrap();
    assert_eq!(plan, vec![(0, "/photos/Photo_2023.jpg".to_string())]);
}

#[test]
fn batch_rename_numbers_by_position_in_the_selection() {
    let targets = vec!["/x/skip.txt".to_string(), "/x/a.jpg".to_string(), "/".to_string()];
    let plan = plan_batch_rename(&targets, r"\.jpg$", "_#SEQ_#SEQ.png").unwrap();
    assert_eq!(plan, vec![(1, "/x/a_2_2.png".to_string())]);
    let err = plan_batch_rename(&targets, "(", "x").unwrap_err();
    assert!(err.starts_with("Invalid Regex: "));
    assert_eq!(err, format!("Invalid Regex: {}", regex::Regex::new("(").unwrap_err()));
}

#[test]
fn rename_target_from_the_matcher_answers() {
    assert_eq!(rename_target("/a/b.txt", 4, true, "n#SEQ"), Some("/a/n5".to_string()));
    assert_eq!(rename_target("/a/b.txt", 4, false, "n#SEQ"), None);
    assert_eq!(rename_target("/", 0, true, "n"), None);
}
