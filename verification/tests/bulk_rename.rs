use toolbox::bulk_rename::{plan, run, Rename, RenameError};

fn names(list: &[&str]) -> Vec<String> {
    list.iter().map(|name| name.to_string()).collect()
}

fn plain(renames: &[Rename]) -> Vec<(usize, String)> {
    renames.iter().map(|r| (r.file, r.to.clone())).collect()
}

#[test]
fn one_pass_replaces_the_number_once() {
    let first = run(&names(&["file1.txt"]), r"(\d+)", "00$1").unwrap();
    assert_eq!(plain(&first), vec![(0, "file001.txt".to_string())]);
}

#[test]
fn a_second_pass_over_the_new_name_replaces_again() {
    let second = run(&names(&["file001.txt"]), r"(\d+)", "00$1").unwrap();
    assert_eq!(plain(&second), vec![(0, "file00001.txt".to_string())]);
}

#[test]
fn names_without_a_match_are_left_out() {
    let listing = names(&["report.txt", "img_01.png", "notes", "img_22.png"]);
    let renames = run(&listing, r"^img_(\d+)", "photo-$1").unwrap();
    assert_eq!(
        plain(&renames),
        vec![(1, "photo-01.png".to_string()), (3, "photo-22.png".to_string())]
    );
}

#[test]
fn every_match_in_a_name_is_replaced() {
    let renames = run(&names(&["a b c.txt", "abc.txt"]), " ", "_").unwrap();
    assert_eq!(plain(&renames), vec![(0, "a_b_c.txt".to_string())]);
}

#[test]
fn a_match_replaced_by_itself_is_still_a_rename() {
    let renames = run(&names(&["same.txt"]), "same", "same").unwrap();
    assert_eq!(plain(&renames), vec![(0, "same.txt".to_string())]);
}

#[test]
fn named_groups_can_be_used_in_the_replacement() {
    let renames =
        run(&names(&["2021-06 trip.jpg"]), r"(?P<y>\d{4})-(?P<m>\d{2})", "${m}.${y}").unwrap();
    assert_eq!(plain(&renames), vec![(0, "06.2021 trip.jpg".to_string())]);
}

#[test]
fn an_invalid_pattern_renames_nothing() {
    match run(&names(&["file(1).txt"]), "(", "x") {
        Err(RenameError::InvalidPattern(message)) => assert!(!message.is_empty()),
        Ok(renames) => panic!("expected an error, got {:?}", renames),
    }
    assert!(run(&Vec::new(), r"[a-", "x").is_err());
    assert!(run(&names(&["a"]), r"\", "x").is_err());
}

#[test]
fn no_names_give_no_renames() {
    assert!(run(&Vec::new(), "a", "b").unwrap().is_empty());
}

#[test]
fn the_plan_pairs_each_match_with_its_new_name() {
    let found = vec![false, true, true, false];
    let replaced = names(&["a", "B", "C", "d"]);
    assert_eq!(plain(&plan(&found, &replaced)), vec![(1, "B".to_string()), (2, "C".to_string())]);
    assert!(plan(&vec![false, false], &names(&["x", "y"])).is_empty());
    assert!(plan(&Vec::new(), &Vec::new()).is_empty());
}

#[test]
fn a_match_without_a_new_name_is_not_renamed() {
    let found = vec![true, true, true];
    let replaced = names(&["A"]);
    assert_eq!(plain(&plan(&found, &replaced)), vec![(0, "A".to_string())]);
    assert!(plan(&vec![true], &Vec::new()).is_empty());
    assert_eq!(plain(&plan(&vec![true], &names(&["A", "B"]))), vec![(0, "A".to_string())]);
}

#[test]
fn the_pattern_is_case_sensitive_and_unanchored() {
    let listing = names(&["IMG.png", "img.png", "my_img_file"]);
    let renames = run(&listing, "img", "pic").unwrap();
    assert_eq!(plain(&renames), vec![(1, "pic.png".to_string()), (2, "my_pic_file".to_string())]);
}
