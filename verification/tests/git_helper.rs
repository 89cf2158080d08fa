use toolbox::git_helper::{
    clean_merged_branches, is_merged, run, should_delete, summary_lines, Ancestry, Branch, Head,
    Snapshot,
};

fn branch(name: &str, ancestry: Ancestry) -> Branch {
    Branch { name: Some(name.to_string()), ancestry }
}

fn on(name: &str) -> Head {
    Head::Branch(name.to_string())
}

#[test]
fn a_merged_branch_is_deleted_and_the_current_one_never() {
    let branches = vec![
        branch("main", Ancestry::Known(true)),
        branch("feature", Ancestry::Known(true)),
        branch("wip", Ancestry::Known(false)),
    ];
    assert_eq!(clean_merged_branches(&on("main"), &branches), vec![1]);
    assert_eq!(clean_merged_branches(&on("feature"), &branches), vec![0]);
    assert_eq!(clean_merged_branches(&on("wip"), &branches), vec![0, 1]);
}

#[test]
fn a_branch_of_unclear_ancestry_is_kept() {
    let branches = vec![
        branch("broken", Ancestry::Unresolved),
        branch("odd", Ancestry::Unknown),
        branch("ahead", Ancestry::Known(false)),
        Branch { name: None, ancestry: Ancestry::Known(true) },
    ];
    assert!(clean_merged_branches(&on("main"), &branches).is_empty());
}

#[test]
fn with_an_unknown_head_nothing_is_deleted() {
    let branches = vec![branch("feature", Ancestry::Known(true))];
    assert!(clean_merged_branches(&Head::Unknown, &branches).is_empty());
}

#[test]
fn with_a_detached_head_no_branch_is_the_current_one() {
    let branches = vec![
        branch("feature", Ancestry::Known(true)),
        branch("", Ancestry::Known(true)),
        branch("wip", Ancestry::Known(false)),
    ];
    assert_eq!(clean_merged_branches(&Head::Detached, &branches), vec![0]);
}

#[test]
fn no_branches_give_no_deletions() {
    assert!(clean_merged_branches(&on("main"), &Vec::new()).is_empty());
}

#[test]
fn merged_means_known_to_be_an_ancestor() {
    assert_eq!(is_merged(Ancestry::Unresolved), None);
    assert_eq!(is_merged(Ancestry::Unknown), Some(false));
    assert_eq!(is_merged(Ancestry::Known(false)), Some(false));
    assert_eq!(is_merged(Ancestry::Known(true)), Some(true));
}

#[test]
fn one_branch_is_judged_by_name_and_ancestry() {
    assert!(should_delete("main", &branch("feature", Ancestry::Known(true))));
    assert!(!should_delete("main", &branch("main", Ancestry::Known(true))));
    assert!(!should_delete("main", &branch("feature", Ancestry::Known(false))));
    assert!(!should_delete("main", &branch("feature", Ancestry::Unknown)));
    assert!(!should_delete("main", &branch("feature", Ancestry::Unresolved)));
    assert!(!should_delete("main", &Branch { name: None, ancestry: Ancestry::Known(true) }));
    assert!(should_delete("main", &branch("Main", Ancestry::Known(true))));
}

#[test]
fn the_summary_names_the_branch_and_the_changes() {
    let changed = Some(vec![Some("src/a.rs".to_string()), None, Some("b.txt".to_string())]);
    assert_eq!(
        summary_lines(&on("main"), &changed),
        vec![
            "Current branch: main".to_string(),
            "Changed files: 3".to_string(),
            "- src/a.rs".to_string(),
            "- b.txt".to_string(),
        ]
    );
}

#[test]
fn the_summary_marks_a_detached_head() {
    assert_eq!(
        summary_lines(&Head::Detached, &Some(Vec::new())),
        vec!["Current branch: (detached)".to_string(), "Changed files: 0".to_string()]
    );
}

#[test]
fn the_summary_leaves_out_what_could_not_be_read() {
    assert_eq!(summary_lines(&Head::Unknown, &None), Vec::<String>::new());
    assert_eq!(summary_lines(&on("dev"), &None), vec!["Current branch: dev".to_string()]);
    assert_eq!(
        summary_lines(&Head::Unknown, &Some(vec![Some("x".to_string())])),
        vec!["Changed files: 1".to_string(), "- x".to_string()]
    );
}

#[test]
fn the_flags_choose_the_parts_of_the_report() {
    let snapshot = Snapshot {
        head: on("main"),
        changed: Some(vec![Some("a".to_string())]),
        branches: vec![branch("main", Ancestry::Known(false)), branch("old", Ancestry::Known(true))],
    };
    let both = run(&snapshot, true, true);
    assert_eq!(
        both.lines,
        vec!["Current branch: main".to_string(), "Changed files: 1".to_string(), "- a".to_string()]
    );
    assert_eq!(both.delete, vec![1]);
    let summary_only = run(&snapshot, false, true);
    assert_eq!(summary_only.lines.len(), 3);
    assert!(summary_only.delete.is_empty());
    let clean_only = run(&snapshot, true, false);
    assert!(clean_only.lines.is_empty());
    assert_eq!(clean_only.delete, vec![1]);
    let neither = run(&snapshot, false, false);
    assert!(neither.lines.is_empty());
    assert!(neither.delete.is_empty());
}
