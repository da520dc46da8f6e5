use gen_docs_template::cli::parse_args;
use gen_docs_template::ledger::{
    gitignore_needs_rule, ledger_contains, ledger_file_name, parse_ledger, plan_run,
};

fn paths(items: &[&str]) -> Vec<String> {
    items.iter().map(|s| s.to_string()).collect()
}

#[test]
fn ledger_text_parses_one_path_per_line() {
    let v = parse_ledger("src/a.rs\nsrc/b.rs\n");
    assert_eq!(v, paths(&["src/a.rs", "src/b.rs"]));
    assert_eq!(parse_ledger(""), Vec::<String>::new());
}

#[test]
fn ledger_membership_check() {
    let led = paths(&["src/a.rs", "src/b.rs"]);
    assert!(ledger_contains(&led, "src/b.rs"));
    assert!(!ledger_contains(&led, "src/c.rs"));
}

#[test]
fn first_run_processes_everything_in_order() {
    let (led, todo) = plan_run(Vec::new(), &paths(&["a.rs", "b.rs"]));
    assert_eq!(todo, paths(&["a.rs", "b.rs"]));
    assert_eq!(led, paths(&["a.rs", "b.rs"]));
}

#[test]
fn second_run_with_intact_ledger_plans_no_writes() {
    let files = paths(&["a.rs", "b.rs"]);
    let (led1, todo1) = plan_run(Vec::new(), &files);
    assert_eq!(todo1.len(), 2);
    let (led2, todo2) = plan_run(led1.clone(), &files);
    assert_eq!(todo2, Vec::<String>::new());
    assert_eq!(led2, led1);
}

#[test]
fn reset_ledger_reprocesses_previously_skipped_file() {
    let files = paths(&["a.rs"]);
    // With the file recorded, the run skips it.
    let (_, todo_kept) = plan_run(paths(&["a.rs"]), &files);
    assert_eq!(todo_kept, Vec::<String>::new());
    // After the ledger is cleared, the same file is processed again.
    let (_, todo_reset) = plan_run(Vec::new(), &files);
    assert_eq!(todo_reset, paths(&["a.rs"]));
}

#[test]
fn up_to_date_ledger_entry_skips_the_file() {
    let led = paths(&["src/only.rs"]);
    let (led_after, todo) = plan_run(led.clone(), &paths(&["src/only.rs"]));
    assert_eq!(todo, Vec::<String>::new());
    assert_eq!(led_after, led);
}

#[test]
fn duplicate_file_listing_recorded_once() {
    let (led, todo) = plan_run(Vec::new(), &paths(&["a.rs", "a.rs"]));
    assert_eq!(todo, paths(&["a.rs"]));
    assert_eq!(led, paths(&["a.rs"]));
}

#[test]
fn gitignore_rule_added_only_once() {
    assert!(gitignore_needs_rule("target/\n*.log\n"));
    assert!(!gitignore_needs_rule("target/\n.gen_doc_his\n"));
    assert!(!gitignore_needs_rule("  .gen_doc_his  \n"));
    assert!(gitignore_needs_rule(""));
}

#[test]
fn ledger_file_name_is_the_sentinel() {
    assert_eq!(ledger_file_name(), ".gen_doc_his");
}

#[test]
fn args_without_flags_use_defaults() {
    let (hard, root) = parse_args(&paths(&["prog"]));
    assert!(!hard);
    assert_eq!(root, "src");
}

#[test]
fn hard_flag_found_anywhere() {
    let (hard, root) = parse_args(&paths(&["prog", "-path", "lib", "hard"]));
    assert!(hard);
    assert_eq!(root, "lib");
}

#[test]
fn path_flag_must_come_first() {
    let (hard, root) = parse_args(&paths(&["prog", "hard", "-path", "lib"]));
    assert!(hard);
    assert_eq!(root, "src");
}
