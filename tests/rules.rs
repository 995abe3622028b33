use worldground::rules::rule_script_order;

fn names(v: &[&str]) -> Vec<String> {
    v.iter().map(|s| s.to_string()).collect()
}

#[test]
fn scripts_sorted_by_name() {
    let out = rule_script_order(names(&["03-third.rhai", "01-first.rhai", "02-second.rhai"]));
    assert_eq!(out, names(&["01-first.rhai", "02-second.rhai", "03-third.rhai"]));
}

#[test]
fn non_scripts_are_skipped() {
    let out = rule_script_order(names(&["notes.txt", ".rhai", "b.rhai", "a.rhai.bak", "x.y.rhai", "rhai"]));
    assert_eq!(out, names(&["b.rhai", "x.y.rhai"]));
}

#[test]
fn prefix_sorts_first_and_bytes_order() {
    let out = rule_script_order(names(&["ab.rhai", "a.rhai", "B.rhai", "a.rhai"]));
    assert_eq!(out, names(&["B.rhai", "a.rhai", "a.rhai", "ab.rhai"]));
    assert!(rule_script_order(Vec::new()).is_empty());
}
