use hydro_template::sim::{yields_only, SimFlow};
use hydro_template::transform::{echo_capitalize, uppercase};

fn strings(items: &[&str]) -> Vec<String> {
    items.iter().map(|s| s.to_string()).collect()
}

#[test]
fn test_echo_capitalize() {
    let mut flow = SimFlow::new();
    let in_port = flow.sim_input();
    assert!(flow.send(in_port, "hello".to_owned()));
    assert!(flow.send(in_port, "world".to_owned()));
    assert!(flow.assert_yields_only(&strings(&["HELLO", "WORLD"])));
}

#[test]
fn uppercase_changes_letters() {
    assert_eq!(uppercase("abc"), "ABC");
    assert_eq!(uppercase("Hello, World 42!"), "HELLO, WORLD 42!");
}

#[test]
fn uppercase_full_unicode() {
    assert_eq!(uppercase("straße"), "STRASSE");
    assert_eq!(uppercase("émile"), "ÉMILE");
}

#[test]
fn uppercase_without_letters_is_unchanged() {
    assert_eq!(uppercase("123 !?"), "123 !?");
}

#[test]
fn uppercase_is_idempotent_on_samples() {
    for s in ["hello", "straße", "ǆemal", "ŉ", "MiXeD 9", "", "ﬃ"] {
        let once = uppercase(s);
        assert_eq!(uppercase(&once), once);
    }
}

#[test]
fn uppercase_of_empty_is_empty() {
    assert_eq!(uppercase(""), "");
}

#[test]
fn echo_capitalize_keeps_order() {
    let out = echo_capitalize(&strings(&["b", "a", "c", "a"]));
    assert_eq!(out, strings(&["B", "A", "C", "A"]));
}

#[test]
fn echo_capitalize_empty_stream() {
    let out = echo_capitalize(&Vec::new());
    assert!(out.is_empty());
}

#[test]
fn echo_capitalize_empty_line() {
    let out = echo_capitalize(&strings(&["", "x"]));
    assert_eq!(out, strings(&["", "X"]));
}

#[test]
fn sim_fails_when_value_missing() {
    let mut flow = SimFlow::new();
    let input = flow.sim_input();
    flow.send(input, "hello".to_owned());
    flow.send(input, "world".to_owned());
    assert!(!flow.assert_yields_only(&strings(&["HELLO"])));
}

#[test]
fn sim_fails_on_unexpected_value() {
    let mut flow = SimFlow::new();
    let input = flow.sim_input();
    flow.send(input, "hello".to_owned());
    flow.send(input, "world".to_owned());
    assert!(!flow.assert_yields_only(&strings(&["HELLO", "WORLD", "HELLO!"])));
    assert!(!flow.assert_yields_only(&strings(&["HELLO!", "WORLD"])));
}

#[test]
fn sim_accepts_any_order_of_expected() {
    let mut flow = SimFlow::new();
    let input = flow.sim_input();
    flow.send(input, "hello".to_owned());
    flow.send(input, "world".to_owned());
    assert!(flow.assert_yields_only(&strings(&["WORLD", "HELLO"])));
}

#[test]
fn sim_counts_repeated_values() {
    let mut flow = SimFlow::new();
    let input = flow.sim_input();
    flow.send(input, "a".to_owned());
    flow.send(input, "a".to_owned());
    assert!(flow.assert_yields_only(&strings(&["A", "A"])));
    assert!(!flow.assert_yields_only(&strings(&["A"])));
    assert!(!flow.assert_yields_only(&strings(&["A", "A", "A"])));
}

#[test]
fn sim_two_inputs_interleave() {
    let mut flow = SimFlow::new();
    let first = flow.sim_input();
    let second = flow.sim_input();
    flow.send(second, "x".to_owned());
    flow.send(first, "y".to_owned());
    flow.send(second, "z".to_owned());
    assert_eq!(flow.run(), strings(&["Y", "X", "Z"]));
    assert!(flow.assert_yields_only(&strings(&["X", "Y", "Z"])));
}

#[test]
fn sim_with_no_sends_yields_nothing() {
    let mut flow = SimFlow::new();
    let _input = flow.sim_input();
    assert!(flow.run().is_empty());
    assert!(flow.assert_yields_only(&Vec::new()));
    assert!(!flow.assert_yields_only(&strings(&[""])));
}

#[test]
fn sim_send_on_unknown_input_is_refused() {
    let mut flow = SimFlow::new();
    let mut other = SimFlow::new();
    let _a = other.sim_input();
    let b = other.sim_input();
    let _mine = flow.sim_input();
    assert!(!flow.send(b, "lost".to_owned()));
    assert!(flow.run().is_empty());
}

#[test]
fn yields_only_compares_multisets() {
    assert!(yields_only(&strings(&["A", "B", "A"]), &strings(&["A", "A", "B"])));
    assert!(!yields_only(&strings(&["A", "B"]), &strings(&["A", "A"])));
    assert!(yields_only(&Vec::new(), &Vec::new()));
}
