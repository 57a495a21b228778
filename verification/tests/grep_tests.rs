use rust_in_action::grep::{pattern_is_valid, process_lines};

fn lines(v: &[&str]) -> Vec<String> {
    v.iter().map(|s| s.to_string()).collect()
}

#[test]
fn context_around_matches() {
    let text = lines(&["alpha", "beta", "picture", "delta", "epsilon", "pi"]);
    let ctx = process_lines(&text, "pi", 1).unwrap();
    assert_eq!(ctx.len(), 2);
    assert_eq!(
        ctx[0],
        vec![(1, "beta".to_string()), (2, "picture".to_string()), (3, "delta".to_string())]
    );
    assert_eq!(ctx[1], vec![(4, "epsilon".to_string()), (5, "pi".to_string())]);
}

#[test]
fn no_context_lines() {
    let text = lines(&["a1", "b", "a2"]);
    let ctx = process_lines(&text, "a[0-9]", 0).unwrap();
    assert_eq!(ctx, vec![vec![(0, "a1".to_string())], vec![(2, "a2".to_string())]]);
}

#[test]
fn no_match_gives_nothing() {
    let text = lines(&["x", "y"]);
    assert!(process_lines(&text, "z", 3).unwrap().is_empty());
}

#[test]
fn huge_context_takes_every_line() {
    let text = lines(&["x", "y", "z"]);
    let ctx = process_lines(&text, "y", usize::MAX).unwrap();
    assert_eq!(ctx[0].len(), 3);
}

#[test]
fn bad_pattern_is_refused() {
    assert!(!pattern_is_valid("("));
    assert!(pattern_is_valid("a+"));
    assert!(process_lines(&vec!["(".to_string()], "(", 0).is_none());
}
