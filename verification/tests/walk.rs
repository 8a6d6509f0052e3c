use zero_shell::commands::walk::TargetWalk;
use zero_shell::types::errors::ShellError;

#[test]
fn every_target_is_tried_in_order_and_a_failure_does_not_stop_the_others() {
    let mut walk = TargetWalk::new(vec!["a".into(), "b".into(), "c".into()]);
    assert_eq!(walk.count(), 3);
    let mut seen = Vec::new();
    while let Some((i, t)) = walk.next_target() {
        seen.push((i, t.clone()));
        let failure = if t == "b" { Some(format!("{}: failed", t)) } else { None };
        assert_eq!(walk.report(failure.clone()), failure);
    }
    assert_eq!(seen, vec![(0, "a".to_string()), (1, "b".to_string()), (2, "c".to_string())]);
    assert!(walk.next_target().is_none());
    assert!(matches!(walk.finish(), Err(ShellError::Generic(m)) if m.is_empty()));
}

#[test]
fn a_walk_without_failures_succeeds() {
    let mut walk = TargetWalk::new(vec!["x".into()]);
    while walk.next_target().is_some() {
        walk.report(None);
    }
    assert!(walk.finish().is_ok());
    assert!(TargetWalk::new(Vec::new()).finish().is_ok());
}
