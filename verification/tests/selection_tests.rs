//! Tests of the selection state machine, range resolution, and multi-object
//! operation reports.

use click::env::{summarize_apply, Env, Selection};
use click::error::{ConfigError, OperationError};
use click::kobj::{KObj, ObjType};
use click::range::resolve_range;

fn handle(name: &str) -> KObj {
    KObj {
        name: name.to_string(),
        namespace: Some("default".to_string()),
        typ: ObjType::PersistentVolume,
    }
}

fn many_env(names: &[&str]) -> Env {
    let mut env = Env::new();
    env.selection = Selection::Many(names.iter().map(|n| handle(n)).collect());
    env
}

#[test]
fn range_two_to_three_resolves_exactly() {
    match resolve_range("2-3", 5) {
        Ok(ix) => assert_eq!(ix, vec![2, 3]),
        Err(_) => panic!("expected indices"),
    }
}

#[test]
fn range_mixed_tokens_resolve_in_order() {
    match resolve_range("4,1-2,4", 4) {
        Ok(ix) => assert_eq!(ix, vec![4, 1, 2, 4]),
        Err(_) => panic!("expected indices"),
    }
}

#[test]
fn range_zero_is_out_of_bounds() {
    assert!(matches!(resolve_range("0", 5), Err(ConfigError::RangeOutOfBounds { len: 5 })));
}

#[test]
fn range_past_end_is_out_of_bounds() {
    assert!(matches!(resolve_range("6", 5), Err(ConfigError::RangeOutOfBounds { len: 5 })));
}

#[test]
fn range_decreasing_pair_is_out_of_bounds() {
    assert!(matches!(resolve_range("3-2", 5), Err(ConfigError::RangeOutOfBounds { .. })));
}

#[test]
fn range_non_numeric_token_is_malformed() {
    match resolve_range("2,x", 5) {
        Err(ConfigError::BadRangeToken { token }) => assert_eq!(token, "x"),
        _ => panic!("expected a bad-token error"),
    }
}

#[test]
fn range_empty_token_is_malformed() {
    assert!(matches!(resolve_range("1,,3", 5), Err(ConfigError::BadRangeToken { .. })));
}

#[test]
fn range_huge_number_is_out_of_bounds() {
    assert!(matches!(
        resolve_range("99999999999999999999999999", 5),
        Err(ConfigError::RangeOutOfBounds { .. })
    ));
}

#[test]
fn many_selection_with_range_touches_exactly_those_members() {
    let env = many_env(&["a", "b", "c", "d"]);
    match env.selection_targets(Some("2-3")) {
        Ok(ts) => {
            assert_eq!(ts.len(), 2);
            assert_eq!(ts[0].name, "b");
            assert_eq!(ts[1].name, "c");
        }
        Err(_) => panic!("expected targets"),
    }
}

#[test]
fn many_selection_without_range_touches_every_member_in_order() {
    let env = many_env(&["a", "b", "c"]);
    match env.selection_targets(None) {
        Ok(ts) => {
            let names: Vec<&str> = ts.iter().map(|k| k.name.as_str()).collect();
            assert_eq!(names, vec!["a", "b", "c"]);
        }
        Err(_) => panic!("expected targets"),
    }
}

#[test]
fn bad_range_aborts_before_any_member() {
    let env = many_env(&["a", "b", "c"]);
    assert!(matches!(
        env.selection_targets(Some("4")),
        Err(ConfigError::RangeOutOfBounds { len: 3 })
    ));
}

#[test]
fn single_selection_ignores_range_syntax() {
    let mut env = Env::new();
    env.enter(handle("solo"));
    match env.selection_targets(Some("7")) {
        Ok(ts) => {
            assert_eq!(ts.len(), 1);
            assert_eq!(ts[0].name, "solo");
        }
        Err(_) => panic!("expected the single target"),
    }
}

#[test]
fn empty_selection_reports_nothing_selected() {
    let env = Env::new();
    match env.selection_targets(None) {
        Err(e @ ConfigError::NoSelection) => assert_eq!(e.message(), "nothing is selected"),
        _ => panic!("expected the no-selection error"),
    }
}

#[test]
fn clearing_selection_returns_to_nothing() {
    let mut env = many_env(&["a"]);
    env.clear_selection();
    assert!(matches!(env.selection, Selection::Nothing));
}

#[test]
fn partial_failures_accumulate_with_member_indices() {
    let results: Vec<Result<(), OperationError>> = vec![
        Ok(()),
        Err(OperationError { message: "boom".to_string() }),
        Ok(()),
        Err(OperationError { message: "later".to_string() }),
    ];
    let failures = summarize_apply(&results);
    assert_eq!(failures.len(), 2);
    assert_eq!(failures[0].index, 1);
    assert_eq!(failures[0].error.message, "boom");
    assert_eq!(failures[1].index, 3);
    assert_eq!(failures[1].error.message, "later");
}

#[test]
fn range_error_messages_name_the_problem() {
    let bad = ConfigError::BadRangeToken { token: "x-".to_string() };
    assert_eq!(bad.message(), "bad range token 'x-'");
    let oob = ConfigError::RangeOutOfBounds { len: 12 };
    assert_eq!(oob.message(), "range index out of bounds for selection of size 12");
}
