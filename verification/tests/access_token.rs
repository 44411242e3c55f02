use svm_datum::access_token::{
    AccessToken, RefreshAction, RefreshOutcome, Scope, REFRESH_TIMEOUT_SECS,
};

fn token() -> AccessToken {
    AccessToken::new(Scope::BigTableData, Ok("first".to_string())).unwrap()
}

fn is_idle(action: RefreshAction) -> bool {
    matches!(action, RefreshAction::Idle)
}

#[test]
fn scopes_are_asked_for_by_their_address() {
    assert_eq!(
        AccessToken::token_scopes(&Scope::BigTableData),
        vec!["https://www.googleapis.com/auth/bigtable.data".to_string()]
    );
    assert_eq!(
        AccessToken::token_scopes(&Scope::BigTableDataReadOnly),
        vec!["https://www.googleapis.com/auth/bigtable.data.readonly".to_string()]
    );
}

#[test]
fn header_holds_the_token() {
    assert_eq!(token().get(), "Bearer first");
}

#[test]
fn failed_first_fetch_gives_no_token() {
    let failed = AccessToken::new(Scope::BigTableData, Err("no network".to_string()));
    assert_eq!(failed.err(), Some("Unable to get token: no network".to_string()));
    assert_eq!(
        AccessToken::get_token(Err("x".to_string())),
        Err("Unable to get token: x".to_string())
    );
    assert_eq!(AccessToken::get_token(Ok("y".to_string())), Ok("y".to_string()));
}

#[test]
fn fresh_token_is_not_refreshed() {
    let mut access = token();
    assert!(is_idle(access.refresh(&|_: &String| false)));
    assert!(!is_idle(access.refresh(&|_: &String| true)));
}

#[test]
fn expired_token_is_fetched_once() {
    let mut access = token();
    match access.refresh(&|_: &String| true) {
        RefreshAction::Fetch { scopes, timeout_secs } => {
            assert_eq!(scopes, AccessToken::token_scopes(&Scope::BigTableData));
            assert_eq!(timeout_secs, 5);
            assert_eq!(timeout_secs, REFRESH_TIMEOUT_SECS);
        }
        RefreshAction::Idle => panic!("no fetch"),
    }
    assert!(is_idle(access.refresh(&|_: &String| true)));
    assert!(is_idle(access.refresh(&|_: &String| false)));
    assert_eq!(access.get(), "Bearer first");
}

#[test]
fn fetched_token_takes_the_place_of_the_old_one() {
    let mut access = token();
    access.refresh(&|_: &String| true);
    access.finish_refresh(RefreshOutcome::Fetched("second".to_string()));
    assert_eq!(access.get(), "Bearer second");
    assert!(is_idle(access.refresh(&|_: &String| false)));
    assert!(!is_idle(access.refresh(&|_: &String| true)));
}

#[test]
fn failed_refresh_keeps_the_token_and_can_be_repeated() {
    for outcome in [RefreshOutcome::Failed("down".to_string()), RefreshOutcome::TimedOut] {
        let mut access = token();
        access.refresh(&|_: &String| true);
        access.finish_refresh(outcome);
        assert_eq!(access.get(), "Bearer first");
        assert!(!is_idle(access.refresh(&|_: &String| true)));
    }
}

#[test]
fn expiry_is_asked_of_the_held_token() {
    let first_has_expired = |token: &String| token == "first";
    let mut access = token();
    assert!(!is_idle(access.refresh(&first_has_expired)));
    access.finish_refresh(RefreshOutcome::Fetched("second".to_string()));
    assert!(is_idle(access.refresh(&first_has_expired)));
}

#[test]
fn one_of_several_calls_fetches() {
    let mut access = token();
    let fetches = [false, true, false, true, true]
        .iter()
        .filter(|expired| !is_idle(access.refresh(&|_: &String| **expired)))
        .count();
    assert_eq!(fetches, 1);
}
