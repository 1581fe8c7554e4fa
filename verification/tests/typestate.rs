use provable_contracts::typestate::{run, walk, Closed, Connection, WalkOutcome};

#[test]
fn new_connection_starts_closed_with_host() {
    let c = Connection::<Closed>::new("h");
    assert_eq!(c.host(), "h");
}

#[test]
fn open_transitions_from_closed_preserving_host() {
    let c = Connection::<Closed>::new("h").open();
    assert_eq!(c.host(), "h");
}

#[test]
fn authenticate_succeeds_with_nonempty_password() {
    let c = Connection::<Closed>::new("h").open();
    let auth = c.authenticate("u", "pw").expect("nonempty pw → Ok");
    assert_eq!(auth.host(), "h");
}

#[test]
fn authenticate_fails_with_empty_password_returns_open() {
    let c = Connection::<Closed>::new("h").open();
    let err = c.authenticate("u", "").expect_err("empty pw → Err");
    // Recovered Open connection still usable.
    assert_eq!(err.host(), "h");
}

#[test]
fn query_only_compiles_for_authenticated() {
    let auth = Connection::<Closed>::new("h")
        .open()
        .authenticate("u", "pw")
        .unwrap();
    let row = auth.query("SELECT 1");
    assert!(row.contains("u@h"));
    assert!(row.contains("SELECT 1"));
}

#[test]
fn logout_returns_to_open_and_wipes_user() {
    let auth = Connection::<Closed>::new("h")
        .open()
        .authenticate("u", "pw")
        .unwrap();
    let open = auth.logout();
    // Re-authing returns a fresh Authenticated.
    let reauth = open.authenticate("v", "pw").unwrap();
    let row = reauth.query("Q");
    assert!(row.contains("v@h"));
    assert!(!row.contains("u@h"));
}

#[test]
fn close_returns_to_closed_state() {
    let closed = Connection::<Closed>::new("h").open().close();
    assert_eq!(closed.host(), "h");
    // Re-opening produces an Open in the expected host.
    assert_eq!(closed.open().host(), "h");
}

#[test]
fn query_formats_user_and_host_correctly() {
    let auth = Connection::<Closed>::new("primary.db.local")
        .open()
        .authenticate("admin", "secret")
        .unwrap();
    let row = auth.query("DELETE FROM logs");
    assert_eq!(row, "[admin@primary.db.local] DELETE FROM logs → 1 row");
}

#[test]
fn lib_run_returns_success_marker() {
    let line = run();
    assert!(line.contains("typestate Connection"));
    assert!(line.contains("Closed → Open → Authenticated"));
    assert!(line.contains("OK"));
}

#[test]
fn walk_happy_path_returns_ok_row() {
    assert_eq!(
        walk("h", "u", "", "pw"),
        WalkOutcome::Success("[u@h] SELECT * FROM users WHERE id = 1 → 1 row".to_string())
    );
}

#[test]
fn walk_empty_password_accepted_is_a_contract_break() {
    assert_eq!(
        walk("h", "u", "actually-not-empty", "pw"),
        WalkOutcome::EmptyPasswordAccepted
    );
}

#[test]
fn walk_real_password_rejected_is_a_contract_break() {
    assert_eq!(walk("h", "u", "", ""), WalkOutcome::RealPasswordRejected);
}

#[test]
fn refused_login_hands_back_the_same_connection() {
    let open = Connection::<Closed>::new("db").open();
    let again = open.authenticate("u", "").expect_err("empty pw → Err");
    let auth = again.authenticate("w", "x").unwrap();
    assert_eq!(auth.host(), "db");
    assert_eq!(auth.query(""), "[w@db]  → 1 row");
}

#[test]
fn host_survives_every_transition() {
    let c = Connection::<Closed>::new("example.org");
    let o = c.open();
    let a = o.authenticate("me", "pw").unwrap();
    assert_eq!(a.host(), "example.org");
    let o2 = a.logout();
    assert_eq!(o2.host(), "example.org");
    let c2 = o2.close();
    assert_eq!(c2.host(), "example.org");
    let cloned = c2.clone();
    assert_eq!(cloned.host(), "example.org");
}

#[test]
fn typestate_run_returns_the_whole_marker_line() {
    assert_eq!(
        run(),
        "contract: typestate Connection<Closed → Open → Authenticated> compiled-checks held — OK"
    );
}

#[test]
fn close_then_open_and_open_then_close_keep_the_connection() {
    let open = Connection::<Closed>::new("db.local").open();
    let again = open.close().open();
    assert_eq!(again.host(), "db.local");
    assert_eq!(format!("{again:?}"), format!("{:?}", Connection::<Closed>::new("db.local").open()));
    let closed = Connection::<Closed>::new("db.local");
    let closed_again = closed.clone().open().close();
    assert_eq!(format!("{closed_again:?}"), format!("{closed:?}"));
}

#[test]
fn login_then_logout_wipes_the_user() {
    let open = Connection::<Closed>::new("h").open();
    let before = format!("{open:?}");
    let after = open.authenticate("someone", "pw").unwrap().logout();
    assert_eq!(format!("{after:?}"), before);
    assert!(!format!("{after:?}").contains("someone"));
}
