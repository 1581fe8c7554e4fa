//! A typestate connection `Connection<Closed -> Open -> Authenticated>`.
//!
//! Every method that needs an authenticated connection (such as `query`)
//! exists only on `Connection<Authenticated>`, so calling it in another state
//! does not compile. Transitions consume the old state and return the new one.

use std::marker::PhantomData;
use vstd::prelude::*;

verus! {

/// What a state marker says of the connections in its state.
pub trait ConnectionState {
    /// Whether a connection in this state has a logged-in user.
    spec fn logged_in() -> bool;
}

/// State marker: not connected.
#[derive(Debug, Clone, Copy, PartialEq, Eq)]
pub struct Closed;

/// State marker: connected, not logged in.
#[derive(Debug, Clone, Copy, PartialEq, Eq)]
pub struct Open;

/// State marker: connected and logged in.
#[derive(Debug, Clone, Copy, PartialEq, Eq)]
pub struct Authenticated;

impl ConnectionState for Closed {
    open spec fn logged_in() -> bool {
        false
    }
}

impl ConnectionState for Open {
    open spec fn logged_in() -> bool {
        false
    }
}

impl ConnectionState for Authenticated {
    open spec fn logged_in() -> bool {
        true
    }
}

/// A connection in state `S`. Holds the host and, in `Authenticated` (and
/// only there), the logged-in user name.
#[derive(Debug)]
pub struct Connection<S: ConnectionState> {
    host: String,
    user: Option<String>,
    _state: PhantomData<S>,
}

impl<S: ConnectionState> Connection<S> {
    /// A user name is held exactly in the states that are logged in.
    #[verifier::type_invariant]
    spec fn user_matches_state(self) -> bool {
        self.user is Some <==> S::logged_in()
    }
}

/// What a connection holds, by value.
#[verifier::ext_equal]
pub struct ConnectionView {
    pub host: Seq<char>,
    pub user: Option<Seq<char>>,
}

impl<S: ConnectionState> Clone for Connection<S> {
    fn clone(&self) -> (c: Self)
        ensures
            c@ == self@,
    {
        proof {
            use_type_invariant(self);
        }
        let user = match &self.user {
            Some(u) => Some(u.clone()),
            None => None,
        };
        Connection { host: self.host.clone(), user, _state: PhantomData }
    }
}

impl<S: ConnectionState> View for Connection<S> {
    type V = ConnectionView;

    /// The host, and the user name of a logged-in state (`None` in the
    /// others). The type invariant keeps the `user` field `Some` exactly in
    /// the logged-in states, so this is the field as it stands.
    closed spec fn view(&self) -> ConnectionView {
        ConnectionView {
            host: self.host@,
            user: if S::logged_in() {
                Some(
                    match self.user {
                        Some(u) => u@,
                        None => Seq::empty(),
                    },
                )
            } else {
                None
            },
        }
    }
}

/// The row that a query answers: `[{user}@{host}] {sql} → 1 row`, with `?`
/// for a missing user.
pub open spec fn query_row(user: Option<Seq<char>>, host: Seq<char>, sql: Seq<char>) -> Seq<char> {
    let who = match user {
        Some(u) => u,
        None => "?"@,
    };
    "["@ + who + "@"@ + host + "] "@ + sql + " \u{2192} 1 row"@
}

/// A state transition, with the arguments it takes.
pub enum Transition {
    Open,
    Close,
    Authenticate { user: Seq<char>, password: Seq<char> },
    Logout,
}

/// What a connection holds after `t`: every transition keeps the host; a
/// login with a non-empty password records the user, one with an empty
/// password changes nothing; the others leave no user.
pub open spec fn after(v: ConnectionView, t: Transition) -> ConnectionView {
    match t {
        Transition::Authenticate { user, password } => if password.len() == 0 {
            v
        } else {
            ConnectionView { host: v.host, user: Some(user) }
        },
        _ => ConnectionView { host: v.host, user: None },
    }
}

/// What a connection holds after the transitions `ts`, in order.
pub open spec fn after_all(v: ConnectionView, ts: Seq<Transition>) -> ConnectionView
    decreases ts.len(),
{
    if ts.len() == 0 {
        v
    } else {
        after(after_all(v, ts.drop_last()), ts.last())
    }
}

impl<S: ConnectionState> Connection<S> {
    /// The host, available in every state.
    pub fn host(&self) -> (h: &str)
        ensures
            h@ == self@.host,
    {
        self.host.as_str()
    }

    /// The same host in state `T`, with `user` as the user name.
    fn into_state<T: ConnectionState>(self, user: Option<String>) -> (c: Connection<T>)
        requires
            user is Some <==> T::logged_in(),
        ensures
            c@.host == self@.host,
            T::logged_in() ==> c@.user == Some(user.unwrap()@),
    {
        Connection { host: self.host, user, _state: PhantomData }
    }
}

impl Connection<Closed> {
    /// Build a closed connection for the given host. This is the only
    /// constructor: every other state is reached by a transition.
    pub fn new(host: &str) -> (c: Self)
        ensures
            c@ == (ConnectionView { host: host@, user: None }),
    {
        Connection { host: host.to_string(), user: None, _state: PhantomData }
    }

    /// Transition `Closed → Open`, keeping the host.
    pub fn open(self) -> (c: Connection<Open>)
        ensures
            c@ == after(self@, Transition::Open),
    {
        self.into_state(None)
    }
}

impl Connection<Open> {
    /// Transition `Open → Authenticated`. An empty password is refused and
    /// hands back this connection unchanged, so the caller can retry; any
    /// other password logs `user` in.
    pub fn authenticate(self, user: &str, password: &str) -> (r: Result<Connection<Authenticated>, Self>)
        ensures
            password@.len() == 0 <==> r is Err,
            r matches Err(c) ==> c@ == after(self@, Transition::Authenticate { user: user@, password: password@ }),
            r matches Ok(c) ==> c@ == after(self@, Transition::Authenticate { user: user@, password: password@ }),
    {
        if password.is_empty() {
            return Err(self);
        }
        Ok(self.into_state(Some(user.to_string())))
    }

    /// Transition `Open → Closed`, keeping the host.
    pub fn close(self) -> (c: Connection<Closed>)
        ensures
            c@ == after(self@, Transition::Close),
    {
        self.into_state(None)
    }
}

impl Connection<Authenticated> {
    /// Run a query; it answers `[{user}@{host}] {sql} → 1 row`. This method
    /// exists only on `Connection<Authenticated>`.
    pub fn query(&self, sql: &str) -> (row: String)
        ensures
            row@ == query_row(self@.user, self@.host, sql@),
    {
        proof {
            use_type_invariant(self);
        }
        let mut row = String::from_str("[");
        match &self.user {
            Some(u) => row.append(u.as_str()),
            None => row.append("?"),
        }
        row.append("@");
        row.append(self.host.as_str());
        row.append("] ");
        row.append(sql);
        row.append(" \u{2192} 1 row");
        row
    }

    /// Logout: back to `Open`, with the user wiped.
    pub fn logout(self) -> (c: Connection<Open>)
        ensures
            c@ == after(self@, Transition::Logout),
    {
        self.into_state(None)
    }
}

/// A connection holds a user name exactly in a logged-in state: none in
/// `Closed` or `Open`, one in `Authenticated`.
pub proof fn law_user_matches_state<S: ConnectionState>(c: Connection<S>)
    ensures
        c@.user is Some <==> S::logged_in(),
{
}

/// An authenticated connection answers a query with its user's name, whole
/// and unchanged, between `[` and `@`: the row is
/// `[{user}@{host}] {sql} → 1 row`, and a `?` never stands for a user.
pub proof fn law_query_names_the_user(c: Connection<Authenticated>, sql: Seq<char>)
    ensures
        c@.user is Some,
        query_row(c@.user, c@.host, sql) == "["@ + c@.user->0 + "@"@ + c@.host + "] "@ + sql
            + " \u{2192} 1 row"@,
        query_row(c@.user, c@.host, sql).subrange(1, 1 + c@.user->0.len() as int) == c@.user->0,
{
    reveal_strlit("[");
    let row = query_row(c@.user, c@.host, sql);
    let u = c@.user->0;
    assert(row.subrange(1, 1 + u.len() as int) =~= u);
}

/// Logging in as `user` with a non-empty password and querying answers a row
/// that names exactly that user and the connection's host.
pub proof fn law_login_then_query(o: Connection<Open>, user: Seq<char>, password: Seq<char>, sql: Seq<char>)
    requires
        password.len() > 0,
    ensures
        ({
            let c = after(o@, Transition::Authenticate { user, password });
            query_row(c.user, c.host, sql) == "["@ + user + "@"@ + o@.host + "] "@ + sql
                + " \u{2192} 1 row"@
        }),
{
}

/// Closing an open connection and opening it again gives back what it held.
pub proof fn law_close_open_round_trip(o: Connection<Open>)
    ensures
        after(after(o@, Transition::Close), Transition::Open) == o@,
{
}

/// Opening a closed connection and closing it again gives back what it held.
pub proof fn law_open_close_round_trip(c: Connection<Closed>)
    ensures
        after(after(c@, Transition::Open), Transition::Close) == c@,
{
}

/// Logging in (with any password) and logging out again gives back what the
/// open connection held: the user name is wiped.
pub proof fn law_login_logout_round_trip(o: Connection<Open>, user: Seq<char>, password: Seq<char>)
    ensures
        after(after(o@, Transition::Authenticate { user, password }), Transition::Logout) == o@,
{
}

/// The host survives any sequence of transitions.
pub proof fn law_host_survives(v: ConnectionView, ts: Seq<Transition>)
    ensures
        after_all(v, ts).host == v.host,
    decreases ts.len(),
{
    if ts.len() > 0 {
        law_host_survives(v, ts.drop_last());
    }
}

/// Outcome of one full walk through the states, one variant for each arm.
#[derive(Debug, PartialEq, Eq)]
pub enum WalkOutcome {
    /// The empty password was refused, the real one accepted, and the query
    /// answered this row.
    Success(String),
    /// The "empty" password was accepted: it was not empty.
    EmptyPasswordAccepted,
    /// The real password was refused: it was empty.
    RealPasswordRejected,
}

/// A [`WalkOutcome`] with its row taken by value.
pub enum WalkOutcomeView {
    Success(Seq<char>),
    EmptyPasswordAccepted,
    RealPasswordRejected,
}

impl View for WalkOutcome {
    type V = WalkOutcomeView;

    open spec fn view(&self) -> WalkOutcomeView {
        match self {
            WalkOutcome::Success(row) => WalkOutcomeView::Success(row@),
            WalkOutcome::EmptyPasswordAccepted => WalkOutcomeView::EmptyPasswordAccepted,
            WalkOutcome::RealPasswordRejected => WalkOutcomeView::RealPasswordRejected,
        }
    }
}

/// The query that [`walk`] runs once logged in.
pub open spec fn walk_sql() -> Seq<char> {
    "SELECT * FROM users WHERE id = 1"@
}

/// What [`walk`] answers.
pub open spec fn walk_spec(host: Seq<char>, user: Seq<char>, empty_pw: Seq<char>, real_pw: Seq<char>) -> WalkOutcomeView {
    if empty_pw.len() != 0 {
        WalkOutcomeView::EmptyPasswordAccepted
    } else if real_pw.len() == 0 {
        WalkOutcomeView::RealPasswordRejected
    } else {
        WalkOutcomeView::Success(query_row(Some(user), host, walk_sql()))
    }
}

/// Walk the whole state machine: open a connection to `host`, try to log in
/// with `empty_pw` (which must fail), then with `real_pw` (which must
/// succeed), run one query, log out and close; report which arm was taken.
pub fn walk(host: &str, user: &str, empty_pw: &str, real_pw: &str) -> (r: WalkOutcome)
    ensures
        r@ == walk_spec(host@, user@, empty_pw@, real_pw@),
{
    let closed = Connection::<Closed>::new(host);
    let open = closed.open();

    let recovered = match open.authenticate(user, empty_pw) {
        Ok(_) => return WalkOutcome::EmptyPasswordAccepted,
        Err(open_again) => open_again,
    };

    let auth = match recovered.authenticate(user, real_pw) {
        Ok(a) => a,
        Err(_) => return WalkOutcome::RealPasswordRejected,
    };

    let row = auth.query("SELECT * FROM users WHERE id = 1");
    let _closed_again = auth.logout().close();
    WalkOutcome::Success(row)
}

/// A walk ends in the first arm whose login goes the wrong way: the first
/// login (with `empty_pw`) must be refused, which happens exactly when that
/// password is empty, and the second (with `real_pw`) accepted, exactly when it
/// is not; a walk that gets through answers the row naming `user` and `host`.
pub proof fn law_walk_outcome(host: Seq<char>, user: Seq<char>, empty_pw: Seq<char>, real_pw: Seq<char>)
    ensures
        (walk_spec(host, user, empty_pw, real_pw) is EmptyPasswordAccepted) <==> empty_pw.len() > 0,
        (walk_spec(host, user, empty_pw, real_pw) is RealPasswordRejected) <==> (empty_pw.len() == 0
            && real_pw.len() == 0),
        walk_spec(host, user, empty_pw, real_pw) matches WalkOutcomeView::Success(row) ==> row == "["@
            + user + "@"@ + host + "] "@ + walk_sql() + " \u{2192} 1 row"@,
{
}

/// The line that [`run`] returns.
pub open spec fn run_marker() -> Seq<char> {
    "contract: typestate Connection<Closed \u{2192} Open \u{2192} Authenticated> compiled-checks held \u{2014} OK"@
}

/// The row of the demo walk.
pub open spec fn demo_row() -> Seq<char> {
    "[noah@db.paiml.com] SELECT * FROM users WHERE id = 1 \u{2192} 1 row"@
}

/// Demo: walk the state machine once with a good password and return the
/// marker line. The walk ends in the expected row, which the proof shows.
pub fn run() -> (line: String)
    ensures
        line@ == run_marker(),
{
    let outcome = walk("db.paiml.com", "noah", "", "hunter2");
    proof {
        reveal_strlit("");
        reveal_strlit("hunter2");
        reveal_strlit("noah");
        reveal_strlit("db.paiml.com");
        reveal_strlit("SELECT * FROM users WHERE id = 1");
        reveal_strlit("[");
        reveal_strlit("@");
        reveal_strlit("] ");
        reveal_strlit(" \u{2192} 1 row");
        reveal_strlit("[noah@db.paiml.com] SELECT * FROM users WHERE id = 1 \u{2192} 1 row");
        assert(query_row(Some("noah"@), "db.paiml.com"@, walk_sql()) =~= demo_row());
        assert(outcome@ == WalkOutcomeView::Success(demo_row()));
    }
    String::from_str("contract: typestate Connection<Closed \u{2192} Open \u{2192} Authenticated> compiled-checks held \u{2014} OK")
}

} // verus!
