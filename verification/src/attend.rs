//! Attending to an opened site as a state machine: log in, sign in for the day, read the
//! traffic, and gather what is reported of the round.

use crate::login::LoginState;
use crate::notes::{no_notes, note_views, one_note};
use crate::scheduler::{
    auto_login_plan, login_note, login_note_text, login_plan, LogLevel, LoginNote, LoginPlan,
};
use crate::signin::{signin_failure, SigninResult, SigninStatus, SigninView};
use crate::store::Site;
use crate::text::{
    contains_text, has_prefix, has_suffix, joined, sum_contains_its_parts, texts,
};
use crate::traffic::{or_unrecognised, SiteTraffic, TrafficView};
use vstd::prelude::*;

verus! {

/// What the logins of a round came to.
#[derive(Debug)]
pub struct Outcome {
    /// The sites that were logged in to.
    pub successful: Vec<String>,
    /// The sites that were not, and why.
    pub failed: Vec<(String, String)>,
    pub signins: Vec<(String, SigninResult)>,
    pub traffic: Vec<(String, SiteTraffic)>,
}

/// What an `Outcome` says.
#[verifier::ext_equal]
pub struct OutcomeView {
    pub successful: Seq<Seq<char>>,
    pub failed: Seq<(Seq<char>, Seq<char>)>,
    pub signins: Seq<(Seq<char>, SigninView)>,
    pub traffic: Seq<(Seq<char>, TrafficView)>,
}

impl View for Outcome {
    type V = OutcomeView;

    open spec fn view(&self) -> OutcomeView {
        OutcomeView {
            successful: texts(self.successful@),
            failed: self.failed@.map_values(|f: (String, String)| (f.0@, f.1@)),
            signins: self.signins@.map_values(|s: (String, SigninResult)| (s.0@, s.1@)),
            traffic: self.traffic@.map_values(|t: (String, SiteTraffic)| (t.0@, t.1@)),
        }
    }
}

impl OutcomeView {
    /// Nothing came of anything yet.
    pub open spec fn nothing() -> OutcomeView {
        OutcomeView {
            successful: Seq::empty(),
            failed: Seq::empty(),
            signins: Seq::empty(),
            traffic: Seq::empty(),
        }
    }

    /// This and then another one.
    pub open spec fn and(self, other: OutcomeView) -> OutcomeView {
        OutcomeView {
            successful: self.successful + other.successful,
            failed: self.failed + other.failed,
            signins: self.signins + other.signins,
            traffic: self.traffic + other.traffic,
        }
    }
}

impl Outcome {
    /// Nothing came of anything yet.
    pub fn nothing() -> (r: Outcome)
        ensures
            r@ == OutcomeView::nothing(),
    {
        let r: Outcome = Outcome {
            successful: Vec::new(),
            failed: Vec::new(),
            signins: Vec::new(),
            traffic: Vec::new(),
        };
        assert(r@ =~= OutcomeView::nothing());
        r
    }

    /// Takes in what came of another site.
    pub fn take(&mut self, other: Outcome)
        ensures
            final(self)@ == old(self)@.and(other@),
    {
        let ghost before = self@;
        let ghost more = other@;
        let mut rest: Outcome = other;
        self.successful.append(&mut rest.successful);
        self.failed.append(&mut rest.failed);
        self.signins.append(&mut rest.signins);
        self.traffic.append(&mut rest.traffic);
        assert(self@ =~= before.and(more));
    }
}

/// Where the attendance to a site stands.
#[derive(Debug, Clone, Copy, PartialEq, Eq, Structural)]
pub enum AttendPhase {
    LoggingIn,
    SigningIn,
    ReadingTraffic,
    Done,
}

/// What has to be done next.
#[derive(Debug, Clone, Copy, PartialEq, Eq, Structural)]
pub enum AttendAction {
    LogIn,
    SignIn,
    ReadTraffic,
    Finish,
    /// Nothing new: the action before is still to be answered.
    Keep,
}

/// What came of an action.
#[derive(Debug)]
pub enum AttendEvent {
    /// The login succeeded, or why it did not.
    Login(Result<LoginState, String>),
    /// The sign-in came to a result, or why it did not.
    Signin(Result<SigninResult, String>),
    /// The traffic, where it could be read.
    Traffic(Option<SiteTraffic>),
}

/// The attendance to a site.
#[derive(Debug)]
pub struct Attend {
    pub name: String,
    pub outcome: Outcome,
    pub phase: AttendPhase,
}

/// The state of an attendance.
#[verifier::ext_equal]
pub struct AttendModel {
    pub name: Seq<char>,
    pub outcome: OutcomeView,
    pub phase: AttendPhase,
}

impl View for Attend {
    type V = AttendModel;

    open spec fn view(&self) -> AttendModel {
        AttendModel { name: self.name@, outcome: self.outcome@, phase: self.phase }
    }
}

/// What is told and what is to be done.
#[derive(Debug)]
pub struct AttendTurn {
    pub notes: Vec<(LogLevel, String)>,
    pub action: AttendAction,
}

/// A state with what is told and what is to be done in it.
#[verifier::ext_equal]
pub struct AttendStep {
    pub state: AttendModel,
    pub notes: Seq<(LogLevel, Seq<char>)>,
    pub action: AttendAction,
}

/// What a state and a turn amount to.
pub open spec fn attend_step(state: AttendModel, turn: AttendTurn) -> AttendStep {
    AttendStep { state, notes: note_views(turn.notes@), action: turn.action }
}

/// What is told of a login that succeeded.
pub open spec fn state_note(state: LoginState) -> LoginNote {
    match state {
        LoginState::LoggedIn => LoginNote::LoggedIn,
        LoginState::AlreadyLoggedIn => LoginNote::AlreadyLoggedIn,
    }
}

/// Whether any traffic was recognised.
pub open spec fn shows_traffic(t: TrafficView) -> bool {
    t.upload is Some || t.download is Some || t.ratio is Some
}

/// Traffic in one line.
pub open spec fn traffic_line(t: TrafficView) -> Seq<char> {
    "上传 "@ + or_unrecognised(t.upload) + "，下载 "@ + or_unrecognised(t.download) + "，分享率 "@
        + or_unrecognised(t.ratio)
}

impl AttendModel {
    pub open spec fn step(
        self,
        phase: AttendPhase,
        notes: Seq<(LogLevel, Seq<char>)>,
        action: AttendAction,
    ) -> AttendStep {
        AttendStep { state: AttendModel { phase, ..self }, notes, action }
    }

    /// How an attendance begins, by what is planned for the login of the site.
    pub open spec fn begun(self, plan: LoginPlan) -> AttendStep {
        match plan {
            LoginPlan::Skip => self.step(AttendPhase::Done, Seq::empty(), AttendAction::Finish),
            LoginPlan::MissingCredentials => self.step(
                AttendPhase::Done,
                seq![login_note(self.name, LoginNote::MissingCredentials)],
                AttendAction::Finish,
            ),
            LoginPlan::Login(_) => self.step(
                AttendPhase::LoggingIn,
                Seq::empty(),
                AttendAction::LogIn,
            ),
        }
    }

    /// The state with a site that was logged in to.
    pub open spec fn with_success(self) -> AttendModel {
        AttendModel {
            outcome: OutcomeView {
                successful: self.outcome.successful.push(self.name),
                ..self.outcome
            },
            ..self
        }
    }

    pub open spec fn with_failure(self, reason: Seq<char>) -> AttendModel {
        AttendModel {
            outcome: OutcomeView {
                failed: self.outcome.failed.push((self.name, reason)),
                ..self.outcome
            },
            ..self
        }
    }

    pub open spec fn with_signin(self, v: SigninView) -> AttendModel {
        AttendModel {
            outcome: OutcomeView {
                signins: self.outcome.signins.push((self.name, v)),
                ..self.outcome
            },
            ..self
        }
    }

    pub open spec fn with_traffic(self, t: TrafficView) -> AttendModel {
        AttendModel {
            outcome: OutcomeView {
                traffic: self.outcome.traffic.push((self.name, t)),
                ..self.outcome
            },
            ..self
        }
    }

    /// The state after an event, what is told and what is to be done then. An event that the
    /// pending action cannot cause changes nothing.
    pub open spec fn next(self, event: AttendEvent) -> AttendStep {
        match (self.phase, event) {
            (AttendPhase::LoggingIn, AttendEvent::Login(Ok(state))) => self.with_success().step(
                AttendPhase::SigningIn,
                seq![login_note(self.name, state_note(state))],
                AttendAction::SignIn,
            ),
            (AttendPhase::LoggingIn, AttendEvent::Login(Err(e))) => self.with_failure(e@).step(
                AttendPhase::Done,
                seq![login_note(self.name, LoginNote::Failed(e))],
                AttendAction::Finish,
            ),
            (AttendPhase::SigningIn, AttendEvent::Signin(Ok(result))) => self.with_signin(
                result@,
            ).step(
                AttendPhase::ReadingTraffic,
                seq![
                    (LogLevel::Info, self.name + " "@ + joined(result@.summary_parts(), "，"@)),
                ],
                AttendAction::ReadTraffic,
            ),
            (AttendPhase::SigningIn, AttendEvent::Signin(Err(e))) => self.with_signin(
                signin_failure(e@),
            ).step(AttendPhase::ReadingTraffic, Seq::empty(), AttendAction::ReadTraffic),
            (AttendPhase::ReadingTraffic, AttendEvent::Traffic(Some(t))) => if shows_traffic(t@) {
                self.with_traffic(t@).step(
                    AttendPhase::Done,
                    seq![(LogLevel::Info, self.name + " "@ + traffic_line(t@))],
                    AttendAction::Finish,
                )
            } else {
                self.step(AttendPhase::Done, Seq::empty(), AttendAction::Finish)
            },
            (AttendPhase::ReadingTraffic, AttendEvent::Traffic(None)) => self.step(
                AttendPhase::Done,
                Seq::empty(),
                AttendAction::Finish,
            ),
            _ => AttendStep { state: self, notes: Seq::empty(), action: AttendAction::Keep },
        }
    }

    /// Whether `event` is of the kind that the pending action causes.
    pub open spec fn awaits(self, event: AttendEvent) -> bool {
        match self.phase {
            AttendPhase::LoggingIn => event is Login,
            AttendPhase::SigningIn => event is Signin,
            AttendPhase::ReadingTraffic => event is Traffic,
            AttendPhase::Done => false,
        }
    }

    /// How many actions can still follow.
    pub open spec fn steps_left(self) -> int {
        match self.phase {
            AttendPhase::LoggingIn => 3,
            AttendPhase::SigningIn => 2,
            AttendPhase::ReadingTraffic => 1,
            AttendPhase::Done => 0,
        }
    }

    /// What is gathered goes with how far the attendance has come.
    pub open spec fn well_formed(self) -> bool {
        let o = self.outcome;
        match self.phase {
            AttendPhase::LoggingIn => o == OutcomeView::nothing(),
            AttendPhase::SigningIn => o.successful == seq![self.name] && o.failed.len() == 0
                && o.signins.len() == 0 && o.traffic.len() == 0,
            AttendPhase::ReadingTraffic => o.successful == seq![self.name] && o.failed.len() == 0
                && o.signins.len() == 1 && o.traffic.len() == 0,
            AttendPhase::Done => if o.successful.len() > 0 {
                o.successful == seq![self.name] && o.failed.len() == 0 && o.signins.len() == 1
                    && o.traffic.len() <= 1
            } else {
                o.failed.len() <= 1 && o.signins.len() == 0 && o.traffic.len() == 0
            },
        }
    }
}

fn told(name: &str, note: LoginNote) -> (r: Vec<(LogLevel, String)>)
    ensures
        note_views(r@) == seq![login_note(name@, note)],
{
    let (level, text): (LogLevel, String) = login_note_text(name, &note);
    one_note(level, text)
}

fn named(name: &str, line: &str) -> (r: Vec<(LogLevel, String)>)
    ensures
        note_views(r@) == seq![(LogLevel::Info, name@ + " "@ + line@)],
{
    one_note(LogLevel::Info, name.to_string().concat(" ").concat(line))
}

impl Attend {
    fn go(&mut self, phase: AttendPhase, notes: Vec<(LogLevel, String)>, action: AttendAction) -> (r:
        AttendTurn)
        ensures
            attend_step(final(self)@, r) == old(self)@.step(phase, note_views(notes@), action),
    {
        self.phase = phase;
        AttendTurn { notes, action }
    }

    /// The attendance to a site that was opened, and what to do first.
    pub fn begin(site: &Site) -> (r: (Attend, AttendTurn))
        ensures
            attend_step(r.0@, r.1) == (AttendModel {
                name: site@.name,
                outcome: OutcomeView::nothing(),
                phase: AttendPhase::LoggingIn,
            }).begun(login_plan(site@)),
            r.0@.well_formed(),
    {
        let mut a: Attend = Attend {
            name: site.name.clone(),
            outcome: Outcome::nothing(),
            phase: AttendPhase::LoggingIn,
        };
        let turn: AttendTurn = match auto_login_plan(site) {
            LoginPlan::Skip => a.go(AttendPhase::Done, no_notes(), AttendAction::Finish),
            LoginPlan::MissingCredentials => {
                let notes: Vec<(LogLevel, String)> = told(
                    a.name.as_str(),
                    LoginNote::MissingCredentials,
                );
                a.go(AttendPhase::Done, notes, AttendAction::Finish)
            },
            LoginPlan::Login(_) => a.go(AttendPhase::LoggingIn, no_notes(), AttendAction::LogIn),
        };
        (a, turn)
    }

    fn add_signin(&mut self, result: SigninResult)
        ensures
            final(self)@ == old(self)@.with_signin(result@),
    {
        let ghost before = self@;
        let ghost view = result@;
        self.outcome.signins.push((self.name.clone(), result));
        assert(self@ =~~= before.with_signin(view));
    }

    fn logged_in(&mut self, result: Result<LoginState, String>) -> (r: AttendTurn)
        requires
            old(self)@.phase == AttendPhase::LoggingIn,
        ensures
            attend_step(final(self)@, r) == old(self)@.next(AttendEvent::Login(result)),
    {
        let ghost before = self@;
        match result {
            Ok(state) => {
                self.outcome.successful.push(self.name.clone());
                assert(self@ =~~= before.with_success());
                let note: LoginNote = match state {
                    LoginState::LoggedIn => LoginNote::LoggedIn,
                    LoginState::AlreadyLoggedIn => LoginNote::AlreadyLoggedIn,
                };
                let notes: Vec<(LogLevel, String)> = told(self.name.as_str(), note);
                self.go(AttendPhase::SigningIn, notes, AttendAction::SignIn)
            },
            Err(e) => {
                let ghost reason = e@;
                self.outcome.failed.push((self.name.clone(), e.clone()));
                assert(self@ =~~= before.with_failure(reason));
                let notes: Vec<(LogLevel, String)> = told(self.name.as_str(), LoginNote::Failed(e));
                self.go(AttendPhase::Done, notes, AttendAction::Finish)
            },
        }
    }

    fn signed_in(&mut self, result: Result<SigninResult, String>) -> (r: AttendTurn)
        requires
            old(self)@.phase == AttendPhase::SigningIn,
        ensures
            attend_step(final(self)@, r) == old(self)@.next(AttendEvent::Signin(result)),
    {
        match result {
            Ok(result) => {
                let notes: Vec<(LogLevel, String)> = named(
                    self.name.as_str(),
                    result.summary().as_str(),
                );
                self.add_signin(result);
                self.go(AttendPhase::ReadingTraffic, notes, AttendAction::ReadTraffic)
            },
            Err(e) => {
                self.add_signin(SigninResult::failure(e.as_str()));
                self.go(AttendPhase::ReadingTraffic, no_notes(), AttendAction::ReadTraffic)
            },
        }
    }

    fn traffic_read(&mut self, traffic: Option<SiteTraffic>) -> (r: AttendTurn)
        requires
            old(self)@.phase == AttendPhase::ReadingTraffic,
        ensures
            attend_step(final(self)@, r) == old(self)@.next(AttendEvent::Traffic(traffic)),
    {
        let ghost before = self@;
        if let Some(t) = traffic {
            if t.available() {
                let notes: Vec<(LogLevel, String)> = named(
                    self.name.as_str(),
                    t.summary().as_str(),
                );
                let ghost view = t@;
                self.outcome.traffic.push((self.name.clone(), t));
                assert(self@ =~~= before.with_traffic(view));
                return self.go(AttendPhase::Done, notes, AttendAction::Finish);
            }
        }
        self.go(AttendPhase::Done, no_notes(), AttendAction::Finish)
    }

    /// Takes in what came of an action and tells what to do next.
    pub fn advance(&mut self, event: AttendEvent) -> (r: AttendTurn)
        ensures
            attend_step(final(self)@, r) == old(self)@.next(event),
    {
        match (self.phase, event) {
            (AttendPhase::LoggingIn, AttendEvent::Login(result)) => self.logged_in(result),
            (AttendPhase::SigningIn, AttendEvent::Signin(result)) => self.signed_in(result),
            (AttendPhase::ReadingTraffic, AttendEvent::Traffic(t)) => self.traffic_read(t),
            _ => AttendTurn { notes: no_notes(), action: AttendAction::Keep },
        }
    }
}

/// Every answered action brings an attendance closer to its end, and what is gathered stays
/// in step with it: a site is reported as logged in to or as failed, never as both, and only
/// a site that was logged in to has a sign-in and traffic.
pub proof fn attendance_ends(s: AttendModel, event: AttendEvent)
    requires
        s.well_formed(),
        s.awaits(event),
    ensures
        s.next(event).state.well_formed(),
        0 <= s.next(event).state.steps_left() < s.steps_left(),
        s.next(event).action is Finish <==> s.next(event).state.phase is Done,
{
}

/// A site is signed in to only after its login succeeded, and its traffic is read only after
/// the sign-in.
pub proof fn attendance_keeps_its_order(s: AttendModel, event: AttendEvent)
    ensures
        s.next(event).action is SignIn ==> (event matches AttendEvent::Login(l) && l is Ok),
        s.next(event).action is ReadTraffic ==> event is Signin && s.phase is SigningIn,
{
}

/// Every answer is kept under the name of the site: a login as done or failed with its reason,
/// a sign-in with its result or as failed with its reason, and traffic where some was read;
/// nothing else of the outcome changes.
pub proof fn attendance_keeps_what_came(s: AttendModel, event: AttendEvent)
    requires
        s.awaits(event),
    ensures
        ({
            let o = s.outcome;
            let after = s.next(event).state;
            let n = after.outcome;
            &&& after.name == s.name
            &&& n.successful == (if event matches AttendEvent::Login(l) && l is Ok {
                o.successful.push(s.name)
            } else {
                o.successful
            })
            &&& n.failed == (match event {
                AttendEvent::Login(Err(e)) => o.failed.push((s.name, e@)),
                _ => o.failed,
            })
            &&& event is Signin ==> n.signins.len() == o.signins.len() + 1
                && n.signins.drop_last() == o.signins && n.signins.last().0 == s.name
            &&& !(event is Signin) ==> n.signins == o.signins
            &&& (event matches AttendEvent::Signin(Ok(r)) ==> n.signins.last().1 == r@)
            &&& (event matches AttendEvent::Signin(Err(e)) ==> n.signins.last().1.status
                == SigninStatus::Failed && n.signins.last().1.message == e@)
            &&& n.traffic == (match event {
                AttendEvent::Traffic(Some(t)) => if t@.upload is Some || t@.download is Some
                    || t@.ratio is Some {
                    o.traffic.push((s.name, t@))
                } else {
                    o.traffic
                },
                _ => o.traffic,
            })
        }),
{
    let n = s.next(event).state.outcome;
    if event is Signin {
        assert(n.signins.drop_last() =~= s.outcome.signins);
    }
}

/// A site that was logged in to is signed in and its traffic read, whatever comes of these;
/// only a login that failed leaves them out.
pub proof fn attendance_goes_its_way(s: AttendModel, event: AttendEvent)
    requires
        s.awaits(event),
    ensures
        ({
            let action = s.next(event).action;
            &&& action is SignIn <==> (event matches AttendEvent::Login(l) && l is Ok)
            &&& action is ReadTraffic <==> event is Signin
            &&& action is Finish <==> event is Traffic || (event matches AttendEvent::Login(l)
                && l is Err)
            &&& !(action is LogIn)
        }),
{
}

/// A site is logged in to exactly where its plan says so.
pub proof fn attendance_begins_with_the_login(s: AttendModel, plan: LoginPlan)
    ensures
        s.begun(plan).action is LogIn <==> plan is Login,
        s.begun(plan).action is Finish <==> !(plan is Login),
        s.begun(plan).notes.len() == (if plan is MissingCredentials {
            1int
        } else {
            0
        }),
        s.begun(plan).state.outcome == s.outcome,
        s.begun(plan).state.name == s.name,
{
}

/// What two outcomes come to together is all of the first and then all of the second.
pub proof fn outcomes_are_gathered(a: OutcomeView, b: OutcomeView, i: int)
    ensures
        ({
            let c = a.and(b);
            &&& c.successful.len() == a.successful.len() + b.successful.len()
            &&& c.failed.len() == a.failed.len() + b.failed.len()
            &&& c.signins.len() == a.signins.len() + b.signins.len()
            &&& c.traffic.len() == a.traffic.len() + b.traffic.len()
            &&& 0 <= i < a.successful.len() ==> c.successful[i] == a.successful[i]
            &&& 0 <= i < b.successful.len() ==> c.successful[a.successful.len() + i]
                == b.successful[i]
            &&& 0 <= i < a.failed.len() ==> c.failed[i] == a.failed[i]
            &&& 0 <= i < b.failed.len() ==> c.failed[a.failed.len() + i] == b.failed[i]
            &&& 0 <= i < a.signins.len() ==> c.signins[i] == a.signins[i]
            &&& 0 <= i < b.signins.len() ==> c.signins[a.signins.len() + i] == b.signins[i]
            &&& 0 <= i < a.traffic.len() ==> c.traffic[i] == a.traffic[i]
            &&& 0 <= i < b.traffic.len() ==> c.traffic[a.traffic.len() + i] == b.traffic[i]
        }),
{
}

/// What is told of a login tells what came of it: done anew as a success, done before as a
/// mere fact, failed as an error with its reason.
pub proof fn attendance_tells_the_login(s: AttendModel, event: AttendEvent)
    requires
        s.phase is LoggingIn,
        event is Login,
    ensures
        ({
            let note = s.next(event).notes[0];
            &&& s.next(event).notes.len() == 1
            &&& has_prefix(note.1, s.name)
            &&& note.0 == LogLevel::Success <==> event == AttendEvent::Login(Ok(LoginState::LoggedIn))
            &&& note.0 == LogLevel::Info <==> event == AttendEvent::Login(
                Ok(LoginState::AlreadyLoggedIn),
            )
            &&& note.0 == LogLevel::Error <==> event->Login_0 is Err
            &&& event matches AttendEvent::Login(Err(e)) ==> has_suffix(note.1, e@)
        }),
{
    let name = s.name;
    match event {
        AttendEvent::Login(Ok(LoginState::LoggedIn)) => {
            sum_contains_its_parts(name, " 自动登录成功"@, Seq::empty());
            assert(name + " 自动登录成功"@ + Seq::<char>::empty() =~= name + " 自动登录成功"@);
        },
        AttendEvent::Login(Ok(LoginState::AlreadyLoggedIn)) => {
            sum_contains_its_parts(name, " 已处于登录状态"@, Seq::empty());
            assert(name + " 已处于登录状态"@ + Seq::<char>::empty() =~= name
                + " 已处于登录状态"@);
        },
        AttendEvent::Login(Err(e)) => {
            sum_contains_its_parts(name, " 自动登录失败："@, e@);
        },
        _ => {},
    }
}

/// The line on traffic tells the upload, the download and the ratio, each as such.
pub proof fn traffic_line_tells_each(t: TrafficView)
    ensures
        has_prefix(traffic_line(t), "上传 "@ + or_unrecognised(t.upload)),
        contains_text(traffic_line(t), "，下载 "@ + or_unrecognised(t.download)),
        has_suffix(traffic_line(t), "，分享率 "@ + or_unrecognised(t.ratio)),
        t.upload matches Some(x) ==> or_unrecognised(t.upload) == x,
        t.download matches Some(x) ==> or_unrecognised(t.download) == x,
        t.ratio matches Some(x) ==> or_unrecognised(t.ratio) == x,
{
    let a = "上传 "@ + or_unrecognised(t.upload);
    let b = "，下载 "@ + or_unrecognised(t.download);
    let c = "，分享率 "@ + or_unrecognised(t.ratio);
    assert(traffic_line(t) =~= a + b + c);
    sum_contains_its_parts(a, b, c);
}

} // verus!
