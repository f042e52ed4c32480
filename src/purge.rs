use vstd::prelude::*;
use vstd::string::*;

use crate::error::{Error, ErrorView};
use crate::paths::{
    home_candidate_paths, home_candidates, keep_present, kept, lower_of, system_candidate_paths,
    system_candidates,
};
use crate::lookup::which_path;
use crate::utils::{ends_with, first_token, isolate_exec};

verus! {

/// Locates executables and starts the removal of an application.
pub struct AppPurger;

/// The search for, and removal of, the data directories of one application.
pub struct AppPurgeProcess {
    app: String,
    headless: bool,
}

/// The position of a purge session in its sequence of steps.
#[derive(Debug, Clone, Copy, PartialEq, Eq, Structural)]
pub enum Stage {
    /// The resolved executable is to be removed.
    Executable,
    /// The descriptor file is to be removed.
    Entry,
    /// The existence of the candidate at this index is to be checked.
    Probe(usize),
    /// The candidate at this index exists and is to be offered for deletion.
    Offer(usize),
    /// The candidate at this index was confirmed and is to be removed.
    Remove(usize),
    /// Every step is done.
    Completed,
}

/// What a purge session asks its driver to do next.
#[derive(Debug, Clone, PartialEq, Eq)]
pub enum Action {
    /// Remove the file at this path, then report with `on_removed`.
    RemoveFile(String),
    /// Tell whether this path exists, with `on_probed`.
    CheckExists(String),
    /// Ask whether this directory may be deleted, then answer with `on_confirmed`.
    Confirm(String),
    /// Remove this directory tree, then report with `on_removed`.
    RemoveDir(String),
    /// Nothing is left to do.
    Finish,
}

/// One line of a purge report.
#[derive(Debug, Clone, PartialEq, Eq)]
pub enum Outcome {
    /// The file or directory at this path was removed.
    Removed(String),
    /// The candidate at this path existed and was not deleted: the confirmation
    /// declined it, or the session asks for no confirmation.
    Declined(String),
    /// A step failed.
    Failed(Error),
}

/// `Action` with its paths as character sequences.
pub enum ActionView {
    RemoveFile(Seq<char>),
    CheckExists(Seq<char>),
    Confirm(Seq<char>),
    RemoveDir(Seq<char>),
    Finish,
}

/// `Outcome` with its paths as character sequences.
pub enum OutcomeView {
    Removed(Seq<char>),
    Declined(Seq<char>),
    Failed(ErrorView),
}

impl DeepView for Action {
    type V = ActionView;

    open spec fn deep_view(&self) -> ActionView {
        match self {
            Action::RemoveFile(p) => ActionView::RemoveFile(p@),
            Action::CheckExists(p) => ActionView::CheckExists(p@),
            Action::Confirm(p) => ActionView::Confirm(p@),
            Action::RemoveDir(p) => ActionView::RemoveDir(p@),
            Action::Finish => ActionView::Finish,
        }
    }
}

impl DeepView for Outcome {
    type V = OutcomeView;

    open spec fn deep_view(&self) -> OutcomeView {
        match self {
            Outcome::Removed(p) => OutcomeView::Removed(p@),
            Outcome::Declined(p) => OutcomeView::Declined(p@),
            Outcome::Failed(e) => OutcomeView::Failed(e.deep_view()),
        }
    }
}

/// The state of a purge session.
pub struct SessionModel {
    /// The resolved executable, when there is one to remove.
    pub exec_path: Option<Seq<char>>,
    /// The descriptor file, when there is one to remove.
    pub entry_path: Option<Seq<char>>,
    /// Every candidate data path, system-wide ones first, in search order.
    pub candidates: Seq<Seq<char>>,
    /// Whether existing candidates are left alone without asking.
    pub headless: bool,
    /// The step the session is at.
    pub stage: Stage,
    /// What has happened so far, in order.
    pub report: Seq<OutcomeView>,
}

/// The candidate data paths of an application named `app`: the system-wide
/// ones, then, when the home directory is known, the home-relative ones.
pub open spec fn all_candidates(app: Seq<char>, home: Option<Seq<char>>) -> Seq<Seq<char>> {
    system_candidates(lower_of(app)) + match home {
        Some(h) => home_candidates(h, app),
        None => Seq::empty(),
    }
}

/// The report lines known when a session starts: a missing home directory.
pub open spec fn home_report(home: Option<Seq<char>>) -> Seq<OutcomeView> {
    match home {
        Some(_) => Seq::empty(),
        None => seq![OutcomeView::Failed(ErrorView::HomeDirUnresolvable)],
    }
}

impl SessionModel {
    /// The stage that offers the candidates from index `i` on.
    pub open spec fn from_candidate(self, i: int) -> Stage {
        if 0 <= i < self.candidates.len() {
            Stage::Probe(i as usize)
        } else {
            Stage::Completed
        }
    }

    /// The stage that follows the removal of the executable.
    pub open spec fn after_executable(self) -> Stage {
        if self.entry_path is Some {
            Stage::Entry
        } else {
            self.from_candidate(0)
        }
    }

    /// The stage in which a session with these paths starts.
    pub open spec fn first_stage(self) -> Stage {
        if self.exec_path is Some {
            Stage::Executable
        } else {
            self.after_executable()
        }
    }

    /// Whether the stage fits the session: the file it removes is there, the
    /// candidate it names exists in the list.
    pub open spec fn wf(self) -> bool {
        &&& self.candidates.len() < usize::MAX
        &&& match self.stage {
            Stage::Executable => self.exec_path is Some,
            Stage::Entry => self.entry_path is Some,
            Stage::Probe(i) => i < self.candidates.len(),
            Stage::Offer(i) => i < self.candidates.len(),
            Stage::Remove(i) => i < self.candidates.len(),
            Stage::Completed => true,
        }
    }

    /// What the session asks for in its present stage.
    pub open spec fn action(self) -> ActionView {
        match self.stage {
            Stage::Executable => ActionView::RemoveFile(self.exec_path->0),
            Stage::Entry => ActionView::RemoveFile(self.entry_path->0),
            Stage::Probe(i) => ActionView::CheckExists(self.candidates[i as int]),
            Stage::Offer(i) => ActionView::Confirm(self.candidates[i as int]),
            Stage::Remove(i) => ActionView::RemoveDir(self.candidates[i as int]),
            Stage::Completed => ActionView::Finish,
        }
    }

    /// The path that a removal stage removes.
    pub open spec fn removal_target(self) -> Seq<char> {
        match self.stage {
            Stage::Executable => self.exec_path->0,
            Stage::Entry => self.entry_path->0,
            Stage::Remove(i) => self.candidates[i as int],
            _ => Seq::empty(),
        }
    }

    /// How many steps are left at most: three for each candidate still to be
    /// probed, offered and removed, and one for each file still to be removed.
    pub open spec fn steps_left(self) -> nat {
        let n = self.candidates.len();
        match self.stage {
            Stage::Executable => 3 * n + 2,
            Stage::Entry => 3 * n + 1,
            Stage::Probe(i) => (3 * (n - i)) as nat,
            Stage::Offer(i) => (3 * (n - i) - 1) as nat,
            Stage::Remove(i) => (3 * (n - i) - 2) as nat,
            Stage::Completed => 0,
        }
    }

    /// The state after a removal stage, given how the removal went (`Err`
    /// holds the cause of a failure).
    pub open spec fn removed(self, result: Result<(), Seq<char>>) -> SessionModel {
        let line = match result {
            Ok(_) => OutcomeView::Removed(self.removal_target()),
            Err(cause) => OutcomeView::Failed(
                ErrorView::CouldNotDelete(self.removal_target(), cause),
            ),
        };
        let next = match self.stage {
            Stage::Executable => self.after_executable(),
            Stage::Entry => self.from_candidate(0),
            Stage::Remove(i) => self.from_candidate(i + 1),
            _ => self.stage,
        };
        SessionModel { stage: next, report: self.report.push(line), ..self }
    }

    /// The state after the existence check of the candidate at index `i`: an
    /// existing one is offered, or declined at once by a headless session; a
    /// missing one is passed over.
    pub open spec fn probed(self, i: int, exists: bool) -> SessionModel {
        if !exists {
            SessionModel { stage: self.from_candidate(i + 1), ..self }
        } else if self.headless {
            SessionModel {
                stage: self.from_candidate(i + 1),
                report: self.report.push(OutcomeView::Declined(self.candidates[i])),
                ..self
            }
        } else {
            SessionModel { stage: Stage::Offer(i as usize), ..self }
        }
    }

    /// The state after the answer to the offer of the candidate at index `i`.
    pub open spec fn confirmed(self, i: int, yes: bool) -> SessionModel {
        if yes {
            SessionModel { stage: Stage::Remove(i as usize), ..self }
        } else {
            SessionModel {
                stage: self.from_candidate(i + 1),
                report: self.report.push(OutcomeView::Declined(self.candidates[i])),
                ..self
            }
        }
    }
}

/// A purge in progress. It decides each step and leaves the work to its
/// driver: the driver performs `action()` and reports the result with
/// `on_removed`, `on_probed` or `on_confirmed`, until the action is `Finish`.
pub struct PurgeSession {
    exec_path: Option<String>,
    entry_path: Option<String>,
    candidates: Vec<String>,
    headless: bool,
    stage: Stage,
    report: Vec<Outcome>,
}

impl View for PurgeSession {
    type V = SessionModel;

    closed spec fn view(&self) -> SessionModel {
        SessionModel {
            exec_path: self.exec_path.deep_view(),
            entry_path: self.entry_path.deep_view(),
            candidates: self.candidates.deep_view(),
            headless: self.headless,
            stage: self.stage,
            report: self.report.deep_view(),
        }
    }
}

/// A session's starting state: its paths, the candidate data paths of `app`,
/// the report lines known at once, and the first stage those paths call for.
pub open spec fn session_start(
    exec_path: Option<Seq<char>>,
    entry_path: Option<Seq<char>>,
    app: Seq<char>,
    headless: bool,
    home: Option<Seq<char>>,
    report: Seq<OutcomeView>,
) -> SessionModel {
    let m = SessionModel {
        exec_path,
        entry_path,
        candidates: all_candidates(app, home),
        headless,
        stage: Stage::Completed,
        report,
    };
    SessionModel { stage: m.first_stage(), ..m }
}

/// The report line of an executable lookup that failed.
pub open spec fn lookup_report(resolved: Result<Seq<char>, ErrorView>) -> Seq<OutcomeView> {
    match resolved {
        Ok(_) => Seq::empty(),
        Err(e) => seq![OutcomeView::Failed(e)],
    }
}

/// A lookup result with its path or error as a view.
pub open spec fn resolution_view(resolved: Result<String, Error>) -> Result<Seq<char>, ErrorView> {
    match resolved {
        Ok(p) => Ok(p@),
        Err(e) => Err(e.deep_view()),
    }
}

/// A removal result with its cause as a character sequence.
pub open spec fn removal_view(result: Result<(), String>) -> Result<(), Seq<char>> {
    match result {
        Ok(_) => Ok(()),
        Err(c) => Err(c@),
    }
}

impl AppPurgeProcess {
    /// The application's display name.
    pub closed spec fn app_name(&self) -> Seq<char> {
        self.app@
    }

    /// Whether existing data is left alone without asking.
    pub closed spec fn is_headless(&self) -> bool {
        self.headless
    }

    /// A search for the data of the application named `app`; a headless one
    /// never asks to delete what it finds.
    pub fn new(app: String, headless: bool) -> (r: Self)
        ensures
            r.app_name() == app@,
            r.is_headless() == headless,
    {
        Self { app, headless }
    }

    /// Every system-wide candidate data path of the application, whether it
    /// exists or not.
    pub fn global_candidates(&self) -> (r: Vec<String>)
        ensures
            r.deep_view() == system_candidates(lower_of(self.app_name())),
    {
        system_candidate_paths(self.app.as_str())
    }

    /// The system-wide candidate data paths that exist: `present[i]` tells
    /// whether the `i`-th path of `global_candidates` exists.
    pub fn find_app_files_global(&self, present: &Vec<bool>) -> (r: Vec<String>)
        ensures
            r.deep_view() == kept(system_candidates(lower_of(self.app_name())), present@),
    {
        let c = self.global_candidates();
        keep_present(&c, present)
    }

    /// Every candidate data path of the application under the home directory
    /// `home`, whether it exists or not.
    pub fn local_candidates(&self, home: &str) -> (r: Vec<String>)
        ensures
            r.deep_view() == home_candidates(home@, self.app_name()),
    {
        home_candidate_paths(home, self.app.as_str())
    }

    /// The home-relative candidate data paths that exist: `present[i]` tells
    /// whether the `i`-th path of `local_candidates` exists. Without a home
    /// directory there is nothing to search.
    pub fn find_app_files_home(&self, home: Option<String>, present: &Vec<bool>) -> (r: Result<
        Vec<String>,
        Error,
    >)
        ensures
            match home {
                None => r == Err::<Vec<String>, Error>(Error::HomeDirUnresolvable),
                Some(h) => r is Ok && r->Ok_0.deep_view() == kept(
                    home_candidates(h@, self.app_name()),
                    present@,
                ),
            },
    {
        match home {
            None => Err(Error::HomeDirUnresolvable),
            Some(h) => {
                let c = self.local_candidates(h.as_str());
                Ok(keep_present(&c, present))
            },
        }
    }

    /// Starts a session that offers each existing candidate data path of the
    /// application for deletion, the system-wide ones first.
    pub fn try_purge(self, home: Option<String>) -> (s: PurgeSession)
        ensures
            s@.wf(),
            s@ == session_start(
                None,
                None,
                self.app_name(),
                self.is_headless(),
                home.deep_view(),
                home_report(home.deep_view()),
            ),
    {
        PurgeSession::open(None, None, self, home, Vec::new())
    }
}

impl AppPurger {
    /// Resolves the executable of a launch command: its first token looked up
    /// in the executable search path. A command name without `/` is found, if
    /// at all, in a search directory, so the path found ends in it.
    pub fn find_exec(exec: &str) -> (r: Result<String, Error>)
        ensures
            r is Ok || r == Err::<String, Error>(Error::ExecNotFound),
            r matches Ok(p) ==> ((forall|i: int|
                0 <= i < first_token(exec@).len() ==> first_token(exec@)[i] != '/') ==> ends_with(
                p@,
                first_token(exec@),
            )),
    {
        let token = isolate_exec(String::from_str(exec));
        match which_path(token.as_str()) {
            Some(p) => Ok(p),
            None => Err(Error::ExecNotFound),
        }
    }

    /// Starts the removal of an application, given the outcome of the lookup
    /// of its executable: the executable when it was found, then the
    /// descriptor file `entry`, then each existing candidate data path after
    /// its confirmation. A failed lookup is reported and the rest goes on.
    pub fn purge_with(
        app_name: String,
        resolved: Result<String, Error>,
        entry: String,
        home: Option<String>,
    ) -> (s: PurgeSession)
        ensures
            s@.wf(),
            s@ == session_start(
                match resolved {
                    Ok(p) => Some(p@),
                    Err(_) => None,
                },
                Some(entry@),
                app_name@,
                false,
                home.deep_view(),
                lookup_report(resolution_view(resolved)) + home_report(home.deep_view()),
            ),
    {
        let mut report: Vec<Outcome> = Vec::new();
        let ghost looked = resolution_view(resolved);
        let exec_path = match resolved {
            Ok(p) => Some(p),
            Err(e) => {
                report.push(Outcome::Failed(e));
                None
            },
        };
        assert(report.deep_view() =~= lookup_report(looked));
        PurgeSession::open(exec_path, Some(entry), AppPurgeProcess::new(app_name, false), home, report)
    }

    /// Starts the removal of an application from its display name, launch
    /// command and descriptor file (see `purge_with`); the command's executable
    /// is looked up first.
    pub fn purge_app(app_name: String, exec: String, entry: String, home: Option<String>) -> (s:
        PurgeSession)
        ensures
            s@.wf(),
            s@ == session_start(
                s@.exec_path,
                Some(entry@),
                app_name@,
                false,
                home.deep_view(),
                lookup_report(
                    match s@.exec_path {
                        Some(p) => Ok(p),
                        None => Err(ErrorView::ExecNotFound),
                    },
                ) + home_report(home.deep_view()),
            ),
    {
        let resolved = Self::find_exec(exec.as_str());
        Self::purge_with(app_name, resolved, entry, home)
    }
}

impl PurgeSession {
    fn open(
        exec_path: Option<String>,
        entry_path: Option<String>,
        process: AppPurgeProcess,
        home: Option<String>,
        report: Vec<Outcome>,
    ) -> (s: Self)
        ensures
            s@.wf(),
            s@ == session_start(
                exec_path.deep_view(),
                entry_path.deep_view(),
                process.app_name(),
                process.is_headless(),
                home.deep_view(),
                report.deep_view() + home_report(home.deep_view()),
            ),
    {
        let ghost given = report.deep_view();
        let mut candidates = process.global_candidates();
        let mut report = report;
        match &home {
            Some(h) => {
                let ghost global = candidates.deep_view();
                let mut local = process.local_candidates(h.as_str());
                let ghost homes = local.deep_view();
                candidates.append(&mut local);
                assert(candidates.deep_view() =~= global + homes);
                assert(report.deep_view() =~= given + home_report(home.deep_view()));
            },
            None => {
                report.push(Outcome::Failed(Error::HomeDirUnresolvable));
                assert(candidates.deep_view() =~= all_candidates(process.app_name(), None));
                assert(report.deep_view() =~= given + home_report(home.deep_view()));
            },
        }
        assert(candidates.deep_view() =~= all_candidates(process.app_name(), home.deep_view()));
        let stage = if exec_path.is_some() {
            Stage::Executable
        } else if entry_path.is_some() {
            Stage::Entry
        } else if candidates.len() > 0 {
            Stage::Probe(0)
        } else {
            Stage::Completed
        };
        PurgeSession { exec_path, entry_path, candidates, headless: process.headless, stage, report }
    }

    /// The present stage.
    pub fn stage(&self) -> (st: Stage)
        ensures
            st == self@.stage,
    {
        self.stage
    }

    /// Whether every step is done.
    pub fn is_completed(&self) -> (r: bool)
        ensures
            r == (self@.stage == Stage::Completed),
    {
        self.stage == Stage::Completed
    }

    /// What has happened so far, in order.
    pub fn report(&self) -> (r: &Vec<Outcome>)
        ensures
            r.deep_view() == self@.report,
    {
        &self.report
    }

    /// What the driver is to do next.
    pub fn action(&self) -> (a: Action)
        requires
            self@.wf(),
        ensures
            a.deep_view() == self@.action(),
    {
        match self.stage {
            Stage::Executable => Action::RemoveFile(self.exec_path.as_ref().unwrap().clone()),
            Stage::Entry => Action::RemoveFile(self.entry_path.as_ref().unwrap().clone()),
            Stage::Probe(i) => Action::CheckExists(self.candidates[i].clone()),
            Stage::Offer(i) => Action::Confirm(self.candidates[i].clone()),
            Stage::Remove(i) => Action::RemoveDir(self.candidates[i].clone()),
            Stage::Completed => Action::Finish,
        }
    }

    fn candidate_stage(&self, i: usize) -> (st: Stage)
        requires
            i <= self@.candidates.len(),
        ensures
            st == self@.from_candidate(i as int),
    {
        if i < self.candidates.len() {
            Stage::Probe(i)
        } else {
            Stage::Completed
        }
    }

    /// Reports how the removal that `action()` asked for went: `Err` holds the
    /// cause of a failure. The session records it and moves on either way.
    pub fn on_removed(&mut self, result: Result<(), String>)
        requires
            old(self)@.wf(),
            old(self)@.stage is Executable || old(self)@.stage is Entry || old(self)@.stage is Remove,
        ensures
            final(self)@.wf(),
            final(self)@ == old(self)@.removed(removal_view(result)),
    {
        let target = match self.stage {
            Stage::Executable => self.exec_path.as_ref().unwrap().clone(),
            Stage::Entry => self.entry_path.as_ref().unwrap().clone(),
            Stage::Remove(i) => self.candidates[i].clone(),
            _ => String::new(),
        };
        let line = match result {
            Ok(()) => Outcome::Removed(target),
            Err(cause) => Outcome::Failed(Error::CouldNotDelete(target, cause)),
        };
        let next = match self.stage {
            Stage::Executable => {
                if self.entry_path.is_some() {
                    Stage::Entry
                } else {
                    self.candidate_stage(0)
                }
            },
            Stage::Entry => self.candidate_stage(0),
            Stage::Remove(i) => self.candidate_stage(i + 1),
            _ => self.stage,
        };
        let ghost before = self.report.deep_view();
        self.report.push(line);
        self.stage = next;
        assert(self.report.deep_view() =~= before.push(line.deep_view()));
    }

    /// Reports whether the candidate that `action()` asked about exists.
    pub fn on_probed(&mut self, exists: bool)
        requires
            old(self)@.wf(),
            old(self)@.stage is Probe,
        ensures
            final(self)@.wf(),
            final(self)@ == old(self)@.probed(old(self)@.stage->Probe_0 as int, exists),
    {
        let i = match self.stage {
            Stage::Probe(i) => i,
            _ => 0,
        };
        if !exists {
            self.stage = self.candidate_stage(i + 1);
        } else if self.headless {
            let ghost before = self.report.deep_view();
            let line = Outcome::Declined(self.candidates[i].clone());
            self.report.push(line);
            self.stage = self.candidate_stage(i + 1);
            assert(self.report.deep_view() =~= before.push(line.deep_view()));
        } else {
            self.stage = Stage::Offer(i);
        }
    }

    /// Answers the offer that `action()` made: `true` to delete the candidate.
    pub fn on_confirmed(&mut self, yes: bool)
        requires
            old(self)@.wf(),
            old(self)@.stage is Offer,
        ensures
            final(self)@.wf(),
            final(self)@ == old(self)@.confirmed(old(self)@.stage->Offer_0 as int, yes),
    {
        let i = match self.stage {
            Stage::Offer(i) => i,
            _ => 0,
        };
        if yes {
            self.stage = Stage::Remove(i);
        } else {
            let ghost before = self.report.deep_view();
            let line = Outcome::Declined(self.candidates[i].clone());
            self.report.push(line);
            self.stage = self.candidate_stage(i + 1);
            assert(self.report.deep_view() =~= before.push(line.deep_view()));
        }
    }
}

/// A candidate directory comes up for removal only right after the driver
/// confirmed that very candidate, which it was offered only after its
/// existence check came back positive: no other step leads to a removal or
/// an offer.
pub proof fn lemma_removal_needs_confirmation(
    m: SessionModel,
    result: Result<(), Seq<char>>,
    exists: bool,
    yes: bool,
)
    requires
        m.wf(),
    ensures
        (m.stage is Executable || m.stage is Entry || m.stage is Remove) ==> !(m.removed(
            result,
        ).stage is Remove) && !(m.removed(result).stage is Offer),
        m.stage matches Stage::Probe(i) ==> {
            let next = m.probed(i as int, exists);
            &&& !(next.stage is Remove)
            &&& next.stage is Offer ==> exists && !m.headless && next.stage == Stage::Offer(i)
        },
        m.stage matches Stage::Offer(i) ==> {
            let next = m.confirmed(i as int, yes);
            &&& next.stage is Remove <==> yes
            &&& yes ==> next.stage == Stage::Remove(i)
        },
{
}

/// Every step keeps the session well formed and brings it closer to
/// completion, so a session is completed after finitely many steps whatever
/// the answers, and a completed one asks for nothing more.
pub proof fn lemma_session_progress(
    m: SessionModel,
    result: Result<(), Seq<char>>,
    exists: bool,
    yes: bool,
)
    requires
        m.wf(),
    ensures
        (m.stage is Executable || m.stage is Entry || m.stage is Remove) ==> m.removed(
            result,
        ).wf() && m.removed(result).steps_left() < m.steps_left(),
        m.stage matches Stage::Probe(i) ==> m.probed(i as int, exists).wf() && m.probed(
            i as int,
            exists,
        ).steps_left() < m.steps_left(),
        m.stage matches Stage::Offer(i) ==> m.confirmed(i as int, yes).wf() && m.confirmed(
            i as int,
            yes,
        ).steps_left() < m.steps_left(),
        m.steps_left() == 0 <==> m.stage is Completed,
        m.stage is Completed <==> m.action() is Finish,
{
}

/// The report line of a removal that failed because the path was not there,
/// with `gone` as the cause.
pub open spec fn absent_line(path: Seq<char>, gone: Seq<char>) -> OutcomeView {
    OutcomeView::Failed(ErrorView::CouldNotDelete(path, gone))
}

/// A session driven to its end against a filesystem whose existing paths are
/// `fs`, with every offer accepted: a removal succeeds, and takes the path out
/// of `fs`, exactly when the path exists; otherwise it fails with the cause
/// `gone`. Gives the final state and the paths that still exist.
pub open spec fn run_accepting(m: SessionModel, fs: Set<Seq<char>>, gone: Seq<char>) -> (
    SessionModel,
    Set<Seq<char>>,
)
    decreases m.steps_left(),
{
    if !m.wf() {
        (m, fs)
    } else {
        match m.stage {
            Stage::Completed => (m, fs),
            Stage::Probe(i) => run_accepting(
                m.probed(i as int, fs.contains(m.candidates[i as int])),
                fs,
                gone,
            ),
            Stage::Offer(i) => run_accepting(m.confirmed(i as int, true), fs, gone),
            _ => {
                let p = m.removal_target();
                if fs.contains(p) {
                    run_accepting(m.removed(Ok(())), fs.remove(p), gone)
                } else {
                    run_accepting(m.removed(Err(gone)), fs, gone)
                }
            },
        }
    }
}

/// The paths that a session will still touch.
pub open spec fn pending(m: SessionModel) -> Set<Seq<char>> {
    let n = m.candidates.len() as int;
    let entry = match m.entry_path {
        Some(e) => set![e],
        None => Set::empty(),
    };
    match m.stage {
        Stage::Executable => set![m.exec_path->0] + entry + m.candidates.to_set(),
        Stage::Entry => entry + m.candidates.to_set(),
        Stage::Probe(i) => m.candidates.subrange(i as int, n).to_set(),
        Stage::Offer(i) => m.candidates.subrange(i as int, n).to_set(),
        Stage::Remove(i) => m.candidates.subrange(i as int, n).to_set(),
        Stage::Completed => Set::empty(),
    }
}

/// The report lines of a session run to its end when none of the paths it
/// still touches exists: a failure for each file or confirmed candidate it was
/// about to remove.
pub open spec fn absent_lines(m: SessionModel, gone: Seq<char>) -> Seq<OutcomeView> {
    let entry = match m.entry_path {
        Some(e) => seq![absent_line(e, gone)],
        None => Seq::empty(),
    };
    match m.stage {
        Stage::Executable => seq![absent_line(m.exec_path->0, gone)] + entry,
        Stage::Entry => entry,
        Stage::Offer(i) => seq![absent_line(m.candidates[i as int], gone)],
        Stage::Remove(i) => seq![absent_line(m.candidates[i as int], gone)],
        _ => Seq::empty(),
    }
}

proof fn lemma_tail_set(c: Seq<Seq<char>>, i: int)
    requires
        0 <= i < c.len(),
    ensures
        c.subrange(i, c.len() as int).to_set() == c.subrange(i + 1, c.len() as int).to_set().insert(
            c[i],
        ),
        c.subrange(0, c.len() as int) == c,
{
    let t = c.subrange(i, c.len() as int);
    assert(t =~= seq![c[i]] + c.subrange(i + 1, c.len() as int));
    assert(c.subrange(0, c.len() as int) =~= c);
    assert(t.to_set() =~= c.subrange(i + 1, c.len() as int).to_set().insert(c[i])) by {
        assert forall|x: Seq<char>| t.to_set().contains(x) implies c.subrange(
            i + 1,
            c.len() as int,
        ).to_set().insert(c[i]).contains(x) by {
            let k = choose|k: int| 0 <= k < t.len() && t[k] == x;
            if k > 0 {
                assert(c.subrange(i + 1, c.len() as int)[k - 1] == x);
            }
        }
        assert forall|x: Seq<char>| c.subrange(i + 1, c.len() as int).to_set().insert(c[i]).contains(
            x,
        ) implies t.to_set().contains(x) by {
            if x == c[i] {
                assert(t[0] == x);
            } else {
                let u = c.subrange(i + 1, c.len() as int);
                let k = choose|k: int| 0 <= k < u.len() && #[trigger] u[k] == x;
                assert(t[k + 1] == x);
            }
        }
    }
}

/// Run with every offer accepted, a session removes exactly the existing
/// paths among those it still touches.
proof fn lemma_run_removes_pending(m: SessionModel, fs: Set<Seq<char>>, gone: Seq<char>)
    requires
        m.wf(),
        !m.headless,
    ensures
        run_accepting(m, fs, gone).1 == fs.difference(pending(m)),
    decreases m.steps_left(),
{
    let n = m.candidates.len() as int;
    match m.stage {
        Stage::Completed => {
            assert(fs.difference(pending(m)) =~= fs);
        },
        Stage::Probe(i) => {
            let c = m.candidates[i as int];
            let next = m.probed(i as int, fs.contains(c));
            lemma_run_removes_pending(next, fs, gone);
            lemma_tail_set(m.candidates, i as int);
            if i + 1 == n {
                assert(m.candidates.subrange(i + 1, n).to_set() =~= Set::empty());
            }
            assert(fs.difference(pending(next)) =~= fs.difference(pending(m)));
        },
        Stage::Offer(i) => {
            lemma_run_removes_pending(m.confirmed(i as int, true), fs, gone);
        },
        _ => {
            let p = m.removal_target();
            let next = if fs.contains(p) {
                m.removed(Ok(()))
            } else {
                m.removed(Err(gone))
            };
            let rest = if fs.contains(p) {
                fs.remove(p)
            } else {
                fs
            };
            lemma_run_removes_pending(next, rest, gone);
            if n > 0 {
                lemma_tail_set(m.candidates, 0);
            } else {
                assert(m.candidates.to_set() =~= Set::empty());
            }
            if let Stage::Remove(i) = m.stage {
                lemma_tail_set(m.candidates, i as int);
                if i + 1 == n {
                    assert(m.candidates.subrange(i + 1, n).to_set() =~= Set::empty());
                }
            }
            assert(rest.difference(pending(next)) =~= fs.difference(pending(m)));
        },
    }
}

/// Run with every offer accepted on a filesystem where none of the paths it
/// still touches exists, a session removes and offers nothing and reports
/// each removal it was about to make as failed.
proof fn lemma_run_on_cleared(m: SessionModel, fs: Set<Seq<char>>, gone: Seq<char>)
    requires
        m.wf(),
        !m.headless,
        fs.disjoint(pending(m)),
    ensures
        run_accepting(m, fs, gone).1 == fs,
        run_accepting(m, fs, gone).0.stage is Completed,
        run_accepting(m, fs, gone).0.report == m.report + absent_lines(m, gone),
    decreases m.steps_left(),
{
    let n = m.candidates.len() as int;
    match m.stage {
        Stage::Completed => {
            assert(m.report + absent_lines(m, gone) =~= m.report);
        },
        Stage::Probe(i) => {
            let c = m.candidates[i as int];
            lemma_tail_set(m.candidates, i as int);
            assert(!fs.contains(c));
            let next = m.probed(i as int, false);
            if i + 1 == n {
                assert(m.candidates.subrange(i + 1, n).to_set() =~= Set::empty());
            }
            lemma_run_on_cleared(next, fs, gone);
            assert(m.report + absent_lines(m, gone) =~= next.report + absent_lines(next, gone));
        },
        Stage::Offer(i) => {
            let next = m.confirmed(i as int, true);
            lemma_run_on_cleared(next, fs, gone);
        },
        _ => {
            let p = m.removal_target();
            if n > 0 {
                lemma_tail_set(m.candidates, 0);
            } else {
                assert(m.candidates.to_set() =~= Set::empty());
            }
            if let Stage::Remove(i) = m.stage {
                lemma_tail_set(m.candidates, i as int);
                if i + 1 == n {
                    assert(m.candidates.subrange(i + 1, n).to_set() =~= Set::empty());
                }
            }
            assert(!fs.contains(p));
            let next = m.removed(Err(gone));
            lemma_run_on_cleared(next, fs, gone);
            assert(m.report + absent_lines(m, gone) =~= next.report + absent_lines(next, gone));
        },
    }
}

/// The report line of the removal of the file at `path` when the existing
/// paths are `fs`.
pub open spec fn removal_line(path: Seq<char>, fs: Set<Seq<char>>, gone: Seq<char>) -> OutcomeView {
    if fs.contains(path) {
        OutcomeView::Removed(path)
    } else {
        absent_line(path, gone)
    }
}

/// The report lines of an accepting run over the candidates of `c` from index
/// `i` on, when the existing paths are `fs`: one removal for each candidate
/// that exists when its turn comes, nothing for the others.
pub open spec fn accepted_lines(c: Seq<Seq<char>>, i: int, fs: Set<Seq<char>>) -> Seq<OutcomeView>
    decreases c.len() - i,
{
    if i < 0 || i >= c.len() {
        seq![]
    } else if fs.contains(c[i]) {
        seq![OutcomeView::Removed(c[i])] + accepted_lines(c, i + 1, fs.remove(c[i]))
    } else {
        accepted_lines(c, i + 1, fs)
    }
}

proof fn lemma_run_candidates(m: SessionModel, i: int, fs: Set<Seq<char>>, gone: Seq<char>)
    requires
        m.wf(),
        !m.headless,
        0 <= i <= m.candidates.len(),
        m.stage == m.from_candidate(i),
    ensures
        run_accepting(m, fs, gone).0.stage is Completed,
        run_accepting(m, fs, gone).0.report == m.report + accepted_lines(m.candidates, i, fs),
    decreases m.candidates.len() - i,
{
    if i == m.candidates.len() {
        assert(m.report + accepted_lines(m.candidates, i, fs) =~= m.report);
    } else {
        let c = m.candidates[i];
        if fs.contains(c) {
            let m1 = m.probed(i, true);
            let m2 = m1.confirmed(i, true);
            let m3 = m2.removed(Ok(()));
            assert(run_accepting(m, fs, gone) == run_accepting(m1, fs, gone));
            assert(run_accepting(m1, fs, gone) == run_accepting(m2, fs, gone));
            assert(m2.removal_target() == c);
            assert(run_accepting(m2, fs, gone) == run_accepting(m3, fs.remove(c), gone));
            lemma_run_candidates(m3, i + 1, fs.remove(c), gone);
            assert(m.report + accepted_lines(m.candidates, i, fs) =~= m3.report + accepted_lines(
                m.candidates,
                i + 1,
                fs.remove(c),
            ));
        } else {
            let m1 = m.probed(i, false);
            assert(run_accepting(m, fs, gone) == run_accepting(m1, fs, gone));
            lemma_run_candidates(m1, i + 1, fs, gone);
        }
    }
}

/// A purge run with every offer accepted on a filesystem whose existing paths
/// are `fs`: it ends completed, every path it touches is gone afterwards, and
/// its report holds, after the lines it starts with, the removal of the
/// executable, then that of the descriptor file (each a failure when the file
/// is not there), then one removal for each candidate that exists when its
/// turn comes, in search order.
pub proof fn lemma_accepting_purge(
    exec: Seq<char>,
    entry: Seq<char>,
    app: Seq<char>,
    home: Option<Seq<char>>,
    fs: Set<Seq<char>>,
    gone: Seq<char>,
)
    ensures
        ({
            let start = session_start(Some(exec), Some(entry), app, false, home, home_report(home));
            let fs1 = if fs.contains(exec) {
                fs.remove(exec)
            } else {
                fs
            };
            let fs2 = if fs1.contains(entry) {
                fs1.remove(entry)
            } else {
                fs1
            };
            let end = run_accepting(start, fs, gone);
            &&& end.0.stage is Completed
            &&& end.1 == fs.difference(pending(start))
            &&& end.0.report == home_report(home) + seq![
                removal_line(exec, fs, gone),
                removal_line(entry, fs1, gone),
            ] + accepted_lines(start.candidates, 0, fs2)
        }),
{
    let start = session_start(Some(exec), Some(entry), app, false, home, home_report(home));
    assert(start.candidates.len() <= 13);
    lemma_run_removes_pending(start, fs, gone);
    let fs1 = if fs.contains(exec) {
        fs.remove(exec)
    } else {
        fs
    };
    let fs2 = if fs1.contains(entry) {
        fs1.remove(entry)
    } else {
        fs1
    };
    let m1 = if fs.contains(exec) {
        start.removed(Ok(()))
    } else {
        start.removed(Err(gone))
    };
    let m2 = if fs1.contains(entry) {
        m1.removed(Ok(()))
    } else {
        m1.removed(Err(gone))
    };
    assert(run_accepting(start, fs, gone) == run_accepting(m1, fs1, gone));
    assert(run_accepting(m1, fs1, gone) == run_accepting(m2, fs2, gone));
    lemma_run_candidates(m2, 0, fs2, gone);
    assert(m2.report =~= home_report(home) + seq![
        removal_line(exec, fs, gone),
        removal_line(entry, fs1, gone),
    ]);
}

/// Purging twice: once a purge of a request has run with every offer
/// accepted on a filesystem whose existing paths are `fs`, a second purge of
/// the same request removes nothing and offers nothing. Its lookup of the
/// executable (`again`) either fails, and is reported, or finds the same path
/// as before; it reports the executable, when found, and the descriptor file
/// as not deleted, after the lines it starts with.
pub proof fn lemma_purge_twice(
    exec: Seq<char>,
    entry: Seq<char>,
    app: Seq<char>,
    home: Option<Seq<char>>,
    fs: Set<Seq<char>>,
    gone: Seq<char>,
    again: Result<Seq<char>, ErrorView>,
)
    requires
        again is Err || again == Ok::<Seq<char>, ErrorView>(exec),
    ensures
        ({
            let start = session_start(Some(exec), Some(entry), app, false, home, home_report(home));
            let first = run_accepting(start, fs, gone);
            let restart = session_start(
                match again {
                    Ok(p) => Some(p),
                    Err(_) => None,
                },
                Some(entry),
                app,
                false,
                home,
                lookup_report(again) + home_report(home),
            );
            let second = run_accepting(restart, first.1, gone);
            &&& second.0.stage is Completed
            &&& second.1 == first.1
            &&& second.0.report == lookup_report(again) + home_report(home) + match again {
                Ok(_) => seq![absent_line(exec, gone)],
                Err(_) => Seq::empty(),
            } + seq![absent_line(entry, gone)]
        }),
{
    let start = session_start(Some(exec), Some(entry), app, false, home, home_report(home));
    let restart = session_start(
        match again {
            Ok(p) => Some(p),
            Err(_) => None,
        },
        Some(entry),
        app,
        false,
        home,
        lookup_report(again) + home_report(home),
    );
    assert(start.candidates.len() <= 13);
    lemma_run_removes_pending(start, fs, gone);
    let first = run_accepting(start, fs, gone);
    assert(pending(restart).subset_of(pending(start)));
    assert(first.1.disjoint(pending(restart)));
    lemma_run_on_cleared(restart, first.1, gone);
    assert(restart.report + absent_lines(restart, gone) =~= lookup_report(again) + home_report(home)
        + match again {
        Ok(_) => seq![absent_line(exec, gone)],
        Err(_) => Seq::empty(),
    } + seq![absent_line(entry, gone)]);
}

} // verus!
