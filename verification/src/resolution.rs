//! The resolution session: a state machine that turns the answers of the user
//! and of the registries into the next thing to do, until a candidate is
//! accepted or the session is aborted.
//!
//! The caller owns every prompt and every lookup. It asks the session for the
//! pending [`Action`], performs it, and hands the result back as an [`Event`].

use vstd::prelude::*;
use crate::account_id::{
    is_top_level, is_top_level_name, lemma_parent_of_well_formed, parent_name, well_formed_name,
    CandidateAccountId,
};
use crate::policy::{needs_parent_probe, Config, PolicyViolation, ProbeReply, ViolationModel};

verus! {

/// Where a session stands.
#[derive(Clone, Copy, Debug, PartialEq, Eq, Structural)]
pub enum Phase {
    /// The first candidate is known; the user has not yet said whether its
    /// existence is to be checked.
    AwaitingGate,
    /// Evaluating: registry `next` is being asked for the candidate.
    ProbingCandidate { next: usize },
    /// Evaluating: registry `next` is being asked for the candidate's parent.
    ProbingParent { next: usize },
    /// A rule objected; the user is asked whether to enter another name.
    AwaitingDecision,
    /// The user wants another name and has not entered it yet.
    AwaitingReplacement,
    /// Terminal: the candidate is accepted.
    Accepted,
    /// Terminal: an interaction failed.
    Aborted,
}

/// What the user chose when asked whether to enter a different name.
#[derive(Clone, Copy, Debug, PartialEq, Eq, Structural)]
pub enum NameChoice {
    /// Enter a new name.
    EnterDifferent,
    /// Keep using the current name.
    Keep,
}

/// The answer that a choice stands for: whether a different name is wanted.
pub fn ask_if_different_account_id_wanted(choice: NameChoice) -> (wanted: bool)
    ensures
        wanted == (choice == NameChoice::EnterDifferent),
{
    match choice {
        NameChoice::EnterDifferent => true,
        NameChoice::Keep => false,
    }
}

/// What happened outside since the last action.
#[derive(Debug, PartialEq, Eq)]
pub enum Event {
    /// The user answered a yes/no question.
    Answer(bool),
    /// The user entered a name.
    Candidate(CandidateAccountId),
    /// A registry answered a lookup.
    Probed(ProbeReply),
    /// A prompt failed.
    Failure,
}

/// The mathematical value of an [`Event`].
pub enum EventModel {
    Answer(bool),
    Candidate(Seq<char>),
    Probed(ProbeReply),
    Failure,
}

impl View for Event {
    type V = EventModel;

    open spec fn view(&self) -> EventModel {
        match self {
            Event::Answer(yes) => EventModel::Answer(*yes),
            Event::Candidate(candidate) => EventModel::Candidate(candidate@),
            Event::Probed(reply) => EventModel::Probed(*reply),
            Event::Failure => EventModel::Failure,
        }
    }
}

/// What the caller has to do next.
#[derive(Debug, PartialEq, Eq)]
pub enum Action {
    /// Ask whether the existence of the candidate is to be checked at all.
    AskExistenceCheck,
    /// Ask registry number `registry` whether it holds `account`.
    Probe { registry: usize, account: String },
    /// Show the advisory and ask whether the user wants to enter another name.
    Advise { advisory: PolicyViolation },
    /// Ask for another name.
    AskCandidate,
    /// Hand the accepted name on.
    Finish { account_id: CandidateAccountId },
    /// Report the failure.
    Abort,
}

/// The mathematical value of an [`Action`].
pub enum ActionModel {
    AskExistenceCheck,
    Probe { registry: int, account: Seq<char> },
    Advise { advisory: ViolationModel },
    AskCandidate,
    Finish { account_id: Seq<char> },
    Abort,
}

impl View for Action {
    type V = ActionModel;

    open spec fn view(&self) -> ActionModel {
        match self {
            Action::AskExistenceCheck => ActionModel::AskExistenceCheck,
            Action::Probe { registry, account } => ActionModel::Probe {
                registry: *registry as int,
                account: account@,
            },
            Action::Advise { advisory } => ActionModel::Advise { advisory: advisory@ },
            Action::AskCandidate => ActionModel::AskCandidate,
            Action::Finish { account_id } => ActionModel::Finish { account_id: account_id@ },
            Action::Abort => ActionModel::Abort,
        }
    }
}

/// The mathematical value of a [`Resolution`].
pub struct SessionModel {
    /// The configuration that the session was started with.
    pub cfg: Config,
    /// The current candidate.
    pub candidate: Seq<char>,
    pub phase: Phase,
    /// What the policy found for the current candidate, as far as it was
    /// evaluated: the advisory that the user is or was shown.
    pub advisory: ViolationModel,
    /// Whether the current candidate entered evaluation.
    pub checked: bool,
}

/// The same session in another phase.
pub open spec fn moved(m: SessionModel, phase: Phase, advisory: ViolationModel) -> SessionModel {
    SessionModel { cfg: m.cfg, candidate: m.candidate, phase, advisory, checked: m.checked }
}

/// A session that has just been given its first candidate.
pub open spec fn initial(cfg: Config, candidate: Seq<char>) -> SessionModel {
    SessionModel {
        cfg,
        candidate,
        phase: Phase::AwaitingGate,
        advisory: ViolationModel::Clear,
        checked: false,
    }
}

/// A session in which `candidate` has entered evaluation.
pub open spec fn evaluating(
    cfg: Config,
    candidate: Seq<char>,
    phase: Phase,
    advisory: ViolationModel,
) -> SessionModel {
    SessionModel { cfg, candidate, phase, advisory, checked: true }
}

/// Evaluation once no registry holds the candidate: the length rule, then the
/// parent rule, which may need the registries again.
pub open spec fn after_candidate_absent(cfg: Config, candidate: Seq<char>) -> SessionModel {
    if is_top_level_name(candidate) && candidate.len() < cfg.minimum() {
        evaluating(
            cfg,
            candidate,
            Phase::AwaitingDecision,
            ViolationModel::TooShortTopLevel { length: candidate.len(), minimum: cfg.minimum() },
        )
    } else if needs_parent_probe(candidate) {
        if cfg.registries@.len() > 0 {
            evaluating(cfg, candidate, Phase::ProbingParent { next: 0 }, ViolationModel::Clear)
        } else {
            evaluating(
                cfg,
                candidate,
                Phase::AwaitingDecision,
                ViolationModel::ParentMissing { parent_id: parent_name(candidate).unwrap() },
            )
        }
    } else {
        evaluating(cfg, candidate, Phase::Accepted, ViolationModel::Clear)
    }
}

/// Evaluation of a fresh candidate from its start.
pub open spec fn begin_evaluation(cfg: Config, candidate: Seq<char>) -> SessionModel {
    if cfg.registries@.len() > 0 {
        evaluating(cfg, candidate, Phase::ProbingCandidate { next: 0 }, ViolationModel::Clear)
    } else {
        after_candidate_absent(cfg, candidate)
    }
}

/// The transition function. An event that does not answer the pending action
/// aborts the session; a terminal session stays as it is.
pub open spec fn spec_step(m: SessionModel, e: EventModel) -> SessionModel {
    match m.phase {
        Phase::Accepted => m,
        Phase::Aborted => m,
        Phase::AwaitingGate => match e {
            EventModel::Answer(check) => if check {
                begin_evaluation(m.cfg, m.candidate)
            } else {
                moved(m, Phase::Accepted, ViolationModel::Clear)
            },
            _ => moved(m, Phase::Aborted, m.advisory),
        },
        Phase::ProbingCandidate { next } => match e {
            EventModel::Probed(reply) => if reply.reports_existence() {
                moved(
                    m,
                    Phase::AwaitingDecision,
                    ViolationModel::AlreadyExists { network_name: m.cfg.names()[next as int] },
                )
            } else if next + 1 < m.cfg.registries@.len() {
                moved(m, Phase::ProbingCandidate { next: (next + 1) as usize }, m.advisory)
            } else {
                after_candidate_absent(m.cfg, m.candidate)
            },
            _ => moved(m, Phase::Aborted, m.advisory),
        },
        Phase::ProbingParent { next } => match e {
            EventModel::Probed(reply) => if reply.reports_existence() {
                moved(m, Phase::Accepted, ViolationModel::Clear)
            } else if next + 1 < m.cfg.registries@.len() {
                moved(m, Phase::ProbingParent { next: (next + 1) as usize }, m.advisory)
            } else {
                moved(
                    m,
                    Phase::AwaitingDecision,
                    ViolationModel::ParentMissing { parent_id: parent_name(m.candidate).unwrap() },
                )
            },
            _ => moved(m, Phase::Aborted, m.advisory),
        },
        Phase::AwaitingDecision => match e {
            EventModel::Answer(change) => if change {
                moved(m, Phase::AwaitingReplacement, m.advisory)
            } else {
                moved(m, Phase::Accepted, m.advisory)
            },
            _ => moved(m, Phase::Aborted, m.advisory),
        },
        Phase::AwaitingReplacement => match e {
            EventModel::Candidate(replacement) => begin_evaluation(m.cfg, replacement),
            _ => moved(m, Phase::Aborted, m.advisory),
        },
    }
}

/// What a session in state `m` asks its caller to do.
pub open spec fn spec_action(m: SessionModel) -> ActionModel {
    match m.phase {
        Phase::AwaitingGate => ActionModel::AskExistenceCheck,
        Phase::ProbingCandidate { next } => ActionModel::Probe {
            registry: next as int,
            account: m.candidate,
        },
        Phase::ProbingParent { next } => ActionModel::Probe {
            registry: next as int,
            account: parent_name(m.candidate).unwrap(),
        },
        Phase::AwaitingDecision => ActionModel::Advise { advisory: m.advisory },
        Phase::AwaitingReplacement => ActionModel::AskCandidate,
        Phase::Accepted => ActionModel::Finish { account_id: m.candidate },
        Phase::Aborted => ActionModel::Abort,
    }
}

/// The states that a session can be in. The registries are held in a vector,
/// so their number is a machine integer.
pub open spec fn session_wf(m: SessionModel) -> bool {
    &&& m.cfg.registries@.len() <= usize::MAX
    &&& phase_wf(m)
}

/// What each phase says of the rest of the state.
pub open spec fn phase_wf(m: SessionModel) -> bool {
    match m.phase {
        Phase::AwaitingGate => !m.checked && m.advisory == ViolationModel::Clear,
        Phase::ProbingCandidate { next } => {
            &&& next < m.cfg.registries@.len()
            &&& m.checked
            &&& m.advisory == ViolationModel::Clear
        },
        Phase::ProbingParent { next } => {
            &&& next < m.cfg.registries@.len()
            &&& needs_parent_probe(m.candidate)
            &&& m.checked
            &&& m.advisory == ViolationModel::Clear
        },
        Phase::AwaitingDecision => m.checked && m.advisory != ViolationModel::Clear,
        Phase::AwaitingReplacement => m.checked,
        Phase::Accepted => !m.checked ==> m.advisory == ViolationModel::Clear,
        Phase::Aborted => true,
    }
}

/// A lookup is asked of a configured registry, and for a name that conforms to
/// the naming syntax as the candidate does.
pub proof fn lemma_lookup_is_well_formed(m: SessionModel)
    requires
        session_wf(m),
        well_formed_name(m.candidate),
    ensures
        match spec_action(m) {
            ActionModel::Probe { registry, account } => {
                &&& 0 <= registry < m.cfg.registries@.len()
                &&& well_formed_name(account)
            },
            _ => true,
        },
{
    if let Phase::ProbingParent { next } = m.phase {
        lemma_parent_of_well_formed(m.candidate);
    }
}

/// Every step leads from a state of a session to a state of a session.
pub proof fn lemma_step_keeps_well_formed(m: SessionModel, e: EventModel)
    requires
        session_wf(m),
    ensures
        session_wf(spec_step(m, e)),
        spec_step(m, e).cfg == m.cfg,
{
}

/// How a session ended.
#[derive(Debug, PartialEq, Eq)]
pub enum ResolutionOutcome {
    /// The name that the following stages work with.
    Accepted { account_id: CandidateAccountId },
    /// An interaction failed; there is no name.
    Aborted,
}

/// A resolution session.
#[derive(Debug)]
pub struct Resolution {
    cfg: Config,
    candidate: CandidateAccountId,
    phase: Phase,
    advisory: PolicyViolation,
    checked: bool,
}

impl View for Resolution {
    type V = SessionModel;

    closed spec fn view(&self) -> SessionModel {
        SessionModel {
            cfg: self.cfg,
            candidate: self.candidate@,
            phase: self.phase,
            advisory: self.advisory@,
            checked: self.checked,
        }
    }
}

/// Starts the evaluation of `candidate` where no registry holds it.
fn resume_after_absence(cfg: Config, candidate: CandidateAccountId) -> (next: Resolution)
    ensures
        next@ == after_candidate_absent(cfg, candidate@),
{
    let count: usize = cfg.registries.len();
    let length: usize = candidate.char_count();
    match candidate.parent() {
        None => {
            if length < cfg.min_top_level_length {
                let minimum: usize = cfg.min_top_level_length;
                Resolution {
                    cfg,
                    candidate,
                    phase: Phase::AwaitingDecision,
                    advisory: PolicyViolation::TooShortTopLevel { length, minimum },
                    checked: true,
                }
            } else {
                Resolution {
                    cfg,
                    candidate,
                    phase: Phase::Accepted,
                    advisory: PolicyViolation::Clear,
                    checked: true,
                }
            }
        },
        Some(parent) => {
            if is_top_level(parent.as_str()) {
                Resolution {
                    cfg,
                    candidate,
                    phase: Phase::Accepted,
                    advisory: PolicyViolation::Clear,
                    checked: true,
                }
            } else if count > 0 {
                Resolution {
                    cfg,
                    candidate,
                    phase: Phase::ProbingParent { next: 0 },
                    advisory: PolicyViolation::Clear,
                    checked: true,
                }
            } else {
                Resolution {
                    cfg,
                    candidate,
                    phase: Phase::AwaitingDecision,
                    advisory: PolicyViolation::ParentMissing { parent_id: parent },
                    checked: true,
                }
            }
        },
    }
}

/// Starts the evaluation of `candidate`.
fn evaluate_afresh(cfg: Config, candidate: CandidateAccountId) -> (next: Resolution)
    ensures
        next@ == begin_evaluation(cfg, candidate@),
{
    if cfg.registries.len() > 0 {
        Resolution {
            cfg,
            candidate,
            phase: Phase::ProbingCandidate { next: 0 },
            advisory: PolicyViolation::Clear,
            checked: true,
        }
    } else {
        resume_after_absence(cfg, candidate)
    }
}

impl Resolution {
    #[verifier::type_invariant]
    spec fn well_formed(&self) -> bool {
        session_wf(self@)
    }

    /// A session for the first candidate. Nothing has been evaluated: the
    /// first action asks whether to check at all.
    pub fn start(cfg: Config, candidate: CandidateAccountId) -> (session: Resolution)
        ensures
            session@ == initial(cfg, candidate@),
    {
        let _count: usize = cfg.registries.len();
        Resolution {
            cfg,
            candidate,
            phase: Phase::AwaitingGate,
            advisory: PolicyViolation::Clear,
            checked: false,
        }
    }

    /// The state after `event`, by the transition function.
    pub fn step(self, event: Event) -> (next: Resolution)
        ensures
            session_wf(self@),
            next@ == spec_step(self@, event@),
    {
        proof {
            use_type_invariant(&self);
            lemma_step_keeps_well_formed(self@, event@);
        }
        let Resolution { cfg, candidate, phase, advisory, checked } = self;
        let count: usize = cfg.registries.len();
        match phase {
            Phase::Accepted => Resolution { cfg, candidate, phase, advisory, checked },
            Phase::Aborted => Resolution { cfg, candidate, phase, advisory, checked },
            Phase::AwaitingGate => match event {
                Event::Answer(check) => {
                    if check {
                        evaluate_afresh(cfg, candidate)
                    } else {
                        Resolution {
                            cfg,
                            candidate,
                            phase: Phase::Accepted,
                            advisory: PolicyViolation::Clear,
                            checked,
                        }
                    }
                },
                _ => Resolution { cfg, candidate, phase: Phase::Aborted, advisory, checked },
            },
            Phase::ProbingCandidate { next } => match event {
                Event::Probed(reply) => {
                    if reply.found() {
                        let network_name = cfg.registries[next].network_name.clone();
                        Resolution {
                            cfg,
                            candidate,
                            phase: Phase::AwaitingDecision,
                            advisory: PolicyViolation::AlreadyExists { network_name },
                            checked,
                        }
                    } else if next + 1 < count {
                        Resolution {
                            cfg,
                            candidate,
                            phase: Phase::ProbingCandidate { next: next + 1 },
                            advisory,
                            checked,
                        }
                    } else {
                        resume_after_absence(cfg, candidate)
                    }
                },
                _ => Resolution { cfg, candidate, phase: Phase::Aborted, advisory, checked },
            },
            Phase::ProbingParent { next } => match event {
                Event::Probed(reply) => {
                    if reply.found() {
                        Resolution {
                            cfg,
                            candidate,
                            phase: Phase::Accepted,
                            advisory: PolicyViolation::Clear,
                            checked,
                        }
                    } else if next + 1 < count {
                        Resolution {
                            cfg,
                            candidate,
                            phase: Phase::ProbingParent { next: next + 1 },
                            advisory,
                            checked,
                        }
                    } else {
                        match candidate.parent() {
                            Some(parent_id) => Resolution {
                                cfg,
                                candidate,
                                phase: Phase::AwaitingDecision,
                                advisory: PolicyViolation::ParentMissing { parent_id },
                                checked,
                            },
                            None => Resolution {
                                cfg,
                                candidate,
                                phase: Phase::Aborted,
                                advisory,
                                checked,
                            },
                        }
                    }
                },
                _ => Resolution { cfg, candidate, phase: Phase::Aborted, advisory, checked },
            },
            Phase::AwaitingDecision => match event {
                Event::Answer(change) => {
                    if change {
                        Resolution {
                            cfg,
                            candidate,
                            phase: Phase::AwaitingReplacement,
                            advisory,
                            checked,
                        }
                    } else {
                        Resolution { cfg, candidate, phase: Phase::Accepted, advisory, checked }
                    }
                },
                _ => Resolution { cfg, candidate, phase: Phase::Aborted, advisory, checked },
            },
            Phase::AwaitingReplacement => match event {
                Event::Candidate(replacement) => evaluate_afresh(cfg, replacement),
                _ => Resolution { cfg, candidate, phase: Phase::Aborted, advisory, checked },
            },
        }
    }

    /// What the caller has to do next. A lookup is asked of a configured
    /// registry and for a well-formed name.
    pub fn action(&self) -> (pending: Action)
        ensures
            session_wf(self@),
            pending@ == spec_action(self@),
            match pending@ {
                ActionModel::Probe { registry, account } => {
                    &&& 0 <= registry < self@.cfg.registries@.len()
                    &&& well_formed_name(account)
                },
                _ => true,
            },
    {
        let text = self.candidate.as_str();
        proof {
            use_type_invariant(self);
            lemma_lookup_is_well_formed(self@);
        }
        match self.phase {
            Phase::AwaitingGate => Action::AskExistenceCheck,
            Phase::ProbingCandidate { next } => Action::Probe {
                registry: next,
                account: text.to_owned(),
            },
            Phase::ProbingParent { next } => match self.candidate.parent() {
                Some(account) => Action::Probe { registry: next, account },
                None => Action::Abort,
            },
            Phase::AwaitingDecision => Action::Advise { advisory: self.advisory.clone() },
            Phase::AwaitingReplacement => Action::AskCandidate,
            Phase::Accepted => Action::Finish { account_id: self.candidate.clone() },
            Phase::Aborted => Action::Abort,
        }
    }

    /// How the session ended, once it has.
    pub fn outcome(&self) -> (ended: Option<ResolutionOutcome>)
        ensures
            match ended {
                Some(ResolutionOutcome::Accepted { account_id }) => self@.phase == Phase::Accepted
                    && account_id@ == self@.candidate,
                Some(ResolutionOutcome::Aborted) => self@.phase == Phase::Aborted,
                None => self@.phase != Phase::Accepted && self@.phase != Phase::Aborted,
            },
    {
        match self.phase {
            Phase::Accepted => Some(
                ResolutionOutcome::Accepted { account_id: self.candidate.clone() },
            ),
            Phase::Aborted => Some(ResolutionOutcome::Aborted),
            _ => None,
        }
    }

    /// The current candidate.
    pub fn candidate(&self) -> (candidate: &CandidateAccountId)
        ensures
            candidate@ == self@.candidate,
    {
        &self.candidate
    }

    /// Where the session stands.
    pub fn phase(&self) -> (phase: Phase)
        ensures
            phase == self@.phase,
    {
        self.phase
    }

    /// What the policy found for the current candidate, as far as it was
    /// evaluated.
    pub fn advisory(&self) -> (advisory: &PolicyViolation)
        ensures
            advisory@ == self@.advisory,
    {
        &self.advisory
    }

    /// Whether the current candidate entered evaluation.
    pub fn was_checked(&self) -> (checked: bool)
        ensures
            checked == self@.checked,
    {
        self.checked
    }

    /// The configuration that the session was started with.
    pub fn config(&self) -> (cfg: &Config)
        ensures
            *cfg == self@.cfg,
    {
        &self.cfg
    }
}

} // verus!
