//! What holds of every session, stated over the transition function.

use vstd::prelude::*;
use crate::account_id::{is_top_level_name, parent_name};
use crate::policy::{
    is_first_hit, lemma_first_hit_is_found, lemma_no_hit_is_not_found, needs_parent_probe,
    none_before, spec_evaluate, Config, ProbeReply, ViolationModel,
};
use crate::resolution::{
    initial, session_wf, spec_action, spec_step, ActionModel, EventModel, Phase, SessionModel,
};

verus! {

/// The event is a true report: where a lookup is pending and the event is a
/// registry's reply, the reply is what that registry says of that account in
/// `world`.
pub open spec fn event_agrees(
    m: SessionModel,
    e: EventModel,
    world: spec_fn(int, Seq<char>) -> bool,
) -> bool {
    match (spec_action(m), e) {
        (ActionModel::Probe { registry, account }, EventModel::Probed(reply)) => {
            reply.reports_existence() == world(registry, account)
        },
        _ => true,
    }
}

/// The session has drawn no conclusion that `world` does not bear out: the
/// registries that it has passed do not report the account asked for, and an
/// advisory that is shown, or a candidate that was accepted after evaluation,
/// carries exactly what the policy evaluator gives for the current candidate.
pub open spec fn consistent(m: SessionModel, world: spec_fn(int, Seq<char>) -> bool) -> bool {
    let count = m.cfg.registries@.len() as int;
    let verdict = spec_evaluate(m.candidate, m.cfg.names(), m.cfg.minimum(), world);
    match m.phase {
        Phase::ProbingCandidate { next } => none_before(world, m.candidate, next as int),
        Phase::ProbingParent { next } => {
            &&& none_before(world, m.candidate, count)
            &&& !(is_top_level_name(m.candidate) && m.candidate.len() < m.cfg.minimum())
            &&& none_before(world, parent_name(m.candidate).unwrap(), next as int)
        },
        Phase::AwaitingDecision => verdict == m.advisory,
        Phase::Accepted => m.checked ==> verdict == m.advisory,
        _ => true,
    }
}

/// A session that has just started is consistent with every world.
pub proof fn lemma_start_is_consistent(
    cfg: Config,
    candidate: Seq<char>,
    world: spec_fn(int, Seq<char>) -> bool,
)
    requires
        cfg.registries@.len() <= usize::MAX,
    ensures
        session_wf(initial(cfg, candidate)),
        consistent(initial(cfg, candidate), world),
{
}

/// No check is skipped. A step on a true report keeps the session consistent
/// with the world. So whenever a candidate is accepted after evaluation, the
/// policy evaluator, run again on that candidate in the same world, gives
/// either no violation or the one violation that the user was shown for it.
pub proof fn lemma_step_keeps_consistency(
    m: SessionModel,
    e: EventModel,
    world: spec_fn(int, Seq<char>) -> bool,
)
    requires
        session_wf(m),
        consistent(m, world),
        event_agrees(m, e, world),
    ensures
        consistent(spec_step(m, e), world),
        ({
            let after = spec_step(m, e);
            after.phase == Phase::Accepted && after.checked ==> {
                let verdict = spec_evaluate(
                    after.candidate,
                    after.cfg.names(),
                    after.cfg.minimum(),
                    world,
                );
                verdict == ViolationModel::Clear || (m.phase == Phase::AwaitingDecision
                    && spec_action(m) == ActionModel::Advise { advisory: verdict }) || (m.phase
                    == Phase::Accepted && verdict == m.advisory)
            }
        }),
{
    let count = m.cfg.registries@.len() as int;
    let after = spec_step(m, e);
    match m.phase {
        Phase::AwaitingGate => {
            if let EventModel::Answer(check) = e {
                if check {
                    lemma_fresh_evaluation_is_consistent(m.cfg, m.candidate, world);
                }
            }
        },
        Phase::AwaitingReplacement => {
            if let EventModel::Candidate(replacement) = e {
                lemma_fresh_evaluation_is_consistent(m.cfg, replacement, world);
            }
        },
        Phase::ProbingCandidate { next } => {
            if let EventModel::Probed(reply) = e {
                if reply.reports_existence() {
                    assert(is_first_hit(world, m.candidate, count, next as int));
                    lemma_first_hit_is_found(world, m.candidate, count, next as int);
                } else if next + 1 < count {
                } else {
                    assert(none_before(world, m.candidate, count));
                    lemma_absence_is_consistent(m.cfg, m.candidate, world);
                }
            }
        },
        Phase::ProbingParent { next } => {
            if let EventModel::Probed(reply) = e {
                let parent = parent_name(m.candidate).unwrap();
                lemma_no_hit_is_not_found(world, m.candidate, count);
                if reply.reports_existence() {
                    assert(is_first_hit(world, parent, count, next as int));
                    lemma_first_hit_is_found(world, parent, count, next as int);
                } else if next + 1 < count {
                } else {
                    assert(none_before(world, parent, count));
                    lemma_no_hit_is_not_found(world, parent, count);
                }
            }
        },
        _ => {},
    }
}

/// Evaluation continued after no registry reported the candidate is
/// consistent with the world.
proof fn lemma_absence_is_consistent(
    cfg: Config,
    candidate: Seq<char>,
    world: spec_fn(int, Seq<char>) -> bool,
)
    requires
        none_before(world, candidate, cfg.registries@.len() as int),
    ensures
        consistent(crate::resolution::after_candidate_absent(cfg, candidate), world),
{
    let count = cfg.registries@.len() as int;
    lemma_no_hit_is_not_found(world, candidate, count);
    if needs_parent_probe(candidate) && count == 0 {
        lemma_no_hit_is_not_found(world, parent_name(candidate).unwrap(), count);
    }
}

/// Evaluation of a fresh candidate starts consistent with the world.
proof fn lemma_fresh_evaluation_is_consistent(
    cfg: Config,
    candidate: Seq<char>,
    world: spec_fn(int, Seq<char>) -> bool,
)
    ensures
        consistent(crate::resolution::begin_evaluation(cfg, candidate), world),
{
    if cfg.registries@.len() == 0 {
        lemma_absence_is_consistent(cfg, candidate, world);
    }
}

/// Probing stops at the first registry that reports the candidate: the next
/// action shows the advisory that names this registry, and asks no registry
/// that is configured after it.
pub proof fn lemma_hit_stops_probing(m: SessionModel, next: usize)
    requires
        session_wf(m),
        m.phase == (Phase::ProbingCandidate { next }),
    ensures
        ({
            let after = spec_step(m, EventModel::Probed(ProbeReply::Exists));
            &&& after.phase == Phase::AwaitingDecision
            &&& after.candidate == m.candidate
            &&& after.advisory == ViolationModel::AlreadyExists {
                network_name: m.cfg.names()[next as int],
            }
            &&& spec_action(after) == ActionModel::Advise { advisory: after.advisory }
        }),
{
}

/// While the registries do not report the candidate they are asked one after
/// the other, in configuration order, and a failed lookup counts as a
/// negative one.
pub proof fn lemma_miss_moves_to_next_registry(m: SessionModel, next: usize, reply: ProbeReply)
    requires
        session_wf(m),
        m.phase == (Phase::ProbingCandidate { next }),
        reply != ProbeReply::Exists,
        next + 1 < m.cfg.registries@.len(),
    ensures
        spec_action(spec_step(m, EventModel::Probed(reply))) == (ActionModel::Probe {
            registry: next + 1,
            account: m.candidate,
        }),
{
}

/// Declining to change the name, whatever the violation, accepts the
/// candidate as it is.
pub proof fn lemma_decline_accepts_candidate(m: SessionModel)
    requires
        session_wf(m),
        m.phase == Phase::AwaitingDecision,
    ensures
        ({
            let after = spec_step(m, EventModel::Answer(false));
            &&& after.phase == Phase::Accepted
            &&& after.candidate == m.candidate
            &&& after.advisory == m.advisory
            &&& spec_action(after) == ActionModel::Finish { account_id: m.candidate }
        }),
{
}

/// Declining the existence check accepts the first candidate at once: the
/// session asks for no lookup before the answer, and none after it.
pub proof fn lemma_bypass_accepts_without_probe(cfg: Config, candidate: Seq<char>)
    ensures
        ({
            let before = initial(cfg, candidate);
            let after = spec_step(before, EventModel::Answer(false));
            &&& spec_action(before) == ActionModel::AskExistenceCheck
            &&& after.phase == Phase::Accepted
            &&& after.candidate == candidate
            &&& !after.checked
            &&& after.advisory == ViolationModel::Clear
            &&& spec_action(after) == ActionModel::Finish { account_id: candidate }
        }),
{
}

/// A failed interaction aborts a session that has not ended, and a session
/// that has ended stays as it is.
pub proof fn lemma_failure_aborts(m: SessionModel, e: EventModel)
    requires
        session_wf(m),
    ensures
        m.phase != Phase::Accepted && m.phase != Phase::Aborted ==> spec_step(
            m,
            EventModel::Failure,
        ).phase == Phase::Aborted,
        m.phase == Phase::Accepted || m.phase == Phase::Aborted ==> spec_step(m, e) == m,
{
}

/// The session after a row of events.
pub open spec fn run(m: SessionModel, events: Seq<EventModel>) -> SessionModel
    decreases events.len(),
{
    if events.len() == 0 {
        m
    } else {
        run(spec_step(m, events[0]), events.drop_first())
    }
}

/// Every event of the row is a true report at the moment it arrives.
pub open spec fn reports_agree(
    m: SessionModel,
    events: Seq<EventModel>,
    world: spec_fn(int, Seq<char>) -> bool,
) -> bool
    decreases events.len(),
{
    events.len() == 0 || (event_agrees(m, events[0], world) && reports_agree(
        spec_step(m, events[0]),
        events.drop_first(),
        world,
    ))
}

/// True reports keep a session consistent, however many of them arrive.
pub proof fn lemma_run_keeps_consistency(
    m: SessionModel,
    events: Seq<EventModel>,
    world: spec_fn(int, Seq<char>) -> bool,
)
    requires
        session_wf(m),
        consistent(m, world),
        reports_agree(m, events, world),
    ensures
        session_wf(run(m, events)),
        consistent(run(m, events), world),
    decreases events.len(),
{
    if events.len() > 0 {
        crate::resolution::lemma_step_keeps_well_formed(m, events[0]);
        lemma_step_keeps_consistency(m, events[0], world);
        lemma_run_keeps_consistency(spec_step(m, events[0]), events.drop_first(), world);
    }
}

/// However a session that was started on a first candidate got to accept a
/// candidate after evaluation, the advisory that it holds for that candidate
/// is what the policy evaluator gives for it: nothing was left unevaluated,
/// and nothing stems from an earlier candidate.
pub proof fn lemma_accepted_candidate_was_evaluated(
    cfg: Config,
    first: Seq<char>,
    events: Seq<EventModel>,
    world: spec_fn(int, Seq<char>) -> bool,
)
    requires
        cfg.registries@.len() <= usize::MAX,
        reports_agree(initial(cfg, first), events, world),
    ensures
        ({
            let ended = run(initial(cfg, first), events);
            ended.phase == Phase::Accepted && ended.checked ==> ended.advisory == spec_evaluate(
                ended.candidate,
                cfg.names(),
                cfg.minimum(),
                world,
            )
        }),
{
    lemma_start_is_consistent(cfg, first, world);
    lemma_run_keeps_consistency(initial(cfg, first), events, world);
    lemma_run_keeps_config(initial(cfg, first), events);
}

/// A session keeps its configuration.
pub proof fn lemma_run_keeps_config(m: SessionModel, events: Seq<EventModel>)
    requires
        session_wf(m),
    ensures
        run(m, events).cfg == m.cfg,
    decreases events.len(),
{
    if events.len() > 0 {
        crate::resolution::lemma_step_keeps_well_formed(m, events[0]);
        lemma_run_keeps_config(spec_step(m, events[0]), events.drop_first());
    }
}

} // verus!
