//! The registry prober and the naming-policy evaluator, on plain values.

use vstd::prelude::*;
use crate::account_id::{is_top_level, is_top_level_name, parent_name, CandidateAccountId};

verus! {

/// What one registry answered to one existence lookup.
#[derive(Clone, Copy, Debug, PartialEq, Eq, Structural)]
pub enum ProbeReply {
    /// The registry holds the account.
    Exists,
    /// The registry answered that it does not hold the account.
    Absent,
    /// The lookup failed: unreachable registry or malformed response.
    Failed,
}

impl ProbeReply {
    /// Only a positive answer counts: a failed lookup is read as "not found".
    pub open spec fn reports_existence(self) -> bool {
        self == ProbeReply::Exists
    }

    /// Whether the reply says that the account exists.
    pub fn found(&self) -> (hit: bool)
        ensures
            hit == self.reports_existence(),
    {
        match self {
            ProbeReply::Exists => true,
            ProbeReply::Absent => false,
            ProbeReply::Failed => false,
        }
    }
}

/// One backend that can answer whether an account exists.
#[derive(Clone, Debug, PartialEq, Eq)]
pub struct NetworkRegistry {
    pub network_name: String,
    pub rpc_url: String,
}

/// What the engine is configured with: the registries in the order in which
/// they are asked, and the least length of a top-level name that anyone may
/// create.
#[derive(Clone, Debug, PartialEq, Eq)]
pub struct Config {
    pub registries: Vec<NetworkRegistry>,
    pub min_top_level_length: usize,
}

impl Config {
    /// The names of the registries, in configuration order.
    pub open spec fn names(&self) -> Seq<Seq<char>> {
        Seq::new(self.registries@.len(), |i: int| self.registries@[i].network_name@)
    }

    /// The least length of a top-level name.
    pub open spec fn minimum(&self) -> nat {
        self.min_top_level_length as nat
    }
}

/// The outcome of the naming policy on one candidate.
#[derive(Debug, PartialEq, Eq)]
pub enum PolicyViolation {
    /// A top-level name with fewer characters than the configured minimum.
    TooShortTopLevel { length: usize, minimum: usize },
    /// A sub-account whose parent, itself a sub-account, no registry holds.
    ParentMissing { parent_id: String },
    /// A registry already holds the candidate.
    AlreadyExists { network_name: String },
    /// No rule objects.
    Clear,
}

/// The mathematical value of a [`PolicyViolation`].
pub enum ViolationModel {
    TooShortTopLevel { length: nat, minimum: nat },
    ParentMissing { parent_id: Seq<char> },
    AlreadyExists { network_name: Seq<char> },
    Clear,
}

impl View for PolicyViolation {
    type V = ViolationModel;

    open spec fn view(&self) -> ViolationModel {
        match self {
            PolicyViolation::TooShortTopLevel { length, minimum } => ViolationModel::TooShortTopLevel {
                length: *length as nat,
                minimum: *minimum as nat,
            },
            PolicyViolation::ParentMissing { parent_id } => ViolationModel::ParentMissing {
                parent_id: parent_id@,
            },
            PolicyViolation::AlreadyExists { network_name } => ViolationModel::AlreadyExists {
                network_name: network_name@,
            },
            PolicyViolation::Clear => ViolationModel::Clear,
        }
    }
}

impl PolicyViolation {
    /// Whether a rule objects.
    pub fn is_violation(&self) -> (violated: bool)
        ensures
            violated == (self@ != ViolationModel::Clear),
    {
        match self {
            PolicyViolation::Clear => false,
            _ => true,
        }
    }
}

impl Clone for PolicyViolation {
    fn clone(&self) -> (copy: Self)
        ensures
            copy@ == self@,
    {
        match self {
            PolicyViolation::TooShortTopLevel { length, minimum } => PolicyViolation::TooShortTopLevel {
                length: *length,
                minimum: *minimum,
            },
            PolicyViolation::ParentMissing { parent_id } => PolicyViolation::ParentMissing {
                parent_id: parent_id.clone(),
            },
            PolicyViolation::AlreadyExists { network_name } => PolicyViolation::AlreadyExists {
                network_name: network_name.clone(),
            },
            PolicyViolation::Clear => PolicyViolation::Clear,
        }
    }
}

/// Registry `i` is the first of the first `count` registries that reports
/// `account`, where `world(r, a)` says that registry `r` reports account `a`.
pub open spec fn is_first_hit(
    world: spec_fn(int, Seq<char>) -> bool,
    account: Seq<char>,
    count: int,
    i: int,
) -> bool {
    &&& 0 <= i < count
    &&& world(i, account)
    &&& forall|j: int| 0 <= j < i ==> !#[trigger] world(j, account)
}

/// None of the registries before `upto` reports `account`.
pub open spec fn none_before(
    world: spec_fn(int, Seq<char>) -> bool,
    account: Seq<char>,
    upto: int,
) -> bool {
    forall|j: int| 0 <= j < upto ==> !#[trigger] world(j, account)
}

/// The prober: the first registry, in configuration order, that reports
/// `account`.
pub open spec fn find_existing(
    world: spec_fn(int, Seq<char>) -> bool,
    account: Seq<char>,
    count: int,
) -> Option<int> {
    if exists|i: int| is_first_hit(world, account, count, i) {
        Some(choose|i: int| is_first_hit(world, account, count, i))
    } else {
        None
    }
}

/// A first hit is what the prober returns.
pub proof fn lemma_first_hit_is_found(
    world: spec_fn(int, Seq<char>) -> bool,
    account: Seq<char>,
    count: int,
    i: int,
)
    requires
        is_first_hit(world, account, count, i),
    ensures
        find_existing(world, account, count) == Some(i),
{
    let k = choose|k: int| is_first_hit(world, account, count, k);
    assert(is_first_hit(world, account, count, k));
    if k < i {
        assert(!world(k, account));
    } else if i < k {
        assert(!world(i, account));
    }
}

/// Where no registry reports the account, the prober returns nothing.
pub proof fn lemma_no_hit_is_not_found(
    world: spec_fn(int, Seq<char>) -> bool,
    account: Seq<char>,
    count: int,
)
    requires
        none_before(world, account, count),
    ensures
        find_existing(world, account, count).is_none(),
{
    if exists|i: int| is_first_hit(world, account, count, i) {
        let k = choose|k: int| is_first_hit(world, account, count, k);
        assert(world(k, account));
        assert(!world(k, account));
    }
}

/// What the prober returns is a registry that reports the account, and none
/// before it does.
pub proof fn lemma_found_is_first_hit(
    world: spec_fn(int, Seq<char>) -> bool,
    account: Seq<char>,
    count: int,
)
    ensures
        match find_existing(world, account, count) {
            Some(i) => is_first_hit(world, account, count, i),
            None => none_before(world, account, count),
        },
{
    if !(exists|i: int| is_first_hit(world, account, count, i)) {
        lemma_least_hit(world, account, count);
    }
}

/// Either no registry before `upto` reports the account, or one of them is the
/// first to do so.
proof fn lemma_least_hit(world: spec_fn(int, Seq<char>) -> bool, account: Seq<char>, upto: int)
    ensures
        none_before(world, account, upto) || exists|i: int| is_first_hit(world, account, upto, i),
    decreases upto,
{
    if upto > 0 {
        let before = upto - 1;
        lemma_least_hit(world, account, before);
        if none_before(world, account, before) {
            if world(before, account) {
                assert(is_first_hit(world, account, upto, before));
            }
        } else {
            let k = choose|k: int| is_first_hit(world, account, before, k);
            assert(is_first_hit(world, account, upto, k));
        }
    }
}

/// A sub-account whose parent is a sub-account too: only then is the parent
/// looked up.
pub open spec fn needs_parent_probe(candidate: Seq<char>) -> bool {
    match parent_name(candidate) {
        Some(parent) => !is_top_level_name(parent),
        None => false,
    }
}

/// The rules of the naming policy, in their order, on what the prober found
/// for the candidate (`own_hit`) and for its parent (`parent_hit`).
pub open spec fn judge(
    candidate: Seq<char>,
    names: Seq<Seq<char>>,
    minimum: nat,
    own_hit: Option<int>,
    parent_hit: Option<int>,
) -> ViolationModel {
    if let Some(i) = own_hit {
        ViolationModel::AlreadyExists { network_name: names[i] }
    } else if is_top_level_name(candidate) && candidate.len() < minimum {
        ViolationModel::TooShortTopLevel { length: candidate.len(), minimum }
    } else if needs_parent_probe(candidate) && parent_hit.is_none() {
        ViolationModel::ParentMissing { parent_id: parent_name(candidate).unwrap() }
    } else {
        ViolationModel::Clear
    }
}

/// The naming policy on `candidate` in a world of registries.
pub open spec fn spec_evaluate(
    candidate: Seq<char>,
    names: Seq<Seq<char>>,
    minimum: nat,
    world: spec_fn(int, Seq<char>) -> bool,
) -> ViolationModel {
    let count = names.len() as int;
    let parent_hit = match parent_name(candidate) {
        Some(parent) => find_existing(world, parent, count),
        None => None,
    };
    judge(candidate, names, minimum, find_existing(world, candidate, count), parent_hit)
}

/// The world that two rows of replies describe: `own` holds what each
/// registry answered for `candidate`, `parents` what it answered for any
/// other account. A registry without a reply counts as not reporting.
pub open spec fn replies_world(
    candidate: Seq<char>,
    own: Seq<ProbeReply>,
    parents: Seq<ProbeReply>,
) -> spec_fn(int, Seq<char>) -> bool {
    |i: int, account: Seq<char>|
        if account == candidate {
            0 <= i < own.len() && own[i].reports_existence()
        } else {
            0 <= i < parents.len() && parents[i].reports_existence()
        }
}

/// The world that one row of replies describes, whatever the account.
pub open spec fn row_world(replies: Seq<ProbeReply>) -> spec_fn(int, Seq<char>) -> bool {
    |i: int, account: Seq<char>| 0 <= i < replies.len() && replies[i].reports_existence()
}

/// The first of the first `limit` replies that reports existence.
fn first_reporting(replies: &Vec<ProbeReply>, limit: usize) -> (found: Option<usize>)
    ensures
        match found {
            Some(i) => i < limit && i < replies@.len() && replies@[i as int].reports_existence(),
            None => true,
        },
        forall|j: int|
            0 <= j < replies@.len() && j < limit && (found.is_none() || j < found.unwrap())
                ==> !(#[trigger] replies@[j]).reports_existence(),
{
    let mut i: usize = 0;
    while i < replies.len() && i < limit
        invariant
            forall|j: int| 0 <= j < i && j < replies@.len() ==> !(#[trigger] replies@[j]).reports_existence(),
        decreases replies@.len() - i,
    {
        if replies[i].found() {
            return Some(i);
        }
        i += 1;
    }
    None
}

/// The prober on the replies of the registries, given in configuration order:
/// the position of the first registry that reports the account. Replies after
/// that one have no influence, and a failed lookup counts as "not found".
pub fn find_network_where_account_exist(replies: &Vec<ProbeReply>) -> (found: Option<usize>)
    ensures
        match found {
            Some(i) => i < replies@.len() && replies@[i as int].reports_existence(),
            None => true,
        },
        forall|j: int|
            0 <= j < replies@.len() && (found.is_none() || j < found.unwrap())
                ==> !(#[trigger] replies@[j]).reports_existence(),
        forall|account: Seq<char>|
            (match found {
                Some(i) => Some(i as int),
                None => None,
            }) == #[trigger] find_existing(row_world(replies@), account, replies@.len() as int),
{
    let found = first_reporting(replies, replies.len());
    proof {
        assert forall|account: Seq<char>|
            (match found {
                Some(i) => Some(i as int),
                None => None,
            }) == #[trigger] find_existing(row_world(replies@), account, replies@.len() as int) by {
            lemma_row_find(replies@, replies@.len() as int, account, found);
        }
    }
    found
}

/// Reads a scan of one row of replies as a result of the prober.
proof fn lemma_row_find(
    replies: Seq<ProbeReply>,
    count: int,
    account: Seq<char>,
    found: Option<usize>,
)
    requires
        match found {
            Some(i) => i < count && i < replies.len() && replies[i as int].reports_existence(),
            None => true,
        },
        forall|j: int|
            0 <= j < replies.len() && j < count && (found.is_none() || j < found.unwrap())
                ==> !(#[trigger] replies[j]).reports_existence(),
    ensures
        find_existing(row_world(replies), account, count) == (match found {
            Some(i) => Some(i as int),
            None => None,
        }),
{
    let world = row_world(replies);
    match found {
        Some(i) => {
            assert forall|j: int| 0 <= j < i implies !#[trigger] world(j, account) by {
                assert(!replies[j].reports_existence());
            }
            assert(world(i as int, account));
            lemma_first_hit_is_found(world, account, count, i as int);
        },
        None => {
            assert forall|j: int| 0 <= j < count implies !#[trigger] world(j, account) by {
                if j < replies.len() {
                    assert(!replies[j].reports_existence());
                }
            }
            lemma_no_hit_is_not_found(world, account, count);
        },
    }
}

/// Reads a scan of the replies for `account` as a result of the prober in the
/// world of [`replies_world`].
proof fn lemma_replies_find(
    candidate: Seq<char>,
    own: Seq<ProbeReply>,
    parents: Seq<ProbeReply>,
    account: Seq<char>,
    row: Seq<ProbeReply>,
    count: int,
    found: Option<usize>,
)
    requires
        account == candidate ==> row == own,
        account != candidate ==> row == parents,
        match found {
            Some(i) => i < count && i < row.len() && row[i as int].reports_existence(),
            None => true,
        },
        forall|j: int|
            0 <= j < row.len() && j < count && (found.is_none() || j < found.unwrap())
                ==> !(#[trigger] row[j]).reports_existence(),
    ensures
        find_existing(replies_world(candidate, own, parents), account, count) == (match found {
            Some(i) => Some(i as int),
            None => None,
        }),
{
    let world = replies_world(candidate, own, parents);
    match found {
        Some(i) => {
            assert forall|j: int| 0 <= j < i implies !#[trigger] world(j, account) by {
                assert(!row[j].reports_existence());
            }
            assert(world(i as int, account));
            lemma_first_hit_is_found(world, account, count, i as int);
        },
        None => {
            assert forall|j: int| 0 <= j < count implies !#[trigger] world(j, account) by {
                if j < row.len() {
                    assert(!row[j].reports_existence());
                }
            }
            lemma_no_hit_is_not_found(world, account, count);
        },
    }
}

/// The naming-policy evaluator. `own` holds what each configured registry
/// answered for the candidate, `parents` what it answered for the candidate's
/// parent, both in configuration order. The rules come in their order and the
/// first that objects wins: a registry holds the candidate; the candidate is a
/// top-level name below the configured minimum; the candidate's parent is a
/// sub-account that no registry holds.
pub fn evaluate(
    candidate: &CandidateAccountId,
    cfg: &Config,
    own: &Vec<ProbeReply>,
    parents: &Vec<ProbeReply>,
) -> (violation: PolicyViolation)
    ensures
        violation@ == spec_evaluate(
            candidate@,
            cfg.names(),
            cfg.minimum(),
            replies_world(candidate@, own@, parents@),
        ),
{
    let count: usize = cfg.registries.len();
    let own_hit = first_reporting(own, count);
    proof {
        lemma_replies_find(candidate@, own@, parents@, candidate@, own@, count as int, own_hit);
    }
    match own_hit {
        Some(i) => PolicyViolation::AlreadyExists {
            network_name: cfg.registries[i].network_name.clone(),
        },
        None => {
            let length: usize = candidate.char_count();
            match candidate.parent() {
                None => {
                    if length < cfg.min_top_level_length {
                        PolicyViolation::TooShortTopLevel {
                            length,
                            minimum: cfg.min_top_level_length,
                        }
                    } else {
                        PolicyViolation::Clear
                    }
                },
                Some(parent) => {
                    if is_top_level(parent.as_str()) {
                        PolicyViolation::Clear
                    } else {
                        let parent_hit = first_reporting(parents, count);
                        proof {
                            lemma_replies_find(
                                candidate@,
                                own@,
                                parents@,
                                parent@,
                                parents@,
                                count as int,
                                parent_hit,
                            );
                        }
                        match parent_hit {
                            Some(_) => PolicyViolation::Clear,
                            None => PolicyViolation::ParentMissing { parent_id: parent },
                        }
                    }
                },
            }
        },
    }
}

/// The length rule objects only to a candidate without a parent.
pub proof fn lemma_length_rule_only_for_top_level(
    candidate: Seq<char>,
    names: Seq<Seq<char>>,
    minimum: nat,
    world: spec_fn(int, Seq<char>) -> bool,
)
    ensures
        spec_evaluate(candidate, names, minimum, world) is TooShortTopLevel ==> {
            &&& is_top_level_name(candidate)
            &&& parent_name(candidate).is_none()
            &&& candidate.len() < minimum
        },
        !is_top_level_name(candidate) ==> !(spec_evaluate(candidate, names, minimum, world)
            is TooShortTopLevel),
{
}

/// Where the parent of a candidate is a top-level name, the parent rule never
/// objects, whether or not any registry holds that parent.
pub proof fn lemma_top_level_parent_is_not_probed(
    candidate: Seq<char>,
    names: Seq<Seq<char>>,
    minimum: nat,
    world: spec_fn(int, Seq<char>) -> bool,
)
    requires
        parent_name(candidate).is_some(),
        is_top_level_name(parent_name(candidate).unwrap()),
    ensures
        !(spec_evaluate(candidate, names, minimum, world) is ParentMissing),
        find_existing(world, candidate, names.len() as int).is_none() ==> spec_evaluate(
            candidate,
            names,
            minimum,
            world,
        ) == ViolationModel::Clear,
{
}

/// Where a registry reports the candidate, the evaluator names the first such
/// registry, whatever the registries after it would answer.
pub proof fn lemma_first_reporting_registry_is_named(
    candidate: Seq<char>,
    names: Seq<Seq<char>>,
    minimum: nat,
    world: spec_fn(int, Seq<char>) -> bool,
    other: spec_fn(int, Seq<char>) -> bool,
    i: int,
)
    requires
        is_first_hit(world, candidate, names.len() as int, i),
        forall|j: int| 0 <= j <= i ==> #[trigger] other(j, candidate) == world(j, candidate),
    ensures
        spec_evaluate(candidate, names, minimum, world) == (ViolationModel::AlreadyExists {
            network_name: names[i],
        }),
        spec_evaluate(candidate, names, minimum, other) == spec_evaluate(
            candidate,
            names,
            minimum,
            world,
        ),
{
    lemma_first_hit_is_found(world, candidate, names.len() as int, i);
    assert(is_first_hit(other, candidate, names.len() as int, i)) by {
        assert(other(i, candidate) == world(i, candidate));
        assert forall|j: int| 0 <= j < i implies !#[trigger] other(j, candidate) by {
            assert(other(j, candidate) == world(j, candidate));
        }
    }
    lemma_first_hit_is_found(other, candidate, names.len() as int, i);
}

} // verus!
