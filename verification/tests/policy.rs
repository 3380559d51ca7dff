use account_resolver::account_id::CandidateAccountId;
use account_resolver::policy::{
    evaluate, find_network_where_account_exist, Config, NetworkRegistry, PolicyViolation,
    ProbeReply,
};

fn registry(name: &str) -> NetworkRegistry {
    NetworkRegistry {
        network_name: name.to_string(),
        rpc_url: format!("https://rpc.{}.example", name),
    }
}

fn config(names: &[&str], minimum: usize) -> Config {
    Config {
        registries: names.iter().map(|name| registry(name)).collect(),
        min_top_level_length: minimum,
    }
}

fn id(text: &str) -> CandidateAccountId {
    CandidateAccountId::parse(text).unwrap()
}

const E: ProbeReply = ProbeReply::Exists;
const A: ProbeReply = ProbeReply::Absent;
const F: ProbeReply = ProbeReply::Failed;

#[test]
fn only_a_positive_reply_counts() {
    assert!(E.found());
    assert!(!A.found());
    assert!(!F.found());
}

#[test]
fn prober_returns_the_first_registry_that_reports() {
    assert_eq!(find_network_where_account_exist(&vec![]), None);
    assert_eq!(find_network_where_account_exist(&vec![A, A]), None);
    assert_eq!(find_network_where_account_exist(&vec![A, E]), Some(1));
    assert_eq!(find_network_where_account_exist(&vec![E, E]), Some(0));
    assert_eq!(find_network_where_account_exist(&vec![A, E, A, E]), Some(1));
}

#[test]
fn prober_reads_a_failed_lookup_as_not_found() {
    assert_eq!(find_network_where_account_exist(&vec![F, F, F]), None);
    assert_eq!(find_network_where_account_exist(&vec![F, E]), Some(1));
}

#[test]
fn existing_candidate_is_reported_with_the_second_network() {
    let cfg = config(&["mainnet", "testnet"], 32);
    let verdict = evaluate(&id("alice.near"), &cfg, &vec![A, E], &vec![A, A]);
    assert_eq!(
        verdict,
        PolicyViolation::AlreadyExists { network_name: "testnet".to_string() }
    );
}

#[test]
fn existence_wins_over_the_other_rules() {
    let cfg = config(&["mainnet", "testnet"], 32);
    let short = evaluate(&id("abc"), &cfg, &vec![E, E], &vec![A, A]);
    assert_eq!(short, PolicyViolation::AlreadyExists { network_name: "mainnet".to_string() });
    let orphan = evaluate(&id("x.sub.alice"), &cfg, &vec![F, E], &vec![A, A]);
    assert_eq!(orphan, PolicyViolation::AlreadyExists { network_name: "testnet".to_string() });
}

#[test]
fn short_top_level_name_violates_the_length_rule() {
    let cfg = config(&["mainnet"], 5);
    let verdict = evaluate(&id("abc"), &cfg, &vec![A], &vec![A]);
    assert_eq!(verdict, PolicyViolation::TooShortTopLevel { length: 3, minimum: 5 });
    assert!(verdict.is_violation());
}

#[test]
fn top_level_name_of_minimum_length_passes() {
    let cfg = config(&["mainnet"], 5);
    assert_eq!(evaluate(&id("abcde"), &cfg, &vec![A], &vec![A]), PolicyViolation::Clear);
    assert_eq!(
        evaluate(&id("abcd"), &cfg, &vec![A], &vec![A]),
        PolicyViolation::TooShortTopLevel { length: 4, minimum: 5 }
    );
    assert!(!PolicyViolation::Clear.is_violation());
}

#[test]
fn short_sub_account_does_not_violate_the_length_rule() {
    let cfg = config(&["mainnet"], 5);
    assert_eq!(evaluate(&id("ab.c"), &cfg, &vec![A], &vec![E]), PolicyViolation::Clear);
    assert_eq!(evaluate(&id("a.b"), &cfg, &vec![A], &vec![A]), PolicyViolation::Clear);
}

#[test]
fn top_level_parent_is_never_missing() {
    let cfg = config(&["mainnet", "testnet"], 32);
    let verdict = evaluate(&id("sub.alice"), &cfg, &vec![A, A], &vec![A, A]);
    assert_eq!(verdict, PolicyViolation::Clear);
    let failed = evaluate(&id("sub.alice"), &cfg, &vec![F, F], &vec![F, F]);
    assert_eq!(failed, PolicyViolation::Clear);
}

#[test]
fn missing_sub_account_parent_is_reported() {
    let cfg = config(&["mainnet", "testnet"], 32);
    let verdict = evaluate(&id("x.sub.alice"), &cfg, &vec![A, A], &vec![A, F]);
    assert_eq!(verdict, PolicyViolation::ParentMissing { parent_id: "sub.alice".to_string() });
}

#[test]
fn sub_account_parent_found_on_any_registry_passes() {
    let cfg = config(&["mainnet", "testnet"], 32);
    assert_eq!(
        evaluate(&id("x.sub.alice"), &cfg, &vec![A, A], &vec![A, E]),
        PolicyViolation::Clear
    );
    assert_eq!(
        evaluate(&id("x.sub.alice"), &cfg, &vec![A, A], &vec![E, A]),
        PolicyViolation::Clear
    );
}

#[test]
fn replies_beyond_the_configured_registries_are_ignored() {
    let cfg = config(&["mainnet"], 2);
    assert_eq!(evaluate(&id("alice"), &cfg, &vec![A, E], &vec![]), PolicyViolation::Clear);
    assert_eq!(
        evaluate(&id("alice"), &cfg, &vec![], &vec![]),
        PolicyViolation::Clear
    );
}

#[test]
fn without_registries_only_the_names_decide() {
    let cfg = config(&[], 5);
    assert_eq!(
        evaluate(&id("abc"), &cfg, &vec![], &vec![]),
        PolicyViolation::TooShortTopLevel { length: 3, minimum: 5 }
    );
    assert_eq!(
        evaluate(&id("x.sub.alice"), &cfg, &vec![], &vec![]),
        PolicyViolation::ParentMissing { parent_id: "sub.alice".to_string() }
    );
    assert_eq!(evaluate(&id("sub.alice"), &cfg, &vec![], &vec![]), PolicyViolation::Clear);
}

#[test]
fn violation_clone_is_equal() {
    let verdict = PolicyViolation::AlreadyExists { network_name: "testnet".to_string() };
    assert_eq!(verdict.clone(), verdict);
    let short = PolicyViolation::TooShortTopLevel { length: 3, minimum: 5 };
    assert_eq!(short.clone(), short);
}
