//! The account that is to be created and funded, and the context that the
//! following stages receive.

use vstd::prelude::*;
use crate::account_id::{well_formed_name, CandidateAccountId};
use crate::policy::Config;
use crate::resolution::{
    lemma_step_keeps_well_formed, session_wf, spec_action, spec_step, Action, ActionModel, Event,
    Resolution,
};

verus! {

/// An amount of tokens, in the smallest unit.
#[derive(Clone, Copy, Debug, PartialEq, Eq, Structural)]
pub struct NearBalance {
    pub yoctonear: u128,
}

/// What the user entered: the name of the new account and what it is funded
/// with.
#[derive(Debug, Clone)]
pub struct NewAccount {
    new_account_id: CandidateAccountId,
    initial_balance: NearBalance,
}

/// What the following stages receive.
#[derive(Debug, Clone)]
pub struct NewAccountContext {
    config: Config,
    new_account_id: CandidateAccountId,
    initial_balance: NearBalance,
}

impl NewAccount {
    /// The name of the new account.
    pub closed spec fn spec_new_account_id(&self) -> Seq<char> {
        self.new_account_id@
    }

    /// The amount that the new account is funded with.
    pub closed spec fn spec_initial_balance(&self) -> NearBalance {
        self.initial_balance
    }

    /// Puts the accepted name and the amount together.
    pub fn new(new_account_id: CandidateAccountId, initial_balance: NearBalance) -> (entered: Self)
        ensures
            entered.spec_new_account_id() == new_account_id@,
            entered.spec_initial_balance() == initial_balance,
    {
        NewAccount { new_account_id, initial_balance }
    }

    /// The name of the new account.
    pub fn new_account_id(&self) -> (id: &CandidateAccountId)
        ensures
            id@ == self.spec_new_account_id(),
    {
        &self.new_account_id
    }

    /// The amount that the new account is funded with.
    pub fn initial_balance(&self) -> (balance: NearBalance)
        ensures
            balance == self.spec_initial_balance(),
    {
        self.initial_balance
    }

    /// One turn of the dialogue that settles the name of the new account: the
    /// session after `event`, and what the caller has to do next.
    pub fn input_new_account_id(session: Resolution, event: Event) -> (turn: (Resolution, Action))
        ensures
            session_wf(session@),
            turn.0@ == spec_step(session@, event@),
            turn.1@ == spec_action(turn.0@),
            match turn.1@ {
                ActionModel::Probe { registry, account } => {
                    &&& 0 <= registry < session@.cfg.registries@.len()
                    &&& well_formed_name(account)
                },
                _ => true,
            },
    {
        let next = session.step(event);
        proof {
            lemma_step_keeps_well_formed(session@, event@);
        }
        let pending = next.action();
        (next, pending)
    }

    /// The end of the balance step, on what the amount parser made of the
    /// user's text: an amount is handed on, and a text that is no amount ends
    /// the step with the parser's message. The user is not asked again.
    pub fn input_initial_balance(parsed: Result<NearBalance, String>) -> (entered: Result<
        Option<NearBalance>,
        String,
    >)
        ensures
            match parsed {
                Ok(balance) => entered == Ok::<Option<NearBalance>, String>(Some(balance)),
                Err(message) => entered == Err::<Option<NearBalance>, String>(message),
            },
    {
        match parsed {
            Ok(balance) => Ok(Some(balance)),
            Err(message) => Err(message),
        }
    }
}

impl NewAccountContext {
    /// The configuration that was loaded before the dialogue.
    pub closed spec fn spec_config(&self) -> Config {
        self.config
    }

    /// The name of the new account.
    pub closed spec fn spec_new_account_id(&self) -> Seq<char> {
        self.new_account_id@
    }

    /// The amount that the new account is funded with.
    pub closed spec fn spec_initial_balance(&self) -> NearBalance {
        self.initial_balance
    }

    /// The context for the following stages: the configuration of the previous
    /// context, with the name and the amount that the user entered.
    pub fn from_previous_context(previous_context: Config, scope: &NewAccount) -> (context: Self)
        ensures
            context.spec_config() == previous_context,
            context.spec_new_account_id() == scope.spec_new_account_id(),
            context.spec_initial_balance() == scope.spec_initial_balance(),
    {
        NewAccountContext {
            config: previous_context,
            new_account_id: scope.new_account_id.clone(),
            initial_balance: scope.initial_balance,
        }
    }

    /// The configuration that was loaded before the dialogue.
    pub fn config(&self) -> (config: &Config)
        ensures
            *config == self.spec_config(),
    {
        &self.config
    }

    /// The name of the new account.
    pub fn new_account_id(&self) -> (id: &CandidateAccountId)
        ensures
            id@ == self.spec_new_account_id(),
    {
        &self.new_account_id
    }

    /// The amount that the new account is funded with.
    pub fn initial_balance(&self) -> (balance: NearBalance)
        ensures
            balance == self.spec_initial_balance(),
    {
        self.initial_balance
    }
}

} // verus!
