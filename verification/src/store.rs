//! What messaging keeps with a session.

use vstd::prelude::*;

use crate::budget::{BudgetState, SessionMessageBudget};
use crate::session::{config_of, ConfigView, SessionMessagingConfig, SessionMessagingIdentity};

verus! {

/// What messaging keeps with a session.
#[derive(Debug)]
pub struct ThreadStore {
    /// The identifier of the session, as text.
    pub level_id: String,
    pub config: Option<SessionMessagingConfig>,
    pub identity: Option<SessionMessagingIdentity>,
    pub budget: Option<SessionMessageBudget>,
}

/// A [`ThreadStore`] by its texts.
pub struct StoreView {
    pub level_id: Seq<char>,
    pub config: Option<ConfigView>,
    pub identity: Option<SessionMessagingIdentity>,
    pub budget: Option<BudgetState>,
}

impl View for ThreadStore {
    type V = StoreView;

    open spec fn view(&self) -> StoreView {
        StoreView {
            level_id: self.level_id@,
            config: config_of(self.config),
            identity: self.identity,
            budget: match self.budget {
                Some(budget) => Some(budget@),
                None => None,
            },
        }
    }
}

impl StoreView {
    /// Whether the session gets the messaging tools: it has enabled the
    /// feature, is not ephemeral and is a root session.
    pub open spec fn tools_enabled(self) -> bool {
        &&& self.config matches Some(config)
        &&& self.identity matches Some(identity)
        &&& config.enabled && !config.ephemeral && identity.is_root
    }

    /// What is kept when a session starts.
    pub open spec fn after_thread_start(
        self,
        config: ConfigView,
        is_non_root_agent: bool,
    ) -> StoreView {
        StoreView {
            level_id: self.level_id,
            config: Some(config),
            identity: Some(SessionMessagingIdentity { is_root: !is_non_root_agent }),
            budget: Some(BudgetState::fresh()),
        }
    }

    /// What is kept once the configuration of the session has changed.
    pub open spec fn after_config_change(self, config: ConfigView) -> StoreView {
        StoreView { config: Some(config), ..self }
    }

    /// What is kept with this much of the budget left.
    pub open spec fn with_budget(self, budget: BudgetState) -> StoreView {
        StoreView { budget: Some(budget), ..self }
    }

    /// What is kept after a turn began with `inputs` explicit user inputs.
    pub open spec fn after_turn_input(self, inputs: nat) -> StoreView {
        StoreView {
            budget: match self.budget {
                Some(budget) if inputs > 0 => Some(budget.after_reset()),
                _ => self.budget,
            },
            ..self
        }
    }
}

impl ThreadStore {
    /// What is kept of a session about which nothing is known yet.
    pub fn new(level_id: String) -> (store: ThreadStore)
        ensures
            store@ == (StoreView {
                level_id: level_id@,
                config: None,
                identity: None,
                budget: None,
            }),
            store.level_id@ == level_id@,
            store.config is None && store.identity is None && store.budget is None,
    {
        ThreadStore { level_id, config: None, identity: None, budget: None }
    }
}

} // verus!
