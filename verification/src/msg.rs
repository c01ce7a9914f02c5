//! The operations that callers ask for, and what queries answer.

use crate::state::{Action, ActionModel, Config, ConfigModel};
use vstd::prelude::*;

verus! {

/// What an instantiation, or a migration, sets the configuration to.
#[derive(Clone, Debug, PartialEq, Eq)]
pub struct InstantiateMsg {
    pub owner: String,
    pub executor: String,
    pub target_denoms: Vec<String>,
    pub target_addresses: Vec<(String, u8)>,
}

impl DeepView for InstantiateMsg {
    type V = ConfigModel;

    open spec fn deep_view(&self) -> ConfigModel {
        ConfigModel {
            owner: self.owner@,
            executor: self.executor@,
            target_denoms: self.target_denoms.deep_view(),
            target_addresses: self.target_addresses.deep_view(),
        }
    }
}

/// The operations that change state.
#[derive(Clone, Debug, PartialEq, Eq)]
pub enum ExecuteMsg {
    /// Hands ownership to another identity. Owner only.
    SetOwner(String),
    /// Names the identity that may crank. Owner only.
    SetExecutor(String),
    /// Stores an action under its denomination. Owner only.
    SetAction(Action),
    /// Removes the action of a denomination. Owner only.
    UnsetAction(String),
    /// The crank. Executor only.
    Run {},
}

/// The queries.
#[derive(Clone, Copy, Debug, PartialEq, Eq)]
pub enum QueryMsg {
    Config {},
    Actions {},
    Status {},
}

/// The answer to [`QueryMsg::Config`].
#[derive(Clone, Debug, PartialEq, Eq)]
pub struct ConfigResponse {
    pub owner: String,
    pub executor: String,
    pub target_denoms: Vec<String>,
    pub target_addresses: Vec<(String, u8)>,
}

impl DeepView for ConfigResponse {
    type V = ConfigModel;

    open spec fn deep_view(&self) -> ConfigModel {
        ConfigModel {
            owner: self.owner@,
            executor: self.executor@,
            target_denoms: self.target_denoms.deep_view(),
            target_addresses: self.target_addresses.deep_view(),
        }
    }
}

impl From<Config> for ConfigResponse {
    /// The configuration, as a query answers it.
    fn from(value: Config) -> (r: ConfigResponse) {
        ConfigResponse {
            owner: value.owner,
            executor: value.executor,
            target_denoms: value.target_denoms,
            target_addresses: value.target_addresses,
        }
    }
}

impl vstd::std_specs::convert::FromSpecImpl<Config> for ConfigResponse {
    open spec fn obeys_from_spec() -> bool {
        true
    }

    open spec fn from_spec(value: Config) -> ConfigResponse {
        ConfigResponse {
            owner: value.owner,
            executor: value.executor,
            target_denoms: value.target_denoms,
            target_addresses: value.target_addresses,
        }
    }
}

/// One action, as a query answers it.
#[derive(Clone, Debug, PartialEq, Eq)]
pub struct ActionResponse {
    pub denom: String,
    pub contract: String,
    pub limit: u128,
    pub msg: Vec<u8>,
}

impl DeepView for ActionResponse {
    type V = ActionModel;

    open spec fn deep_view(&self) -> ActionModel {
        ActionModel {
            denom: self.denom@,
            contract: self.contract@,
            limit: self.limit,
            msg: self.msg@,
        }
    }
}

impl From<Action> for ActionResponse {
    /// The action, as a query answers it.
    fn from(value: Action) -> (r: ActionResponse) {
        ActionResponse {
            denom: value.denom,
            contract: value.contract,
            limit: value.limit,
            msg: value.msg,
        }
    }
}

impl vstd::std_specs::convert::FromSpecImpl<Action> for ActionResponse {
    open spec fn obeys_from_spec() -> bool {
        true
    }

    open spec fn from_spec(value: Action) -> ActionResponse {
        ActionResponse {
            denom: value.denom,
            contract: value.contract,
            limit: value.limit,
            msg: value.msg,
        }
    }
}

/// The answer to [`QueryMsg::Actions`].
#[derive(Clone, Debug, PartialEq, Eq)]
pub struct ActionsResponse {
    pub actions: Vec<ActionResponse>,
}

/// The answer to [`QueryMsg::Status`].
#[derive(Clone, Debug, PartialEq, Eq)]
pub struct StatusResponse {
    pub last: Option<String>,
}

} // verus!
