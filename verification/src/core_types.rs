//! Data types of the DAO core contract.

use vstd::prelude::*;
use crate::keymap::Duplicate;

verus! {

/// A remote chain taking part in the DAO, with its share of the vote.
pub struct ChainStakeInfo {
    /// Chain id of the chain registered in the DAO.
    pub chain_id: String,
    /// IBC connection to the chain.
    pub connection_id: String,
    /// Weight of the chain's stake.
    pub stake: u8,
}

impl Duplicate for ChainStakeInfo {
    fn duplicate(&self) -> (r: Self) {
        ChainStakeInfo {
            chain_id: self.chain_id.clone(),
            connection_id: self.connection_id.clone(),
            stake: self.stake,
        }
    }
}

/// Whether a proposal module may still execute proposals.
#[derive(PartialEq, Eq, Structural, Clone, Copy, Debug)]
pub enum ProposalModuleStatus {
    Enabled,
    Disabled,
}

/// A proposal module of the DAO.
pub struct ProposalModule {
    /// The address of the proposal module.
    pub address: String,
    /// The letter prefix derived from the module's number.
    pub prefix: String,
    /// Whether the module is enabled.
    pub status: ProposalModuleStatus,
}

impl Duplicate for ProposalModule {
    fn duplicate(&self) -> (r: Self) {
        ProposalModule {
            address: self.address.clone(),
            prefix: self.prefix.clone(),
            status: self.status,
        }
    }
}

/// Errors of the DAO core contract.
#[derive(Debug, PartialEq, Eq)]
pub enum CoreError {
    /// An error passed on from the chain (an invalid address, missing data).
    Std { msg: String },
    /// A stored value that the operation needs is absent.
    NotFound { kind: String },
    Unauthorized,
    Paused,
    NameIsEmpty,
    DescriptionIsEmpty,
    DaoUriIsEmpty,
    NoActiveProposalModules,
    ChainListRepeat,
    ModuleDisabledCannotExecute { address: String },
    ProposalModuleDoesNotExist { address: String },
    ModuleAlreadyDisabled { address: String },
    KeyMissing,
    MultipleVotingModules,
    MultipleIcaContract,
    UnknownReplyID,
}

impl CoreError {
    pub fn duplicate(&self) -> (r: Self)
        ensures
            r == *self,
    {
        match self {
            CoreError::Std { msg } => CoreError::Std { msg: msg.clone() },
            CoreError::NotFound { kind } => CoreError::NotFound { kind: kind.clone() },
            CoreError::Unauthorized => CoreError::Unauthorized,
            CoreError::Paused => CoreError::Paused,
            CoreError::NameIsEmpty => CoreError::NameIsEmpty,
            CoreError::DescriptionIsEmpty => CoreError::DescriptionIsEmpty,
            CoreError::DaoUriIsEmpty => CoreError::DaoUriIsEmpty,
            CoreError::NoActiveProposalModules => CoreError::NoActiveProposalModules,
            CoreError::ChainListRepeat => CoreError::ChainListRepeat,
            CoreError::ModuleDisabledCannotExecute { address } => CoreError::ModuleDisabledCannotExecute {
                address: address.clone(),
            },
            CoreError::ProposalModuleDoesNotExist { address } => CoreError::ProposalModuleDoesNotExist {
                address: address.clone(),
            },
            CoreError::ModuleAlreadyDisabled { address } => CoreError::ModuleAlreadyDisabled {
                address: address.clone(),
            },
            CoreError::KeyMissing => CoreError::KeyMissing,
            CoreError::MultipleVotingModules => CoreError::MultipleVotingModules,
            CoreError::MultipleIcaContract => CoreError::MultipleIcaContract,
            CoreError::UnknownReplyID => CoreError::UnknownReplyID,
        }
    }
}

/// Top level configuration of the DAO.
pub struct Config {
    /// The name of the DAO.
    pub name: String,
    /// A description of the DAO.
    pub description: String,
    /// The URI of the DAO as defined by the DAOstar standard.
    pub dao_uri: Option<String>,
}

/// Which check, if any, a configuration fails, checked in field order.
pub open spec fn config_error(c: Config) -> Option<CoreError> {
    if c.name@.len() == 0 {
        Some(CoreError::NameIsEmpty)
    } else if c.description@.len() == 0 {
        Some(CoreError::DescriptionIsEmpty)
    } else if c.dao_uri matches Some(u) && u@.len() == 0 {
        Some(CoreError::DaoUriIsEmpty)
    } else {
        None
    }
}

impl Config {
    /// Checks that the name, the description and a given URI are not empty.
    pub fn validate(&self) -> (r: Result<(), CoreError>)
        ensures
            r is Ok <==> config_error(*self) is None,
            r matches Err(e) ==> config_error(*self) == Some(e),
    {
        if self.name.as_str().is_empty() {
            return Err(CoreError::NameIsEmpty);
        }
        if self.description.as_str().is_empty() {
            return Err(CoreError::DescriptionIsEmpty);
        }
        if let Some(uri) = &self.dao_uri {
            if uri.as_str().is_empty() {
                return Err(CoreError::DaoUriIsEmpty);
            }
        }
        Ok(())
    }

    pub fn duplicate(&self) -> (r: Self)
        ensures
            r == *self,
    {
        Config {
            name: self.name.clone(),
            description: self.description.clone(),
            dao_uri: match &self.dao_uri {
                Some(u) => Some(u.clone()),
                None => None,
            },
        }
    }
}

/// Contract name and version as recorded by `cw2`.
pub struct ContractVersion {
    pub contract: String,
    pub version: String,
}

impl ContractVersion {
    pub fn duplicate(&self) -> (r: Self)
        ensures
            r == *self,
    {
        ContractVersion { contract: self.contract.clone(), version: self.version.clone() }
    }
}

/// A key and value attached to a response.
pub struct Attribute {
    pub key: String,
    pub value: String,
}

/// The characters of each attribute's key and value.
pub open spec fn attrs_view(a: Seq<Attribute>) -> Seq<(Seq<char>, Seq<char>)> {
    a.map_values(|x: Attribute| (x.key@, x.value@))
}

/// Builds an attribute.
pub fn attr(key: &str, value: String) -> (a: Attribute)
    ensures
        a.key@ == key@,
        a.value@ == value@,
{
    Attribute { key: key.to_owned(), value }
}

/// An item given at instantiation.
pub struct InitialItem {
    pub key: String,
    pub value: String,
}

} // verus!
