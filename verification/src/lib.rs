//! Verified logic of the Accelerator DAO contracts: the DAO core state
//! machine, the chain registry, the interchain-query helpers and the
//! pre-propose module's proposer rule.  Storage, chain I/O and
//! serialisation live around this library; the decisions the contracts
//! make live here.

pub mod chain_registry;
pub mod core_dao;
pub mod core_execute;
pub mod core_query;
pub mod core_reply;
pub mod core_types;
pub mod expiration;
pub mod icq_contract;
pub mod icq_helper;
pub mod icq_stake;
pub mod icq_sudo;
pub mod icq_tx;
pub mod icq_types;
pub mod keymap;
pub mod laws;
pub mod neutron;
pub mod pre_propose;
pub mod prefix;
pub mod text;
pub mod voting_registry;
