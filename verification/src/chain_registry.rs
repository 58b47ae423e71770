//! The chain registry: an admin records, for each remote chain id, the IBC
//! connection id that reaches it, and anyone reads it back.

use vstd::prelude::*;
use vstd::string::StringExecFns;
use crate::core_types::ContractVersion;
use crate::keymap::{lookup, same_text, KeyMap};

verus! {

/// Name under which the registry records its version.
pub open spec fn registry_contract_name() -> Seq<char> {
    "chain_registry"@
}

/// What loading an absent connection id reports.
pub open spec fn connection_kind() -> Seq<char> {
    "alloc::string::String"@
}

/// The registry's configuration: who may record connections.
pub struct Config {
    pub admin: String,
}

/// Errors of the registry.
#[derive(Debug, PartialEq, Eq)]
pub enum RegistryError {
    /// A refused request, with its message.
    Std { msg: String },
    /// No connection is recorded for the chain.
    NotFound { kind: String },
}

/// Everything the registry keeps.
pub struct ChainRegistry {
    pub config: Config,
    /// The connection id of each remote chain id.
    pub chains: KeyMap<String>,
    pub version: ContractVersion,
}

/// The messages the registry executes.
pub enum ExecuteMsg {
    UpdateChainInfo { remote_chain: String, connection_id: String },
}

/// The messages the registry answers.
pub enum QueryMsg {
    Config {},
    ConnectionIds { remote_chain: String },
}

/// The registry's configuration as answered to queries.
pub struct ConfigResponse {
    pub admin: String,
}

/// The connection id of a remote chain as answered to queries.
pub struct ConnectionResponse {
    pub connection_id: String,
}

/// An answer of the registry.
pub enum RegistryQueryResponse {
    Config(ConfigResponse),
    Connection(ConnectionResponse),
}

/// What recording `connection_id` for `remote_chain` on behalf of `sender`
/// answers and does: the admin's request is recorded over what was there
/// for that chain; anyone else's is refused and changes nothing.
pub open spec fn update_chain_outcome(
    o: ChainRegistry,
    n: ChainRegistry,
    sender: Seq<char>,
    remote_chain: Seq<char>,
    connection_id: String,
    r: Result<(), RegistryError>,
) -> bool {
    &&& n.config == o.config
    &&& n.version == o.version
    &&& if sender == o.config.admin@ {
        &&& r is Ok
        &&& forall|k: Seq<char>|
            #![trigger lookup(n.chains.view(), k)]
            lookup(n.chains.view(), k) == if k == remote_chain {
                Some(connection_id)
            } else {
                lookup(o.chains.view(), k)
            }
        &&& n.chains.view().len() == if lookup(o.chains.view(), remote_chain) is Some {
            o.chains.view().len() as int
        } else {
            o.chains.view().len() + 1int
        }
    } else {
        &&& r matches Err(RegistryError::Std { msg }) && msg@ == "unauthorized"@
        &&& n.chains == o.chains
    }
}

impl ChainRegistry {
    pub open spec fn wf(&self) -> bool {
        self.chains.wf()
    }

    /// A registry administered by `sender`, with no chain recorded.
    pub fn instantiate(sender: String, version: String) -> (s: Self)
        ensures
            s.wf(),
            s.config.admin == sender,
            s.chains.view().len() == 0,
            s.version.contract@ == registry_contract_name(),
            s.version.version == version,
    {
        let contract = "chain_registry".to_owned();
        proof {
            reveal_strlit("chain_registry");
        }
        ChainRegistry {
            config: Config { admin: sender },
            chains: KeyMap::new(),
            version: ContractVersion { contract, version },
        }
    }

    /// Replaces the configuration.
    pub fn store_config(&mut self, config: Config)
        ensures
            final(self).config == config,
            final(self).chains == old(self).chains,
            final(self).version == old(self).version,
    {
        self.config = config;
    }

    /// The configuration.
    pub fn read_config(&self) -> (r: Config)
        ensures
            r == self.config,
    {
        Config { admin: self.config.admin.clone() }
    }

    /// Records `connection_id` for `remote_chain`, when `sender` is the admin.
    pub fn try_update_chain_info(&mut self, sender: &str, remote_chain: String, connection_id: String) -> (r: Result<
        (),
        RegistryError,
    >)
        requires
            old(self).wf(),
        ensures
            final(self).wf(),
            update_chain_outcome(*old(self), *final(self), sender@, remote_chain@, connection_id, r),
    {
        if !same_text(sender, self.config.admin.as_str()) {
            return Err(RegistryError::Std { msg: "unauthorized".to_owned() });
        }
        self.chains.insert(remote_chain, connection_id);
        Ok(())
    }

    /// Executes `msg` sent by `sender`.
    pub fn execute(&mut self, sender: &str, msg: ExecuteMsg) -> (r: Result<(), RegistryError>)
        requires
            old(self).wf(),
        ensures
            final(self).wf(),
            match msg {
                ExecuteMsg::UpdateChainInfo { remote_chain, connection_id } => update_chain_outcome(
                    *old(self),
                    *final(self),
                    sender@,
                    remote_chain@,
                    connection_id,
                    r,
                ),
            },
    {
        match msg {
            ExecuteMsg::UpdateChainInfo { remote_chain, connection_id } => {
                self.try_update_chain_info(sender, remote_chain, connection_id)
            },
        }
    }

    /// The configuration as answered to queries.
    pub fn query_config(&self) -> (r: ConfigResponse)
        ensures
            r.admin == self.config.admin,
    {
        ConfigResponse { admin: self.config.admin.clone() }
    }

    /// The connection id recorded for `remote_chain`.
    pub fn query_connection_id(&self, remote_chain: &str) -> (r: Result<ConnectionResponse, RegistryError>)
        requires
            self.wf(),
        ensures
            match lookup(self.chains.view(), remote_chain@) {
                Some(c) => r matches Ok(resp) && resp.connection_id == c,
                None => r matches Err(RegistryError::NotFound { kind }) && kind@ == connection_kind(),
            },
    {
        match self.chains.get(remote_chain) {
            Some(c) => Ok(ConnectionResponse { connection_id: c.clone() }),
            None => Err(RegistryError::NotFound { kind: "alloc::string::String".to_owned() }),
        }
    }

    /// Answers `msg`.
    pub fn query(&self, msg: &QueryMsg) -> (r: Result<RegistryQueryResponse, RegistryError>)
        requires
            self.wf(),
        ensures
            match msg {
                QueryMsg::Config {} => r matches Ok(RegistryQueryResponse::Config(c)) && c.admin
                    == self.config.admin,
                QueryMsg::ConnectionIds { remote_chain } => match lookup(
                    self.chains.view(),
                    remote_chain@,
                ) {
                    Some(c) => r matches Ok(RegistryQueryResponse::Connection(resp))
                        && resp.connection_id == c,
                    None => r matches Err(RegistryError::NotFound { kind }) && kind@
                        == connection_kind(),
                },
            },
    {
        match msg {
            QueryMsg::Config {} => Ok(RegistryQueryResponse::Config(self.query_config())),
            QueryMsg::ConnectionIds { remote_chain } => {
                match self.query_connection_id(remote_chain.as_str()) {
                    Ok(c) => Ok(RegistryQueryResponse::Connection(c)),
                    Err(e) => Err(e),
                }
            },
        }
    }
}

} // verus!
