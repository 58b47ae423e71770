//! Queries of the DAO core contract.

use vstd::prelude::*;
use crate::core_types::{ChainStakeInfo, Config, ContractVersion, CoreError, ProposalModule, ProposalModuleStatus};
use crate::core_dao::{CoreState, PauseInfo};
use crate::expiration::{is_expired, spec_is_expired, BlockInfo};
use crate::keymap::{bound_view, capped, entries_after, entries_before_reversed, entry_view, lemma_entries_after_none, lookup};

verus! {

/// The values of a sequence of entries.
pub open spec fn entry_values<V>(s: Seq<(Seq<char>, V)>) -> Seq<V> {
    s.map_values(|e: (Seq<char>, V)| e.1)
}

/// The enabled modules of the sequence, in order.
pub open spec fn enabled_only(s: Seq<ProposalModule>) -> Seq<ProposalModule>
    decreases s.len(),
{
    if s.len() == 0 {
        seq![]
    } else {
        let rest = enabled_only(s.drop_last());
        if s.last().status == ProposalModuleStatus::Enabled {
            rest.push(s.last())
        } else {
            rest
        }
    }
}

/// The kind named when an address the contract needs is not stored.
pub open spec fn address_kind() -> Seq<char> {
    "cosmwasm_std::addresses::Addr"@
}

/// Everything the DAO core reports about itself.
pub struct DumpStateResponse {
    pub config: Config,
    pub version: ContractVersion,
    pub pause_info: PauseInfo,
    pub proposal_modules: Vec<ProposalModule>,
    pub ica_helper: String,
    pub active_proposal_module_count: u32,
    pub total_proposal_module_count: u32,
}

/// A chain and the stake reported for it.
pub struct ChainStake {
    pub chain_id: String,
    pub stake: u128,
}

/// What one reported chain adds to the DAO's voting power: the power
/// reported for it, weighted by the chain's percentage of say in the DAO;
/// nothing for a chain that is not part of the DAO.
pub open spec fn chain_contribution(c: ChainStake, table: Seq<(Seq<char>, ChainStakeInfo)>) -> nat {
    match lookup(table, c.chain_id@) {
        None => 0,
        Some(info) => (c.stake as nat * info.stake as nat) / 100,
    }
}

/// Net voting power of the reported chains: the sum of what each adds.
pub open spec fn net_voting_power(
    chains: Seq<ChainStake>,
    table: Seq<(Seq<char>, ChainStakeInfo)>,
) -> nat
    decreases chains.len(),
{
    if chains.len() == 0 {
        0
    } else {
        net_voting_power(chains.drop_last(), table) + chain_contribution(chains.last(), table)
    }
}

/// Reporting more chains never lowers the net voting power: the power of a
/// prefix of the reported chains is at most that of all of them.
pub proof fn lemma_net_voting_power_prefix(
    chains: Seq<ChainStake>,
    table: Seq<(Seq<char>, ChainStakeInfo)>,
    i: int,
)
    requires
        0 <= i <= chains.len(),
    ensures
        net_voting_power(chains.take(i), table) <= net_voting_power(chains, table),
    decreases chains.len(),
{
    if i < chains.len() {
        assert(chains.drop_last().take(i) =~= chains.take(i));
        lemma_net_voting_power_prefix(chains.drop_last(), table, i);
    } else {
        assert(chains.take(i) =~= chains);
    }
}

/// `p * s / 100` computed as `(p / 100) * s + (p % 100) * s / 100`, which
/// needs no room above the result.
proof fn lemma_weighted_split(p: nat, s: nat)
    ensures
        (p * s) / 100 == (p / 100) * s + ((p % 100) * s) / 100,
        (p / 100) * s <= (p * s) / 100,
{
    let q = p / 100;
    let r = p % 100;
    assert(p == 100 * q + r);
    assert(p * s == 100 * (q * s) + r * s) by (nonlinear_arith)
        requires
            p == 100 * q + r,
    ;
    assert((100 * (q * s) + r * s) / 100 == q * s + (r * s) / 100) by (nonlinear_arith)
        requires
            r * s >= 0,
            q * s >= 0,
    ;
}

impl CoreState {
    /// The configuration.
    pub fn query_config(&self) -> (r: Config)
        ensures
            r == self.config,
    {
        self.config.duplicate()
    }

    /// The voting registry module.
    pub fn query_voting_module(&self) -> (r: Result<String, CoreError>)
        ensures
            match self.voting_module {
                Some(a) => r == Ok::<String, CoreError>(a),
                None => r matches Err(CoreError::NotFound { kind }) && kind@ == address_kind(),
            },
    {
        match &self.voting_module {
            Some(a) => Ok(a.clone()),
            None => Err(CoreError::NotFound { kind: "cosmwasm_std::addresses::Addr".to_owned() }),
        }
    }

    /// The ICQ helper that reports the stake of the chains.
    pub fn query_icq_helper(&self) -> (r: Result<String, CoreError>)
        ensures
            match self.icq_helper {
                Some(a) => r == Ok::<String, CoreError>(a),
                None => r matches Err(CoreError::NotFound { kind }) && kind@ == address_kind(),
            },
    {
        match &self.icq_helper {
            Some(a) => Ok(a.clone()),
            None => Err(CoreError::NotFound { kind: "cosmwasm_std::addresses::Addr".to_owned() }),
        }
    }

    /// Proposal modules after `start_after`, in address order, at most `limit`.
    pub fn query_proposal_modules(&self, start_after: Option<&str>, limit: Option<u32>) -> (r: Vec<
        ProposalModule,
    >)
        requires
            self.wf(),
        ensures
            r@ == entry_values(
                capped(
                    entries_after(self.proposal_modules.view(), bound_view(start_after)),
                    match limit {
                        Some(l) => Some(l as nat),
                        None => None,
                    },
                ),
            ),
    {
        let lim: Option<usize> = match limit {
            Some(l) => Some(l as usize),
            None => None,
        };
        let entries = self.proposal_modules.range_ascending(start_after, lim);
        values_of(entries)
    }

    /// Enabled proposal modules after `start_after`, in address order, at
    /// most `limit` (by default as many as there are modules after
    /// `start_after`).
    pub fn query_active_proposal_modules(&self, start_after: Option<&str>, limit: Option<u32>) -> (r: Vec<
        ProposalModule,
    >)
        requires
            self.wf(),
        ensures
            ({
                let values = entry_values(entries_after(self.proposal_modules.view(), bound_view(start_after)));
                let lim: nat = match limit {
                    Some(l) => l as nat,
                    None => (values.len() as u32) as nat,
                };
                r@ == capped(enabled_only(values), Some(lim))
            }),
    {
        let entries = self.proposal_modules.range_ascending(start_after, None);
        let values = values_of(entries);
        let ghost vs = values@;
        let lim: u32 = match limit {
            Some(l) => l,
            None => values.len() as u32,
        };
        let mut out: Vec<ProposalModule> = Vec::new();
        let mut i: usize = 0;
        while i < values.len()
            invariant
                vs == values@,
                i <= vs.len(),
                out@ == capped(enabled_only(vs.take(i as int)), Some(lim as nat)),
            decreases values.len() - i,
        {
            let ghost prev = enabled_only(vs.take(i as int));
            proof {
                assert(vs.take(i + 1).drop_last() =~= vs.take(i as int));
                assert(vs.take(i + 1).last() == vs[i as int]);
            }
            if values[i].status == ProposalModuleStatus::Enabled && (out.len() as u64) < (lim as u64) {
                out.push(values[i].duplicate_module());
                proof {
                    assert(out@ =~= capped(prev, Some(lim as nat)).push(vs[i as int]));
                }
            }
            proof {
                let now = enabled_only(vs.take(i + 1));
                if values[i as int].status == ProposalModuleStatus::Enabled {
                    assert(now == prev.push(vs[i as int]));
                    if (out@.len() as u64) >= (lim as u64) && capped(prev, Some(lim as nat)).len() >= lim {
                        assert(now.take(lim as int) =~= prev.take(lim as int));
                    }
                } else {
                    assert(now == prev);
                }
            }
            i = i + 1;
        }
        assert(vs.take(vs.len() as int) =~= vs);
        out
    }

    /// Whether the DAO is paused in `block`.
    pub fn get_pause_info(&self, block: &BlockInfo) -> (r: PauseInfo)
        ensures
            match self.paused {
                Some(e) => if spec_is_expired(e, *block) {
                    r is Unpaused
                } else {
                    r == PauseInfo::Paused { expiration: e }
                },
                None => r is Unpaused,
            },
    {
        match &self.paused {
            Some(e) => {
                if is_expired(e, block) {
                    PauseInfo::Unpaused
                } else {
                    PauseInfo::Paused { expiration: *e }
                }
            },
            None => PauseInfo::Unpaused,
        }
    }

    /// Everything the DAO reports about itself; fails when no ICA helper is
    /// installed yet.
    pub fn query_dump_state(&self, block: &BlockInfo) -> (r: Result<DumpStateResponse, CoreError>)
        requires
            self.wf(),
        ensures
            match self.ica_helper {
                None => r matches Err(CoreError::NotFound { kind }) && kind@ == address_kind(),
                Some(ica) => r matches Ok(d) && {
                    &&& d.config == self.config
                    &&& d.version == self.version
                    &&& d.proposal_modules@ == entry_values(self.proposal_modules.view())
                    &&& d.ica_helper == ica
                    &&& d.active_proposal_module_count == self.active_proposal_module_count
                    &&& d.total_proposal_module_count == self.total_proposal_module_count
                    &&& match self.paused {
                        Some(e) => if spec_is_expired(e, *block) {
                            d.pause_info is Unpaused
                        } else {
                            d.pause_info == PauseInfo::Paused { expiration: e }
                        },
                        None => d.pause_info is Unpaused,
                    }
                },
            },
    {
        let config = self.config.duplicate();
        let ica = match &self.ica_helper {
            Some(a) => a.clone(),
            None => {
                return Err(CoreError::NotFound { kind: "cosmwasm_std::addresses::Addr".to_owned() });
            },
        };
        let entries = self.proposal_modules.range_ascending(None, None);
        proof {
            lemma_entries_after_none(self.proposal_modules.view());
        }
        let proposal_modules = values_of(entries);
        let pause_info = self.get_pause_info(block);
        Ok(
            DumpStateResponse {
                config,
                version: self.version.duplicate(),
                pause_info,
                proposal_modules,
                ica_helper: ica,
                active_proposal_module_count: self.active_proposal_module_count,
                total_proposal_module_count: self.total_proposal_module_count,
            },
        )
    }

    /// The item stored under `key`.
    pub fn query_get_item(&self, key: &str) -> (r: Option<String>)
        requires
            self.wf(),
        ensures
            r == lookup(self.items.view(), key@),
    {
        match self.items.get(key) {
            Some(v) => Some(v.clone()),
            None => None,
        }
    }

    /// Contract name and version.
    pub fn query_info(&self) -> (r: ContractVersion)
        ensures
            r == self.version,
    {
        self.version.duplicate()
    }

    /// Items before `start_after`, in descending key order, at most `limit`.
    pub fn query_list_items(&self, start_after: Option<&str>, limit: Option<u32>) -> (r: Vec<
        (String, String),
    >)
        requires
            self.wf(),
        ensures
            r@.map_values(|e: (String, String)| entry_view(e)) == capped(
                entries_before_reversed(self.items.view(), bound_view(start_after)),
                match limit {
                    Some(l) => Some(l as nat),
                    None => None,
                },
            ),
    {
        let lim: Option<usize> = match limit {
            Some(l) => Some(l as usize),
            None => None,
        };
        self.items.range_descending(start_after, lim)
    }

    /// The URI of the DAO.
    pub fn query_dao_uri(&self) -> (r: Option<String>)
        ensures
            r == self.config.dao_uri,
    {
        match &self.config.dao_uri {
            Some(u) => Some(u.clone()),
            None => None,
        }
    }

    /// Net voting power of the chains the ICQ helper reported, or `None`
    /// where it does not fit in 128 bits.
    pub fn calculate_net_voting_power_checked(&self, chains: &Vec<ChainStake>) -> (r: Option<u128>)
        requires
            self.wf(),
        ensures
            net_voting_power(chains@, self.chain_stake.view()) <= u128::MAX ==> r == Some(
                net_voting_power(chains@, self.chain_stake.view()) as u128,
            ),
            net_voting_power(chains@, self.chain_stake.view()) > u128::MAX ==> r is None,
    {
        let ghost table = self.chain_stake.view();
        let mut total_power: u128 = 0;
        let mut i: usize = 0;
        while i < chains.len()
            invariant
                self.wf(),
                table == self.chain_stake.view(),
                i <= chains@.len(),
                total_power == net_voting_power(chains@.take(i as int), table),
            decreases chains.len() - i,
        {
            proof {
                assert(chains@.take(i + 1).drop_last() =~= chains@.take(i as int));
                assert(chains@.take(i + 1).last() == chains@[i as int]);
            }
            match self.chain_stake.get(chains[i].chain_id.as_str()) {
                None => {},
                Some(info) => {
                    let p: u128 = chains[i].stake;
                    let s: u128 = info.stake as u128;
                    proof {
                        lemma_weighted_split(p as nat, s as nat);
                        assert((p % 100) * s <= 99 * 255) by (nonlinear_arith)
                            requires
                                p % 100 < 100,
                                s <= 255,
                        ;
                    }
                    let low: u128 = (p % 100) * s / 100;
                    let high: u128 = match (p / 100).checked_mul(s) {
                        Some(h) => h,
                        None => {
                            proof {
                                lemma_net_voting_power_prefix(chains@, table, i + 1);
                            }
                            return None;
                        },
                    };
                    let add: u128 = match high.checked_add(low) {
                        Some(a) => a,
                        None => {
                            proof {
                                lemma_net_voting_power_prefix(chains@, table, i + 1);
                            }
                            return None;
                        },
                    };
                    total_power = match total_power.checked_add(add) {
                        Some(t) => t,
                        None => {
                            proof {
                                lemma_net_voting_power_prefix(chains@, table, i + 1);
                            }
                            return None;
                        },
                    };
                },
            }
            i = i + 1;
        }
        assert(chains@.take(chains@.len() as int) =~= chains@);
        Some(total_power)
    }

    /// Net voting power of the chains the ICQ helper reported: for each
    /// chain of the DAO, the reported power times the chain's percentage of
    /// say, divided by one hundred, summed; other chains add nothing.
    pub fn calculate_net_voting_power(&self, chains: Vec<ChainStake>) -> (r: u128)
        requires
            self.wf(),
            net_voting_power(chains@, self.chain_stake.view()) <= u128::MAX,
        ensures
            r == net_voting_power(chains@, self.chain_stake.view()),
    {
        match self.calculate_net_voting_power_checked(&chains) {
            Some(r) => r,
            None => 0,
        }
    }

    /// Records the contract version after a migration.
    pub fn migrate(&mut self, version: ContractVersion)
        ensures
            final(self).version == version,
            final(self).config == old(self).config,
            final(self).items == old(self).items,
            final(self).proposal_modules == old(self).proposal_modules,
            final(self).active_proposal_module_count == old(self).active_proposal_module_count,
            final(self).total_proposal_module_count == old(self).total_proposal_module_count,
            final(self).paused == old(self).paused,
            final(self).voting_module == old(self).voting_module,
            final(self).ica_helper == old(self).ica_helper,
            final(self).icq_helper == old(self).icq_helper,
            final(self).contract_registry == old(self).contract_registry,
            final(self).chain_stake == old(self).chain_stake,
    {
        self.version = version;
    }
}

impl ProposalModule {
    pub fn duplicate_module(&self) -> (r: Self)
        ensures
            r == *self,
    {
        ProposalModule {
            address: self.address.clone(),
            prefix: self.prefix.clone(),
            status: self.status,
        }
    }
}

/// The values of a list of entries, in order.
fn values_of<V>(entries: Vec<(String, V)>) -> (r: Vec<V>)
    ensures
        r@ == entry_values(entries@.map_values(|e: (String, V)| entry_view(e))),
{
    let ghost all = entries@;
    let mut rest = entries;
    let mut out: Vec<V> = Vec::new();
    let ghost mut done: Seq<(String, V)> = seq![];
    while rest.len() > 0
        invariant
            all == done + rest@,
            out@ == done.map_values(|e: (String, V)| e.1),
        decreases rest.len(),
    {
        let (_k, v) = rest.remove(0);
        proof {
            let e = all[done.len() as int];
            assert(done.push(e).map_values(|e: (String, V)| e.1) =~= done.map_values(|e: (String, V)| e.1).push(e.1));
            done = done.push(e);
            assert(all =~= done + rest@);
        }
        out.push(v);
    }
    assert(done =~= all);
    assert(out@ =~= entry_values(all.map_values(|e: (String, V)| entry_view(e))));
    out
}

} // verus!
