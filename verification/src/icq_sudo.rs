//! What the interchain-query helper reads from the transactions a
//! transaction query reports: delegations by a delegator, transfers to a
//! recipient, and the size checks on their amounts.

use vstd::prelude::*;
use vstd::string::StringExecFns;
use crate::icq_types::{Delegation, DelegationView, Transfer, TransferView};
use crate::icq_tx::{decode_msg_delegate, decode_msg_send, delegate_message, messages_view, send_message, AnyMsg, AnyView, CoinView, DelegateView, SendView};
use crate::icq_helper::{delegate_url, transfer_url, IcqError, MAX_ALLOWED_MESSAGES, MAX_ALLOWED_TRANSFER};
use crate::keymap::same_text;
use crate::text::{decimal, parse_u64, parsed_unsigned, u64_parse_error_text, u64_text};

verus! {

/// The messages that are read: the first twenty.
pub open spec fn first_messages(ms: Seq<AnyView>) -> Seq<AnyView> {
    if ms.len() <= 20 {
        ms
    } else {
        ms.take(20)
    }
}

proof fn lemma_skip_first<A>(s: Seq<A>, i: int)
    requires
        0 <= i < s.len(),
    ensures
        s.skip(i)[0] == s[i],
        s.skip(i).drop_first() == s.skip(i + 1),
{
    assert(s.skip(i).drop_first() =~= s.skip(i + 1));
}

/// The delegation a delegate message `d` records for its coin `c`.
pub open spec fn delegation_of(d: DelegateView, c: CoinView) -> DelegationView {
    DelegationView {
        delegator: d.delegator_address,
        validator: d.validator_address,
        denom: c.denom,
        amount: c.amount,
    }
}

/// The delegations by `delegator` in the delegate messages, one for each
/// such message that carries an amount, in order; none when a delegate
/// message does not decode.
pub open spec fn delegate_scan(ms: Seq<AnyView>, delegator: Seq<char>) -> Option<Seq<DelegationView>>
    decreases ms.len(),
{
    if ms.len() == 0 {
        Some(seq![])
    } else {
        let rest = delegate_scan(ms.drop_first(), delegator);
        if ms[0].type_url != delegate_url() {
            rest
        } else {
            match delegate_message(ms[0].value) {
                None => None,
                Some(d) => if d.delegator_address == delegator {
                    match d.amount {
                        Some(c) => prepend_some(seq![delegation_of(d, c)], rest),
                        None => rest,
                    }
                } else {
                    rest
                },
            }
        }
    }
}

/// The delegations by `delegator` among the first messages, one for each
/// delegate message by it that carries an amount.
pub fn delegator_deposits_from_tx_body(messages: &Vec<AnyMsg>, delegator: &str) -> (r: Result<
    Vec<Delegation>,
    IcqError,
>)
    ensures
        match delegate_scan(first_messages(messages_view(messages@)), delegator@) {
            Some(ds) => r matches Ok(v) && v@.map_values(|d: Delegation| d@) == ds,
            None => r matches Err(IcqError::Decode(_)),
        },
{
    let mut delegations: Vec<Delegation> = Vec::new();
    let ghost first = first_messages(messages_view(messages@));
    let n: usize = if messages.len() < MAX_ALLOWED_MESSAGES {
        messages.len()
    } else {
        MAX_ALLOWED_MESSAGES
    };
    proof {
        assert(first.skip(0) =~= first);
        assert(delegations@.map_values(|d: Delegation| d@) =~= Seq::<DelegationView>::empty());
        match delegate_scan(first, delegator@) {
            None => {},
            Some(t) => {
                assert(Seq::<DelegationView>::empty() + t =~= t);
            },
        }
    }
    let mut i: usize = 0;
    while i < n
        invariant
            n == first.len(),
            n <= messages@.len(),
            i <= n,
            first == first_messages(messages_view(messages@)),
            delegate_scan(first, delegator@) == prepend_some(
                delegations@.map_values(|d: Delegation| d@),
                delegate_scan(first.skip(i as int), delegator@),
            ),
        decreases n - i,
    {
        proof {
            lemma_skip_first(first, i as int);
            assert(first[i as int] == messages@[i as int]@);
        }
        if same_text(messages[i].type_url.as_str(), "/cosmos.staking.v1beta1.MsgDelegate") {
            match decode_msg_delegate(messages[i].value.as_slice()) {
                Err(e) => {
                    return Err(IcqError::Decode(e));
                },
                Ok(m) => {
                    if same_text(m.delegator_address.as_str(), delegator) {
                        if let Some(coin) = &m.amount {
                            let d = Delegation {
                                delegator: m.delegator_address.clone(),
                                amount: coin.amount.clone(),
                                denom: coin.denom.clone(),
                                validator: m.validator_address.clone(),
                            };
                            let ghost before = delegations@.map_values(|d: Delegation| d@);
                            let ghost prior = delegations@;
                            delegations.push(d);
                            proof {
                                assert(d@ == delegation_of(m@, coin@));
                                assert(delegations@ == prior.push(d));
                                assert(delegations@.map_values(|d: Delegation| d@) =~= before.push(d@));
                                let rest = delegate_scan(first.skip(i + 1), delegator@);
                                match rest {
                                    None => {},
                                    Some(t) => {
                                        assert(before + (seq![d@] + t) =~= before.push(d@) + t);
                                    },
                                }
                            }
                        }
                    }
                },
            }
        }
        i = i + 1;
    }
    proof {
        assert(first.skip(n as int).len() == 0);
        assert(delegations@.map_values(|d: Delegation| d@) + seq![] =~= delegations@.map_values(
            |d: Delegation| d@,
        ));
    }
    Ok(delegations)
}

/// The transfers one send message makes to `recipient`, one per coin.
pub open spec fn send_transfers(s: SendView, recipient: Seq<char>) -> Seq<TransferView> {
    s.amount.map_values(
        |c: CoinView|
            TransferView { recipient: recipient, sender: s.from_address, denom: c.denom, amount: c.amount },
    )
}

/// `a` before the sequence, if there is one.
pub open spec fn prepend_some<A>(a: Seq<A>, o: Option<Seq<A>>) -> Option<Seq<A>> {
    match o {
        None => None,
        Some(t) => Some(a + t),
    }
}

/// The transfers to `recipient` in the send messages, in order; none when
/// a send message does not decode.
pub open spec fn transfer_scan(ms: Seq<AnyView>, recipient: Seq<char>) -> Option<Seq<TransferView>>
    decreases ms.len(),
{
    if ms.len() == 0 {
        Some(seq![])
    } else {
        let rest = transfer_scan(ms.drop_first(), recipient);
        if ms[0].type_url != transfer_url() {
            rest
        } else {
            match send_message(ms[0].value) {
                None => None,
                Some(s) => if s.to_address == recipient {
                    prepend_some(send_transfers(s, recipient), rest)
                } else {
                    rest
                },
            }
        }
    }
}

/// The transfers to `recipient` among the first messages.
pub fn recipient_deposits_from_tx_body(messages: &Vec<AnyMsg>, recipient: &str) -> (r: Result<
    Vec<Transfer>,
    IcqError,
>)
    ensures
        match transfer_scan(first_messages(messages_view(messages@)), recipient@) {
            Some(ts) => r matches Ok(v) && v@.map_values(|t: Transfer| t@) == ts,
            None => r matches Err(IcqError::Decode(_)),
        },
{
    let mut deposits: Vec<Transfer> = Vec::new();
    let ghost first = first_messages(messages_view(messages@));
    let n: usize = if messages.len() < MAX_ALLOWED_MESSAGES {
        messages.len()
    } else {
        MAX_ALLOWED_MESSAGES
    };
    proof {
        assert(first.skip(0) =~= first);
        assert(deposits@.map_values(|t: Transfer| t@) =~= Seq::<TransferView>::empty());
        match transfer_scan(first, recipient@) {
            None => {},
            Some(t) => {
                assert(Seq::<TransferView>::empty() + t =~= t);
            },
        }
    }
    let mut i: usize = 0;
    while i < n
        invariant
            n == first.len(),
            n <= messages@.len(),
            i <= n,
            first == first_messages(messages_view(messages@)),
            transfer_scan(first, recipient@) == prepend_some(
                deposits@.map_values(|t: Transfer| t@),
                transfer_scan(first.skip(i as int), recipient@),
            ),
        decreases n - i,
    {
        proof {
            lemma_skip_first(first, i as int);
            assert(first[i as int] == messages@[i as int]@);
        }
        if same_text(messages[i].type_url.as_str(), "/cosmos.bank.v1beta1.MsgSend") {
            match decode_msg_send(messages[i].value.as_slice()) {
                Err(e) => {
                    return Err(IcqError::Decode(e));
                },
                Ok(m) => {
                    if same_text(m.to_address.as_str(), recipient) {
                        let ghost before = deposits@.map_values(|t: Transfer| t@);
                        let mut j: usize = 0;
                        while j < m.amount.len()
                            invariant
                                j <= m.amount@.len(),
                                deposits@.map_values(|t: Transfer| t@) == before + send_transfers(
                                    m@,
                                    recipient@,
                                ).take(j as int),
                            decreases m.amount.len() - j,
                        {
                            let t = Transfer {
                                sender: m.from_address.clone(),
                                amount: m.amount[j].amount.clone(),
                                denom: m.amount[j].denom.clone(),
                                recipient: recipient.to_owned(),
                            };
                            let ghost prior = deposits@;
                            deposits.push(t);
                            proof {
                                let st = send_transfers(m@, recipient@);
                                assert(t@ == st[j as int]);
                                assert(deposits@ == prior.push(t));
                                assert(deposits@.map_values(|t: Transfer| t@) =~= prior.map_values(
                                    |t: Transfer| t@,
                                ).push(t@));
                                assert(st.take(j + 1) =~= st.take(j as int).push(st[j as int]));
                                assert(deposits@.map_values(|t: Transfer| t@) =~= before + st.take(
                                    j + 1,
                                ));
                            }
                            j = j + 1;
                        }
                        proof {
                            let st = send_transfers(m@, recipient@);
                            assert(st.take(st.len() as int) =~= st);
                            let rest = transfer_scan(first.skip(i + 1), recipient@);
                            match rest {
                                None => {},
                                Some(t) => {
                                    assert(before + (st + t) =~= (before + st) + t);
                                },
                            }
                        }
                    }
                },
            }
        }
        i = i + 1;
    }
    proof {
        assert(first.skip(n as int).len() == 0);
        assert(deposits@.map_values(|t: Transfer| t@) + seq![] =~= deposits@.map_values(
            |t: Transfer| t@,
        ));
    }
    Ok(deposits)
}

/// The message of the first amount that does not read as a `u64` or
/// exceeds the largest allowed, for transfers or delegations (`what`).
pub open spec fn size_error(amounts: Seq<Seq<char>>, what: Seq<char>) -> Option<Seq<char>>
    decreases amounts.len(),
{
    if amounts.len() == 0 {
        None
    } else {
        match parsed_unsigned(amounts[0], u64::MAX as nat) {
            None => Some(
                "failed to cast "@ + what + " amount to u64: "@ + u64_parse_error_text(amounts[0]),
            ),
            Some(v) => if v > 20000 {
                Some("maximum allowed "@ + what + " is "@ + decimal(20000))
            } else {
                size_error(amounts.drop_first(), what)
            },
        }
    }
}

/// The amounts of the transfers.
pub open spec fn transfer_amounts(ts: Seq<Transfer>) -> Seq<Seq<char>> {
    ts.map_values(|t: Transfer| t.amount@)
}

/// The amounts of the delegations.
pub open spec fn delegation_amounts(ds: Seq<Delegation>) -> Seq<Seq<char>> {
    ds.map_values(|d: Delegation| d.amount@)
}

fn check_amounts(amounts: Vec<&str>, what: &str) -> (r: Result<(), IcqError>)
    ensures
        match size_error(amounts@.map_values(|a: &str| a@), what@) {
            None => r is Ok,
            Some(m) => r matches Err(IcqError::Std { msg }) && msg@ == m,
        },
{
    let ghost all = amounts@.map_values(|a: &str| a@);
    assert(all.skip(0) =~= all);
    let mut i: usize = 0;
    while i < amounts.len()
        invariant
            all == amounts@.map_values(|a: &str| a@),
            i <= amounts@.len(),
            size_error(all, what@) == size_error(all.skip(i as int), what@),
        decreases amounts.len() - i,
    {
        proof {
            lemma_skip_first(all, i as int);
        }
        match parse_u64(amounts[i]) {
            Ok(amount) => {
                if amount > MAX_ALLOWED_TRANSFER {
                    let mut m = "maximum allowed ".to_owned();
                    m.append(what);
                    m.append(" is ");
                    let limit = u64_text(MAX_ALLOWED_TRANSFER);
                    m.append(limit.as_str());
                    return Err(IcqError::Std { msg: m });
                }
            },
            Err(error) => {
                let mut m = "failed to cast ".to_owned();
                m.append(what);
                m.append(" amount to u64: ");
                m.append(error.as_str());
                return Err(IcqError::Std { msg: m });
            },
        }
        i = i + 1;
    }
    assert(all.skip(amounts@.len() as int).len() == 0);
    Ok(())
}

/// Checks that every transfer amount reads as a `u64` no larger than the
/// largest allowed transfer.
pub fn check_deposits_size(deposits: &Vec<Transfer>) -> (r: Result<(), IcqError>)
    ensures
        match size_error(transfer_amounts(deposits@), "transfer"@) {
            None => r is Ok,
            Some(m) => r matches Err(IcqError::Std { msg }) && msg@ == m,
        },
{
    let mut amounts: Vec<&str> = Vec::new();
    let mut i: usize = 0;
    while i < deposits.len()
        invariant
            i <= deposits@.len(),
            amounts@.map_values(|a: &str| a@) == transfer_amounts(deposits@.take(i as int)),
        decreases deposits.len() - i,
    {
        let ghost prior = amounts@;
        amounts.push(deposits[i].amount.as_str());
        assert(deposits@.take(i + 1) =~= deposits@.take(i as int).push(deposits@[i as int]));
        assert(amounts@.map_values(|a: &str| a@) =~= prior.map_values(|a: &str| a@).push(
            deposits@[i as int].amount@,
        ));
        assert(amounts@.map_values(|a: &str| a@) =~= transfer_amounts(deposits@.take(i + 1)));
        i = i + 1;
    }
    assert(deposits@.take(deposits@.len() as int) =~= deposits@);
    check_amounts(amounts, "transfer")
}

/// Checks that every delegation amount reads as a `u64` no larger than the
/// largest allowed transfer.
pub fn check_delegations_size(delegations: &Vec<Delegation>) -> (r: Result<(), IcqError>)
    ensures
        match size_error(delegation_amounts(delegations@), "delegation"@) {
            None => r is Ok,
            Some(m) => r matches Err(IcqError::Std { msg }) && msg@ == m,
        },
{
    let mut amounts: Vec<&str> = Vec::new();
    let mut i: usize = 0;
    while i < delegations.len()
        invariant
            i <= delegations@.len(),
            amounts@.map_values(|a: &str| a@) == delegation_amounts(delegations@.take(i as int)),
        decreases delegations.len() - i,
    {
        let ghost prior = amounts@;
        amounts.push(delegations[i].amount.as_str());
        assert(delegations@.take(i + 1) =~= delegations@.take(i as int).push(delegations@[i as int]));
        assert(amounts@.map_values(|a: &str| a@) =~= prior.map_values(|a: &str| a@).push(
            delegations@[i as int].amount@,
        ));
        assert(amounts@.map_values(|a: &str| a@) =~= delegation_amounts(delegations@.take(i + 1)));
        i = i + 1;
    }
    assert(delegations@.take(delegations@.len() as int) =~= delegations@);
    check_amounts(amounts, "delegation")
}

} // verus!
