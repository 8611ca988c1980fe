//! Outbound message channels of websocket connections (`tokio` channels of `axum` messages).

use vstd::prelude::*;
use tokio::sync::mpsc::UnboundedSender;
use axum::extract::ws::Message;

verus! {

#[verifier::external_type_specification]
#[verifier::external_body]
#[verifier::reject_recursive_types(T)]
pub struct ExUnboundedSender<T>(tokio::sync::mpsc::UnboundedSender<T>);

#[verifier::external_type_specification]
#[verifier::external_body]
pub struct ExWsMessage(axum::extract::ws::Message);

#[verifier::external_type_specification]
#[verifier::external_body]
#[verifier::reject_recursive_types(K)]
#[verifier::reject_recursive_types(V)]
#[verifier::reject_recursive_types(S)]
pub struct ExDashMap<K, V, S>(dashmap::DashMap<K, V, S>);

/// Another handle to the same channel (`UnboundedSender::clone`); nothing is stated of it.
pub assume_specification<T> [<tokio::sync::mpsc::UnboundedSender<T> as Clone>::clone](
    _0: &tokio::sync::mpsc::UnboundedSender<T>,
) -> tokio::sync::mpsc::UnboundedSender<T>;

/// Queues a text frame on a connection (wraps `UnboundedSender::send` of `Message::Text`).
/// Whether it succeeds depends on whether the connection's receiver is still alive, so nothing
/// is promised of the result.
#[verifier::external_body]
pub(crate) fn send_text(sender: &tokio::sync::mpsc::UnboundedSender<axum::extract::ws::Message>, text: &str) -> bool {
    sender.send(axum::extract::ws::Message::Text(text.to_string().into())).is_ok()
}

/// A text handed to a channel, and whether the channel took it.
pub type Delivery = (UnboundedSender<Message>, Seq<char>, bool);

/// The deliveries of `text` to each of `channels` in order, the i-th with outcome `outcomes[i]`.
pub open spec fn deliveries_to(channels: Seq<UnboundedSender<Message>>, text: Seq<char>, outcomes: Seq<bool>)
    -> Seq<Delivery>
{
    Seq::new(channels.len(), |i: int| (channels[i], text, outcomes[i]))
}

/// Hands `text` to `sender` and records the delivery, with its outcome, in `log`.
pub(crate) fn send_recorded(log: &mut Ghost<Seq<Delivery>>, sender: &UnboundedSender<Message>, text: &str) -> (r: bool)
    ensures
        final(log)@ == old(log)@.push((*sender, text@, r)),
{
    let r = send_text(sender, text);
    proof {
        log@ = log@.push((*sender, text@, r));
    }
    r
}

/// Hands `text` to each of `senders` in order, recording each delivery in `log`; the outcome
/// of each.
pub(crate) fn send_all_recorded(log: &mut Ghost<Seq<Delivery>>, senders: &Vec<UnboundedSender<Message>>, text: &str)
    -> (r: Vec<bool>)
    ensures
        r@.len() == senders@.len(),
        final(log)@ == old(log)@ + deliveries_to(senders@, text@, r@),
{
    let mut results: Vec<bool> = Vec::new();
    let mut i: usize = 0;
    while i < senders.len()
        invariant
            i <= senders.len(),
            results@.len() == i,
            log@ == old(log)@ + deliveries_to(senders@.take(i as int), text@, results@),
        decreases senders.len() - i,
    {
        let ok = send_recorded(log, &senders[i], text);
        proof {
            assert(deliveries_to(senders@.take(i + 1), text@, results@.push(ok))
                =~= deliveries_to(senders@.take(i as int), text@, results@).push((senders@[i as int], text@, ok)));
        }
        results.push(ok);
        i = i + 1;
    }
    assert(senders@.take(senders.len() as int) =~= senders@);
    results
}

} // verus!
