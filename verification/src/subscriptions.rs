//! Subscriptions: the streams of new heads and of pending transactions
//! that a client asks for with `eth_subscribe`.

use vstd::prelude::*;
use crate::errors::Web3ProxyError;
use crate::json::{JsonMember, JsonMemberModel, JsonModel, JsonValue, json_text};
use crate::jsonrpc::{JsonRpcForwardedResponse, JsonRpcRequest, JsonRpcResponseModel};
use crate::primitives::H256;
use crate::text::{bytes_to_hex_data, hex_data, hex_quantity, str_eq, u64_to_hex_quantity};

verus! {

/// What a client can subscribe to.
#[derive(Debug, Clone, Copy, PartialEq, Eq, Structural)]
pub enum SubscriptionKind {
    /// `newHeads`: every new consensus head.
    NewHeads,
    /// `newPendingTransactions`: the hash of every pending transaction.
    NewPendingTransactions,
    /// `newPendingFullTransactions`: every pending transaction in full.
    NewPendingFullTransactions,
    /// `newPendingRawTransactions`: every pending transaction as it is
    /// encoded on the wire.
    NewPendingRawTransactions,
}

/// The kind that a name stands for. Names are matched exactly.
pub open spec fn kind_named(name: Seq<char>) -> Option<SubscriptionKind> {
    if name == "newHeads"@ {
        Some(SubscriptionKind::NewHeads)
    } else if name == "newPendingTransactions"@ {
        Some(SubscriptionKind::NewPendingTransactions)
    } else if name == "newPendingFullTransactions"@ {
        Some(SubscriptionKind::NewPendingFullTransactions)
    } else if name == "newPendingRawTransactions"@ {
        Some(SubscriptionKind::NewPendingRawTransactions)
    } else {
        None
    }
}

/// The kind that the parameters of `eth_subscribe` ask for: they are to be
/// the name of a kind and nothing else.
pub open spec fn kind_asked(params: Option<JsonModel>) -> Option<SubscriptionKind> {
    match params {
        Some(JsonModel::Array(items)) if items.len() == 1 => match items[0] {
            JsonModel::Text(name) => kind_named(name),
            _ => None,
        },
        _ => None,
    }
}

/// The kind that the parameters of `eth_subscribe` ask for.
pub fn parse_kind(params: &Option<JsonValue>) -> (kind: Option<SubscriptionKind>)
    ensures
        kind == kind_asked(
            match params {
                Some(p) => Some(p@),
                None => None,
            },
        ),
{
    match params {
        Some(JsonValue::Array(items)) => {
            if items.len() != 1 {
                return None;
            }
            assert(params->0@->Array_0[0] == items[0]@);
            match &items[0] {
                JsonValue::Text(name) => {
                    let name = name.as_str();
                    if str_eq(name, "newHeads") {
                        Some(SubscriptionKind::NewHeads)
                    } else if str_eq(name, "newPendingTransactions") {
                        Some(SubscriptionKind::NewPendingTransactions)
                    } else if str_eq(name, "newPendingFullTransactions") {
                        Some(SubscriptionKind::NewPendingFullTransactions)
                    } else if str_eq(name, "newPendingRawTransactions") {
                        Some(SubscriptionKind::NewPendingRawTransactions)
                    } else {
                        None
                    }
                },
                _ => None,
            }
        },
        _ => None,
    }
}

/// A transaction as the subscriptions hand it out.
#[derive(Debug, PartialEq, Eq)]
pub struct Transaction {
    pub hash: H256,
    /// The transaction as it is encoded on the wire.
    pub rlp: Vec<u8>,
    /// The transaction as a JSON object.
    pub json: JsonValue,
}

/// What has become of a transaction.
#[derive(Debug, PartialEq, Eq)]
pub enum TxState {
    Pending(Transaction),
    Confirmed(Transaction),
    Orphaned(Transaction),
}

/// One subscription of one client.
#[derive(Debug, Clone, Copy, PartialEq, Eq, Structural)]
pub struct Subscription {
    /// The number of the subscription on its connection.
    pub id: u64,
    pub kind: SubscriptionKind,
}

/// The notification of a result to the holder of subscription `id`.
pub open spec fn notification(id: u64, result: JsonModel) -> JsonModel {
    JsonModel::Object(
        seq![
            JsonMemberModel { name: "jsonrpc"@, value: JsonModel::Text("2.0"@) },
            JsonMemberModel { name: "method"@, value: JsonModel::Text("eth_subscription"@) },
            JsonMemberModel {
                name: "params"@,
                value: JsonModel::Object(
                    seq![
                        JsonMemberModel {
                            name: "subscription"@,
                            value: JsonModel::Text(hex_quantity(id as nat)),
                        },
                        JsonMemberModel { name: "result"@, value: result },
                    ],
                ),
            },
        ],
    )
}

/// What a subscription of the given kind sends for a transaction: its
/// hash, the whole of it, or its encoding on the wire.
pub open spec fn tx_result(kind: SubscriptionKind, tx: Transaction) -> JsonModel {
    match kind {
        SubscriptionKind::NewPendingFullTransactions => tx.json@,
        SubscriptionKind::NewPendingRawTransactions => JsonModel::Text(hex_data(tx.rlp@)),
        _ => JsonModel::Text(hex_data(tx.hash@)),
    }
}

/// What reaches a subscription.
#[derive(Debug, PartialEq, Eq)]
pub enum SubscriptionEvent {
    /// A new consensus head, as a JSON object.
    Head(JsonValue),
    /// News of a transaction.
    Tx(TxState),
    /// The subscription fell behind and missed so many events.
    Lagged(u64),
    /// The source of the events is gone.
    SourceClosed,
    /// The client did not take what was sent.
    SinkClosed,
    /// The client unsubscribed or went away.
    Cancelled,
}

/// What a subscription does about an event.
#[derive(Debug, PartialEq, Eq)]
pub enum SubscriptionAction {
    /// Send this text to the client.
    Send(String),
    /// Go on with the next event.
    Skip,
    /// End the subscription and release what it holds.
    Stop,
}

/// What a subscription sends for an event, if anything: a subscription to
/// heads sends every head, and a subscription to transactions sends those
/// that are pending or orphaned.
pub open spec fn to_send(
    subscription: Subscription,
    event: SubscriptionEvent,
) -> Option<JsonModel> {
    match event {
        SubscriptionEvent::Head(head) => if subscription.kind == SubscriptionKind::NewHeads {
            Some(notification(subscription.id, head@))
        } else {
            None
        },
        SubscriptionEvent::Tx(TxState::Pending(tx)) | SubscriptionEvent::Tx(TxState::Orphaned(tx)) => if subscription.kind
            != SubscriptionKind::NewHeads {
            Some(notification(subscription.id, tx_result(subscription.kind, tx)))
        } else {
            None
        },
        _ => None,
    }
}

/// A transaction that a reorganisation has thrown back reaches the holder
/// of a subscription to pending transactions as a notification with its
/// hash.
pub proof fn lemma_orphaned_is_sent(subscription: Subscription, transaction: Transaction)
    requires
        subscription.kind == SubscriptionKind::NewPendingTransactions,
    ensures
        to_send(subscription, SubscriptionEvent::Tx(TxState::Orphaned(transaction))) == Some(
            notification(subscription.id, JsonModel::Text(hex_data(transaction.hash@))),
        ),
{
}

/// Whether an event ends a subscription: the source is gone, the client
/// does not take what is sent, or the subscription was cancelled.
pub open spec fn ends_subscription(event: SubscriptionEvent) -> bool {
    event is SourceClosed || event is SinkClosed || event is Cancelled
}

fn member(name: &str, value: JsonValue) -> (m: JsonMember)
    ensures
        m.name@ == name@,
        m.value == value,
{
    JsonMember { name: String::from_str(name), value }
}

/// The notification of a result to the holder of subscription `id`.
pub fn notify(id: u64, result: JsonValue) -> (message: JsonValue)
    ensures
        message@ == notification(id, result@),
{
    let number = JsonValue::Text(u64_to_hex_quantity(id));
    assert(number@ == JsonModel::Text(hex_quantity(id as nat)));
    let mut inner: Vec<JsonMember> = Vec::new();
    inner.push(member("subscription", number));
    inner.push(member("result", result));
    let params = JsonValue::Object(inner);
    assert(params@->Object_0 =~= seq![
        JsonMemberModel { name: "subscription"@, value: number@ },
        JsonMemberModel { name: "result"@, value: result@ },
    ]);
    let version = JsonValue::Text(String::from_str("2.0"));
    assert(version@ == JsonModel::Text("2.0"@));
    let method = JsonValue::Text(String::from_str("eth_subscription"));
    assert(method@ == JsonModel::Text("eth_subscription"@));
    let mut outer: Vec<JsonMember> = Vec::new();
    outer.push(member("jsonrpc", version));
    outer.push(member("method", method));
    outer.push(member("params", params));
    let message = JsonValue::Object(outer);
    assert(message@->Object_0 =~= seq![
        JsonMemberModel { name: "jsonrpc"@, value: version@ },
        JsonMemberModel { name: "method"@, value: method@ },
        JsonMemberModel { name: "params"@, value: params@ },
    ]);
    message
}

impl Subscription {
    /// What the subscription does about an event: it ends where the event
    /// ends it, sends the notification as compact JSON where there is
    /// something to send, and goes on otherwise.
    pub fn on_event(&self, event: SubscriptionEvent) -> (action: SubscriptionAction)
        ensures
            ends_subscription(event) ==> action is Stop,
            !ends_subscription(event) ==> match to_send(*self, event) {
                Some(message) => action matches SubscriptionAction::Send(text) && text@ == json_text(
                    message,
                ),
                None => action is Skip,
            },
    {
        match event {
            SubscriptionEvent::SourceClosed => SubscriptionAction::Stop,
            SubscriptionEvent::SinkClosed => SubscriptionAction::Stop,
            SubscriptionEvent::Cancelled => SubscriptionAction::Stop,
            SubscriptionEvent::Lagged(_) => SubscriptionAction::Skip,
            SubscriptionEvent::Head(head) => {
                match self.kind {
                    SubscriptionKind::NewHeads => SubscriptionAction::Send(
                        notify(self.id, head).to_text(),
                    ),
                    _ => SubscriptionAction::Skip,
                }
            },
            SubscriptionEvent::Tx(state) => {
                let tx = match state {
                    TxState::Pending(tx) => tx,
                    TxState::Orphaned(tx) => tx,
                    TxState::Confirmed(_) => {
                        return SubscriptionAction::Skip;
                    },
                };
                let result = match self.kind {
                    SubscriptionKind::NewHeads => {
                        return SubscriptionAction::Skip;
                    },
                    SubscriptionKind::NewPendingTransactions => JsonValue::Text(tx.hash.to_hex()),
                    SubscriptionKind::NewPendingFullTransactions => tx.json,
                    SubscriptionKind::NewPendingRawTransactions => JsonValue::Text(
                        bytes_to_hex_data(&tx.rlp),
                    ),
                };
                SubscriptionAction::Send(notify(self.id, result).to_text())
            },
        }
    }
}

/// What opening a subscription gives and does.
///
/// The subscription gets the number that the counter of the connection
/// shows, and the counter moves on, whatever the parameters are. Where
/// they name a kind, the client is answered with the number of the
/// subscription as a quantity; where not, the subscription is not
/// implemented.
pub open spec fn subscribed(
    payload: JsonRpcRequest,
    counter_before: u64,
    counter_after: u64,
    opened: Result<(Subscription, JsonRpcForwardedResponse), Web3ProxyError>,
) -> bool {
    &&& counter_after == counter_before.wrapping_add(1)
    &&& match kind_asked(
        match payload.params {
            Some(p) => Some(p@),
            None => None,
        },
    ) {
        Some(kind) => {
            &&& opened matches Ok(pair)
            &&& pair.0 == (Subscription { id: counter_before, kind })
            &&& pair.1@ == (JsonRpcResponseModel {
                id: payload.id@,
                result: Some(JsonModel::Text(hex_quantity(counter_before as nat))),
                error: None,
            })
        },
        None => opened matches Err(Web3ProxyError::NotImplemented(what)) && what@
            == "eth_subscribe"@,
    }
}

/// Opens a subscription for a client.
pub fn eth_subscribe(payload: JsonRpcRequest, subscription_count: &mut u64) -> (opened: Result<
    (Subscription, JsonRpcForwardedResponse),
    Web3ProxyError,
>)
    ensures
        subscribed(payload, *old(subscription_count), *final(subscription_count), opened),
{
    let id = *subscription_count;
    *subscription_count = id.wrapping_add(1);
    match parse_kind(&payload.params) {
        Some(kind) => {
            let response = JsonRpcForwardedResponse::from_value(
                JsonValue::Text(u64_to_hex_quantity(id)),
                payload.id,
            );
            Ok((Subscription { id, kind }, response))
        },
        None => Err(Web3ProxyError::NotImplemented(String::from_str("eth_subscribe"))),
    }
}

/// The number of the subscription that is opened after `opened` others on
/// a connection whose counter started at `start`.
pub open spec fn subscription_number(start: u64, opened: nat) -> u64
    decreases opened,
{
    if opened == 0 {
        start
    } else {
        subscription_number(start, (opened - 1) as nat).wrapping_add(1)
    }
}

proof fn lemma_subscription_number(start: u64, opened: nat)
    ensures
        subscription_number(start, opened) == (start + opened) % 0x1_0000_0000_0000_0000,
    decreases opened,
{
    if opened > 0 {
        lemma_subscription_number(start, (opened - 1) as nat);
    }
}

/// The subscriptions of one connection have numbers of their own: any two
/// of the first 2^64 differ.
pub proof fn lemma_subscription_ids_differ(start: u64, first: nat, second: nat)
    requires
        first < second < 0x1_0000_0000_0000_0000,
    ensures
        subscription_number(start, first) != subscription_number(start, second),
{
    lemma_subscription_number(start, first);
    lemma_subscription_number(start, second);
}

} // verus!
