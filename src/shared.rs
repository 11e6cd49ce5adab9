use vstd::prelude::*;

verus! {

/// A concurrent map, locked shard by shard.
#[verifier::external_type_specification]
#[verifier::external_body]
#[verifier::reject_recursive_types(K)]
#[verifier::reject_recursive_types(V)]
#[verifier::reject_recursive_types(S)]
pub struct ExDashMap<K, V, S>(dashmap::DashMap<K, V, S>);

/// The sending side of a fan-out channel.
#[verifier::external_type_specification]
#[verifier::external_body]
#[verifier::reject_recursive_types(T)]
pub struct ExEventSender<T>(tokio::sync::broadcast::Sender<T>);

/// One listener of a fan-out channel.
#[verifier::external_type_specification]
#[verifier::external_body]
#[verifier::reject_recursive_types(T)]
pub struct ExEventReceiver<T>(tokio::sync::broadcast::Receiver<T>);

/// How many events a listener may fall behind before it misses some.
pub const BROADCAST_CAPACITY: usize = 1000;

/// An event published to the listeners: its name and its JSON payload.
pub type Event = (String, serde_json::Value);

/// The one store that all workers see: a key/value map of JSON values and a
/// fan-out channel of events. Every operation takes `&self` and may race with
/// other workers; each key is replaced atomically, and nothing more is ordered.
pub struct ShareContextStore {
    kv: dashmap::DashMap<String, serde_json::Value>,
    events: tokio::sync::broadcast::Sender<Event>,
}

/// Relies on `dashmap::DashMap::new`.
#[verifier::external_body]
fn new_map() -> (r: dashmap::DashMap<String, serde_json::Value>) {
    dashmap::DashMap::new()
}

/// Relies on `tokio::sync::broadcast::channel`, which panics on a capacity of
/// zero or above `usize::MAX / 2`; the first listener is dropped at once.
#[verifier::external_body]
fn new_channel(capacity: usize) -> (r: tokio::sync::broadcast::Sender<Event>)
    requires
        0 < capacity <= usize::MAX / 2,
{
    tokio::sync::broadcast::channel(capacity).0
}

/// Relies on `dashmap::DashMap::get`, cloning the value found.
#[verifier::external_body]
fn map_get(m: &dashmap::DashMap<String, serde_json::Value>, key: &str) -> (r: Option<serde_json::Value>) {
    m.get(key).map(|entry| entry.value().clone())
}

/// Relies on `dashmap::DashMap::insert`.
#[verifier::external_body]
fn map_insert(m: &dashmap::DashMap<String, serde_json::Value>, key: String, value: serde_json::Value) {
    m.insert(key, value);
}

/// Relies on `dashmap::DashMap::remove`.
#[verifier::external_body]
fn map_remove(m: &dashmap::DashMap<String, serde_json::Value>, key: &str) {
    m.remove(key);
}

/// Relies on `dashmap::DashMap::iter`, taking each key it visits.
#[verifier::external_body]
fn map_keys(m: &dashmap::DashMap<String, serde_json::Value>) -> (r: Vec<String>) {
    m.iter().map(|entry| entry.key().clone()).collect()
}

/// Relies on `tokio::sync::broadcast::Sender::send`: it fails when nobody
/// listens, and otherwise reports how many listeners there are.
#[verifier::external_body]
fn channel_send(tx: &tokio::sync::broadcast::Sender<Event>, event: Event) -> (r: Option<usize>)
    ensures
        r matches Some(n) ==> n > 0,
{
    tx.send(event).ok()
}

/// Relies on `tokio::sync::broadcast::Sender::subscribe`: the new listener
/// sees the events sent after this call.
#[verifier::external_body]
fn channel_subscribe(tx: &tokio::sync::broadcast::Sender<Event>) -> (r: tokio::sync::broadcast::Receiver<Event>) {
    tx.subscribe()
}

impl ShareContextStore {
    /// An empty store with no listeners.
    pub fn new() -> (r: Self) {
        ShareContextStore { kv: new_map(), events: new_channel(BROADCAST_CAPACITY) }
    }

    /// `get(key)`: the value stored under `key`, if any.
    pub fn value_of(&self, key: &str) -> (r: Option<serde_json::Value>) {
        map_get(&self.kv, key)
    }

    /// `set(key, value)`: replaces whatever `key` held.
    pub fn set(&self, key: String, value: serde_json::Value) {
        map_insert(&self.kv, key, value)
    }

    /// `delete(key)`: removes `key` where it is present.
    pub fn delete(&self, key: &str) {
        map_remove(&self.kv, key)
    }

    /// `keys()`: the keys present at some moment during the call.
    pub fn keys(&self) -> (r: Vec<String>) {
        map_keys(&self.kv)
    }

    /// `broadcast(event, payload)`: hands the event to the current listeners,
    /// giving how many there are; with none, the event is dropped.
    pub fn broadcast(&self, event: String, payload: serde_json::Value) -> (r: Option<usize>)
        ensures
            r matches Some(n) ==> n > 0,
    {
        channel_send(&self.events, (event, payload))
    }

    /// A new listener, which receives the events broadcast from now on.
    pub fn subscribe(&self) -> (r: tokio::sync::broadcast::Receiver<Event>) {
        channel_subscribe(&self.events)
    }
}

} // verus!
