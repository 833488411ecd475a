//! Eviction callbacks, and the record of what they were called with.
use std::sync::Arc;

use vstd::prelude::*;

verus! {

/// Something that can be told of evicted entries. Every closure over a key and a value that can
/// be shared between threads is one.
pub trait EvictionCallback<K, V>: Send + Sync {
    /// Whether the callback may be called with this pair.
    spec fn accepts(&self, key: K, value: V) -> bool;

    /// What the callback promises once it has been called with this pair. For a closure it is what
    /// the closure ensures, so that nothing is known of it before such a call.
    spec fn performs(&self, key: K, value: V) -> bool;

    /// Takes the key and the value of an entry that has been evicted.
    fn on_evict(&self, key: K, value: V)
        requires
            self.accepts(key, value),
        ensures
            self.performs(key, value),
    ;
}

impl<K, V, F: Fn(K, V) + Send + Sync> EvictionCallback<K, V> for F {
    open spec fn accepts(&self, key: K, value: V) -> bool {
        call_requires(*self, (key, value))
    }

    open spec fn performs(&self, key: K, value: V) -> bool {
        call_ensures(*self, (key, value), ())
    }

    fn on_evict(&self, key: K, value: V) {
        self(key, value)
    }
}

/// `Arc::clone` makes another pointer to the same value.
#[verifier::external_body]
fn share<T>(pointer: &Arc<T>) -> (other: Arc<T>)
    ensures
        other == *pointer,
{
    pointer.clone()
}

/// A shared eviction callback.
#[verifier::reject_recursive_types(K)]
#[verifier::reject_recursive_types(V)]
pub struct EvictionListener<K, V> {
    callback: Arc<Box<dyn EvictionCallback<K, V>>>,
}

impl<K, V> EvictionListener<K, V> {
    /// Whether the callback may be called with this pair.
    pub closed spec fn accepts(&self, key: K, value: V) -> bool {
        (**self.callback).accepts(key, value)
    }

    /// What the callback promises once it has been called with this pair.
    pub closed spec fn performs(&self, key: K, value: V) -> bool {
        (**self.callback).performs(key, value)
    }

    /// Whether the callback may be called with every pair.
    pub open spec fn total(&self) -> bool {
        forall|key: K, value: V| #[trigger] self.accepts(key, value)
    }

    /// Whether this listener calls the closure `f`.
    pub open spec fn calls<F: Fn(K, V)>(&self, f: F) -> bool {
        &&& forall|key: K, value: V|
            #[trigger] self.accepts(key, value) == call_requires(f, (key, value))
        &&& forall|key: K, value: V|
            #[trigger] self.performs(key, value) == call_ensures(f, (key, value), ())
    }

    /// Makes a listener of a closure.
    pub fn new<F: Fn(K, V) + Send + Sync + 'static>(listener: F) -> (result: Self)
        ensures
            result.calls(listener),
            forall|key: K, value: V| #[trigger]
                result.performs(key, value) ==> call_ensures(listener, (key, value), ()),
    {
        let boxed: Box<dyn EvictionCallback<K, V>> = Box::new(listener);
        let ghost model = boxed;
        let callback = Arc::new(boxed);
        assert(*callback == model);
        assert(forall|key: K, value: V|
            #[trigger] (**callback).accepts(key, value) == call_requires(listener, (key, value)));
        assert(forall|key: K, value: V|
            #[trigger] (**callback).performs(key, value) == call_ensures(
                listener,
                (key, value),
                (),
            ));
        EvictionListener { callback }
    }

    /// Calls the callback.
    pub fn call(&self, key: K, value: V)
        requires
            self.accepts(key, value),
        ensures
            self.performs(key, value),
    {
        self.callback.on_evict(key, value)
    }
}

impl<K, V> Clone for EvictionListener<K, V> {
    fn clone(&self) -> (result: Self)
        ensures
            result == *self,
    {
        EvictionListener { callback: share(&self.callback) }
    }
}

/// The eviction callback of a cache, if it has one, with the record of the pairs that the
/// callback has been called with, in order.
#[verifier::reject_recursive_types(K)]
#[verifier::reject_recursive_types(V)]
pub(crate) struct Notifier<K, V> {
    listener: Option<EvictionListener<K, V>>,
    notified: Ghost<Seq<(K, V)>>,
}

impl<K, V> Notifier<K, V> {
    /// The callback.
    pub(crate) closed spec fn listener(&self) -> Option<EvictionListener<K, V>> {
        self.listener
    }

    /// The pairs that the callback has been called with.
    pub(crate) closed spec fn notified(&self) -> Seq<(K, V)> {
        self.notified@
    }

    /// The callback takes every pair, and each recorded pair has been handed to it.
    pub(crate) closed spec fn wf(&self) -> bool {
        match self.listener {
            Some(listener) => {
                &&& listener.total()
                &&& forall|i: int|
                    0 <= i < self.notified@.len() ==> listener.performs(
                        (#[trigger] self.notified@[i]).0,
                        self.notified@[i].1,
                    )
            },
            None => self.notified@.len() == 0,
        }
    }

    /// Each recorded pair has been handed to the callback.
    pub(crate) proof fn every_recorded_pair_was_handed_over(&self)
        requires
            self.wf(),
        ensures
            match self.listener() {
                Some(listener) => forall|i: int|
                    0 <= i < self.notified().len() ==> listener.performs(
                        (#[trigger] self.notified()[i]).0,
                        self.notified()[i].1,
                    ),
                None => self.notified().len() == 0,
            },
    {
    }

    /// A notifier that has called nothing yet.
    pub(crate) fn new(listener: Option<EvictionListener<K, V>>) -> (result: Self)
        requires
            listener matches Some(l) ==> l.total(),
        ensures
            result.wf(),
            result.listener() == listener,
            result.notified() == Seq::<(K, V)>::empty(),
    {
        Notifier { listener, notified: Ghost(Seq::empty()) }
    }

    /// Whether there is a callback.
    pub(crate) fn is_listening(&self) -> (listening: bool)
        ensures
            listening == (self.listener() is Some),
    {
        self.listener.is_some()
    }

    /// Calls the callback, if there is one.
    pub(crate) fn notify(&mut self, key: K, value: V)
        requires
            old(self).wf(),
        ensures
            final(self).wf(),
            final(self).listener() == old(self).listener(),
            final(self).notified() == if old(self).listener() is Some {
                old(self).notified().push((key, value))
            } else {
                old(self).notified()
            },
    {
        if let Some(listener) = &self.listener {
            assert(listener.accepts(key, value));
            listener.call(key, value);
            self.notified = Ghost(self.notified@.push((key, value)));
        }
    }
}

} // verus!
