//! Simple named signals and a registry that hands out one signal per name.
//!
//! A signal holds its receivers' callbacks in connection order; `send` says
//! how many receivers a send reaches, and the caller calls them in order.

use vstd::prelude::*;
use crate::text::str_eq;

verus! {

/// A named signal and its receivers.
pub struct Signal<C> {
    name: &'static str,
    receivers: Vec<C>,
}

impl<C> Signal<C> {
    /// The signal's name.
    pub closed spec fn spec_name(&self) -> Seq<char> {
        self.name@
    }

    /// The number of connected receivers.
    pub closed spec fn count(&self) -> nat {
        self.receivers@.len()
    }

    /// The callback of the receiver connected `i`-th.
    pub closed spec fn receiver(&self, i: int) -> C {
        self.receivers@[i]
    }

    /// A signal with no receivers.
    pub fn new(name: &'static str) -> (r: Self)
        ensures
            r.spec_name() == name@,
            r.count() == 0,
    {
        Signal { name, receivers: Vec::new() }
    }

    /// Connects a receiver after the others.
    pub fn connect(&mut self, f: C)
        ensures
            final(self).spec_name() == old(self).spec_name(),
            final(self).count() == old(self).count() + 1,
            final(self).receiver(old(self).count() as int) == f,
            forall|j: int| 0 <= j < old(self).count() ==> #[trigger] final(self).receiver(j) == old(self).receiver(j),
    {
        self.receivers.push(f);
    }

    /// How many receivers a send reaches: all of them, called in connection order.
    pub fn send(&self) -> (r: usize)
        ensures
            r == self.count(),
    {
        self.receivers.len()
    }

    /// The callback of the receiver at `i`.
    pub fn callback(&self, i: usize) -> (r: &C)
        requires
            i < self.count(),
        ensures
            *r == self.receiver(i as int),
    {
        &self.receivers[i]
    }

    /// Disconnects every receiver.
    pub fn disconnect(&mut self)
        ensures
            final(self).spec_name() == old(self).spec_name(),
            final(self).count() == 0,
    {
        self.receivers = Vec::new();
    }

    /// The number of connected receivers.
    pub fn receiver_count(&self) -> (r: usize)
        ensures
            r == self.count(),
    {
        self.receivers.len()
    }

    /// The signal's name.
    pub fn name(&self) -> (r: &'static str)
        ensures
            r@ == self.spec_name(),
    {
        self.name
    }
}

/// Connecting by way of a receiver declaration.
pub struct Receiver;

impl Receiver {
    /// Connects `f` to `signal`.
    pub fn connect<C>(signal: &mut Signal<C>, f: C)
        ensures
            final(signal).spec_name() == old(signal).spec_name(),
            final(signal).count() == old(signal).count() + 1,
            final(signal).receiver(old(signal).count() as int) == f,
            forall|j: int| 0 <= j < old(signal).count() ==> #[trigger] final(signal).receiver(j) == old(signal).receiver(j),
    {
        signal.connect(f);
    }
}

/// Connects `callback` to `signal`.
pub fn receiver<C>(signal: &mut Signal<C>, callback: C)
    ensures
        final(signal).spec_name() == old(signal).spec_name(),
        final(signal).count() == old(signal).count() + 1,
        final(signal).receiver(old(signal).count() as int) == callback,
        forall|j: int| 0 <= j < old(signal).count() ==> #[trigger] final(signal).receiver(j) == old(signal).receiver(j),
{
    signal.connect(callback);
}

/// The signals handed out so far, one per name.
pub struct SignalRegistry<C> {
    signals: Vec<Signal<C>>,
}

impl<C> SignalRegistry<C> {
    /// The signals, in the order they were first asked for.
    pub closed spec fn signals(&self) -> Seq<Signal<C>> {
        self.signals@
    }

    /// No two signals share a name.
    pub closed spec fn wf(&self) -> bool {
        forall|i: int, j: int| 0 <= i < j < self.signals@.len() ==> self.signals@[i].spec_name() != self.signals@[j].spec_name()
    }

    /// An empty registry.
    pub fn new() -> (r: Self)
        ensures
            r.wf(),
            r.signals().len() == 0,
    {
        SignalRegistry { signals: Vec::new() }
    }
}

/// The position of the signal named `name` among `signals`, if any.
pub open spec fn signal_index<C>(signals: Seq<Signal<C>>, name: Seq<char>) -> Option<int> {
    if exists|i: int| 0 <= i < signals.len() && signals[i].spec_name() == name {
        Some(choose|i: int| 0 <= i < signals.len() && signals[i].spec_name() == name)
    } else {
        None
    }
}

/// The signal named `name`, made when first asked for; later calls give the
/// same signal, with the receivers connected to it meanwhile.
pub fn get_signal<'a, C>(registry: &'a mut SignalRegistry<C>, name: &'static str) -> (r: &'a mut Signal<C>)
    requires
        old(registry).wf(),
    ensures
        final(registry).wf() <== final(r).spec_name() == name@,
        signal_index(final(registry).signals(), name@) is Some <== final(r).spec_name() == name@,
        r.spec_name() == name@,
        match signal_index(old(registry).signals(), name@) {
            Some(i) => *r == old(registry).signals()[i]
                && final(registry).signals() == old(registry).signals().update(i, *final(r)),
            None => r.count() == 0
                && final(registry).signals() == old(registry).signals().push(*final(r)),
        },
{
    let mut i: usize = 0;
    while i < registry.signals.len()
        invariant
            i <= registry.signals@.len(),
            registry.signals@ == old(registry).signals@,
            old(registry).wf(),
            forall|j: int| 0 <= j < i ==> registry.signals@[j].spec_name() != name@,
        decreases registry.signals.len() - i,
    {
        if str_eq(registry.signals[i].name, name) {
            proof {
                let k = choose|k: int| 0 <= k < registry.signals@.len() && registry.signals@[k].spec_name() == name@;
                assert(registry.signals@[i as int].spec_name() == name@);
                if k != i {
                    assert(registry.signals@[k].spec_name() == name@);
                }
            }
            return &mut registry.signals[i];
        }
        i = i + 1;
    }
    registry.signals.push(Signal::new(name));
    let last = registry.signals.len() - 1;
    &mut registry.signals[last]
}

/// `pre_save`, from the registry.
pub fn pre_save<'a, C>(registry: &'a mut SignalRegistry<C>) -> (r: &'a mut Signal<C>)
    requires
        old(registry).wf(),
    ensures
        r.spec_name() == "pre_save"@,
{
    get_signal(registry, "pre_save")
}

/// `post_save`, from the registry.
pub fn post_save<'a, C>(registry: &'a mut SignalRegistry<C>) -> (r: &'a mut Signal<C>)
    requires
        old(registry).wf(),
    ensures
        r.spec_name() == "post_save"@,
{
    get_signal(registry, "post_save")
}

/// `pre_delete`, from the registry.
pub fn pre_delete<'a, C>(registry: &'a mut SignalRegistry<C>) -> (r: &'a mut Signal<C>)
    requires
        old(registry).wf(),
    ensures
        r.spec_name() == "pre_delete"@,
{
    get_signal(registry, "pre_delete")
}

/// `post_delete`, from the registry.
pub fn post_delete<'a, C>(registry: &'a mut SignalRegistry<C>) -> (r: &'a mut Signal<C>)
    requires
        old(registry).wf(),
    ensures
        r.spec_name() == "post_delete"@,
{
    get_signal(registry, "post_delete")
}

/// `pre_migrate`, from the registry.
pub fn pre_migrate<'a, C>(registry: &'a mut SignalRegistry<C>) -> (r: &'a mut Signal<C>)
    requires
        old(registry).wf(),
    ensures
        r.spec_name() == "pre_migrate"@,
{
    get_signal(registry, "pre_migrate")
}

/// `post_migrate`, from the registry.
pub fn post_migrate<'a, C>(registry: &'a mut SignalRegistry<C>) -> (r: &'a mut Signal<C>)
    requires
        old(registry).wf(),
    ensures
        r.spec_name() == "post_migrate"@,
{
    get_signal(registry, "post_migrate")
}

/// `request_started`, from the registry.
pub fn request_started<'a, C>(registry: &'a mut SignalRegistry<C>) -> (r: &'a mut Signal<C>)
    requires
        old(registry).wf(),
    ensures
        r.spec_name() == "request_started"@,
{
    get_signal(registry, "request_started")
}

/// `request_finished`, from the registry.
pub fn request_finished<'a, C>(registry: &'a mut SignalRegistry<C>) -> (r: &'a mut Signal<C>)
    requires
        old(registry).wf(),
    ensures
        r.spec_name() == "request_finished"@,
{
    get_signal(registry, "request_finished")
}

} // verus!
