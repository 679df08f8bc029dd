//! Named signals with sender filters and idempotent connections.
//!
//! A signal keeps its receivers' callbacks together with the bookkeeping
//! that decides who hears a signal: an optional `dispatch_uid` that makes a
//! second connection under the same id a no-op, and an optional sender type
//! that limits a receiver to senders of that type. `send` makes the dispatch
//! decision: the positions, in connection order, of the receivers to call.

use vstd::prelude::*;
use std::any::TypeId;
use crate::text::{owned, str_eq};

verus! {

/// `std::any::TypeId`, carried opaquely.
#[verifier::external_type_specification]
#[verifier::external_body]
pub struct ExTypeId(TypeId);

/// `TypeId` equality: two ids compare equal exactly when they are the same id.
#[verifier::external_body]
fn same_type(a: &TypeId, b: &TypeId) -> (r: bool)
    ensures
        r == (*a == *b),
{
    *a == *b
}

/// A connected receiver: its optional id, its optional sender filter, and its callback.
pub struct Receiver<C> {
    dispatch_uid: Option<String>,
    sender_filter: Option<TypeId>,
    callback: C,
}

/// What the dispatch rules read of a receiver: its id and its sender filter.
pub type ReceiverView = (Option<Seq<char>>, Option<TypeId>);

/// The view of an optional string.
pub open spec fn opt_view(o: Option<String>) -> Option<Seq<char>> {
    match o {
        Some(s) => Some(s@),
        None => None,
    }
}

impl<C> Receiver<C> {
    /// The receiver's id and sender filter.
    pub closed spec fn meta(&self) -> ReceiverView {
        (opt_view(self.dispatch_uid), self.sender_filter)
    }
}

/// A named signal and its receivers, in connection order.
pub struct Signal<C> {
    name: &'static str,
    receivers: Vec<Receiver<C>>,
}

/// The metadata of a list of receivers.
pub open spec fn metas<C>(rs: Seq<Receiver<C>>) -> Seq<ReceiverView> {
    rs.map_values(|r: Receiver<C>| r.meta())
}

impl<C> View for Signal<C> {
    type V = Seq<ReceiverView>;

    closed spec fn view(&self) -> Seq<ReceiverView> {
        metas(self.receivers@)
    }
}

/// Some receiver in `rs` was connected with the id `uid`.
pub open spec fn has_uid(rs: Seq<ReceiverView>, uid: Seq<char>) -> bool {
    exists|i: int| 0 <= i < rs.len() && rs[i].0 == Some(uid)
}

/// The receivers after `connect`: unchanged when the id is already taken,
/// else with the new receiver at the end.
pub open spec fn connected(rs: Seq<ReceiverView>, sender: Option<TypeId>, uid: Option<Seq<char>>) -> Seq<ReceiverView> {
    match uid {
        Some(u) => if has_uid(rs, u) { rs } else { rs.push((uid, sender)) },
        None => rs.push((uid, sender)),
    }
}

/// `disconnect` removes a receiver when it has the given id and filter (both
/// given), the id (id alone), the filter (filter alone), or always (neither).
pub open spec fn disconnects(r: ReceiverView, uid: Option<Seq<char>>, sender: Option<TypeId>) -> bool {
    match (uid, sender) {
        (Some(u), Some(s)) => r.0 == Some(u) && r.1 == Some(s),
        (Some(u), None) => r.0 == Some(u),
        (None, Some(s)) => r.1 == Some(s),
        (None, None) => true,
    }
}

/// The receivers that `disconnect` keeps, in order.
pub open spec fn kept(rs: Seq<ReceiverView>, uid: Option<Seq<char>>, sender: Option<TypeId>) -> Seq<ReceiverView>
    decreases rs.len(),
{
    if rs.len() == 0 {
        Seq::empty()
    } else if disconnects(rs.last(), uid, sender) {
        kept(rs.drop_last(), uid, sender)
    } else {
        kept(rs.drop_last(), uid, sender).push(rs.last())
    }
}

/// The positions, in order, of the receivers that `disconnect` keeps.
pub open spec fn kept_positions(rs: Seq<ReceiverView>, uid: Option<Seq<char>>, sender: Option<TypeId>) -> Seq<int>
    decreases rs.len(),
{
    if rs.len() == 0 {
        Seq::empty()
    } else if disconnects(rs.last(), uid, sender) {
        kept_positions(rs.drop_last(), uid, sender)
    } else {
        kept_positions(rs.drop_last(), uid, sender).push(rs.len() - 1)
    }
}

/// A receiver hears a sender of type `t` when it has no filter or that filter.
pub open spec fn hears(r: ReceiverView, t: TypeId) -> bool {
    r.1 is None || r.1 == Some(t)
}

/// The positions, in order, of the receivers that hear a sender of type `t`.
pub open spec fn targets(rs: Seq<ReceiverView>, t: TypeId) -> Seq<int>
    decreases rs.len(),
{
    if rs.len() == 0 {
        Seq::empty()
    } else if hears(rs.last(), t) {
        targets(rs.drop_last(), t).push(rs.len() - 1)
    } else {
        targets(rs.drop_last(), t)
    }
}

fn opt_str_eq(a: &Option<String>, b: &str) -> (r: bool)
    ensures
        r == (opt_view(*a) == Some(b@)),
{
    match a {
        Some(s) => str_eq(s.as_str(), b),
        None => false,
    }
}

fn opt_type_eq(a: &Option<TypeId>, b: &TypeId) -> (r: bool)
    ensures
        r == (*a == Some(*b)),
{
    match a {
        Some(t) => same_type(t, b),
        None => false,
    }
}

impl<C> Signal<C> {
    /// A signal with no receivers.
    pub fn new(name: &'static str) -> (r: Self)
        ensures
            r@ == Seq::<ReceiverView>::empty(),
            r.spec_name() == name@,
    {
        Signal { name, receivers: Vec::new() }
    }

    /// The signal's name.
    pub closed spec fn spec_name(&self) -> Seq<char> {
        self.name@
    }

    /// The signal's name.
    pub fn name(&self) -> (r: &'static str)
        ensures
            r@ == self.spec_name(),
    {
        self.name
    }

    /// The number of connected receivers.
    pub fn receiver_count(&self) -> (r: usize)
        ensures
            r == self@.len(),
    {
        self.receivers.len()
    }

    /// The callback of the receiver at position `i`.
    pub closed spec fn callback_at(&self, i: int) -> C {
        self.receivers@[i].callback
    }

    /// The callback of the receiver at `i`.
    pub fn callback(&self, i: usize) -> (r: &C)
        requires
            i < self@.len(),
        ensures
            *r == self.callback_at(i as int),
    {
        &self.receivers[i].callback
    }

    fn uid_taken(&self, uid: &str) -> (r: bool)
        ensures
            r == has_uid(self@, uid@),
    {
        let mut i: usize = 0;
        while i < self.receivers.len()
            invariant
                i <= self.receivers@.len(),
                forall|j: int| 0 <= j < i ==> self@[j].0 != Some(uid@),
            decreases self.receivers.len() - i,
        {
            if opt_str_eq(&self.receivers[i].dispatch_uid, uid) {
                assert(self@[i as int].0 == Some(uid@));
                return true;
            }
            i = i + 1;
        }
        false
    }

    /// Connects `f`, limited to senders of type `sender` when given; a
    /// `dispatch_uid` already connected makes this a no-op.
    pub fn connect(&mut self, f: C, sender: Option<TypeId>, dispatch_uid: Option<&str>)
        ensures
            final(self)@ == connected(old(self)@, sender, match dispatch_uid { Some(u) => Some(u@), None => None }),
            final(self).spec_name() == old(self).spec_name(),
            forall|j: int| 0 <= j < old(self)@.len() ==> #[trigger] final(self).callback_at(j) == old(self).callback_at(j),
            final(self)@.len() > old(self)@.len() ==> final(self).callback_at(old(self)@.len() as int) == f,
    {
        if let Some(uid) = dispatch_uid {
            if self.uid_taken(uid) {
                return;
            }
        }
        let r = Receiver {
            dispatch_uid: match dispatch_uid {
                Some(u) => Some(owned(u)),
                None => None,
            },
            sender_filter: sender,
            callback: f,
        };
        let ghost before = self.receivers@;
        self.receivers.push(r);
        assert(metas(self.receivers@) =~= metas(before).push(r.meta()));
    }

    /// Disconnects the receivers that match: by id and filter, by id, by
    /// filter, or all of them when neither is given.
    pub fn disconnect(&mut self, dispatch_uid: Option<&str>, sender: Option<TypeId>)
        ensures
            final(self)@ == kept(old(self)@, match dispatch_uid { Some(u) => Some(u@), None => None }, sender),
            final(self).spec_name() == old(self).spec_name(),
            final(self)@.len() == kept_positions(old(self)@, match dispatch_uid { Some(u) => Some(u@), None => None }, sender).len(),
            forall|j: int| 0 <= j < final(self)@.len() ==> #[trigger] final(self).callback_at(j) == old(self).callback_at(
                kept_positions(old(self)@, match dispatch_uid { Some(u) => Some(u@), None => None }, sender)[j],
            ),
    {
        let ghost uid_v: Option<Seq<char>> = match dispatch_uid { Some(u) => Some(u@), None => None };
        let mut rest: Vec<Receiver<C>> = Vec::new();
        std::mem::swap(&mut rest, &mut self.receivers);
        let ghost all = rest@;
        let mut keep: Vec<Receiver<C>> = Vec::new();
        let n = rest.len();
        let mut i: usize = 0;
        while i < n
            invariant
                n == all.len(),
                i <= n,
                uid_v == (match dispatch_uid { Some(u) => Some(u@), None => None::<Seq<char>> }),
                rest@ == all.subrange(i as int, n as int),
                metas(keep@) == kept(metas(all).take(i as int), uid_v, sender),
                keep@.len() == kept_positions(metas(all).take(i as int), uid_v, sender).len(),
                forall|j: int| 0 <= j < keep@.len() ==> #[trigger] keep@[j].callback
                    == all[kept_positions(metas(all).take(i as int), uid_v, sender)[j]].callback,
                forall|j: int| 0 <= j < keep@.len() ==> 0 <= #[trigger] kept_positions(metas(all).take(i as int), uid_v, sender)[j] < i,
            decreases n - i,
        {
            let r = rest.remove(0);
            assert(r == all[i as int]);
            assert(rest@ =~= all.subrange(i + 1, n as int));
            assert(metas(all).take(i + 1).drop_last() =~= metas(all).take(i as int));
            let removed = match dispatch_uid {
                Some(uid) => match sender {
                    Some(snd) => opt_str_eq(&r.dispatch_uid, uid) && opt_type_eq(&r.sender_filter, &snd),
                    None => opt_str_eq(&r.dispatch_uid, uid),
                },
                None => match sender {
                    Some(snd) => opt_type_eq(&r.sender_filter, &snd),
                    None => true,
                },
            };
            assert(removed == disconnects(r.meta(), uid_v, sender));
            assert(metas(all).take(i + 1).last() == all[i as int].meta());
            let ghost kp0 = kept_positions(metas(all).take(i as int), uid_v, sender);
            if !removed {
                let ghost before = keep@;
                keep.push(r);
                assert(metas(keep@) =~= metas(before).push(all[i as int].meta()));
                assert(kept_positions(metas(all).take(i + 1), uid_v, sender) == kp0.push(i as int));
                assert forall|j: int| 0 <= j < keep@.len() implies #[trigger] keep@[j].callback
                    == all[kept_positions(metas(all).take(i + 1), uid_v, sender)[j]].callback by {
                    if j < before.len() {
                        assert(keep@[j] == before[j]);
                    }
                }
            } else {
                assert(kept_positions(metas(all).take(i + 1), uid_v, sender) == kp0);
            }
            i = i + 1;
        }
        assert(metas(all).take(n as int) =~= metas(all));
        self.receivers = keep;
    }

    /// The dispatch decision for a sender of type `sender_type`: the
    /// positions, in connection order, of the receivers to call.
    pub fn send(&self, sender_type: &TypeId) -> (r: Vec<usize>)
        ensures
            r@.map_values(|i: usize| i as int) == targets(self@, *sender_type),
    {
        let mut r: Vec<usize> = Vec::new();
        let mut i: usize = 0;
        while i < self.receivers.len()
            invariant
                i <= self.receivers@.len(),
                r@.map_values(|k: usize| k as int) == targets(self@.take(i as int), *sender_type),
            decreases self.receivers.len() - i,
        {
            assert(self@.take(i + 1).drop_last() =~= self@.take(i as int));
            let filter = &self.receivers[i].sender_filter;
            let hears_it = match filter {
                None => true,
                Some(t) => same_type(t, sender_type),
            };
            assert(hears_it == hears(self@[i as int], *sender_type));
            if hears_it {
                let ghost before = r@;
                r.push(i);
                assert(r@.map_values(|k: usize| k as int) =~= before.map_values(|k: usize| k as int).push(i as int));
            }
            i = i + 1;
        }
        assert(self@.take(self.receivers@.len() as int) =~= self@);
        r
    }
}

/// Connecting twice under one `dispatch_uid` connects once: the second
/// connection, whatever its callback and filter, changes nothing.
pub proof fn law_connect_idempotent(rs: Seq<ReceiverView>, s1: Option<TypeId>, s2: Option<TypeId>, uid: Seq<char>)
    ensures
        connected(connected(rs, s1, Some(uid)), s2, Some(uid)) == connected(rs, s1, Some(uid)),
{
    let once = connected(rs, s1, Some(uid));
    if !has_uid(rs, uid) {
        assert(once[rs.len() as int].0 == Some(uid));
    }
    assert(has_uid(once, uid));
}

/// Disconnecting with neither id nor filter leaves no receiver.
pub proof fn law_disconnect_all(rs: Seq<ReceiverView>)
    ensures
        kept(rs, None, None).len() == 0,
    decreases rs.len(),
{
    if rs.len() > 0 {
        law_disconnect_all(rs.drop_last());
    }
}

/// After `disconnect`, no remaining receiver matches what was disconnected,
/// and every remaining receiver was there before.
pub proof fn law_disconnect_removes_matches(rs: Seq<ReceiverView>, uid: Option<Seq<char>>, sender: Option<TypeId>)
    ensures
        forall|i: int| 0 <= i < kept(rs, uid, sender).len() ==> !disconnects(#[trigger] kept(rs, uid, sender)[i], uid, sender),
        forall|i: int| 0 <= i < kept(rs, uid, sender).len() ==> rs.contains(#[trigger] kept(rs, uid, sender)[i]),
        kept(rs, uid, sender).len() <= rs.len(),
    decreases rs.len(),
{
    if rs.len() > 0 {
        let p = rs.drop_last();
        law_disconnect_removes_matches(p, uid, sender);
        let k = kept(rs, uid, sender);
        let kp = kept(p, uid, sender);
        assert forall|i: int| 0 <= i < k.len() implies rs.contains(#[trigger] k[i]) by {
            if i < kp.len() {
                assert(k[i] == kp[i]);
                assert(p.contains(kp[i]));
                let j = choose|j: int| 0 <= j < p.len() && p[j] == kp[i];
                assert(rs[j] == kp[i]);
            } else {
                assert(rs[rs.len() - 1] == k[i]);
            }
        }
    }
}

/// A sender reaches exactly the receivers that hear it: every target hears
/// the sender's type.
pub proof fn law_send_targets_hear(rs: Seq<ReceiverView>, t: TypeId)
    ensures
        forall|i: int| 0 <= i < targets(rs, t).len() ==>
            0 <= #[trigger] targets(rs, t)[i] < rs.len() && hears(rs[targets(rs, t)[i]], t),
    decreases rs.len(),
{
    if rs.len() > 0 {
        let p = rs.drop_last();
        law_send_targets_hear(p, t);
        assert forall|i: int| 0 <= i < targets(rs, t).len() implies
            0 <= #[trigger] targets(rs, t)[i] < rs.len() && hears(rs[targets(rs, t)[i]], t) by {
            if i < targets(p, t).len() {
                assert(targets(rs, t)[i] == targets(p, t)[i]);
                assert(rs[targets(p, t)[i]] == p[targets(p, t)[i]]);
            }
        }
    }
}

/// `request_started`: sent when a request starts.
pub fn request_started<C>() -> (r: Signal<C>)
    ensures
        r@.len() == 0,
        r.spec_name() == "request_started"@,
{
    Signal::new("request_started")
}

/// `request_finished`: sent when a request finishes.
pub fn request_finished<C>() -> (r: Signal<C>)
    ensures
        r@.len() == 0,
        r.spec_name() == "request_finished"@,
{
    Signal::new("request_finished")
}

/// `got_request_exception`: sent when a view fails.
pub fn got_request_exception<C>() -> (r: Signal<C>)
    ensures
        r@.len() == 0,
        r.spec_name() == "got_request_exception"@,
{
    Signal::new("got_request_exception")
}

/// `pre_save`: sent before a model is saved.
pub fn pre_save<C>() -> (r: Signal<C>)
    ensures
        r@.len() == 0,
        r.spec_name() == "pre_save"@,
{
    Signal::new("pre_save")
}

/// `post_save`: sent after a model is saved.
pub fn post_save<C>() -> (r: Signal<C>)
    ensures
        r@.len() == 0,
        r.spec_name() == "post_save"@,
{
    Signal::new("post_save")
}

/// `pre_delete`: sent before a model is deleted.
pub fn pre_delete<C>() -> (r: Signal<C>)
    ensures
        r@.len() == 0,
        r.spec_name() == "pre_delete"@,
{
    Signal::new("pre_delete")
}

/// `post_delete`: sent after a model is deleted.
pub fn post_delete<C>() -> (r: Signal<C>)
    ensures
        r@.len() == 0,
        r.spec_name() == "post_delete"@,
{
    Signal::new("post_delete")
}

/// `pre_migrate`: sent before migrations run.
pub fn pre_migrate<C>() -> (r: Signal<C>)
    ensures
        r@.len() == 0,
        r.spec_name() == "pre_migrate"@,
{
    Signal::new("pre_migrate")
}

/// `post_migrate`: sent after migrations run.
pub fn post_migrate<C>() -> (r: Signal<C>)
    ensures
        r@.len() == 0,
        r.spec_name() == "post_migrate"@,
{
    Signal::new("post_migrate")
}

} // verus!
