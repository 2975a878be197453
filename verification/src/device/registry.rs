use std::collections::HashMap;

use vstd::prelude::*;

use super::error::ActorErrorUnknownDevice;
use super::DeviceId;

verus! {

broadcast use vstd::std_specs::hash::group_hash_axioms;

/// Key of a message type. The actor system gives every message type its own key.
pub type MessageTypeKey = u64;

/// The routing state of the actor system: the message queue of every running
/// device, and for every message type the devices that handle it.
#[derive(Debug)]
pub struct ActorSystemState<TSender> {
    devices: HashMap<u128, TSender>,
    messages: HashMap<MessageTypeKey, Vec<u128>>,
}

/// `s` with `x` added, when it is not in it already.
pub open spec fn push_absent(s: Seq<u128>, x: u128) -> Seq<u128> {
    if s.contains(x) {
        s
    } else {
        s.push(x)
    }
}

proof fn lemma_push_absent(s: Seq<u128>, x: u128)
    requires
        s.no_duplicates(),
    ensures
        push_absent(s, x).no_duplicates(),
        push_absent(s, x).to_set() == s.to_set().insert(x),
{
    assert(push_absent(s, x).to_set() =~= s.to_set().insert(x)) by {
        assert forall|y: u128| push_absent(s, x).contains(y) <==> s.contains(y) || y == x by {
            if !s.contains(x) {
                if y == x {
                    assert(s.push(x)[s.len() as int] == x);
                }
                if s.contains(y) {
                    let k = choose|k: int| 0 <= k < s.len() && s[k] == y;
                    assert(s.push(x)[k] == y);
                }
            }
        }
    }
}

proof fn lemma_push_contains<T>(s: Seq<T>, x: T, y: T)
    ensures
        s.push(x).contains(y) <==> s.contains(y) || y == x,
{
    if s.contains(y) {
        let k = choose|k: int| 0 <= k < s.len() && s[k] == y;
        assert(s.push(x)[k] == y);
    }
    if y == x {
        assert(s.push(x)[s.len() as int] == x);
    }
    if s.push(x).contains(y) {
        let k = choose|k: int| 0 <= k < s.push(x).len() && s.push(x)[k] == y;
        if k < s.len() {
            assert(s[k] == y);
        }
    }
}

proof fn lemma_remove_unique(s: Seq<u128>, k: int)
    requires
        s.no_duplicates(),
        0 <= k < s.len(),
    ensures
        s.remove(k).no_duplicates(),
        s.remove(k).to_set() == s.to_set().remove(s[k]),
{
    let r = s.remove(k);
    assert forall|i: int, j: int| 0 <= i < r.len() && 0 <= j < r.len() && i != j implies r[i]
        != r[j] by {
        let i2 = if i < k { i } else { i + 1 };
        let j2 = if j < k { j } else { j + 1 };
        assert(r[i] == s[i2] && r[j] == s[j2]);
    }
    assert(r.to_set() =~= s.to_set().remove(s[k])) by {
        assert forall|y: u128| r.contains(y) <==> s.contains(y) && y != s[k] by {
            if r.contains(y) {
                let i = choose|i: int| 0 <= i < r.len() && r[i] == y;
                let i2 = if i < k { i } else { i + 1 };
                assert(s[i2] == y && i2 != k);
            }
            if s.contains(y) && y != s[k] {
                let i = choose|i: int| 0 <= i < s.len() && s[i] == y;
                assert(i != k);
                let i2 = if i < k { i } else { i - 1 };
                assert(r[i2] == y);
            }
        }
    }
}

fn index_of(list: &Vec<u128>, x: u128) -> (r: Option<usize>)
    ensures
        match r {
            Some(k) => k < list@.len() && list@[k as int] == x,
            None => !list@.contains(x),
        },
{
    let mut i: usize = 0;
    while i < list.len()
        invariant
            i <= list@.len(),
            forall|j: int| 0 <= j < i ==> list@[j] != x,
        decreases list.len() - i,
    {
        if list[i] == x {
            return Some(i);
        }
        i = i + 1;
    }
    None
}

/// The devices `ids` as device identifiers.
pub open spec fn as_device_ids(ids: Seq<u128>) -> Seq<DeviceId> {
    ids.map_values(|x: u128| DeviceId(x))
}

fn to_device_ids(ids: &Vec<u128>) -> (r: Vec<DeviceId>)
    ensures
        r@ == as_device_ids(ids@),
{
    let mut r: Vec<DeviceId> = Vec::new();
    let mut i: usize = 0;
    while i < ids.len()
        invariant
            i <= ids@.len(),
            r@ == as_device_ids(ids@.take(i as int)),
        decreases ids.len() - i,
    {
        r.push(DeviceId(ids[i]));
        i = i + 1;
        assert(r@ =~= as_device_ids(ids@.take(i as int)));
    }
    assert(ids@.take(ids@.len() as int) =~= ids@);
    r
}

/// The text of the error for a device without a message queue.
pub open spec fn no_queue_details() -> Seq<char> {
    "No message queue for this device"@
}

/// The text of the error when a weak sender is asked for an unknown device.
pub open spec fn unknown_id_details() -> Seq<char> {
    "Unknown Id"@
}

/// Whether `r` is the outcome of looking up the queue of device `id` in `devices`:
/// its queue when there is one, otherwise the error with the given details.
pub open spec fn lookup_outcome<TSender>(
    devices: Map<u128, TSender>,
    id: DeviceId,
    details: Seq<char>,
    r: Result<&TSender, ActorErrorUnknownDevice>,
) -> bool {
    if devices.contains_key(id.0) {
        r matches Ok(s) && *s == devices[id.0]
    } else {
        r matches Err(ActorErrorUnknownDevice::UnknownDeviceId { device_id, details: d }) && device_id
            == id && d@ == details
    }
}

impl<TSender> ActorSystemState<TSender> {
    /// The message queue of every running device.
    pub closed spec fn spec_devices(&self) -> Map<u128, TSender> {
        self.devices@
    }

    /// The devices that handle messages of type `t`.
    pub closed spec fn handlers(&self, t: MessageTypeKey) -> Set<u128> {
        if self.messages@.contains_key(t) {
            self.messages@[t]@.to_set()
        } else {
            Set::empty()
        }
    }

    /// The devices that handle every type in `types`; none when `types` is empty.
    pub open spec fn handlers_of_all(&self, types: Seq<MessageTypeKey>) -> Set<u128> {
        Set::new(
            |x: u128|
                types.len() > 0 && forall|j: int| 0 <= j < types.len() ==> #[trigger] self.handlers(
                    types[j],
                ).contains(x),
        )
    }

    /// Well-formedness: no device is listed twice as a handler of one message type.
    pub closed spec fn wf(&self) -> bool {
        forall|t: MessageTypeKey| #[trigger]
            self.messages@.contains_key(t) ==> self.messages@[t]@.no_duplicates()
    }

    /// The handlers of `t` in the order in which they were published.
    fn handler_list(&self, t: MessageTypeKey) -> (r: Vec<u128>)
        requires
            self.wf(),
        ensures
            r@.no_duplicates(),
            r@.to_set() == self.handlers(t),
    {
        match self.messages.get(&t) {
            Some(list) => list.clone(),
            None => {
                let r: Vec<u128> = Vec::new();
                assert(r@.to_set() =~= Set::empty());
                r
            },
        }
    }

    /// An empty system: no devices, no handlers.
    pub fn new() -> (r: Self)
        ensures
            r.wf(),
            r.spec_devices() == Map::<u128, TSender>::empty(),
            forall|t: MessageTypeKey| #[trigger] r.handlers(t) == Set::<u128>::empty(),
    {
        let r = ActorSystemState { devices: HashMap::new(), messages: HashMap::new() };
        assert(r.devices@ =~= Map::empty());
        r
    }

    /// Registers the message queue of device `id`, replacing an earlier one.
    pub fn register(&mut self, id: DeviceId, sender: TSender)
        requires
            old(self).wf(),
        ensures
            final(self).wf(),
            final(self).spec_devices() == old(self).spec_devices().insert(id.0, sender),
            forall|t: MessageTypeKey| #[trigger] final(self).handlers(t) == old(self).handlers(t),
    {
        self.devices.insert(id.0, sender);
    }

    /// Removes the message queue of device `id`, when the device stops.
    pub fn release_device(&mut self, id: DeviceId)
        requires
            old(self).wf(),
        ensures
            final(self).wf(),
            final(self).spec_devices() == old(self).spec_devices().remove(id.0),
            forall|t: MessageTypeKey| #[trigger] final(self).handlers(t) == old(self).handlers(t),
    {
        self.devices.remove(&id.0);
        assert(self.devices@ =~= old(self).devices@.remove(id.0));
    }

    /// Drops all message queues. Devices finish when their queue is gone, so the
    /// system shuts down once the pending work is done.
    pub fn forget_senders(&mut self)
        requires
            old(self).wf(),
        ensures
            final(self).wf(),
            final(self).spec_devices() == Map::<u128, TSender>::empty(),
            forall|t: MessageTypeKey| #[trigger] final(self).handlers(t) == old(self).handlers(t),
    {
        self.devices.clear();
    }

    /// Records that device `id` handles messages of type `t`.
    pub fn publish_message(&mut self, id: DeviceId, t: MessageTypeKey)
        requires
            old(self).wf(),
        ensures
            final(self).wf(),
            final(self).spec_devices() == old(self).spec_devices(),
            publish_post(*old(self), *final(self), id, t),
    {
        let mut list = match self.messages.remove(&t) {
            Some(l) => l,
            None => Vec::new(),
        };
        let ghost before = list@;
        assert(before.to_set() =~= old(self).handlers(t));
        proof {
            lemma_push_absent(before, id.0);
        }
        if index_of(&list, id.0).is_none() {
            list.push(id.0);
        }
        assert(list@ == push_absent(before, id.0));
        self.messages.insert(t, list);
        assert forall|u: MessageTypeKey| #[trigger]
            self.handlers(u) == (if u == t {
                old(self).handlers(t).insert(id.0)
            } else {
                old(self).handlers(u)
            }) by {
            if u != t {
                assert(self.messages@.contains_key(u) == old(self).messages@.contains_key(u));
            }
        }
    }

    /// Removes device `id` from the handlers of each type in `types`. Each type must be
    /// handled by the device and appear once in `types`.
    pub fn revoke_message_responsibility(&mut self, id: DeviceId, types: &[MessageTypeKey])
        requires
            old(self).wf(),
            types@.no_duplicates(),
            forall|i: int| 0 <= i < types@.len() ==> #[trigger] old(self).handlers(types@[i]).contains(
                id.0,
            ),
        ensures
            final(self).wf(),
            final(self).spec_devices() == old(self).spec_devices(),
            revoke_post(*old(self), *final(self), id, types@),
    {
        let mut i: usize = 0;
        while i < types.len()
            invariant
                self.wf(),
                i <= types@.len(),
                types@.no_duplicates(),
                self.spec_devices() == old(self).spec_devices(),
                forall|j: int| i <= j < types@.len() ==> #[trigger] old(self).handlers(types@[j]).contains(
                    id.0,
                ),
                forall|u: MessageTypeKey| #[trigger]
                    self.handlers(u) == (if types@.take(i as int).contains(u) {
                        old(self).handlers(u).remove(id.0)
                    } else {
                        old(self).handlers(u)
                    }),
            decreases types.len() - i,
        {
            let t = types[i];
            let ghost mid = *self;
            assert(!types@.take(i as int).contains(t)) by {
                if types@.take(i as int).contains(t) {
                    let j = choose|j: int| 0 <= j < i && types@.take(i as int)[j] == t;
                    assert(types@[j] == types@[i as int]);
                }
            }
            assert(self.handlers(t) == old(self).handlers(t));
            assert(self.handlers(t).contains(id.0));
            let removed = self.messages.remove(&t);
            let mut list = match removed {
                Some(l) => l,
                None => {
                    assert(false);
                    Vec::new()
                },
            };
            assert(list@.to_set() == mid.handlers(t));
            let k = match index_of(&list, id.0) {
                Some(k) => k,
                None => {
                    assert(list@.to_set().contains(id.0));
                    assert(false);
                    0
                },
            };
            proof {
                lemma_remove_unique(list@, k as int);
            }
            list.remove(k);
            let ghost final_list = list@;
            assert(final_list.to_set() == mid.handlers(t).remove(id.0));
            self.messages.insert(t, list);
            assert(self.handlers(t) == old(self).handlers(t).remove(id.0));
            i = i + 1;
            assert forall|u: MessageTypeKey| #[trigger]
                self.handlers(u) == (if types@.take(i as int).contains(u) {
                    old(self).handlers(u).remove(id.0)
                } else {
                    old(self).handlers(u)
                }) by {
                assert(types@.take(i as int) =~= types@.take(i - 1).push(t));
                lemma_push_contains(types@.take(i - 1), t, u);
                if u != t {
                    assert(self.messages@.contains_key(u) == mid.messages@.contains_key(u));
                    if self.messages@.contains_key(u) {
                        assert(self.messages@[u] == mid.messages@[u]);
                    }
                    assert(self.handlers(u) == mid.handlers(u));
                }
            }
        }
        assert(types@.take(types@.len() as int) =~= types@);
    }

    /// The devices that handle messages of type `t`.
    pub fn list_devices_for_message_type(&self, t: MessageTypeKey) -> (r: Vec<DeviceId>)
        requires
            self.wf(),
        ensures
            r@.no_duplicates(),
            r@.to_set() == self.handlers(t).map(|x: u128| DeviceId(x)),
    {
        let list = self.handler_list(t);
        let r = to_device_ids(&list);
        proof {
            lemma_as_device_ids(list@);
        }
        r
    }

    /// The devices that handle messages of every type in `types`; none when `types` is empty.
    pub fn list_devices_for_message_types(&self, types: &[MessageTypeKey]) -> (r: Vec<DeviceId>)
        requires
            self.wf(),
        ensures
            r@.no_duplicates(),
            r@.to_set() == self.handlers_of_all(types@).map(|x: u128| DeviceId(x)),
    {
        if types.len() == 0 {
            let r: Vec<DeviceId> = Vec::new();
            assert(r@.to_set() =~= self.handlers_of_all(types@).map(|x: u128| DeviceId(x)));
            return r;
        }
        let first = self.handler_list(types[0]);
        let mut found: Vec<u128> = Vec::new();
        let mut i: usize = 0;
        while i < first.len()
            invariant
                self.wf(),
                types@.len() > 0,
                first@.no_duplicates(),
                first@.to_set() == self.handlers(types@[0]),
                i <= first@.len(),
                found@.no_duplicates(),
                forall|x: u128| #[trigger]
                    found@.contains(x) <==> (first@.take(i as int).contains(x)
                        && self.handlers_of_all(types@).contains(x)),
            decreases first.len() - i,
        {
            let x = first[i];
            let mut all = true;
            let mut j: usize = 1;
            while j < types.len()
                invariant
                    self.wf(),
                    1 <= j <= types@.len(),
                    all == forall|k: int| 1 <= k < j ==> #[trigger] self.handlers(types@[k]).contains(x),
                decreases types.len() - j,
            {
                let other = self.handler_list(types[j]);
                let has_x = index_of(&other, x).is_some();
                assert(has_x == other@.contains(x));
                assert(other@.contains(x) == other@.to_set().contains(x));
                all = all && has_x;
                j = j + 1;
                assert(all == forall|k: int| 1 <= k < j ==> #[trigger] self.handlers(types@[k]).contains(x)) by {
                    if !has_x {
                        assert(!self.handlers(types@[j - 1]).contains(x));
                    }
                }
            }
            assert(first@.contains(x));
            assert(all <==> self.handlers_of_all(types@).contains(x)) by {
                if all {
                    assert forall|k: int| 0 <= k < types@.len() implies #[trigger] self.handlers(
                        types@[k],
                    ).contains(x) by {
                        if k == 0 {
                            assert(first@.to_set().contains(x));
                        }
                    }
                }
            }
            assert(!found@.contains(x)) by {
                if found@.contains(x) {
                    let k = choose|k: int| 0 <= k < i && first@.take(i as int)[k] == x;
                    assert(first@[k] == first@[i as int]);
                }
            }
            let ghost found_before = found@;
            if all {
                found.push(x);
            }
            i = i + 1;
            assert forall|y: u128| #[trigger]
                found@.contains(y) <==> (first@.take(i as int).contains(y)
                    && self.handlers_of_all(types@).contains(y)) by {
                assert(first@.take(i as int) =~= first@.take(i - 1).push(x));
                lemma_push_contains(first@.take(i - 1), x, y);
                lemma_push_contains(found_before, x, y);
            }
        }
        assert(first@.take(first@.len() as int) =~= first@);
        let r = to_device_ids(&found);
        proof {
            lemma_as_device_ids(found@);
            assert(found@.to_set() =~= self.handlers_of_all(types@)) by {
                assert forall|x: u128| found@.to_set().contains(x) implies self.handlers_of_all(
                    types@,
                ).contains(x) by {
                    assert(found@.contains(x));
                }
                assert forall|x: u128| self.handlers_of_all(types@).contains(x) implies found@.contains(x) by {
                    assert(self.handlers(types@[0]).contains(x));
                    assert(first@.to_set().contains(x));
                }
            }
        }
        r
    }

    /// The message queue of device `id`.
    pub fn get_device(&self, id: DeviceId) -> (r: Result<&TSender, ActorErrorUnknownDevice>)
        ensures
            lookup_outcome(self.spec_devices(), id, no_queue_details(), r),
    {
        match self.devices.get(&id.0) {
            Some(s) => Ok(s),
            None => Err(
                ActorErrorUnknownDevice::UnknownDeviceId {
                    device_id: id,
                    details: "No message queue for this device".to_owned(),
                },
            ),
        }
    }

    /// The message queue of device `id`, for a weak sender.
    pub fn get_device_for_weak_sender(&self, id: DeviceId) -> (r: Result<
        &TSender,
        ActorErrorUnknownDevice,
    >)
        ensures
            lookup_outcome(self.spec_devices(), id, unknown_id_details(), r),
    {
        match self.devices.get(&id.0) {
            Some(s) => Ok(s),
            None => Err(
                ActorErrorUnknownDevice::UnknownDeviceId {
                    device_id: id,
                    details: "Unknown Id".to_owned(),
                },
            ),
        }
    }

    /// The queue of device `id` when given; otherwise the queue of the only device
    /// that handles messages of type `t`. With no handler, or several, the request is
    /// ambiguous and the error lists the handlers.
    pub fn get_sender_or_single_handler(
        &self,
        id: Option<DeviceId>,
        t: MessageTypeKey,
        msg_type_name: &'static str,
    ) -> (r: Result<&TSender, ActorErrorUnknownDevice>)
        requires
            self.wf(),
        ensures
            match id {
                Some(d) => lookup_outcome(self.spec_devices(), d, no_queue_details(), r),
                None => if self.handlers(t).len() == 1 {
                    lookup_outcome(
                        self.spec_devices(),
                        DeviceId(self.handlers(t).choose()),
                        no_queue_details(),
                        r,
                    )
                } else {
                    r matches Err(ActorErrorUnknownDevice::AmbiguousHandler { msg_type, possibilities })
                        && msg_type == msg_type_name && possibilities@.no_duplicates()
                        && possibilities@.to_set() == self.handlers(t).map(|x: u128| DeviceId(x))
                },
            },
    {
        match id {
            Some(d) => self.get_device(d),
            None => {
                let ids = self.handler_list(t);
                proof {
                    ids@.unique_seq_to_set();
                }
                if ids.len() == 1 {
                    assert(ids@.to_set() =~= Set::empty().insert(ids@[0]));
                    assert(self.handlers(t).contains(ids@[0]));
                    proof {
                        vstd::set_lib::lemma_set_empty_equivalency_len(self.handlers(t).remove(ids@[0]));
                        assert(self.handlers(t).remove(ids@[0]).len() == 0);
                        assert(self.handlers(t).choose() == ids@[0]) by {
                            let c = self.handlers(t).choose();
                            assert(self.handlers(t).contains(c));
                        }
                    }
                    self.get_device(DeviceId(ids[0]))
                } else {
                    let possibilities = to_device_ids(&ids);
                    proof {
                        lemma_as_device_ids(ids@);
                    }
                    Err(
                        ActorErrorUnknownDevice::AmbiguousHandler {
                            msg_type: msg_type_name,
                            possibilities,
                        },
                    )
                }
            },
        }
    }
}

proof fn lemma_as_device_ids(ids: Seq<u128>)
    requires
        ids.no_duplicates(),
    ensures
        as_device_ids(ids).no_duplicates(),
        as_device_ids(ids).to_set() == ids.to_set().map(|x: u128| DeviceId(x)),
{
    let d = as_device_ids(ids);
    assert forall|i: int, j: int| 0 <= i < d.len() && 0 <= j < d.len() && i != j implies d[i]
        != d[j] by {
        assert(ids[i] != ids[j]);
    }
    assert(d.to_set() =~= ids.to_set().map(|x: u128| DeviceId(x))) by {
        assert forall|y: DeviceId| d.to_set().contains(y) implies ids.to_set().map(
            |x: u128| DeviceId(x),
        ).contains(y) by {
            let i = choose|i: int| 0 <= i < d.len() && d[i] == y;
            assert(ids.to_set().contains(ids[i]));
        }
        assert forall|y: DeviceId| ids.to_set().map(|x: u128| DeviceId(x)).contains(y) implies d.to_set().contains(
            y,
        ) by {
            let x = choose|x: u128| ids.to_set().contains(x) && DeviceId(x) == y;
            let i = choose|i: int| 0 <= i < ids.len() && ids[i] == x;
            assert(d[i] == y);
        }
    }
}

/// What `publish_message(id, t)` does to the handlers: `id` is added to those of `t`.
pub open spec fn publish_post<TSender>(
    before: ActorSystemState<TSender>,
    after: ActorSystemState<TSender>,
    id: DeviceId,
    t: MessageTypeKey,
) -> bool {
    forall|u: MessageTypeKey| #[trigger]
        after.handlers(u) == (if u == t {
            before.handlers(t).insert(id.0)
        } else {
            before.handlers(u)
        })
}

/// What `revoke_message_responsibility(id, types)` does to the handlers: `id` is
/// removed from those of every type in `types`.
pub open spec fn revoke_post<TSender>(
    before: ActorSystemState<TSender>,
    after: ActorSystemState<TSender>,
    id: DeviceId,
    types: Seq<MessageTypeKey>,
) -> bool {
    forall|u: MessageTypeKey| #[trigger]
        after.handlers(u) == (if types.contains(u) {
            before.handlers(u).remove(id.0)
        } else {
            before.handlers(u)
        })
}

/// What a running device holds to publish the message types it handles, and to be
/// withdrawn from the system when it stops.
pub struct DeviceReleaser {
    id: DeviceId,
}

impl DeviceReleaser {
    /// The device this releaser belongs to.
    pub closed spec fn spec_id(&self) -> DeviceId {
        self.id
    }

    pub fn new(id: DeviceId) -> (r: Self)
        ensures
            r.spec_id() == id,
    {
        DeviceReleaser { id }
    }

    /// Records that the device handles messages of type `t`.
    pub fn publish_message<TSender>(&self, state: &mut ActorSystemState<TSender>, t: MessageTypeKey)
        requires
            old(state).wf(),
        ensures
            final(state).wf(),
            final(state).spec_devices() == old(state).spec_devices(),
            publish_post(*old(state), *final(state), self.spec_id(), t),
    {
        state.publish_message(self.id, t);
    }

    /// Withdraws the device from the handlers of each type in `types`. Each type must
    /// have been published by the device, and appear once in `types`.
    pub fn revoke_message_responsibility<TSender>(
        &self,
        state: &mut ActorSystemState<TSender>,
        types: &[MessageTypeKey],
    )
        requires
            old(state).wf(),
            types@.no_duplicates(),
            forall|i: int| 0 <= i < types@.len() ==> #[trigger] old(state).handlers(types@[i]).contains(
                self.spec_id().0,
            ),
        ensures
            final(state).wf(),
            final(state).spec_devices() == old(state).spec_devices(),
            revoke_post(*old(state), *final(state), self.spec_id(), types@),
    {
        state.revoke_message_responsibility(self.id, types);
    }

    /// The device stopped: its message queue is removed from the system.
    pub fn release<TSender>(self, state: &mut ActorSystemState<TSender>)
        requires
            old(state).wf(),
        ensures
            final(state).wf(),
            final(state).spec_devices() == old(state).spec_devices().remove(self.spec_id().0),
            forall|t: MessageTypeKey| #[trigger] final(state).handlers(t) == old(state).handlers(t),
    {
        state.release_device(self.id);
    }
}

/// Publishing a message type for a device that did not handle it yet and then
/// revoking the device's responsibility for it leaves every message type with the
/// handlers it had before.
pub proof fn lemma_revoke_undoes_publish<TSender>(
    s0: ActorSystemState<TSender>,
    s1: ActorSystemState<TSender>,
    s2: ActorSystemState<TSender>,
    id: DeviceId,
    t: MessageTypeKey,
)
    requires
        publish_post(s0, s1, id, t),
        revoke_post(s1, s2, id, seq![t]),
        !s0.handlers(t).contains(id.0),
    ensures
        forall|u: MessageTypeKey| #[trigger] s2.handlers(u) == s0.handlers(u),
{
    assert forall|u: MessageTypeKey| #[trigger] s2.handlers(u) == s0.handlers(u) by {
        assert(s1.handlers(u) == (if u == t {
            s0.handlers(t).insert(id.0)
        } else {
            s0.handlers(u)
        }));
        assert(s2.handlers(u) == (if seq![t].contains(u) {
            s1.handlers(u).remove(id.0)
        } else {
            s1.handlers(u)
        }));
        if u == t {
            assert(seq![t][0] == t);
            assert(s0.handlers(t).insert(id.0).remove(id.0) =~= s0.handlers(t));
        } else {
            assert(!seq![t].contains(u)) by {
                if seq![t].contains(u) {
                    let j = choose|j: int| 0 <= j < 1 && seq![t][j] == u;
                }
            }
        }
    }
}

/// Once the queue of a device is removed, a request for the device is answered with
/// the unknown-device error for its id.
pub proof fn lemma_released_device_is_unknown<TSender>(
    devices: Map<u128, TSender>,
    id: DeviceId,
    details: Seq<char>,
    r: Result<&TSender, ActorErrorUnknownDevice>,
)
    requires
        lookup_outcome(devices.remove(id.0), id, details, r),
    ensures
        r matches Err(ActorErrorUnknownDevice::UnknownDeviceId { device_id, details: d })
            && device_id == id && d@ == details,
{
}

/// A device that publishes a message type becomes one of its handlers, and the
/// handlers of the other message types stay as they were.
pub proof fn lemma_publish_adds_handler<TSender>(
    s0: ActorSystemState<TSender>,
    s1: ActorSystemState<TSender>,
    id: DeviceId,
    t: MessageTypeKey,
)
    requires
        publish_post(s0, s1, id, t),
    ensures
        s1.handlers(t).contains(id.0),
        forall|u: MessageTypeKey| u != t ==> #[trigger] s1.handlers(u) == s0.handlers(u),
{
    assert(s1.handlers(t) == s0.handlers(t).insert(id.0));
}

/// After `forget_senders`, no device has a queue any more: a request for any device
/// is answered with the unknown-device error for its id.
pub proof fn lemma_forgotten_device_is_unknown<TSender>(
    id: DeviceId,
    details: Seq<char>,
    r: Result<&TSender, ActorErrorUnknownDevice>,
)
    requires
        lookup_outcome(Map::<u128, TSender>::empty(), id, details, r),
    ensures
        r matches Err(ActorErrorUnknownDevice::UnknownDeviceId { device_id, details: d })
            && device_id == id && d@ == details,
{
}

} // verus!
