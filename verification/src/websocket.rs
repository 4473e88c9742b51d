use vstd::prelude::*;

use crate::text::json_str;
use crate::text::push_json_str;

verus! {

/// The envelope every outbound event is framed in:
/// `{"route": ..., "message": ..., "data": ...}` where `data` is already a
/// JSON document of its own.
pub open spec fn envelope_json(route: Seq<char>, message: Seq<char>, data: Seq<char>) -> Seq<
    char,
> {
    "{\"route\":"@ + json_str(route) + ",\"message\":"@ + json_str(message) + ",\"data\":"@ + data
        + "}"@
}

/// An addressed outbound event before framing: the logical resource path,
/// a short event verb, and the event's payload as a JSON document.
pub struct ServerMessage {
    pub route: String,
    pub message: String,
    pub data: String,
}

impl ServerMessage {
    /// Builds an envelope; construction never fails.
    pub fn new(route: String, message: String, data: String) -> (r: Self)
        ensures
            r.route@ == route@,
            r.message@ == message@,
            r.data@ == data@,
    {
        ServerMessage { route, message, data }
    }

    /// The complete wire text of the envelope.
    pub fn to_string(&self) -> (r: String)
        ensures
            r@ == envelope_json(self.route@, self.message@, self.data@),
    {
        let mut out = String::new();
        out.append("{\"route\":");
        push_json_str(&mut out, self.route.as_str());
        out.append(",\"message\":");
        push_json_str(&mut out, self.message.as_str());
        out.append(",\"data\":");
        out.append(self.data.as_str());
        out.append("}");
        proof {
            assert(out@ =~= envelope_json(self.route@, self.message@, self.data@));
        }
        out
    }
}

/// The text handed to one live connection.
pub struct WsMessage(pub String);

/// A connection announcing itself to the registry.
pub struct Connect {
    pub addr: u64,
    pub self_id: i32,
}

/// A connection leaving the registry.
pub struct Disconnect {
    pub id: i32,
}

/// One framed message for one user.
pub struct ForwardMessage {
    pub id: i32,
    pub message: String,
}

impl ForwardMessage {
    pub fn new(id: &i32, srv_message: ServerMessage) -> (r: Self)
        ensures
            r.id == *id,
            r.message@ == envelope_json(
                srv_message.route@,
                srv_message.message@,
                srv_message.data@,
            ),
    {
        ForwardMessage { id: *id, message: srv_message.to_string() }
    }

    pub fn get_id(&self) -> (r: &i32)
        ensures
            *r == self.id,
    {
        &self.id
    }

    pub fn get_message(&self) -> (r: &str)
        ensures
            r@ == self.message@,
    {
        self.message.as_str()
    }
}

/// Copies a list of user ids.
fn copy_ids(ids: &Vec<i32>) -> (r: Vec<i32>)
    ensures
        r@ == ids@,
{
    let mut out: Vec<i32> = Vec::new();
    let mut i: usize = 0;
    while i < ids.len()
        invariant
            i <= ids@.len(),
            out@ == ids@.take(i as int),
        decreases ids@.len() - i,
    {
        out.push(ids[i]);
        proof {
            assert(ids@.take(i as int + 1) =~= ids@.take(i as int).push(ids@[i as int]));
        }
        i += 1;
    }
    proof {
        assert(ids@.take(ids@.len() as int) =~= ids@);
    }
    out
}

/// One framed message for a list of users; absent users are skipped.
pub struct MultiForwardMessage {
    pub ids: Vec<i32>,
    pub message: String,
}

impl MultiForwardMessage {
    pub fn new(ids: &Vec<i32>, srv_message: ServerMessage) -> (r: Self)
        ensures
            r.ids@ == ids@,
            r.message@ == envelope_json(
                srv_message.route@,
                srv_message.message@,
                srv_message.data@,
            ),
    {
        MultiForwardMessage { ids: copy_ids(ids), message: srv_message.to_string() }
    }

    pub fn get_ids(&self) -> (r: &Vec<i32>)
        ensures
            r@ == self.ids@,
    {
        &self.ids
    }

    pub fn get_message(&self) -> (r: &str)
        ensures
            r@ == self.message@,
    {
        self.message.as_str()
    }
}

/// One framed message for every registered connection except some users.
pub struct BroadcastExceptMessage {
    pub ids_to_except: Vec<i32>,
    pub message: String,
}

impl BroadcastExceptMessage {
    pub fn new(ids_to_except: &Vec<i32>, srv_message: ServerMessage) -> (r: Self)
        ensures
            r.ids_to_except@ == ids_to_except@,
            r.message@ == envelope_json(
                srv_message.route@,
                srv_message.message@,
                srv_message.data@,
            ),
    {
        BroadcastExceptMessage {
            ids_to_except: copy_ids(ids_to_except),
            message: srv_message.to_string(),
        }
    }

    pub fn get_ids_to_except(&self) -> (r: &Vec<i32>)
        ensures
            r@ == self.ids_to_except@,
    {
        &self.ids_to_except
    }

    pub fn get_message(&self) -> (r: &str)
        ensures
            r@ == self.message@,
    {
        self.message.as_str()
    }
}

/// One write the registry asks the transport to perform: hand `message` to
/// the connection behind `handle`.
pub struct Delivery {
    pub handle: u64,
    pub message: WsMessage,
}

impl View for Delivery {
    type V = (u64, Seq<char>);

    open spec fn view(&self) -> (u64, Seq<char>) {
        (self.handle, self.message.0@)
    }
}

/// The views of a list of deliveries.
pub open spec fn deliveries_view(s: Seq<Delivery>) -> Seq<(u64, Seq<char>)> {
    s.map_values(|d: Delivery| d@)
}

/// Whether a user id is registered in the session list.
pub open spec fn registered(sessions: Seq<(i32, u64)>, id: int) -> bool {
    exists|i: int| 0 <= i < sessions.len() && (#[trigger] sessions[i]).0 == id
}

/// The connection handle registered for a user, if any.
pub open spec fn spec_handle_of(sessions: Seq<(i32, u64)>, id: int) -> Option<u64> {
    if registered(sessions, id) {
        let i = choose|i: int| 0 <= i < sessions.len() && (#[trigger] sessions[i]).0 == id;
        Some(sessions[i].1)
    } else {
        None
    }
}

/// The deliveries of one text to a list of user ids, in list order;
/// unregistered ids are skipped.
pub open spec fn multi_deliveries(
    sessions: Seq<(i32, u64)>,
    ids: Seq<i32>,
    text: Seq<char>,
) -> Seq<(u64, Seq<char>)>
    decreases ids.len(),
{
    if ids.len() == 0 {
        Seq::empty()
    } else {
        multi_deliveries(sessions, ids.drop_last(), text) + match spec_handle_of(
            sessions,
            ids.last() as int,
        ) {
            Some(h) => seq![(h, text)],
            None => Seq::empty(),
        }
    }
}

/// The deliveries of one text to every registered connection whose user id
/// is not excluded, in registry order.
pub open spec fn broadcast_deliveries(
    sessions: Seq<(i32, u64)>,
    except: Seq<i32>,
    text: Seq<char>,
) -> Seq<(u64, Seq<char>)>
    decreases sessions.len(),
{
    if sessions.len() == 0 {
        Seq::empty()
    } else {
        broadcast_deliveries(sessions.drop_last(), except, text) + if !except.contains(
            sessions.last().0,
        ) {
            seq![(sessions.last().1, text)]
        } else {
            Seq::empty()
        }
    }
}

/// The connection registry: the single serialized owner of the map from
/// user id to live connection handle. Reads and writes never run
/// concurrently with each other; callers hand it commands and perform the
/// returned deliveries outside of it.
pub struct Lobby {
    pub sessions: Vec<(i32, u64)>,
}

impl Lobby {
    /// At most one live handle per user.
    pub open spec fn wf(self) -> bool {
        forall|i: int, j: int|
            0 <= i < j < self.sessions@.len() ==> (#[trigger] self.sessions@[i]).0 != (
            #[trigger] self.sessions@[j]).0
    }
}

impl Default for Lobby {
    fn default() -> (r: Lobby)
        ensures
            r.wf(),
            r.sessions@.len() == 0,
    {
        Lobby { sessions: Vec::new() }
    }
}

impl Lobby {
    /// Registers or replaces the handle for a user; the last call wins.
    #[verifier::loop_isolation(false)]
    pub fn handle_connect(&mut self, msg: Connect)
        requires
            old(self).wf(),
        ensures
            final(self).wf(),
            registered(final(self).sessions@, msg.self_id as int),
            spec_handle_of(final(self).sessions@, msg.self_id as int) == Some(msg.addr),
            forall|id: int|
                id != msg.self_id ==> registered(final(self).sessions@, id) == registered(
                    old(self).sessions@,
                    id,
                ),
            forall|id: int|
                id != msg.self_id ==> spec_handle_of(final(self).sessions@, id) == spec_handle_of(
                    old(self).sessions@,
                    id,
                ),
    {
        let n = self.sessions.len();
        match self.find_session_index(msg.self_id) {
            Some(i) => {
                self.sessions[i] = (msg.self_id, msg.addr);
                proof {
                    assert(self.sessions@ =~= old(self).sessions@.update(
                        i as int,
                        (msg.self_id, msg.addr),
                    ));
                    assert forall|a: int, b: int|
                        0 <= a < b < self.sessions@.len() implies (
                    #[trigger] self.sessions@[a]).0 != (#[trigger] self.sessions@[b]).0 by {
                        assert(old(self).sessions@[i as int].0 == msg.self_id);
                        if a != i as int {
                            assert(self.sessions@[a] == old(self).sessions@[a]);
                        }
                        if b != i as int {
                            assert(self.sessions@[b] == old(self).sessions@[b]);
                        }
                    }
                    lemma_lookup(self.sessions@, i as int);
                    assert forall|id: int| id != msg.self_id implies spec_handle_of(
                        self.sessions@,
                        id,
                    ) == spec_handle_of(old(self).sessions@, id) && registered(self.sessions@, id)
                        == registered(old(self).sessions@, id) by {
                        assert forall|w: int|
                            0 <= w < old(self).sessions@.len() && (#[trigger] old(
                                self,
                            ).sessions@[w]).0 == id implies exists|v: int|
                            0 <= v < self.sessions@.len() && (#[trigger] self.sessions@[v]).0 == id
                                && self.sessions@[v].1 == old(self).sessions@[w].1 by {
                            assert(old(self).sessions@[i as int].0 == msg.self_id);
                            assert(w != i as int);
                            assert(self.sessions@[w] == old(self).sessions@[w]);
                        }
                        assert forall|v: int|
                            0 <= v < self.sessions@.len() && (#[trigger] self.sessions@[v]).0 == id
                                implies exists|w: int|
                            0 <= w < old(self).sessions@.len() && (#[trigger] old(
                                self,
                            ).sessions@[w]).0 == id && old(self).sessions@[w].1
                                == self.sessions@[v].1 by {
                            assert(v != i as int);
                            assert(self.sessions@[v] == old(self).sessions@[v]);
                        }
                        lemma_lookup_frame(old(self).sessions@, self.sessions@, id);
                    }
                }
            },
            None => {
                self.sessions.push((msg.self_id, msg.addr));
                proof {
                    assert forall|a: int, b: int|
                        0 <= a < b < self.sessions@.len() implies (
                    #[trigger] self.sessions@[a]).0 != (#[trigger] self.sessions@[b]).0 by {
                        if b < n as int {
                            assert(self.sessions@[a] == old(self).sessions@[a]);
                            assert(self.sessions@[b] == old(self).sessions@[b]);
                        } else {
                            assert(self.sessions@[a] == old(self).sessions@[a]);
                            assert(!registered(old(self).sessions@, msg.self_id as int));
                        }
                    }
                    lemma_lookup(self.sessions@, n as int);
                    assert forall|id: int| id != msg.self_id implies spec_handle_of(
                        self.sessions@,
                        id,
                    ) == spec_handle_of(old(self).sessions@, id) && registered(self.sessions@, id)
                        == registered(old(self).sessions@, id) by {
                        assert forall|w: int|
                            0 <= w < old(self).sessions@.len() && (#[trigger] old(
                                self,
                            ).sessions@[w]).0 == id implies exists|v: int|
                            0 <= v < self.sessions@.len() && (#[trigger] self.sessions@[v]).0 == id
                                && self.sessions@[v].1 == old(self).sessions@[w].1 by {
                            assert(self.sessions@[w] == old(self).sessions@[w]);
                        }
                        assert forall|v: int|
                            0 <= v < self.sessions@.len() && (#[trigger] self.sessions@[v]).0 == id
                                implies exists|w: int|
                            0 <= w < old(self).sessions@.len() && (#[trigger] old(
                                self,
                            ).sessions@[w]).0 == id && old(self).sessions@[w].1
                                == self.sessions@[v].1 by {
                            assert(v != n as int);
                            assert(self.sessions@[v] == old(self).sessions@[v]);
                        }
                        lemma_lookup_frame(old(self).sessions@, self.sessions@, id);
                    }
                }
            },
        }
    }

    /// The index of the session entry for a user.
    fn find_session_index(&self, id: i32) -> (r: Option<usize>)
        ensures
            match r {
                Some(i) => 0 <= i < self.sessions@.len() && self.sessions@[i as int].0 == id,
                None => !registered(self.sessions@, id as int),
            },
    {
        let mut i: usize = 0;
        while i < self.sessions.len()
            invariant
                i <= self.sessions@.len(),
                forall|k: int| 0 <= k < i ==> (#[trigger] self.sessions@[k]).0 != id,
            decreases self.sessions@.len() - i,
        {
            if self.sessions[i].0 == id {
                return Some(i);
            }
            i += 1;
        }
        None
    }

    /// Removes the mapping for a user if present; a no-op otherwise.
    #[verifier::loop_isolation(false)]
    pub fn handle_disconnect(&mut self, msg: Disconnect)
        requires
            old(self).wf(),
        ensures
            final(self).wf(),
            !registered(final(self).sessions@, msg.id as int),
            forall|id: int|
                id != msg.id ==> registered(final(self).sessions@, id) == registered(
                    old(self).sessions@,
                    id,
                ),
            forall|id: int|
                id != msg.id ==> spec_handle_of(final(self).sessions@, id) == spec_handle_of(
                    old(self).sessions@,
                    id,
                ),
    {
        match self.find_session_index(msg.id) {
            Some(i) => {
                self.sessions.remove(i);
                proof {
                    assert forall|a: int, b: int|
                        0 <= a < b < self.sessions@.len() implies (
                    #[trigger] self.sessions@[a]).0 != (#[trigger] self.sessions@[b]).0 by {
                        let oa: int = if a < i as int {
                            a
                        } else {
                            a + 1
                        };
                        let ob: int = if b < i as int {
                            b
                        } else {
                            b + 1
                        };
                        assert(self.sessions@[a] == old(self).sessions@[oa]);
                        assert(self.sessions@[b] == old(self).sessions@[ob]);
                    }
                    assert forall|id: int| registered(self.sessions@, id) implies id != msg.id
                        && registered(old(self).sessions@, id) by {
                        let w = choose|w: int|
                            0 <= w < self.sessions@.len() && (#[trigger] self.sessions@[w]).0 == id;
                        let ow: int = if w < i as int {
                            w
                        } else {
                            w + 1
                        };
                        assert(self.sessions@[w] == old(self).sessions@[ow]);
                        if ow < i as int {
                            assert(old(self).sessions@[ow].0 != old(self).sessions@[i as int].0);
                        } else if ow > i as int {
                            assert(old(self).sessions@[i as int].0 != old(self).sessions@[ow].0);
                        }
                    }
                    assert forall|id: int| id != msg.id implies spec_handle_of(self.sessions@, id)
                        == spec_handle_of(old(self).sessions@, id) && registered(
                        self.sessions@,
                        id,
                    ) == registered(old(self).sessions@, id) by {
                        assert forall|w: int|
                            0 <= w < old(self).sessions@.len() && (#[trigger] old(
                                self,
                            ).sessions@[w]).0 == id implies exists|v: int|
                            0 <= v < self.sessions@.len() && (#[trigger] self.sessions@[v]).0 == id
                                && self.sessions@[v].1 == old(self).sessions@[w].1 by {
                            let nv: int = if w < i as int {
                                w
                            } else {
                                w - 1
                            };
                            assert(w != i as int);
                            assert(self.sessions@[nv] == old(self).sessions@[w]);
                        }
                        lemma_lookup_frame(old(self).sessions@, self.sessions@, id);
                    }
                }
            },
            None => {},
        }
    }

    /// The handle a text for this user would be delivered to.
    #[verifier::loop_isolation(false)]
    pub fn get_handle(&self, id: i32) -> (r: Option<u64>)
        requires
            self.wf(),
        ensures
            r == spec_handle_of(self.sessions@, id as int),
    {
        let mut i: usize = 0;
        while i < self.sessions.len()
            invariant
                i <= self.sessions@.len(),
                forall|k: int| 0 <= k < i ==> (#[trigger] self.sessions@[k]).0 != id,
            decreases self.sessions@.len() - i,
        {
            if self.sessions[i].0 == id {
                proof {
                    lemma_lookup(self.sessions@, i as int);
                }
                return Some(self.sessions[i].1);
            }
            i += 1;
        }
        None
    }

    /// The delivery of a text to one user; none if the user has no live
    /// connection (best-effort, never an error).
    pub fn send_message(&self, message: &str, id_to: &i32) -> (r: Option<Delivery>)
        requires
            self.wf(),
        ensures
            match r {
                None => spec_handle_of(self.sessions@, *id_to as int) is None,
                Some(d) => spec_handle_of(self.sessions@, *id_to as int) == Some(d.handle)
                    && d.message.0@ == message@,
            },
    {
        match self.get_handle(*id_to) {
            Some(h) => Some(Delivery { handle: h, message: WsMessage(String::from_str(message)) }),
            None => None,
        }
    }

    /// The deliveries of a text to each listed user independently; missing
    /// users are skipped.
    #[verifier::loop_isolation(false)]
    pub fn send_many_message(&self, message: &str, ids: &Vec<i32>) -> (r: Vec<Delivery>)
        requires
            self.wf(),
        ensures
            deliveries_view(r@) == multi_deliveries(self.sessions@, ids@, message@),
    {
        let mut out: Vec<Delivery> = Vec::new();
        let mut i: usize = 0;
        proof {
            assert(deliveries_view(Seq::<Delivery>::empty()) =~= multi_deliveries(
                self.sessions@,
                ids@.take(0),
                message@,
            ));
        }
        while i < ids.len()
            invariant
                i <= ids@.len(),
                deliveries_view(out@) == multi_deliveries(
                    self.sessions@,
                    ids@.take(i as int),
                    message@,
                ),
            decreases ids@.len() - i,
        {
            match self.send_message(message, &ids[i]) {
                Some(d) => {
                    out.push(d);
                },
                None => {},
            }
            proof {
                assert(ids@.take(i as int + 1) =~= ids@.take(i as int).push(ids@[i as int]));
                assert(ids@.take(i as int + 1).drop_last() =~= ids@.take(i as int));
                assert(deliveries_view(out@) =~= multi_deliveries(
                    self.sessions@,
                    ids@.take(i as int + 1),
                    message@,
                ));
            }
            i += 1;
        }
        proof {
            assert(ids@.take(ids@.len() as int) =~= ids@);
        }
        out
    }

    /// The deliveries of a text to every registered connection not in the
    /// excluded list, in registry order.
    #[verifier::loop_isolation(false)]
    pub fn send_message_to_all_except(&self, message: &str, ids_to_except: &Vec<i32>) -> (r: Vec<
        Delivery,
    >)
        requires
            self.wf(),
        ensures
            deliveries_view(r@) == broadcast_deliveries(self.sessions@, ids_to_except@, message@),
    {
        let mut out: Vec<Delivery> = Vec::new();
        let mut i: usize = 0;
        proof {
            assert(deliveries_view(Seq::<Delivery>::empty()) =~= broadcast_deliveries(
                self.sessions@.take(0),
                ids_to_except@,
                message@,
            ));
        }
        while i < self.sessions.len()
            invariant
                i <= self.sessions@.len(),
                deliveries_view(out@) == broadcast_deliveries(
                    self.sessions@.take(i as int),
                    ids_to_except@,
                    message@,
                ),
            decreases self.sessions@.len() - i,
        {
            let entry = self.sessions[i];
            if !contains_id(ids_to_except, entry.0) {
                out.push(Delivery { handle: entry.1, message: WsMessage(String::from_str(message)) });
            }
            proof {
                assert(self.sessions@.take(i as int + 1) =~= self.sessions@.take(i as int).push(
                    self.sessions@[i as int],
                ));
                assert(self.sessions@.take(i as int + 1).drop_last() =~= self.sessions@.take(
                    i as int,
                ));
                assert(deliveries_view(out@) =~= broadcast_deliveries(
                    self.sessions@.take(i as int + 1),
                    ids_to_except@,
                    message@,
                ));
            }
            i += 1;
        }
        proof {
            assert(self.sessions@.take(self.sessions@.len() as int) =~= self.sessions@);
        }
        out
    }

    /// Processes a forward command: at most one delivery.
    pub fn handle_forward_message(&self, msg: &ForwardMessage) -> (r: Option<Delivery>)
        requires
            self.wf(),
        ensures
            match r {
                None => spec_handle_of(self.sessions@, msg.id as int) is None,
                Some(d) => spec_handle_of(self.sessions@, msg.id as int) == Some(d.handle)
                    && d.message.0@ == msg.message@,
            },
    {
        self.send_message(msg.message.as_str(), &msg.id)
    }

    /// Processes a multi-forward command.
    pub fn handle_multi_forward_message(&self, msg: &MultiForwardMessage) -> (r: Vec<Delivery>)
        requires
            self.wf(),
        ensures
            deliveries_view(r@) == multi_deliveries(self.sessions@, msg.ids@, msg.message@),
    {
        self.send_many_message(msg.message.as_str(), &msg.ids)
    }

    /// Processes a broadcast-except command.
    pub fn handle_broadcast_except_message(&self, msg: &BroadcastExceptMessage) -> (r: Vec<
        Delivery,
    >)
        requires
            self.wf(),
        ensures
            deliveries_view(r@) == broadcast_deliveries(
                self.sessions@,
                msg.ids_to_except@,
                msg.message@,
            ),
    {
        self.send_message_to_all_except(msg.message.as_str(), &msg.ids_to_except)
    }
}

/// Whether a list of user ids contains one id.
fn contains_id(ids: &Vec<i32>, id: i32) -> (r: bool)
    ensures
        r == ids@.contains(id),
{
    let mut i: usize = 0;
    while i < ids.len()
        invariant
            i <= ids@.len(),
            forall|k: int| 0 <= k < i ==> ids@[k] != id,
        decreases ids@.len() - i,
    {
        if ids[i] == id {
            return true;
        }
        i += 1;
    }
    false
}

/// In a duplicate-free session list, the handle looked up for the user at
/// one index is that index's handle.
proof fn lemma_lookup(sessions: Seq<(i32, u64)>, i: int)
    requires
        0 <= i < sessions.len(),
        forall|a: int, b: int|
            0 <= a < b < sessions.len() ==> (#[trigger] sessions[a]).0 != (
            #[trigger] sessions[b]).0,
    ensures
        spec_handle_of(sessions, sessions[i].0 as int) == Some(sessions[i].1),
{
    let id = sessions[i].0 as int;
    assert(registered(sessions, id));
    let w = choose|w: int| 0 <= w < sessions.len() && (#[trigger] sessions[w]).0 == id;
    if w != i {
        if w < i {
            assert(sessions[w].0 != sessions[i].0);
        } else {
            assert(sessions[i].0 != sessions[w].0);
        }
    }
}

/// Two session lists that register an id with the same witnesses look the
/// same to that id's lookup; stated via mutual registration transfer.
proof fn lemma_lookup_frame(a: Seq<(i32, u64)>, b: Seq<(i32, u64)>, id: int)
    requires
        forall|w: int|
            0 <= w < a.len() && (#[trigger] a[w]).0 == id ==> exists|v: int|
                0 <= v < b.len() && (#[trigger] b[v]).0 == id && b[v].1 == a[w].1,
        forall|w: int|
            0 <= w < b.len() && (#[trigger] b[w]).0 == id ==> exists|v: int|
                0 <= v < a.len() && (#[trigger] a[v]).0 == id && a[v].1 == b[w].1,
        forall|x: int, y: int|
            0 <= x < y < a.len() ==> (#[trigger] a[x]).0 != (#[trigger] a[y]).0,
        forall|x: int, y: int|
            0 <= x < y < b.len() ==> (#[trigger] b[x]).0 != (#[trigger] b[y]).0,
    ensures
        registered(a, id) == registered(b, id),
        spec_handle_of(a, id) == spec_handle_of(b, id),
{
    if registered(a, id) {
        let w = choose|w: int| 0 <= w < a.len() && (#[trigger] a[w]).0 == id;
        assert(exists|v: int| 0 <= v < b.len() && (#[trigger] b[v]).0 == id && b[v].1 == a[w].1);
        let v = choose|v: int| 0 <= v < b.len() && (#[trigger] b[v]).0 == id && b[v].1 == a[w].1;
        lemma_lookup(a, w);
        lemma_lookup(b, v);
    } else if registered(b, id) {
        let w = choose|w: int| 0 <= w < b.len() && (#[trigger] b[w]).0 == id;
        assert(exists|v: int| 0 <= v < a.len() && (#[trigger] a[v]).0 == id && a[v].1 == b[w].1);
    }
}

} // verus!
