//! Registry of live sessions. Each session record carries its outbound
//! queue; broadcasts append to the queues and the transport writer drains
//! them in order.
use vstd::prelude::*;
use crate::audio::{AudioFormat, Codec};
use crate::messages::{Message, PlayerCommand, ServerCommand, StreamClear, StreamEnd};
use crate::text::{is_prefix, starts_with, str_eq};
use std::sync::Arc;

verus! {

/// One outbound frame for a client.
#[derive(Debug, Clone)]
pub enum ServerMessage {
    /// A control message, sent as a JSON text frame; one message may be
    /// shared by many queues.
    Text(Arc<Message>),
    /// A pre-framed binary audio chunk.
    Binary(Vec<u8>),
}

/// A role name of the player family (`player@...`).
pub open spec fn is_player_role(r: Seq<char>) -> bool {
    is_prefix("player@"@, r)
}

/// Some role of the list is of the player family.
pub open spec fn has_player_role(roles: Seq<String>) -> bool {
    exists|i: int| 0 <= i < roles.len() && is_player_role(#[trigger] roles[i]@)
}

/// The control message a frame carries, if it is a text frame.
pub open spec fn text_of(m: ServerMessage) -> Option<Message> {
    match m {
        ServerMessage::Text(a) => Some(*a),
        ServerMessage::Binary(_) => None,
    }
}

/// The frame is a server/hello message.
pub open spec fn is_server_hello(m: ServerMessage) -> bool {
    text_of(m) matches Some(Message::ServerHello(_))
}

/// The frame is a stream/start message.
pub open spec fn is_stream_start(m: ServerMessage) -> bool {
    text_of(m) matches Some(Message::StreamStart(_))
}

/// The frame is a binary frame holding exactly `bytes`.
pub open spec fn is_binary_of(m: ServerMessage, bytes: Seq<u8>) -> bool {
    m matches ServerMessage::Binary(b) && b@ == bytes
}

/// A connected client.
pub struct ConnectedClient {
    /// Unique client identifier.
    pub client_id: String,
    /// Human-readable client name.
    pub name: String,
    /// Active roles for this client (e.g. "player@v1").
    pub active_roles: Vec<String>,
    /// Negotiated audio format for the player role.
    pub audio_format: Option<AudioFormat>,
    /// Group this client belongs to.
    pub group_id: Option<String>,
    /// Client's current volume (0-100).
    pub volume: u8,
    /// Whether the client is muted.
    pub muted: bool,
    /// Buffer capacity in bytes.
    pub buffer_capacity: u32,
    /// Frames queued for the transport writer, oldest first.
    pub pending: Vec<ServerMessage>,
    /// Frames already handed to the transport writer.
    pub delivered: Ghost<Seq<ServerMessage>>,
}

impl ConnectedClient {
    /// Frames queued and not yet handed to the transport.
    pub open spec fn spec_pending(&self) -> Seq<ServerMessage> {
        self.pending@
    }

    /// Frames already handed to the transport, in order.
    pub open spec fn spec_delivered(&self) -> Seq<ServerMessage> {
        self.delivered@
    }

    /// Every frame ever queued for this client, in order.
    pub open spec fn outbound(&self) -> Seq<ServerMessage> {
        self.spec_delivered() + self.spec_pending()
    }

    /// Everything but the volume, mute, format and queue is the same.
    pub open spec fn same_identity(&self, o: &ConnectedClient) -> bool {
        &&& self.client_id@ == o.client_id@
        &&& self.name@ == o.name@
        &&& self.active_roles@ == o.active_roles@
        &&& self.group_id == o.group_id
        &&& self.buffer_capacity == o.buffer_capacity
    }

    /// Everything but the queue is the same.
    pub open spec fn same_record(&self, o: &ConnectedClient) -> bool {
        &&& self.same_identity(o)
        &&& self.audio_format == o.audio_format
        &&& self.volume == o.volume
        &&& self.muted == o.muted
    }

    /// The queue history opens as a session must: server/hello first and
    /// never again, and, for a player, stream/start second.
    pub open spec fn opens_properly(&self) -> bool {
        &&& self.outbound().len() >= 1
        &&& is_server_hello(self.outbound()[0])
        &&& forall|i: int| 1 <= i < self.outbound().len() ==> !is_server_hello(#[trigger] self.outbound()[i])
        &&& has_player_role(self.active_roles@) ==> self.outbound().len() >= 2 && is_stream_start(self.outbound()[1])
    }

    /// Create a client record with no roles, full volume and an empty queue.
    pub fn new(client_id: String, name: String) -> (r: Self)
        ensures
            r.client_id@ == client_id@,
            r.name@ == name@,
            r.active_roles@.len() == 0,
            r.audio_format is None,
            r.group_id is None,
            r.volume == 100,
            !r.muted,
            r.buffer_capacity == 0,
            r.outbound().len() == 0,
            r.spec_pending().len() == 0,
    {
        ConnectedClient {
            client_id,
            name,
            active_roles: Vec::new(),
            audio_format: None,
            group_id: None,
            volume: 100,
            muted: false,
            buffer_capacity: 0,
            pending: Vec::new(),
            delivered: Ghost(Seq::empty()),
        }
    }

    /// Whether the client has a player role.
    pub fn is_player(&self) -> (r: bool)
        ensures
            r == has_player_role(self.active_roles@),
    {
        let n = self.active_roles.len();
        let mut i: usize = 0;
        while i < n
            invariant
                n == self.active_roles@.len(),
                i <= n,
                forall|k: int| 0 <= k < i ==> !is_player_role(#[trigger] self.active_roles@[k]@),
            decreases n - i,
        {
            if starts_with(self.active_roles[i].as_str(), "player@") {
                return true;
            }
            i = i + 1;
        }
        false
    }

    /// Queue a frame for this client.
    pub fn send(&mut self, msg: ServerMessage)
        ensures
            final(self).same_record(old(self)),
            final(self).outbound() == old(self).outbound().push(msg),
            final(self).spec_delivered() == old(self).spec_delivered(),
    {
        self.pending.push(msg);
        assert(self.outbound() =~= old(self).outbound().push(msg));
    }

    /// Hand every queued frame to the caller, in queue order.
    pub fn take_pending(&mut self) -> (r: Vec<ServerMessage>)
        ensures
            final(self).same_record(old(self)),
            r@ == old(self).spec_pending(),
            final(self).spec_pending().len() == 0,
            final(self).spec_delivered() == old(self).spec_delivered() + r@,
            final(self).outbound() == old(self).outbound(),
    {
        let mut out: Vec<ServerMessage> = Vec::new();
        std::mem::swap(&mut out, &mut self.pending);
        self.delivered = Ghost(self.delivered@ + out@);
        assert(self.outbound() =~= old(self).outbound());
        out
    }
}

/// The character views of a list of strings.
pub open spec fn strings_view(v: Seq<String>) -> Seq<Seq<char>> {
    v.map_values(|x: String| x@)
}

/// The character views of an optional role list.
pub open spec fn roles_view(r: Option<Vec<String>>) -> Option<Seq<Seq<char>>> {
    match r {
        Some(v) => Some(strings_view(v@)),
        None => None,
    }
}

/// The frame is a stream/clear message for these roles.
pub open spec fn is_stream_clear_of(m: ServerMessage, roles: Option<Seq<Seq<char>>>) -> bool {
    text_of(m) matches Some(Message::StreamClear(sc)) && roles_view(sc.roles) == roles
}

/// The frame is a stream/end message for these roles.
pub open spec fn is_stream_end_of(m: ServerMessage, roles: Option<Seq<Seq<char>>>) -> bool {
    text_of(m) matches Some(Message::StreamEnd(se)) && roles_view(se.roles) == roles
}

/// The frame is a server/command carrying this player command.
pub open spec fn is_player_command_of(m: ServerMessage, command: Seq<char>, volume: Option<u8>, mute: Option<bool>) -> bool {
    &&& text_of(m) matches Some(Message::ServerCommand(sc))
    &&& sc.player matches Some(p)
    &&& p.command@ == command
    &&& p.volume == volume
    &&& p.mute == mute
}

/// Two formats agree on every field, the codec header by content.
pub open spec fn same_format(a: AudioFormat, b: AudioFormat) -> bool {
    &&& a.codec == b.codec
    &&& a.sample_rate == b.sample_rate
    &&& a.channels == b.channels
    &&& a.bit_depth == b.bit_depth
    &&& match (a.codec_header, b.codec_header) {
        (Some(x), Some(y)) => x@ == y@,
        (None, None) => true,
        _ => false,
    }
}

/// `n` is `o` with one more frame, `m`, queued.
pub open spec fn queued_one(o: ConnectedClient, n: ConnectedClient) -> bool {
    &&& n.same_record(&o)
    &&& n.outbound().len() == o.outbound().len() + 1
    &&& n.outbound().drop_last() == o.outbound()
}

/// A copy of a string list.
pub fn copy_strings(v: &Vec<String>) -> (r: Vec<String>)
    ensures
        r@ == v@,
{
    let mut out: Vec<String> = Vec::new();
    let mut i: usize = 0;
    while i < v.len()
        invariant
            i <= v@.len(),
            out@ == v@.subrange(0, i as int),
        decreases v@.len() - i,
    {
        out.push(v[i].clone());
        assert(out@ =~= v@.subrange(0, i + 1));
        i = i + 1;
    }
    assert(out@ =~= v@);
    out
}

fn copy_roles(r: &Option<Vec<String>>) -> (o: Option<Vec<String>>)
    ensures
        roles_view(o) == roles_view(*r),
{
    match r {
        Some(v) => {
            let c = copy_strings(v);
            Some(c)
        },
        None => None,
    }
}

/// A field-by-field copy of an audio format.
pub fn copy_format(f: &AudioFormat) -> (r: AudioFormat)
    ensures
        same_format(r, *f),
{
    let header = match &f.codec_header {
        Some(h) => Some(vstd::slice::slice_to_vec(h.as_slice())),
        None => None,
    };
    AudioFormat {
        codec: f.codec,
        sample_rate: f.sample_rate,
        channels: f.channels,
        bit_depth: f.bit_depth,
        codec_header: header,
    }
}

/// What a fan-out queues for each recipient.
enum Outgoing<'a> {
    Audio(&'a [u8]),
    Any(&'a Arc<Message>),
    Clear(&'a Option<Vec<String>>),
    End(&'a Option<Vec<String>>),
    Command(&'a str, Option<u8>, Option<bool>),
}

spec fn fits(o: Outgoing, m: ServerMessage) -> bool {
    match o {
        Outgoing::Audio(b) => is_binary_of(m, b@),
        Outgoing::Any(a) => text_of(m) == Some(**a),
        Outgoing::Clear(r) => is_stream_clear_of(m, roles_view(*r)),
        Outgoing::End(r) => is_stream_end_of(m, roles_view(*r)),
        Outgoing::Command(c, v, mu) => is_player_command_of(m, c@, v, mu),
    }
}

fn build(o: &Outgoing) -> (m: ServerMessage)
    ensures
        fits(*o, m),
{
    match o {
        Outgoing::Audio(b) => ServerMessage::Binary(vstd::slice::slice_to_vec(b)),
        Outgoing::Any(msg) => ServerMessage::Text((*msg).clone()),
        Outgoing::Clear(r) => ServerMessage::Text(Arc::new(Message::StreamClear(StreamClear { roles: copy_roles(r) }))),
        Outgoing::End(r) => ServerMessage::Text(Arc::new(Message::StreamEnd(StreamEnd { roles: copy_roles(r) }))),
        Outgoing::Command(c, v, mu) => player_command(c, *v, *mu),
    }
}

fn player_command(command: &str, volume: Option<u8>, mute: Option<bool>) -> (m: ServerMessage)
    ensures
        is_player_command_of(m, command@, volume, mute),
{
    ServerMessage::Text(Arc::new(Message::ServerCommand(ServerCommand {
        player: Some(PlayerCommand { command: command.to_string(), volume, mute }),
    })))
}

/// Client `i` of `cs` has id `id`.
pub open spec fn client_at(cs: Seq<ConnectedClient>, id: Seq<char>, i: int) -> bool {
    0 <= i < cs.len() && cs[i].client_id@ == id
}

/// Some client of `cs` has id `id`.
pub open spec fn has_client(cs: Seq<ConnectedClient>, id: Seq<char>) -> bool {
    exists|i: int| #[trigger] client_at(cs, id, i)
}

/// No two clients share an id.
pub open spec fn distinct_clients(cs: Seq<ConnectedClient>) -> bool {
    forall|i: int, j: int| 0 <= i < j < cs.len() ==> (#[trigger] cs[i]).client_id@ != (#[trigger] cs[j]).client_id@
}

/// Manages all connected clients.
pub struct ClientManager {
    clients: Vec<ConnectedClient>,
}

impl ClientManager {
    /// The client records, in registry order.
    pub closed spec fn spec_clients(&self) -> Seq<ConnectedClient> {
        self.clients@
    }

    /// The registry invariant: ids are distinct and every queue history
    /// opens properly.
    pub open spec fn wf(&self) -> bool {
        &&& distinct_clients(self.spec_clients())
        &&& forall|i: int| 0 <= i < self.spec_clients().len() ==> (#[trigger] self.spec_clients()[i]).opens_properly()
    }

    /// Create an empty registry.
    pub fn new() -> (r: Self)
        ensures
            r.wf(),
            r.spec_clients().len() == 0,
    {
        ClientManager { clients: Vec::new() }
    }

    fn find_client(&self, client_id: &str) -> (r: Option<usize>)
        requires
            distinct_clients(self.spec_clients()),
        ensures
            r matches Some(k) ==> client_at(self.spec_clients(), client_id@, k as int),
            r matches Some(k) ==> forall|i: int| #[trigger] client_at(self.spec_clients(), client_id@, i) ==> i == k,
            r is None ==> !has_client(self.spec_clients(), client_id@),
            r is None ==> forall|i: int| 0 <= i < self.spec_clients().len() ==> (#[trigger] self.spec_clients()[i]).client_id@ != client_id@,
    {
        let n = self.clients.len();
        let mut i: usize = 0;
        while i < n
            invariant
                n == self.clients@.len(),
                i <= n,
                distinct_clients(self.clients@),
                forall|k: int| 0 <= k < i ==> (#[trigger] self.clients@[k]).client_id@ != client_id@,
            decreases n - i,
        {
            if str_eq(self.clients[i].client_id.as_str(), client_id) {
                proof {
                    assert forall|j: int| #[trigger] client_at(self.clients@, client_id@, j) implies j == i by {
                        if j != i {
                            if j < i {
                                assert(self.clients@[j].client_id@ != self.clients@[i as int].client_id@);
                            } else {
                                assert(self.clients@[i as int].client_id@ != self.clients@[j].client_id@);
                            }
                        }
                    }
                }
                return Some(i);
            }
            i = i + 1;
        }
        None
    }

    /// The number of connected clients.
    pub fn client_count(&self) -> (r: usize)
        ensures
            r == self.spec_clients().len(),
    {
        self.clients.len()
    }

    /// Add a client; a client already registered under the same id is
    /// replaced.
    pub fn add_client(&mut self, client: ConnectedClient)
        requires
            old(self).wf(),
            client.opens_properly(),
        ensures
            final(self).wf(),
            has_client(final(self).spec_clients(), client.client_id@),
            has_client(old(self).spec_clients(), client.client_id@) ==> exists|k: int| #[trigger] client_at(old(self).spec_clients(), client.client_id@, k)
                && final(self).spec_clients() == old(self).spec_clients().update(k, client),
            !has_client(old(self).spec_clients(), client.client_id@) ==> final(self).spec_clients() == old(self).spec_clients().push(client),
    {
        let ghost c = client;
        match self.find_client(client.client_id.as_str()) {
            Some(k) => {
                self.clients.set(k, client);
                proof {
                    let cs = self.clients@;
                    let os = old(self).clients@;
                    assert(client_at(os, c.client_id@, k as int));
                    assert(client_at(cs, c.client_id@, k as int));
                    assert forall|a: int, b: int| 0 <= a < b < cs.len() implies (#[trigger] cs[a]).client_id@ != (#[trigger] cs[b]).client_id@ by {
                        assert(os[a].client_id@ != os[b].client_id@);
                    }
                }
            },
            None => {
                self.clients.push(client);
                proof {
                    let cs = self.clients@;
                    let os = old(self).clients@;
                    assert(client_at(cs, c.client_id@, os.len() as int));
                    assert forall|a: int, b: int| 0 <= a < b < cs.len() implies (#[trigger] cs[a]).client_id@ != (#[trigger] cs[b]).client_id@ by {
                        if b < os.len() {
                            assert(os[a].client_id@ != os[b].client_id@);
                        }
                    }
                }
            },
        }
    }

    /// Remove a client; removing an absent client changes nothing.
    pub fn remove_client(&mut self, client_id: &str) -> (r: Option<ConnectedClient>)
        requires
            old(self).wf(),
        ensures
            final(self).wf(),
            r is Some <==> has_client(old(self).spec_clients(), client_id@),
            !has_client(final(self).spec_clients(), client_id@),
            r is None ==> final(self).spec_clients() == old(self).spec_clients(),
            r matches Some(c) ==> exists|k: int| #[trigger] client_at(old(self).spec_clients(), client_id@, k)
                && c == old(self).spec_clients()[k]
                && final(self).spec_clients() == old(self).spec_clients().remove(k),
    {
        match self.find_client(client_id) {
            Some(k) => {
                let c = self.clients.remove(k);
                proof {
                    let cs = self.clients@;
                    let os = old(self).clients@;
                    assert(cs == os.remove(k as int));
                    assert forall|a: int, b: int| 0 <= a < b < cs.len() implies (#[trigger] cs[a]).client_id@ != (#[trigger] cs[b]).client_id@ by {
                        let a2 = if a < k { a } else { a + 1 };
                        let b2 = if b < k { b } else { b + 1 };
                        assert(cs[a] == os[a2] && cs[b] == os[b2]);
                        assert(os[a2].client_id@ != os[b2].client_id@);
                    }
                    assert forall|i: int| 0 <= i < cs.len() implies (#[trigger] cs[i]).opens_properly() by {
                        let i2 = if i < k { i } else { i + 1 };
                        assert(cs[i] == os[i2]);
                    }
                    assert forall|i: int| !#[trigger] client_at(cs, client_id@, i) by {
                        if 0 <= i < cs.len() {
                            let i2 = if i < k { i } else { i + 1 };
                            assert(cs[i] == os[i2]);
                            assert(!client_at(os, client_id@, i2) || i2 == k);
                        }
                    }
                    assert(client_at(os, client_id@, k as int));
                }
                Some(c)
            },
            None => None,
        }
    }

    fn set_volume_at(&mut self, k: usize, volume: u8, muted: bool)
        requires
            old(self).wf(),
            k < old(self).spec_clients().len(),
        ensures
            final(self).wf(),
            final(self).spec_clients().len() == old(self).spec_clients().len(),
            forall|i: int| 0 <= i < old(self).spec_clients().len() && i != k ==> #[trigger] final(self).spec_clients()[i] == old(self).spec_clients()[i],
            final(self).spec_clients()[k as int].same_identity(&old(self).spec_clients()[k as int]),
            final(self).spec_clients()[k as int].outbound() == old(self).spec_clients()[k as int].outbound(),
            final(self).spec_clients()[k as int].spec_pending() == old(self).spec_clients()[k as int].spec_pending(),
            final(self).spec_clients()[k as int].audio_format == old(self).spec_clients()[k as int].audio_format,
            final(self).spec_clients()[k as int].volume == volume,
            final(self).spec_clients()[k as int].muted == muted,
    {
        let ghost os = self.clients@;
        let c = &mut self.clients[k];
        c.volume = volume;
        c.muted = muted;
        proof {
            let cs = self.clients@;
            assert forall|a: int, b: int| 0 <= a < b < cs.len() implies (#[trigger] cs[a]).client_id@ != (#[trigger] cs[b]).client_id@ by {
                assert(os[a].client_id@ != os[b].client_id@);
            }
            assert(cs[k as int].outbound() == os[k as int].outbound());
        }
    }

    fn set_format_at(&mut self, k: usize, format: AudioFormat)
        requires
            old(self).wf(),
            k < old(self).spec_clients().len(),
        ensures
            final(self).wf(),
            final(self).spec_clients().len() == old(self).spec_clients().len(),
            forall|i: int| 0 <= i < old(self).spec_clients().len() && i != k ==> #[trigger] final(self).spec_clients()[i] == old(self).spec_clients()[i],
            final(self).spec_clients()[k as int].same_identity(&old(self).spec_clients()[k as int]),
            final(self).spec_clients()[k as int].outbound() == old(self).spec_clients()[k as int].outbound(),
            final(self).spec_clients()[k as int].spec_pending() == old(self).spec_clients()[k as int].spec_pending(),
            final(self).spec_clients()[k as int].audio_format == Some(format),
            final(self).spec_clients()[k as int].volume == old(self).spec_clients()[k as int].volume,
            final(self).spec_clients()[k as int].muted == old(self).spec_clients()[k as int].muted,
    {
        let ghost os = self.clients@;
        let c = &mut self.clients[k];
        c.audio_format = Some(format);
        proof {
            let cs = self.clients@;
            assert forall|a: int, b: int| 0 <= a < b < cs.len() implies (#[trigger] cs[a]).client_id@ != (#[trigger] cs[b]).client_id@ by {
                assert(os[a].client_id@ != os[b].client_id@);
            }
            assert(cs[k as int].outbound() == os[k as int].outbound());
        }
    }

    /// Update a client's volume and mute state; an absent id is ignored.
    pub fn update_volume(&mut self, client_id: &str, volume: u8, muted: bool)
        requires
            old(self).wf(),
        ensures
            final(self).wf(),
            final(self).spec_clients().len() == old(self).spec_clients().len(),
            forall|i: int| 0 <= i < old(self).spec_clients().len() ==> {
                let o = old(self).spec_clients()[i];
                let n = #[trigger] final(self).spec_clients()[i];
                if o.client_id@ == client_id@ {
                    &&& n.same_identity(&o)
                    &&& n.outbound() == o.outbound()
                    &&& n.audio_format == o.audio_format
                    &&& n.volume == volume
                    &&& n.muted == muted
                } else {
                    n == o
                }
            },
    {
        if let Some(k) = self.find_client(client_id) {
            self.set_volume_at(k, volume, muted);
        }
    }

    /// Update a client's audio format; an absent id is ignored.
    pub fn update_audio_format(&mut self, client_id: &str, format: AudioFormat)
        requires
            old(self).wf(),
        ensures
            final(self).wf(),
            final(self).spec_clients().len() == old(self).spec_clients().len(),
            forall|i: int| 0 <= i < old(self).spec_clients().len() ==> {
                let o = old(self).spec_clients()[i];
                let n = #[trigger] final(self).spec_clients()[i];
                if o.client_id@ == client_id@ {
                    &&& n.same_identity(&o)
                    &&& n.outbound() == o.outbound()
                    &&& n.audio_format == Some(format)
                    &&& n.volume == o.volume
                    &&& n.muted == o.muted
                } else {
                    n == o
                }
            },
    {
        if let Some(k) = self.find_client(client_id) {
            self.set_format_at(k, format);
        }
    }

    fn fan_out(&mut self, o: &Outgoing, players_only: bool)
        requires
            old(self).wf(),
            o matches Outgoing::Any(a) ==> !(text_of(ServerMessage::Text(**a)) matches Some(Message::ServerHello(_))),
        ensures
            final(self).wf(),
            final(self).spec_clients().len() == old(self).spec_clients().len(),
            forall|i: int| 0 <= i < old(self).spec_clients().len() ==> {
                let oc = old(self).spec_clients()[i];
                let nc = #[trigger] final(self).spec_clients()[i];
                if !players_only || has_player_role(oc.active_roles@) {
                    queued_one(oc, nc) && fits(*o, nc.outbound().last())
                } else {
                    nc == oc
                }
            },
    {
        let n = self.clients.len();
        let mut i: usize = 0;
        while i < n
            invariant
                n == self.clients@.len(),
                n == old(self).clients@.len(),
                i <= n,
                old(self).wf(),
                forall|k: int| i <= k < n ==> #[trigger] self.clients@[k] == old(self).clients@[k],
                forall|k: int| 0 <= k < i ==> {
                    let oc = old(self).clients@[k];
                    let nc = #[trigger] self.clients@[k];
                    if !players_only || has_player_role(oc.active_roles@) {
                        queued_one(oc, nc) && fits(*o, nc.outbound().last())
                    } else {
                        nc == oc
                    }
                },
            decreases n - i,
        {
            if !players_only || self.clients[i].is_player() {
                let m = build(o);
                self.clients[i].send(m);
                assert(self.clients@[i as int].outbound().drop_last() =~= old(self).clients@[i as int].outbound());
            }
            i = i + 1;
        }
        proof {
            let cs = self.clients@;
            let os = old(self).clients@;
            assert forall|a: int, b: int| 0 <= a < b < cs.len() implies (#[trigger] cs[a]).client_id@ != (#[trigger] cs[b]).client_id@ by {
                assert(os[a].client_id@ != os[b].client_id@);
            }
            assert forall|k: int| 0 <= k < cs.len() implies (#[trigger] cs[k]).opens_properly() by {
                assert(os[k].opens_properly());
                if cs[k] != os[k] {
                    assert(cs[k].outbound()[0] == os[k].outbound()[0]);
                    if has_player_role(os[k].active_roles@) {
                        assert(cs[k].outbound()[1] == os[k].outbound()[1]);
                    }
                    assert forall|j: int| 1 <= j < cs[k].outbound().len() implies !is_server_hello(#[trigger] cs[k].outbound()[j]) by {
                        if j < os[k].outbound().len() {
                            assert(cs[k].outbound()[j] == os[k].outbound()[j]);
                        }
                    }
                }
            }
        }
    }

    /// Queue a binary audio frame for every player client.
    pub fn broadcast_audio(&mut self, message: &[u8])
        requires
            old(self).wf(),
        ensures
            final(self).wf(),
            final(self).spec_clients().len() == old(self).spec_clients().len(),
            forall|i: int| 0 <= i < old(self).spec_clients().len() ==> {
                let oc = old(self).spec_clients()[i];
                let nc = #[trigger] final(self).spec_clients()[i];
                if has_player_role(oc.active_roles@) {
                    queued_one(oc, nc) && is_binary_of(nc.outbound().last(), message@)
                } else {
                    nc == oc
                }
            },
    {
        self.fan_out(&Outgoing::Audio(message), true);
    }

    /// Queue a control message for every client, one shared copy for all.
    /// A server/hello is never broadcast: each session sends its own, once.
    pub fn broadcast_text(&mut self, message: Message)
        requires
            old(self).wf(),
            !(message is ServerHello),
        ensures
            final(self).wf(),
            final(self).spec_clients().len() == old(self).spec_clients().len(),
            forall|i: int| 0 <= i < old(self).spec_clients().len() ==> {
                let oc = old(self).spec_clients()[i];
                let nc = #[trigger] final(self).spec_clients()[i];
                queued_one(oc, nc) && text_of(nc.outbound().last()) == Some(message)
            },
    {
        let shared = Arc::new(message);
        self.fan_out(&Outgoing::Any(&shared), false);
    }

    /// Queue stream/clear for every player client.
    pub fn broadcast_stream_clear(&mut self, roles: Option<Vec<String>>)
        requires
            old(self).wf(),
        ensures
            final(self).wf(),
            final(self).spec_clients().len() == old(self).spec_clients().len(),
            forall|i: int| 0 <= i < old(self).spec_clients().len() ==> {
                let oc = old(self).spec_clients()[i];
                let nc = #[trigger] final(self).spec_clients()[i];
                if has_player_role(oc.active_roles@) {
                    queued_one(oc, nc) && is_stream_clear_of(nc.outbound().last(), roles_view(roles))
                } else {
                    nc == oc
                }
            },
    {
        self.fan_out(&Outgoing::Clear(&roles), true);
    }

    /// Queue stream/end for every player client.
    pub fn broadcast_stream_end(&mut self, roles: Option<Vec<String>>)
        requires
            old(self).wf(),
        ensures
            final(self).wf(),
            final(self).spec_clients().len() == old(self).spec_clients().len(),
            forall|i: int| 0 <= i < old(self).spec_clients().len() ==> {
                let oc = old(self).spec_clients()[i];
                let nc = #[trigger] final(self).spec_clients()[i];
                if has_player_role(oc.active_roles@) {
                    queued_one(oc, nc) && is_stream_end_of(nc.outbound().last(), roles_view(roles))
                } else {
                    nc == oc
                }
            },
    {
        self.fan_out(&Outgoing::End(&roles), true);
    }

    /// Queue a server/command with a player command for every player client.
    pub fn broadcast_player_command(&mut self, command: &str, volume: Option<u8>, mute: Option<bool>)
        requires
            old(self).wf(),
        ensures
            final(self).wf(),
            final(self).spec_clients().len() == old(self).spec_clients().len(),
            forall|i: int| 0 <= i < old(self).spec_clients().len() ==> {
                let oc = old(self).spec_clients()[i];
                let nc = #[trigger] final(self).spec_clients()[i];
                if has_player_role(oc.active_roles@) {
                    queued_one(oc, nc) && is_player_command_of(nc.outbound().last(), command@, volume, mute)
                } else {
                    nc == oc
                }
            },
    {
        self.fan_out(&Outgoing::Command(command, volume, mute), true);
    }

    /// Queue a frame for one client; false when the id is not registered.
    fn send_frame(&mut self, client_id: &str, frame: ServerMessage) -> (r: bool)
        requires
            old(self).wf(),
            !is_server_hello(frame),
        ensures
            final(self).wf(),
            r == has_client(old(self).spec_clients(), client_id@),
            final(self).spec_clients().len() == old(self).spec_clients().len(),
            forall|i: int| 0 <= i < old(self).spec_clients().len() ==> {
                let oc = old(self).spec_clients()[i];
                let nc = #[trigger] final(self).spec_clients()[i];
                if oc.client_id@ == client_id@ {
                    nc.same_record(&oc) && nc.outbound() == oc.outbound().push(frame)
                } else {
                    nc == oc
                }
            },
    {
        match self.find_client(client_id) {
            Some(k) => {
                let ghost os = self.clients@;
                self.clients[k].send(frame);
                proof {
                    let cs = self.clients@;
                    assert forall|a: int, b: int| 0 <= a < b < cs.len() implies (#[trigger] cs[a]).client_id@ != (#[trigger] cs[b]).client_id@ by {
                        assert(os[a].client_id@ != os[b].client_id@);
                    }
                    assert(cs[k as int].outbound()[0] == os[k as int].outbound()[0]);
                    if has_player_role(os[k as int].active_roles@) {
                        assert(cs[k as int].outbound()[1] == os[k as int].outbound()[1]);
                    }
                    assert forall|j: int| 1 <= j < cs[k as int].outbound().len() implies !is_server_hello(#[trigger] cs[k as int].outbound()[j]) by {
                        if j < os[k as int].outbound().len() {
                            assert(cs[k as int].outbound()[j] == os[k as int].outbound()[j]);
                        }
                    }
                    assert(client_at(os, client_id@, k as int));
                }
                true
            },
            None => false,
        }
    }

    /// Queue a control message for one client; false when the id is not
    /// registered. A server/hello is never sent this way: each session
    /// sends its own, once, at the handshake.
    pub fn send_to_client(&mut self, client_id: &str, message: Message) -> (r: bool)
        requires
            old(self).wf(),
            !(message is ServerHello),
        ensures
            final(self).wf(),
            r == has_client(old(self).spec_clients(), client_id@),
            final(self).spec_clients().len() == old(self).spec_clients().len(),
            forall|i: int| 0 <= i < old(self).spec_clients().len() ==> {
                let oc = old(self).spec_clients()[i];
                let nc = #[trigger] final(self).spec_clients()[i];
                if oc.client_id@ == client_id@ {
                    queued_one(oc, nc) && text_of(nc.outbound().last()) == Some(message)
                } else {
                    nc == oc
                }
            },
    {
        let r = self.send_frame(client_id, ServerMessage::Text(Arc::new(message)));
        proof {
            assert forall|i: int| 0 <= i < old(self).spec_clients().len() && old(self).spec_clients()[i].client_id@ == client_id@
                implies #[trigger] self.spec_clients()[i].outbound().drop_last() == old(self).spec_clients()[i].outbound() by {
                assert(self.spec_clients()[i].outbound().drop_last() =~= old(self).spec_clients()[i].outbound());
            }
        }
        r
    }

    /// Queue a server/command with a player command for one client; false
    /// when the id is not registered.
    pub fn send_player_command(&mut self, client_id: &str, command: &str, volume: Option<u8>, mute: Option<bool>) -> (r: bool)
        requires
            old(self).wf(),
        ensures
            final(self).wf(),
            r == has_client(old(self).spec_clients(), client_id@),
            final(self).spec_clients().len() == old(self).spec_clients().len(),
            forall|i: int| 0 <= i < old(self).spec_clients().len() ==> {
                let oc = old(self).spec_clients()[i];
                let nc = #[trigger] final(self).spec_clients()[i];
                if oc.client_id@ == client_id@ {
                    queued_one(oc, nc) && is_player_command_of(nc.outbound().last(), command@, volume, mute)
                } else {
                    nc == oc
                }
            },
    {
        let m = player_command(command, volume, mute);
        let r = self.send_frame(client_id, m);
        proof {
            assert forall|i: int| 0 <= i < old(self).spec_clients().len() && old(self).spec_clients()[i].client_id@ == client_id@
                implies #[trigger] self.spec_clients()[i].outbound().drop_last() == old(self).spec_clients()[i].outbound() by {
                assert(self.spec_clients()[i].outbound().drop_last() =~= old(self).spec_clients()[i].outbound());
            }
        }
        r
    }

    /// Hand a client's queued frames to its transport writer, oldest first.
    pub fn take_outbound(&mut self, client_id: &str) -> (r: Vec<ServerMessage>)
        requires
            old(self).wf(),
        ensures
            final(self).wf(),
            final(self).spec_clients().len() == old(self).spec_clients().len(),
            !has_client(old(self).spec_clients(), client_id@) ==> r@.len() == 0,
            forall|i: int| 0 <= i < old(self).spec_clients().len() ==> {
                let oc = old(self).spec_clients()[i];
                let nc = #[trigger] final(self).spec_clients()[i];
                if oc.client_id@ == client_id@ {
                    &&& nc.same_record(&oc)
                    &&& r@ == oc.spec_pending()
                    &&& nc.spec_pending().len() == 0
                    &&& nc.spec_delivered() == oc.spec_delivered() + r@
                    &&& nc.outbound() == oc.outbound()
                } else {
                    nc == oc
                }
            },
    {
        match self.find_client(client_id) {
            Some(k) => {
                let ghost os = self.clients@;
                let r = self.clients[k].take_pending();
                proof {
                    let cs = self.clients@;
                    assert forall|a: int, b: int| 0 <= a < b < cs.len() implies (#[trigger] cs[a]).client_id@ != (#[trigger] cs[b]).client_id@ by {
                        assert(os[a].client_id@ != os[b].client_id@);
                    }
                }
                r
            },
            None => Vec::new(),
        }
    }

    /// The ids of all clients, in registry order.
    pub fn client_ids(&self) -> (r: Vec<String>)
        ensures
            r@.len() == self.spec_clients().len(),
            forall|i: int| 0 <= i < r@.len() ==> (#[trigger] r@[i])@ == self.spec_clients()[i].client_id@,
    {
        let n = self.clients.len();
        let mut out: Vec<String> = Vec::new();
        let mut i: usize = 0;
        while i < n
            invariant
                n == self.clients@.len(),
                i <= n,
                out@.len() == i,
                forall|k: int| 0 <= k < i ==> (#[trigger] out@[k])@ == self.clients@[k].client_id@,
            decreases n - i,
        {
            out.push(self.clients[i].client_id.clone());
            i = i + 1;
        }
        out
    }

    /// The client records, in registry order.
    pub fn clients(&self) -> (r: &[ConnectedClient])
        ensures
            r@ == self.spec_clients(),
    {
        self.clients.as_slice()
    }

    /// A client's negotiated audio format.
    pub fn get_audio_format(&self, client_id: &str) -> (r: Option<AudioFormat>)
        requires
            self.wf(),
        ensures
            r is Some <==> exists|k: int| #[trigger] client_at(self.spec_clients(), client_id@, k) && self.spec_clients()[k].audio_format is Some,
            r matches Some(f) ==> forall|k: int| #[trigger] client_at(self.spec_clients(), client_id@, k)
                ==> same_format(f, self.spec_clients()[k].audio_format->Some_0),
    {
        match self.find_client(client_id) {
            Some(k) => match &self.clients[k].audio_format {
                Some(f) => Some(copy_format(f)),
                None => None,
            },
            None => None,
        }
    }

    /// The server's default format: PCM, 48 kHz, stereo, 24-bit.
    pub fn default_audio_format() -> (r: AudioFormat)
        ensures
            r.codec == Codec::Pcm,
            r.sample_rate == 48000,
            r.channels == 2,
            r.bit_depth == 24,
            r.codec_header is None,
    {
        AudioFormat { codec: Codec::Pcm, sample_rate: 48000, channels: 2, bit_depth: 24, codec_header: None }
    }
}

/// Every client in a well-formed registry saw server/hello as its first
/// frame and at no later position and, when it holds a player role,
/// stream/start as its second; what its transport received so far is a
/// prefix of that history.
pub proof fn lemma_outbound_opening(m: &ClientManager, i: int)
    requires
        m.wf(),
        0 <= i < m.spec_clients().len(),
    ensures
        is_server_hello(m.spec_clients()[i].outbound()[0]),
        has_player_role(m.spec_clients()[i].active_roles@) ==> is_stream_start(m.spec_clients()[i].outbound()[1]),
        forall|j: int| 1 <= j < m.spec_clients()[i].outbound().len() ==> !is_server_hello(#[trigger] m.spec_clients()[i].outbound()[j]),
        m.spec_clients()[i].outbound().subrange(0, m.spec_clients()[i].spec_delivered().len() as int)
            == m.spec_clients()[i].spec_delivered(),
{
    let c = m.spec_clients()[i];
    assert(c.opens_properly());
    assert(c.outbound().subrange(0, c.spec_delivered().len() as int) =~= c.spec_delivered());
}

} // verus!
