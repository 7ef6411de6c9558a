//! The per-call voice session state machine.
//!
//! One session coordinates the signaling handshake, the media-socket
//! setup, the key exchange and the steady-state relay for a single
//! voice room.  The runtime around the library owns the sockets and
//! feeds already-parsed events in; every decision — what to connect,
//! what to announce, when keys are installed, when to shut down — is
//! made here.

use vstd::prelude::*;

use crate::crypto::{parse_mode_spec, select_mode, select_mode_spec, EncryptionMode};
use crate::transport::VoiceDataChannel;
use crate::DiscordError;

verus! {

/// The five pieces of connect information awaited from the outer
/// gateway; the voice-specific connection starts once all five are
/// present.
pub struct WaitForConnectInfo {
    pub guild_id: Option<u64>,
    pub channel_id: Option<u64>,
    pub session_id: Option<String>,
    pub token: Option<String>,
    pub endpoint: Option<String>,
}

/// An already-parsed event routed from the outer gateway.
pub enum ServerEvent {
    /// Our own voice state changed: which room and under which session.
    VoiceStateUpdate { guild_id: Option<u64>, channel_id: Option<u64>, session_id: String },
    /// The voice server to use, with its credentials.
    VoiceServerUpdate { endpoint: Option<String>, token: String },
    /// Anything else routed through; ignored.
    Other,
}

/// Everything needed to open the voice-specific signaling connection.
pub struct ConnectGateway {
    pub endpoint: String,
    pub guild_id: u64,
    pub session_id: String,
    pub token: String,
}

/// The lifecycle of one voice session.  The secure transport exists
/// only once connected; keys are installed per negotiated session
/// description.
pub enum VoiceSessionState {
    /// Accumulating connect information from the outer gateway.
    WaitingForEvents(WaitForConnectInfo),
    /// The voice-specific signaling connection is up; awaiting its
    /// ready event.
    WaitingForReady,
    /// Media socket set up; `has_session` says whether keys were
    /// installed since entering this state.
    Connected { voice: VoiceDataChannel, has_session: bool },
}

/// A presence notification for the owning call.
pub enum SessionNotice {
    UserJoined { ssrc: u32, user: u64 },
    Speaking { user: u64, ssrc: u32 },
    UserLeft { user: u64 },
    FullyConnected,
    Closed,
}

/// What the runtime must do after a ready event: connect the media
/// socket to the chosen server and perform address discovery, then
/// announce the selected protocol.
pub struct ConnectVoice {
    pub ip: String,
    pub port: u16,
    pub ssrc: u32,
    pub mode: EncryptionMode,
}

/// What the runtime must do after a session description: nothing, or
/// send the one-time speaking announcement that starts inbound audio.
pub struct SessionDescriptionActions {
    pub send_speaking: bool,
    pub ssrc: u32,
}

/// The accumulator after folding in one routed event: a voice-state
/// update replaces room and session, a voice-server update replaces
/// endpoint and token, anything else changes nothing.
pub open spec fn apply_spec(w: WaitForConnectInfo, event: ServerEvent) -> WaitForConnectInfo {
    match event {
        ServerEvent::VoiceStateUpdate { guild_id, channel_id, session_id } => WaitForConnectInfo {
            guild_id,
            channel_id,
            session_id: Some(session_id),
            ..w
        },
        ServerEvent::VoiceServerUpdate { endpoint, token } => WaitForConnectInfo {
            endpoint,
            token: Some(token),
            ..w
        },
        ServerEvent::Other => w,
    }
}

impl WaitForConnectInfo {
    /// No connect information yet.
    pub fn empty() -> (r: Self)
        ensures
            r.guild_id is None,
            r.channel_id is None,
            r.session_id is None,
            r.token is None,
            r.endpoint is None,
    {
        WaitForConnectInfo {
            guild_id: None,
            channel_id: None,
            session_id: None,
            token: None,
            endpoint: None,
        }
    }

    /// All five pieces are present.
    pub open spec fn complete_spec(&self) -> bool {
        &&& self.guild_id is Some
        &&& self.channel_id is Some
        &&& self.session_id is Some
        &&& self.token is Some
        &&& self.endpoint is Some
    }

    /// Whether all five pieces are present.
    pub fn is_complete(&self) -> (r: bool)
        ensures
            r == self.complete_spec(),
    {
        self.guild_id.is_some() && self.channel_id.is_some() && self.session_id.is_some()
            && self.token.is_some() && self.endpoint.is_some()
    }

    /// Folds one routed event into the accumulator and reports whether
    /// it became complete.
    pub fn apply(&mut self, event: ServerEvent) -> (r: bool)
        ensures
            *final(self) == apply_spec(*old(self), event),
            r == final(self).complete_spec(),
    {
        match event {
            ServerEvent::VoiceStateUpdate { guild_id, channel_id, session_id } => {
                self.guild_id = guild_id;
                self.channel_id = channel_id;
                self.session_id = Some(session_id);
            },
            ServerEvent::VoiceServerUpdate { endpoint, token } => {
                self.endpoint = endpoint;
                self.token = Some(token);
            },
            ServerEvent::Other => {},
        }
        self.is_complete()
    }
}

/// The session state machine driven by the per-call event loop.
pub struct VoiceSession {
    pub state: VoiceSessionState,
    pub close_requested: bool,
    pub own_user: u64,
}

impl VoiceSession {
    /// Whether keys have been installed in the connected state.
    pub open spec fn has_session_spec(&self) -> bool {
        match self.state {
            VoiceSessionState::Connected { has_session, .. } => has_session,
            _ => false,
        }
    }

    /// A fresh session for the bot user `own_user`, waiting for
    /// connect information.
    pub fn new(own_user: u64) -> (r: Self)
        ensures
            r.state matches VoiceSessionState::WaitingForEvents(w) && !w.complete_spec(),
            !r.close_requested,
            r.own_user == own_user,
    {
        VoiceSession {
            state: VoiceSessionState::WaitingForEvents(WaitForConnectInfo::empty()),
            close_requested: false,
            own_user,
        }
    }

    /// Folds one routed outer-gateway event into the session.
    ///
    /// While waiting for connect information, completing the five
    /// pieces consumes them, moves the session to awaiting the voice
    /// gateway's ready event, and tells the runtime to open that
    /// connection and identify.  In any other state the event is
    /// ignored.
    pub fn handle_server_event(&mut self, event: ServerEvent) -> (r: Option<ConnectGateway>)
        ensures
            final(self).close_requested == old(self).close_requested,
            final(self).own_user == old(self).own_user,
            !(old(self).state is WaitingForEvents) ==> *final(self) == *old(self) && r is None,
            old(self).state matches VoiceSessionState::WaitingForEvents(w0) ==> {
                let w1 = apply_spec(w0, event);
                if w1.complete_spec() {
                    &&& r matches Some(c) && c.endpoint == w1.endpoint.unwrap() && c.guild_id
                        == w1.guild_id.unwrap() && c.session_id == w1.session_id.unwrap()
                        && c.token == w1.token.unwrap()
                    &&& final(self).state is WaitingForReady
                } else {
                    &&& r is None
                    &&& final(self).state == VoiceSessionState::WaitingForEvents(w1)
                }
            },
    {
        match &mut self.state {
            VoiceSessionState::WaitingForEvents(waiting) => {
                if waiting.apply(event) {
                    let endpoint = match &waiting.endpoint {
                        Some(s) => s.clone(),
                        None => String::new(),
                    };
                    let guild_id = waiting.guild_id.unwrap();
                    let session_id = match &waiting.session_id {
                        Some(s) => s.clone(),
                        None => String::new(),
                    };
                    let token = match &waiting.token {
                        Some(s) => s.clone(),
                        None => String::new(),
                    };
                    self.state = VoiceSessionState::WaitingForReady;
                    Some(ConnectGateway { endpoint, guild_id, session_id, token })
                } else {
                    None
                }
            },
            _ => None,
        }
    }

    /// Handles the voice gateway's ready event: picks the advertised
    /// nonce strategy of highest entropy and tells the runtime to
    /// connect the media socket.
    ///
    /// Fails exactly when no advertised mode is known, or the session
    /// is not awaiting the event; the state does not change until the
    /// runtime reports the socket connected.
    pub fn on_ready(&mut self, ip: String, port: u16, ssrc: u32, modes: &Vec<Vec<u8>>) -> (r:
        Result<ConnectVoice, DiscordError>)
        ensures
            *final(self) == *old(self),
            r is Ok <==> old(self).state is WaitingForReady && select_mode_spec(modes.deep_view())
                is Some,
            r matches Ok(c) ==> {
                &&& Some(c.mode) == select_mode_spec(modes.deep_view())
                &&& c.ssrc == ssrc
                &&& c.port == port
            },
    {
        if !(matches!(self.state, VoiceSessionState::WaitingForReady)) {
            return Err(
                DiscordError::InternalError { cause: "not waiting for a ready event".to_owned() },
            );
        }
        match select_mode(modes) {
            Some(mode) => Ok(ConnectVoice { ip, port, ssrc, mode }),
            None => Err(
                DiscordError::InternalError { cause: "did not find an encryption mode".to_owned() },
            ),
        }
    }

    /// Installs the connected media transport; keys are not yet set.
    pub fn on_transport_connected(&mut self, voice: VoiceDataChannel)
        requires
            voice.wf(),
        ensures
            final(self).state matches VoiceSessionState::Connected { voice: v, has_session }
                && v == voice && !has_session,
            final(self).close_requested == old(self).close_requested,
            final(self).own_user == old(self).own_user,
    {
        self.state = VoiceSessionState::Connected { voice, has_session: false };
    }

    /// Handles a session description: installs the negotiated keys.
    ///
    /// The one-time speaking announcement — required before any
    /// inbound audio — is requested exactly on the first description
    /// after connecting; afterwards the session is fully established.
    /// Fails exactly when the mode is unknown or the session is not
    /// connected.
    pub fn on_session_description(&mut self, mode_name: &[u8], key: Vec<u8>) -> (r: Result<
        SessionDescriptionActions,
        DiscordError,
    >)
        requires
            old(self).wf(),
            key@.len() == 32,
        ensures
            final(self).wf(),
            final(self).close_requested == old(self).close_requested,
            final(self).own_user == old(self).own_user,
            r is Ok <==> old(self).state is Connected && parse_mode_spec(mode_name@) is Some,
            r matches Ok(a) ==> session_description_step(
                *old(self),
                *final(self),
                a,
                mode_name@,
                key@,
            ),
            r matches Ok(a) ==> {
                &&& a.send_speaking == !old(self).has_session_spec()
                &&& final(self).has_session_spec()
                &&& final(self).state matches VoiceSessionState::Connected { voice: v, .. }
                    && v.has_key(parse_mode_spec(mode_name@).unwrap(), key@) && (
                old(self).state matches VoiceSessionState::Connected { voice: ov, .. }
                    ==> v.ssrc_spec() == ov.ssrc_spec() && a.ssrc == ov.ssrc_spec())
            },
            r is Err ==> *final(self) == *old(self),
    {
        let mode = match EncryptionMode::from_wire_name(mode_name) {
            Some(m) => m,
            None => {
                return Err(
                    DiscordError::InternalError { cause: "unknown encryption mode".to_owned() },
                );
            },
        };
        match &mut self.state {
            VoiceSessionState::Connected { voice, has_session } => {
                voice.set_key(mode, key);
                let first = !*has_session;
                *has_session = true;
                Ok(SessionDescriptionActions { send_speaking: first, ssrc: voice.ssrc() })
            },
            _ => Err(DiscordError::InternalError { cause: "voice not set up yet".to_owned() }),
        }
    }

    /// The transport of every connected session is well formed, and
    /// holds a key whenever a session description was applied.
    pub open spec fn wf(&self) -> bool {
        match self.state {
            VoiceSessionState::Connected { voice, has_session } => voice.wf() && (has_session
                ==> voice.is_keyed()),
            _ => true,
        }
    }

    /// Handles a speaking notification: the speaker is announced to
    /// the owning call.
    pub fn on_speaking(&self, user: Option<u64>, ssrc: u32) -> (r: Option<SessionNotice>)
        ensures
            match user {
                Some(u) => r matches Some(n) && n matches SessionNotice::Speaking {
                    user: nu,
                    ssrc: ns,
                } && nu == u && ns == ssrc,
                None => r is None,
            },
    {
        match user {
            Some(u) => Some(SessionNotice::Speaking { user: u, ssrc }),
            None => None,
        }
    }

    /// Handles a peer joining the room.
    pub fn on_client_connect(&self, user: u64, audio_ssrc: u32) -> (r: SessionNotice)
        ensures
            r matches SessionNotice::UserJoined { ssrc, user: u } && u == user && ssrc
                == audio_ssrc,
    {
        SessionNotice::UserJoined { ssrc: audio_ssrc, user }
    }

    /// Handles a peer leaving the room; a disconnect naming the bot's
    /// own user shuts the session down.
    pub fn on_client_disconnect(&mut self, user: u64) -> (r: SessionNotice)
        ensures
            r matches SessionNotice::UserLeft { user: u } && u == user,
            final(self).close_requested == (old(self).close_requested || user == old(
                self,
            ).own_user),
            final(self).state == old(self).state,
            final(self).own_user == old(self).own_user,
    {
        if user == self.own_user {
            self.close_requested = true;
        }
        SessionNotice::UserLeft { user }
    }

    /// Handles the voice gateway closing, or a close request from the
    /// owning call: the session shuts down after the current
    /// iteration.
    pub fn on_closed(&mut self)
        ensures
            final(self).close_requested,
            final(self).state == old(self).state,
            final(self).own_user == old(self).own_user,
    {
        self.close_requested = true;
    }

    /// Seals one outbound audio frame for the wire.
    ///
    /// Succeeds exactly when the session is connected with keys
    /// installed and the payload fits a packet; the transport stamps
    /// and seals it.
    pub fn on_write(&mut self, timestamp: u32, payload: &Vec<u8>) -> (r: Result<
        Vec<u8>,
        DiscordError,
    >)
        requires
            old(self).wf(),
        ensures
            final(self).wf(),
            final(self).close_requested == old(self).close_requested,
            final(self).own_user == old(self).own_user,
            final(self).has_session_spec() == old(self).has_session_spec(),
            r is Ok <==> old(self).has_session_spec() && payload@.len()
                <= crate::constants::MAX_OPUS_PAYLOAD_SIZE,
            !old(self).has_session_spec() ==> r is Err && *final(self) == *old(self),
    {
        match &mut self.state {
            VoiceSessionState::Connected { voice, has_session } => {
                if !*has_session {
                    return Err(
                        DiscordError::InternalError { cause: "voice not set up yet".to_owned() },
                    );
                }
                voice.prepare_voice_packet(timestamp, payload)
            },
            _ => Err(DiscordError::InternalError { cause: "voice not set up yet".to_owned() }),
        }
    }
}

/// The one-time announcement is requested exactly once per entry into
/// the connected state: a first session description asks for it, and
/// no later description does, however many follow.
pub proof fn lemma_speaking_announced_once(
    s0: VoiceSession,
    s1: VoiceSession,
    s2: VoiceSession,
    a1: SessionDescriptionActions,
    a2: SessionDescriptionActions,
    mode1: Seq<u8>,
    mode2: Seq<u8>,
    key1: Seq<u8>,
    key2: Seq<u8>,
)
    requires
        s0.state matches VoiceSessionState::Connected { has_session, .. } && !has_session,
        session_description_step(s0, s1, a1, mode1, key1),
        session_description_step(s1, s2, a2, mode2, key2),
    ensures
        a1.send_speaking,
        !a2.send_speaking,
{
}

/// One successful application of a session description: the actions
/// returned and the state reached.
pub open spec fn session_description_step(
    pre: VoiceSession,
    post: VoiceSession,
    actions: SessionDescriptionActions,
    mode_name: Seq<u8>,
    key: Seq<u8>,
) -> bool {
    &&& pre.state is Connected
    &&& parse_mode_spec(mode_name) is Some
    &&& actions.send_speaking == !pre.has_session_spec()
    &&& post.has_session_spec()
    &&& post.state is Connected
}

} // verus!
