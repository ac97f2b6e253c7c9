use vstd::prelude::*;

use crate::net_address::NetAddress;
use crate::retry::RetryHelper;

use vstd::utf8::{decode_utf8, valid_utf8};

verus! {

/// What `base64::decode` gives for `text`: its bytes, or nothing when the
/// text is not base64.
pub uninterp spec fn base64_decoded(text: Seq<char>) -> Option<Seq<u8>>;

/// Decodes `text` with `base64::decode`; the result is the one
/// `base64_decoded` names, the decoding error dropped.
#[verifier::external_body]
fn base64_decode(text: &str) -> (res: Option<Vec<u8>>)
    ensures
        match res {
            Some(b) => base64_decoded(text@) == Some(b@),
            None => base64_decoded(text@) is None,
        },
{
    base64::decode(text).ok()
}

/// Reads `bytes` as text with `String::from_utf8`, which succeeds exactly on
/// valid UTF-8 and then holds the characters the bytes encode.
#[verifier::external_body]
fn text_from_utf8(bytes: Vec<u8>) -> (res: Option<String>)
    ensures
        match res {
            Some(t) => valid_utf8(bytes@) && t@ == decode_utf8(bytes@),
            None => !valid_utf8(bytes@),
        },
{
    String::from_utf8(bytes).ok()
}

/// The text that `text` encodes as base64 over UTF-8, if it is such an
/// encoding.
pub open spec fn address_text_of(text: Seq<char>) -> Option<Seq<char>> {
    match base64_decoded(text) {
        Some(bytes) => if valid_utf8(bytes) {
            Some(decode_utf8(bytes))
        } else {
            None
        },
        None => None,
    }
}

/// The written address that the rendezvous server encoded as `text`: base64
/// over UTF-8 text.
pub fn decode_address_text(text: &str) -> (res: Option<String>)
    ensures
        match res {
            Some(t) => address_text_of(text@) == Some(t@),
            None => address_text_of(text@) is None,
        },
{
    match base64_decode(text) {
        Some(bytes) => text_from_utf8(bytes),
        None => None,
    }
}

/// The written public and local addresses of the peer to punch through to,
/// when both decode.
pub fn read_attempt_connection(public_ip: &str, local_ip: &str) -> (res: Option<(String, String)>)
    ensures
        match res {
            Some((p, l)) => address_text_of(public_ip@) == Some(p@) && address_text_of(local_ip@) == Some(l@),
            None => address_text_of(public_ip@) is None || address_text_of(local_ip@) is None,
        },
{
    let public = decode_address_text(public_ip);
    let local = decode_address_text(local_ip);
    match (public, local) {
        (Some(p), Some(l)) => Some((p, l)),
        _ => None,
    }
}

/// The handshake payloads exchanged with the rendezvous server and the other
/// peer; both addresses are base64 encoded text.
#[derive(Debug)]
pub enum HandshakePayloads {
    Hello { session_id: String, version: String },
    AttemptConnection { public_ip: String, local_ip: String },
    InvalidSession,
    InvalidVersion,
}

/// Where and how a handshake goes.
#[derive(Debug)]
pub struct HandshakeConfig {
    pub rendezvous_address: NetAddress,
    pub retry_count: u16,
    pub version: String,
    pub session_id: String,
    pub self_hosted: bool,
}

impl HandshakeConfig {
    /// The rendezvous server at `127.0.0.1:0`, five retries, no version and
    /// no session id, not self hosted.
    pub fn default() -> (res: Self)
        ensures
            res.rendezvous_address == (NetAddress { ip: 0x7f00_0001, port: 0, is_v6: false }),
            res.retry_count == 5,
            res.version@ == Seq::<char>::empty(),
            res.session_id@ == Seq::<char>::empty(),
            !res.self_hosted,
    {
        HandshakeConfig {
            rendezvous_address: NetAddress { ip: 0x7f00_0001, port: 0, is_v6: false },
            retry_count: 5,
            version: String::new(),
            session_id: String::new(),
            self_hosted: false,
        }
    }
}

/// What a handshake received, as the network layer reads it: a hello, a
/// refused version, the addresses of the other peer (none when they could not
/// be read), a session id, or anything else.
#[derive(Debug)]
pub enum HandshakeInput {
    Hello,
    InvalidVersion,
    AttemptConnection(Option<(NetAddress, NetAddress)>),
    SessionDetails(String),
    Other,
}

pub enum HandshakeInputView {
    Hello,
    InvalidVersion,
    AttemptConnection(Option<(NetAddress, NetAddress)>),
    SessionDetails(Seq<char>),
    Other,
}

impl View for HandshakeInput {
    type V = HandshakeInputView;

    open spec fn view(&self) -> HandshakeInputView {
        match self {
            HandshakeInput::Hello => HandshakeInputView::Hello,
            HandshakeInput::InvalidVersion => HandshakeInputView::InvalidVersion,
            HandshakeInput::AttemptConnection(a) => HandshakeInputView::AttemptConnection(*a),
            HandshakeInput::SessionDetails(s) => HandshakeInputView::SessionDetails(s@),
            HandshakeInput::Other => HandshakeInputView::Other,
        }
    }
}

/// What a handshake sends.
#[derive(Debug)]
pub enum HandshakeSend {
    Hello { to: NetAddress, session_id: String, version: String },
    RequestSession { to: NetAddress, self_hosted: bool },
}

pub enum HandshakeSendView {
    Hello { to: NetAddress, session_id: Seq<char>, version: Seq<char> },
    RequestSession { to: NetAddress, self_hosted: bool },
}

impl View for HandshakeSend {
    type V = HandshakeSendView;

    open spec fn view(&self) -> HandshakeSendView {
        match self {
            HandshakeSend::Hello { to, session_id, version } => HandshakeSendView::Hello {
                to: *to,
                session_id: session_id@,
                version: version@,
            },
            HandshakeSend::RequestSession { to, self_hosted } => HandshakeSendView::RequestSession {
                to: *to,
                self_hosted: *self_hosted,
            },
        }
    }
}

pub open spec fn handshake_sends(s: Seq<HandshakeSend>) -> Seq<HandshakeSendView> {
    s.map_values(|x: HandshakeSend| x@)
}

/// Why a handshake failed.
#[derive(Clone, Copy, Debug, PartialEq, Eq, Structural)]
pub enum HandshakeFail {
    NoMessage,
    InvalidData,
    InvalidVersion,
}

/// Where a handshake stands after a step.
#[derive(Clone, Copy, Debug, PartialEq, Eq, Structural)]
pub enum HandshakeStatus {
    Completed,
    InProgress,
    Failed(HandshakeFail),
}

/// The kind of handshake: straight to one or two addresses of a peer; asking
/// the rendezvous server where the peer is; or asking it for a session.
#[derive(Clone, Copy, Debug, PartialEq, Eq, Structural)]
pub enum HandshakeKind {
    Direct { target_1: NetAddress, target_2: Option<NetAddress> },
    Punchthrough,
    SessionHost,
}

/// What one attempt sends, for a handshake of kind `kind` with `config`'s
/// session id, version, rendezvous server and hosting wish.
pub open spec fn attempt_sends(
    kind: HandshakeKind,
    rendezvous: NetAddress,
    session_id: Seq<char>,
    version: Seq<char>,
    self_hosted: bool,
) -> Seq<HandshakeSendView> {
    match kind {
        HandshakeKind::Direct { target_1, target_2 } => seq![
            HandshakeSendView::Hello { to: target_1, session_id, version },
        ] + match target_2 {
            Some(t) => seq![HandshakeSendView::Hello { to: t, session_id, version }],
            None => Seq::empty(),
        },
        HandshakeKind::Punchthrough => seq![HandshakeSendView::Hello { to: rendezvous, session_id, version }],
        HandshakeKind::SessionHost => seq![HandshakeSendView::RequestSession { to: rendezvous, self_hosted }],
    }
}

/// Where the received inputs leave a handshake of kind `kind`: the first one
/// that decides does; a direct handshake completes on a hello and fails on a
/// refused version; a punch through turns into a direct handshake to the
/// addresses received, or fails when they could not be read; a session host
/// completes on a session id.
pub open spec fn outcome(kind: HandshakeKind, inputs: Seq<HandshakeInputView>) -> (HandshakeStatus, HandshakeKind, Option<Seq<char>>)
    decreases inputs.len(),
{
    if inputs.len() == 0 {
        (HandshakeStatus::InProgress, kind, None)
    } else {
        match (kind, inputs[0]) {
            (HandshakeKind::Direct { .. }, HandshakeInputView::Hello) => (HandshakeStatus::Completed, kind, None),
            (HandshakeKind::Direct { .. }, HandshakeInputView::InvalidVersion) => (
                HandshakeStatus::Failed(HandshakeFail::InvalidVersion),
                kind,
                None,
            ),
            (HandshakeKind::Punchthrough, HandshakeInputView::AttemptConnection(Some((public, local)))) => (
                HandshakeStatus::InProgress,
                HandshakeKind::Direct { target_1: public, target_2: Some(local) },
                None,
            ),
            (HandshakeKind::Punchthrough, HandshakeInputView::AttemptConnection(None)) => (
                HandshakeStatus::Failed(HandshakeFail::InvalidData),
                kind,
                None,
            ),
            (HandshakeKind::SessionHost, HandshakeInputView::SessionDetails(id)) => (
                HandshakeStatus::Completed,
                kind,
                Some(id),
            ),
            _ => outcome(kind, inputs.subrange(1, inputs.len() as int)),
        }
    }
}

/// A handshake under way.
pub struct Handshake {
    kind: HandshakeKind,
    config: HandshakeConfig,
    retry: RetryHelper,
}

impl Handshake {
    pub closed spec fn kind(&self) -> HandshakeKind {
        self.kind
    }

    pub closed spec fn session(&self) -> Seq<char> {
        self.config.session_id@
    }

    pub closed spec fn version(&self) -> Seq<char> {
        self.config.version@
    }

    pub closed spec fn rendezvous(&self) -> NetAddress {
        self.config.rendezvous_address
    }

    pub closed spec fn self_hosted(&self) -> bool {
        self.config.self_hosted
    }

    pub closed spec fn retries_allowed(&self) -> u16 {
        self.config.retry_count
    }

    /// The attempts made and allowed, and whether one was made.
    pub closed spec fn retry(&self) -> RetryHelper {
        self.retry
    }

    fn make(kind: HandshakeKind, config: HandshakeConfig) -> (res: Self)
        ensures
            res.kind() == kind,
            res.session() == config.session_id@,
            res.version() == config.version@,
            res.rendezvous() == config.rendezvous_address,
            res.self_hosted() == config.self_hosted,
            res.retries_allowed() == config.retry_count,
            res.retry().attempts() == 0,
            res.retry().limit() == config.retry_count,
            !res.retry().attempted(),
    {
        let retry = RetryHelper::new(config.retry_count);
        Handshake { kind, config, retry }
    }

    /// A handshake straight to `target_address_1`, and `target_address_2` if given.
    pub fn direct(config: HandshakeConfig, target_address_1: NetAddress, target_address_2: Option<NetAddress>) -> (res: Self)
        ensures
            res.kind() == (HandshakeKind::Direct { target_1: target_address_1, target_2: target_address_2 }),
            res.session() == config.session_id@,
            res.version() == config.version@,
            res.retry().attempts() == 0,
            res.retry().limit() == config.retry_count,
            !res.retry().attempted(),
    {
        Handshake::make(HandshakeKind::Direct { target_1: target_address_1, target_2: target_address_2 }, config)
    }

    /// A handshake that asks the rendezvous server where the peer is.
    pub fn punchthrough(config: HandshakeConfig) -> (res: Self)
        ensures
            res.kind() == HandshakeKind::Punchthrough,
            res.session() == config.session_id@,
            res.version() == config.version@,
            res.rendezvous() == config.rendezvous_address,
            res.retry().attempts() == 0,
            res.retry().limit() == config.retry_count,
            !res.retry().attempted(),
    {
        Handshake::make(HandshakeKind::Punchthrough, config)
    }

    /// A handshake that asks the rendezvous server for a session.
    pub fn session_host(config: HandshakeConfig) -> (res: Self)
        ensures
            res.kind() == HandshakeKind::SessionHost,
            res.rendezvous() == config.rendezvous_address,
            res.self_hosted() == config.self_hosted,
            res.retry().attempts() == 0,
            res.retry().limit() == config.retry_count,
            !res.retry().attempted(),
    {
        Handshake::make(HandshakeKind::SessionHost, config)
    }

    pub fn get_session_id(&self) -> (res: &String)
        ensures
            res@ == self.session(),
    {
        &self.config.session_id
    }

    pub fn get_kind(&self) -> (res: HandshakeKind)
        ensures
            res == self.kind(),
    {
        self.kind
    }

    fn send_attempt(&self, out: &mut Vec<HandshakeSend>)
        ensures
            handshake_sends(final(out)@) == handshake_sends(old(out)@) + attempt_sends(
                self.kind(),
                self.rendezvous(),
                self.session(),
                self.version(),
                self.self_hosted(),
            ),
    {
        let ghost before = handshake_sends(out@);
        match self.kind {
            HandshakeKind::Direct { target_1, target_2 } => {
                out.push(
                    HandshakeSend::Hello {
                        to: target_1,
                        session_id: self.config.session_id.clone(),
                        version: self.config.version.clone(),
                    },
                );
                if let Some(t) = target_2 {
                    out.push(
                        HandshakeSend::Hello {
                            to: t,
                            session_id: self.config.session_id.clone(),
                            version: self.config.version.clone(),
                        },
                    );
                }
            },
            HandshakeKind::Punchthrough => {
                out.push(
                    HandshakeSend::Hello {
                        to: self.config.rendezvous_address,
                        session_id: self.config.session_id.clone(),
                        version: self.config.version.clone(),
                    },
                );
            },
            HandshakeKind::SessionHost => {
                out.push(
                    HandshakeSend::RequestSession {
                        to: self.config.rendezvous_address,
                        self_hosted: self.config.self_hosted,
                    },
                );
            },
        }
        assert(handshake_sends(out@) =~= before + attempt_sends(
            self.kind(),
            self.rendezvous(),
            self.session(),
            self.version(),
            self.self_hosted(),
        ));
    }

    /// One step of the handshake: past its attempts it has failed; when the
    /// clock says an attempt is due, it is counted and sent; then the inputs
    /// received decide, as `outcome` says. A punch through that learns the
    /// peer's addresses becomes a fresh direct handshake to them; a session
    /// host keeps the session id it receives.
    pub fn handshake(&mut self, received: &Vec<HandshakeInput>, out: &mut Vec<HandshakeSend>) -> (res: HandshakeStatus)
        requires
            old(self).retry().attempts() < u16::MAX,
        ensures
            final(self).version() == old(self).version(),
            final(self).rendezvous() == old(self).rendezvous(),
            final(self).self_hosted() == old(self).self_hosted(),
            final(self).retries_allowed() == old(self).retries_allowed(),
            if old(self).retry().done_spec() {
                &&& res == HandshakeStatus::Failed(HandshakeFail::NoMessage)
                &&& *final(self) == *old(self)
                &&& final(out)@ == old(out)@
            } else {
                let sent_now = handshake_sends(final(out)@) == handshake_sends(old(out)@) + attempt_sends(
                    old(self).kind(),
                    old(self).rendezvous(),
                    old(self).session(),
                    old(self).version(),
                    old(self).self_hosted(),
                );
                let o = outcome(old(self).kind(), received@.map_values(|i: HandshakeInput| i@));
                let redirected = old(self).kind() is Punchthrough && o.1 is Direct;
                &&& sent_now || handshake_sends(final(out)@) == handshake_sends(old(out)@)
                &&& !old(self).retry().attempted() ==> sent_now
                &&& res == o.0
                &&& final(self).kind() == o.1
                &&& final(self).session() == match o.2 {
                    Some(id) => id,
                    None => old(self).session(),
                }
                &&& redirected ==> final(self).retry().attempts() == 0 && !final(self).retry().attempted()
                &&& !redirected ==> final(self).retry().attempts() == old(self).retry().attempts() + if sent_now {
                    1int
                } else {
                    0int
                }
            },
    {
        if self.retry.done() {
            return HandshakeStatus::Failed(HandshakeFail::NoMessage);
        }
        let ghost before_attempts = self.retry().attempts();
        let ghost before_out = handshake_sends(out@);
        let ghost all = attempt_sends(self.kind(), self.rendezvous(), self.session(), self.version(), self.self_hosted());
        // Attempt the handshake
        let due = self.retry.should_retry();
        if due {
            self.send_attempt(out);
        }
        assert(all.len() > 0);
        let ghost inputs = received@.map_values(|i: HandshakeInput| i@);
        let ghost k0 = self.kind;
        assert(inputs.subrange(0, inputs.len() as int) =~= inputs);
        let mut i: usize = 0;
        while i < received.len()
            invariant
                i <= received@.len(),
                inputs == received@.map_values(|x: HandshakeInput| x@),
                outcome(k0, inputs) == outcome(k0, inputs.subrange(i as int, inputs.len() as int)),
                self.kind == k0,
                self.config == old(self).config,
                self.retry().limit() == old(self).retry().limit(),
                self.retry().attempts() == before_attempts + if due {
                    1int
                } else {
                    0int
                },
                due ==> handshake_sends(out@) == before_out + all,
                !due ==> handshake_sends(out@) == before_out,
                !old(self).retry().attempted() ==> due,
                !old(self).retry().done_spec(),
                all == attempt_sends(
                    old(self).kind(),
                    old(self).rendezvous(),
                    old(self).session(),
                    old(self).version(),
                    old(self).self_hosted(),
                ),
                before_out == handshake_sends(old(out)@),
                before_attempts == old(self).retry().attempts(),
                k0 == old(self).kind(),
                all.len() > 0,
            decreases received@.len() - i,
        {
            let ghost rest = inputs.subrange(i as int, inputs.len() as int);
            assert(rest[0] == received@[i as int]@);
            assert(rest.subrange(1, rest.len() as int) =~= inputs.subrange(i + 1, inputs.len() as int));
            match (&self.kind, &received[i]) {
                (HandshakeKind::Direct { .. }, HandshakeInput::Hello) => {
                    return HandshakeStatus::Completed;
                },
                (HandshakeKind::Direct { .. }, HandshakeInput::InvalidVersion) => {
                    return HandshakeStatus::Failed(HandshakeFail::InvalidVersion);
                },
                (HandshakeKind::Punchthrough, HandshakeInput::AttemptConnection(addrs)) => {
                    match addrs {
                        Some((public, local)) => {
                            // Connect to the other peer directly
                            self.kind = HandshakeKind::Direct { target_1: *public, target_2: Some(*local) };
                            self.retry = RetryHelper::new(self.config.retry_count);
                            return HandshakeStatus::InProgress;
                        },
                        None => {
                            return HandshakeStatus::Failed(HandshakeFail::InvalidData);
                        },
                    }
                },
                (HandshakeKind::SessionHost, HandshakeInput::SessionDetails(session_id)) => {
                    self.config.session_id = session_id.clone();
                    return HandshakeStatus::Completed;
                },
                _ => {},
            }
            i = i + 1;
        }
        assert(inputs.subrange(i as int, inputs.len() as int) =~= Seq::<HandshakeInputView>::empty());
        HandshakeStatus::InProgress
    }
}

} // verus!
