//! One audio link to a remote peer: who offers, what a command or a
//! connection event leads to, and the media clock of outgoing frames. The
//! session engine, the socket and the codec stand outside the library; they
//! ask these functions what to do.

use vstd::prelude::*;
use str0m::change::{SdpAnswer, SdpApi, SdpOffer, SdpPendingOffer};
use str0m::media::{Direction, MediaKind, Mid};
use str0m::Rtc;

verus! {

/// How far the media clock of the outgoing stream moves per sent frame:
/// one 20 ms frame at 48 kHz.
pub const RTP_FRAME_TICKS: u32 = 960;

/// A session description carried inside a signal.
#[derive(Debug, PartialEq, Eq)]
pub enum SignalPayload {
    Offer { sdp: String },
    Answer { sdp: String },
}

/// How far the link to a peer has come.
#[derive(Clone, Copy, Debug, PartialEq, Eq, Structural)]
pub enum PeerState {
    Connecting,
    Connected,
    Failed,
}

/// Orders from the user interface to a peer's task.
#[derive(Debug, PartialEq, Eq)]
pub enum PeerTaskCmd {
    RemoteSignal(String),
    SetMute(bool),
    Shutdown,
}

pub enum PeerTaskCmdView {
    RemoteSignal(Seq<char>),
    SetMute(bool),
    Shutdown,
}

impl View for PeerTaskCmd {
    type V = PeerTaskCmdView;

    open spec fn view(&self) -> PeerTaskCmdView {
        match self {
            PeerTaskCmd::RemoteSignal(s) => PeerTaskCmdView::RemoteSignal(s@),
            PeerTaskCmd::SetMute(m) => PeerTaskCmdView::SetMute(*m),
            PeerTaskCmd::Shutdown => PeerTaskCmdView::Shutdown,
        }
    }
}

/// Reports from a peer's task to the user interface.
#[derive(Debug, PartialEq, Eq)]
pub enum PeerEvent {
    Connected,
    Disconnected,
    SdpReady(String),
}

/// Which side of a pair of peers creates the session offer: the one whose
/// identifier is smaller. Identifiers are 128-bit values ordered as
/// unsigned integers, the big-endian reading of their bytes, which is the
/// order of the UUIDs they stand for.
pub open spec fn offers(pid: u128, remote_pid: u128) -> bool {
    pid < remote_pid
}

pub fn is_offerer(pid: u128, remote_pid: u128) -> (r: bool)
    ensures
        r == offers(pid, remote_pid),
{
    pid < remote_pid
}

/// Of two distinct peers exactly one makes the offer, so every link is
/// negotiated once; a peer never makes an offer to itself.
pub proof fn lemma_exactly_one_offerer(a: u128, b: u128)
    ensures
        a != b ==> (offers(a, b) != offers(b, a)),
        !offers(a, a),
{
}

/// The state a peer's task keeps between its inputs.
#[derive(Clone, Copy, Debug, PartialEq, Eq, Structural)]
pub struct PeerSession {
    /// This side creates the offer.
    pub offerer: bool,
    /// Outgoing audio is held back.
    pub muted: bool,
    /// Media clock of the next outgoing frame.
    pub rtp_ts: u32,
}

/// What a command leads to.
#[derive(Debug, PartialEq, Eq)]
pub enum CommandStep {
    /// Hand the signal text to the session engine.
    HandleSignal(String),
    /// Nothing more to do; keep polling.
    Continue,
    /// Leave the poll loop.
    Stop,
}

/// The session engine's events that matter to the task.
#[derive(Clone, Copy, Debug, PartialEq, Eq, Structural)]
pub enum RtcNotice {
    IceConnected,
    IceDisconnected,
    MediaData,
    Other,
}

/// What to do about an engine event.
#[derive(Debug, PartialEq, Eq)]
pub enum RtcReaction {
    /// Report this to the user interface.
    Report(PeerEvent),
    /// Decode the received audio and queue it for playback.
    Play,
    Ignore,
}

pub open spec fn next_ts(ts: u32) -> u32 {
    ((ts as int + RTP_FRAME_TICKS as int) % 0x1_0000_0000) as u32
}

impl PeerSession {
    /// A fresh session: unmuted, media clock at zero.
    pub fn new(offerer: bool) -> (s: PeerSession)
        ensures
            s.offerer == offerer,
            !s.muted,
            s.rtp_ts == 0,
    {
        PeerSession { offerer, muted: false, rtp_ts: 0 }
    }

    /// An encoded frame is ready. It is sent, stamped with the current media
    /// clock, only when the link is up and the user is not muted; the clock
    /// then moves on by one frame (wrapping). Otherwise nothing changes.
    pub fn on_audio_frame(&mut self, connected: bool) -> (stamp: Option<u32>)
        ensures
            !old(self).muted && connected ==> stamp == Some(old(self).rtp_ts)
                && *final(self) == (PeerSession { rtp_ts: next_ts(old(self).rtp_ts), ..*old(self) }),
            !(!old(self).muted && connected) ==> stamp == None::<u32> && *final(self) == *old(self),
    {
        if !self.muted && connected {
            let ts = self.rtp_ts;
            self.rtp_ts = self.rtp_ts.wrapping_add(RTP_FRAME_TICKS);
            Some(ts)
        } else {
            None
        }
    }

    /// A command from the user interface, or `None` when the interface has
    /// gone: a signal is handed on, a mute setting is taken over, a shutdown
    /// or a vanished interface ends the task.
    pub fn on_command(&mut self, cmd: Option<PeerTaskCmd>) -> (step: CommandStep)
        ensures
            match cmd {
                Some(PeerTaskCmd::RemoteSignal(s)) => *final(self) == *old(self) && (step matches CommandStep::HandleSignal(t) && t@ == s@),
                Some(PeerTaskCmd::SetMute(m)) => *final(self) == (PeerSession { muted: m, ..*old(self) }) && step is Continue,
                _ => *final(self) == *old(self) && step is Stop,
            },
    {
        match cmd {
            Some(PeerTaskCmd::RemoteSignal(s)) => CommandStep::HandleSignal(s),
            Some(PeerTaskCmd::SetMute(m)) => {
                self.muted = m;
                CommandStep::Continue
            },
            Some(PeerTaskCmd::Shutdown) => CommandStep::Stop,
            None => CommandStep::Stop,
        }
    }
}

/// The reaction to an engine event: a link that came up or went down is
/// reported, received media is played, anything else is ignored.
pub fn react_to_rtc(notice: RtcNotice) -> (r: RtcReaction)
    ensures
        notice == RtcNotice::IceConnected ==> r matches RtcReaction::Report(PeerEvent::Connected),
        notice == RtcNotice::IceDisconnected ==> r matches RtcReaction::Report(PeerEvent::Disconnected),
        notice == RtcNotice::MediaData ==> r is Play,
        notice == RtcNotice::Other ==> r is Ignore,
{
    match notice {
        RtcNotice::IceConnected => RtcReaction::Report(PeerEvent::Connected),
        RtcNotice::IceDisconnected => RtcReaction::Report(PeerEvent::Disconnected),
        RtcNotice::MediaData => RtcReaction::Play,
        RtcNotice::Other => RtcReaction::Ignore,
    }
}

#[verifier::external_type_specification]
#[verifier::external_body]
pub struct ExRtc(Rtc);

#[verifier::external_type_specification]
#[verifier::external_body]
pub struct ExSdpApi<'a>(SdpApi<'a>);

#[verifier::external_type_specification]
#[verifier::external_body]
pub struct ExSdpOffer(SdpOffer);

#[verifier::external_type_specification]
#[verifier::external_body]
pub struct ExSdpAnswer(SdpAnswer);

#[verifier::external_type_specification]
#[verifier::external_body]
pub struct ExSdpPendingOffer(SdpPendingOffer);

#[verifier::external_type_specification]
#[verifier::external_body]
pub struct ExMid(Mid);

/// What kind of media a link carries.
#[derive(Clone, Copy, Debug, PartialEq, Eq, Structural)]
pub enum LinkMedia {
    Audio,
    Video,
}

/// Which way media flows on a link.
#[derive(Clone, Copy, Debug, PartialEq, Eq, Structural)]
pub enum LinkDirection {
    SendOnly,
    RecvOnly,
    SendRecv,
    Inactive,
}

/// Whether `SdpOffer::from_sdp_string` accepts the text: a function of the
/// text alone.
pub uninterp spec fn offer_parses(sdp: Seq<char>) -> bool;

/// Whether `SdpAnswer::from_sdp_string` accepts the text: a function of the
/// text alone.
pub uninterp spec fn answer_parses(sdp: Seq<char>) -> bool;

/// `Rtc::sdp_api`: opens a set of changes to the session. Nothing is
/// claimed of it.
#[verifier::external_body]
fn sdp_api(rtc: &mut Rtc) -> SdpApi<'_> {
    rtc.sdp_api()
}

/// `SdpApi::add_media` with no track id and no simulcast: adds a media
/// section to the change set and returns its id. Nothing is claimed of the
/// id (the session draws it).
#[verifier::external_body]
fn add_media(api: &mut SdpApi<'_>, kind: LinkMedia, dir: LinkDirection, stream_id: Option<String>) -> Mid {
    let kind = match kind {
        LinkMedia::Audio => MediaKind::Audio,
        LinkMedia::Video => MediaKind::Video,
    };
    let dir = match dir {
        LinkDirection::SendOnly => Direction::SendOnly,
        LinkDirection::RecvOnly => Direction::RecvOnly,
        LinkDirection::SendRecv => Direction::SendRecv,
        LinkDirection::Inactive => Direction::Inactive,
    };
    api.add_media(kind, dir, stream_id, None, None)
}

/// `SdpApi::apply`: applies the change set, giving an offer and the pending
/// state for its answer when the changes need negotiation. Whether they do
/// depends on the session, so nothing is claimed.
#[verifier::external_body]
fn apply(api: SdpApi<'_>) -> Option<(SdpOffer, SdpPendingOffer)> {
    api.apply()
}

/// `SdpOffer::to_sdp_string`: the offer's text. Nothing is claimed of it.
#[verifier::external_body]
fn offer_text(offer: &SdpOffer) -> String {
    offer.to_sdp_string()
}

/// `SdpAnswer::to_sdp_string`: the answer's text. Nothing is claimed of it.
#[verifier::external_body]
fn answer_text(answer: &SdpAnswer) -> String {
    answer.to_sdp_string()
}

/// `SdpOffer::from_sdp_string`: reads an offer; it succeeds exactly when
/// `offer_parses` holds of the text.
#[verifier::external_body]
fn parse_offer(sdp: &str) -> (offer: Option<SdpOffer>)
    ensures
        offer is Some <==> offer_parses(sdp@),
{
    SdpOffer::from_sdp_string(sdp).ok()
}

/// `SdpAnswer::from_sdp_string`: reads an answer; it succeeds exactly when
/// `answer_parses` holds of the text.
#[verifier::external_body]
fn parse_answer(sdp: &str) -> (answer: Option<SdpAnswer>)
    ensures
        answer is Some <==> answer_parses(sdp@),
{
    SdpAnswer::from_sdp_string(sdp).ok()
}

/// `SdpApi::accept_offer`: takes the remote offer into the session and
/// gives the answer, or `None` when the session refuses it. Whether it
/// refuses depends on the session, so nothing is claimed.
#[verifier::external_body]
fn accept_offer(api: SdpApi<'_>, offer: SdpOffer) -> Option<SdpAnswer> {
    api.accept_offer(offer).ok()
}

/// `SdpApi::accept_answer`: applies the remote answer to our pending offer;
/// `false` when the session refuses it. Nothing is claimed of which.
#[verifier::external_body]
fn accept_answer(api: SdpApi<'_>, pending: SdpPendingOffer, answer: SdpAnswer) -> bool {
    api.accept_answer(pending, answer).is_ok()
}

/// The stream id of the audio section a link opens with.
fn media_stream_id() -> (id: String)
    ensures
        id@ == "Mid"@,
{
    "Mid".to_string()
}

/// Opening a link: one two-way audio section is added to the session, and
/// the change set is applied. The offering side hands out the resulting
/// offer (with the pending state its answer will need); the other side
/// waits for the remote offer and hands out nothing.
pub fn open_link(session: &PeerSession, rtc: &mut Rtc) -> (res: (Mid, Option<(SdpPendingOffer, SignalPayload)>))
    ensures
        !session.offerer ==> res.1 is None,
        res.1 matches Some((_, payload)) ==> payload is Offer,
{
    let mut api = sdp_api(rtc);
    let mid = add_media(&mut api, LinkMedia::Audio, LinkDirection::SendRecv, Some(media_stream_id()));
    let applied = apply(api);
    if session.offerer {
        match applied {
            Some((offer, pending)) => {
                let sdp = offer_text(&offer);
                (mid, Some((pending, SignalPayload::Offer { sdp })))
            },
            None => (mid, None),
        }
    } else {
        (mid, None)
    }
}

/// What came of a remote session description.
#[derive(Debug, PartialEq, Eq)]
pub enum SignalOutcome {
    /// The remote offer was taken; send this answer back.
    Reply(SignalPayload),
    /// The offer's text could not be read.
    BadOffer,
    /// The session refused the offer.
    OfferRefused,
    /// The answer's text could not be read.
    BadAnswer,
    /// The answer was applied to our pending offer.
    AnswerApplied,
    /// The session refused the answer.
    AnswerRefused,
    /// An answer came but no offer of ours was waiting for one.
    NoOfferPending,
}

/// A remote session description, already decoded from the signal. An offer
/// that reads is taken into the session and answered; the pending offer is
/// left alone. An answer that reads is applied to our pending offer, if
/// there is one, and the offer then no longer waits, so an answer is
/// applied at most once. Text that does not read changes nothing.
pub fn handle_remote_signal(
    rtc: &mut Rtc,
    pending: &mut Option<SdpPendingOffer>,
    payload: SignalPayload,
) -> (outcome: SignalOutcome)
    ensures
        match payload {
            SignalPayload::Offer { sdp } => {
                &&& *final(pending) == *old(pending)
                &&& !offer_parses(sdp@) ==> outcome is BadOffer
                &&& offer_parses(sdp@) ==> (outcome matches SignalOutcome::Reply(
                    SignalPayload::Answer { .. },
                ) || outcome is OfferRefused)
            },
            SignalPayload::Answer { sdp } => {
                &&& !answer_parses(sdp@) ==> outcome is BadAnswer && *final(pending) == *old(
                    pending,
                )
                &&& answer_parses(sdp@) ==> *final(pending) is None
                &&& answer_parses(sdp@) && *old(pending) is None ==> outcome is NoOfferPending
                &&& answer_parses(sdp@) && *old(pending) is Some ==> (outcome is AnswerApplied
                    || outcome is AnswerRefused)
            },
        },
{
    match payload {
        SignalPayload::Offer { sdp } => {
            match parse_offer(sdp.as_str()) {
                Some(offer) => {
                    let api = sdp_api(rtc);
                    match accept_offer(api, offer) {
                        Some(answer) => SignalOutcome::Reply(
                            SignalPayload::Answer { sdp: answer_text(&answer) },
                        ),
                        None => SignalOutcome::OfferRefused,
                    }
                },
                None => SignalOutcome::BadOffer,
            }
        },
        SignalPayload::Answer { sdp } => {
            match parse_answer(sdp.as_str()) {
                Some(answer) => {
                    match pending.take() {
                        Some(p) => {
                            let api = sdp_api(rtc);
                            if accept_answer(api, p, answer) {
                                SignalOutcome::AnswerApplied
                            } else {
                                SignalOutcome::AnswerRefused
                            }
                        },
                        None => SignalOutcome::NoOfferPending,
                    }
                },
                None => SignalOutcome::BadAnswer,
            }
        },
    }
}

} // verus!

