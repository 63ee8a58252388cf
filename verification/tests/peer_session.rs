use clarity::peer::{
    handle_remote_signal, is_offerer, open_link, react_to_rtc, CommandStep, PeerEvent, PeerSession,
    PeerTaskCmd, RtcNotice, RtcReaction, SignalOutcome, SignalPayload, RTP_FRAME_TICKS,
};
use std::time::Instant;
use str0m::change::SdpPendingOffer;
use str0m::{Rtc, RtcConfig};

fn engine() -> Rtc {
    RtcConfig::new().enable_opus(true).build(Instant::now())
}

#[test]
fn smaller_id_offers() {
    assert!(is_offerer(1, 2));
    assert!(!is_offerer(2, 1));
    assert!(!is_offerer(7, 7));
}

#[test]
fn exactly_one_of_two_peers_offers() {
    let pairs = [(0u128, u128::MAX), (5, 6), (0x4000_0000, 0x3fff_ffff)];
    for (a, b) in pairs {
        assert!(is_offerer(a, b) != is_offerer(b, a));
    }
}

#[test]
fn uuid_order_matches_integer_order() {
    let a = uuid::Uuid::from_u128(0x0100_0000_0000_0000_0000_0000_0000_00ff);
    let b = uuid::Uuid::from_u128(0x0200_0000_0000_0000_0000_0000_0000_0001);
    assert_eq!(a < b, is_offerer(a.as_u128(), b.as_u128()));
}

#[test]
fn frames_are_stamped_and_the_clock_advances() {
    let mut s = PeerSession::new(true);
    assert_eq!(s.on_audio_frame(true), Some(0));
    assert_eq!(s.on_audio_frame(true), Some(960));
    assert_eq!(s.rtp_ts, 2 * RTP_FRAME_TICKS);
}

#[test]
fn nothing_is_sent_before_the_link_is_up() {
    let mut s = PeerSession::new(false);
    assert_eq!(s.on_audio_frame(false), None);
    assert_eq!(s.rtp_ts, 0);
}

#[test]
fn muting_holds_back_frames_and_the_clock() {
    let mut s = PeerSession::new(true);
    s.on_audio_frame(true);
    assert_eq!(s.on_command(Some(PeerTaskCmd::SetMute(true))), CommandStep::Continue);
    assert_eq!(s.on_audio_frame(true), None);
    assert_eq!(s.on_audio_frame(true), None);
    assert_eq!(s.on_command(Some(PeerTaskCmd::SetMute(false))), CommandStep::Continue);
    assert_eq!(s.on_audio_frame(true), Some(960));
}

#[test]
fn media_clock_wraps() {
    let mut s = PeerSession::new(true);
    s.rtp_ts = u32::MAX - 100;
    assert_eq!(s.on_audio_frame(true), Some(u32::MAX - 100));
    assert_eq!(s.rtp_ts, 859);
}

#[test]
fn commands_lead_to_their_steps() {
    let mut s = PeerSession::new(true);
    assert_eq!(
        s.on_command(Some(PeerTaskCmd::RemoteSignal("sig".to_string()))),
        CommandStep::HandleSignal("sig".to_string())
    );
    assert_eq!(s.on_command(Some(PeerTaskCmd::Shutdown)), CommandStep::Stop);
    assert_eq!(s.on_command(None), CommandStep::Stop);
    assert!(!s.muted);
}

#[test]
fn offering_side_hands_out_an_offer() {
    let mut rtc = engine();
    let (_mid, offer) = open_link(&PeerSession::new(true), &mut rtc);
    match offer {
        Some((_pending, SignalPayload::Offer { sdp })) => assert!(sdp.starts_with("v=0")),
        _ => panic!("no offer"),
    }
}

#[test]
fn answering_side_hands_out_nothing() {
    let mut rtc = engine();
    let (_mid, offer) = open_link(&PeerSession::new(false), &mut rtc);
    assert!(offer.is_none());
}

#[test]
fn offer_and_answer_complete_a_negotiation() {
    let mut a = engine();
    let mut b = engine();
    let (_, offer) = open_link(&PeerSession::new(true), &mut a);
    let (pending, offer) = offer.expect("offer");
    let mut pending_a: Option<SdpPendingOffer> = Some(pending);
    let mut pending_b: Option<SdpPendingOffer> = None;
    let (_, none) = open_link(&PeerSession::new(false), &mut b);
    assert!(none.is_none());

    let reply = handle_remote_signal(&mut b, &mut pending_b, offer);
    let answer = match reply {
        SignalOutcome::Reply(p @ SignalPayload::Answer { .. }) => p,
        other => panic!("unexpected {:?}", other),
    };
    assert!(pending_b.is_none());

    let dup = match &answer {
        SignalPayload::Answer { sdp } => SignalPayload::Answer { sdp: sdp.clone() },
        _ => unreachable!(),
    };
    assert_eq!(handle_remote_signal(&mut a, &mut pending_a, answer), SignalOutcome::AnswerApplied);
    assert!(pending_a.is_none());
    // The same answer again finds no offer waiting.
    assert_eq!(handle_remote_signal(&mut a, &mut pending_a, dup), SignalOutcome::NoOfferPending);
}

#[test]
fn unreadable_descriptions_change_nothing() {
    let mut a = engine();
    let (_, offer) = open_link(&PeerSession::new(true), &mut a);
    let (pending, _) = offer.expect("offer");
    let mut pending_a = Some(pending);
    let out = handle_remote_signal(&mut a, &mut pending_a, SignalPayload::Answer { sdp: "not sdp".to_string() });
    assert_eq!(out, SignalOutcome::BadAnswer);
    assert!(pending_a.is_some());
    let out = handle_remote_signal(&mut a, &mut pending_a, SignalPayload::Offer { sdp: "not sdp".to_string() });
    assert_eq!(out, SignalOutcome::BadOffer);
    assert!(pending_a.is_some());
}

#[test]
fn engine_events_are_reported_or_played() {
    assert_eq!(react_to_rtc(RtcNotice::IceConnected), RtcReaction::Report(PeerEvent::Connected));
    assert_eq!(react_to_rtc(RtcNotice::IceDisconnected), RtcReaction::Report(PeerEvent::Disconnected));
    assert_eq!(react_to_rtc(RtcNotice::MediaData), RtcReaction::Play);
    assert_eq!(react_to_rtc(RtcNotice::Other), RtcReaction::Ignore);
}
