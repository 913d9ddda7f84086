use rumix::codec::{decode, DecodeError};
use rumix::dispatch::{plan_dispatch, DispatchAction, DispatchEvent, Transmission};
use rumix::ingest::{ingest, Datagram, IngestEvent, IngestReport};
use rumix::message::AudioMessage;
use rumix::mixer::{mix_step, MixEvent, MixPolicy, MixReport, Mixer};
use rumix::peer::PeerAddress;
use rumix::pipeline::{relay, relay_all};

fn peer_at(last_octet: u32, port: u16) -> PeerAddress {
    PeerAddress::V4 { ip: 0x0A00_0000 + last_octet, port }
}

fn silent_payload(tag: u8) -> Vec<u8> {
    vec![8, 0, 0, 0, 4, 0, 4, 0, 4, 0, 0, 0, tag, 0, 0, 0]
}

fn audio_datagram(tag: u8, from: PeerAddress) -> Datagram {
    let mut bytes = vec![b'1', b'2', b'3', 1];
    bytes.extend_from_slice(&silent_payload(tag));
    Datagram { bytes, from }
}

fn echo_for(datagram: &Datagram) -> Transmission {
    Transmission { frame: datagram.bytes.clone(), to: datagram.from }
}

#[test]
fn silence_from_one_peer_is_echoed_once() {
    let peer = peer_at(1, 9000);
    let payload = vec![8u8, 0, 0, 0, 4, 0, 4, 0, 4, 0, 0, 0];
    let mut frame = vec![0x31u8, 0x32, 0x33, 1];
    frame.extend_from_slice(&payload);
    let mut mixer = Mixer::new(MixPolicy::Echo);
    let sent = relay(&mut mixer, &Datagram { bytes: frame.clone(), from: peer });
    assert_eq!(sent, vec![Transmission { frame, to: peer }]);
    assert_eq!(sent[0].to, PeerAddress::V4 { ip: (10 << 24) + 1, port: 9000 });
    assert_eq!(&sent[0].frame[4..], &payload[..]);
}

#[test]
fn echo_answers_every_datagram_in_order() {
    let peer = peer_at(1, 9000);
    let datagrams: Vec<Datagram> = (0..40u8).map(|tag| audio_datagram(tag, peer)).collect();
    let mut mixer = Mixer::new(MixPolicy::Echo);
    let sent = relay_all(&mut mixer, &datagrams);
    assert_eq!(sent.len(), 40);
    let expected: Vec<Transmission> = datagrams.iter().map(echo_for).collect();
    assert_eq!(sent, expected);
}

#[test]
fn relay_of_nothing_sends_nothing() {
    let mut mixer = Mixer::new(MixPolicy::Echo);
    assert_eq!(relay_all(&mut mixer, &Vec::new()), Vec::<Transmission>::new());
}

#[test]
fn relay_drops_what_does_not_decode() {
    let mut mixer = Mixer::new(MixPolicy::FanOut);
    let stray = Datagram { bytes: vec![b'1', b'2', b'3', 200, 1, 2], from: peer_at(3, 9000) };
    assert_eq!(decode(&stray.bytes, stray.from), Err(DecodeError::UnknownType));
    assert_eq!(relay(&mut mixer, &stray), Vec::<Transmission>::new());
    assert!(mixer.roster().is_empty());
}

#[test]
fn bad_magic_is_inert() {
    let peer = peer_at(1, 9000);
    let stray = Datagram { bytes: vec![b'j', b'a', b'm', 1, 8, 0, 0, 0], from: peer_at(2, 9000) };
    let clean = vec![audio_datagram(1, peer), audio_datagram(2, peer)];
    let noisy = vec![audio_datagram(1, peer), stray, audio_datagram(2, peer)];
    let sent_clean = relay_all(&mut Mixer::new(MixPolicy::Echo), &clean);
    let sent_noisy = relay_all(&mut Mixer::new(MixPolicy::Echo), &noisy);
    assert_eq!(sent_noisy, sent_clean);
    assert_eq!(sent_noisy.len(), 2);
}

#[test]
fn unknown_type_is_inert() {
    let alice = peer_at(1, 9000);
    let bob = peer_at(2, 9000);
    let mut stray = audio_datagram(9, peer_at(3, 9000));
    stray.bytes[3] = 2;
    let clean = vec![audio_datagram(1, alice), audio_datagram(2, bob), audio_datagram(3, alice)];
    let noisy = vec![
        stray.clone(),
        audio_datagram(1, alice),
        stray.clone(),
        audio_datagram(2, bob),
        audio_datagram(3, alice),
        stray,
    ];
    for policy in [MixPolicy::Echo, MixPolicy::FanOut] {
        let mut clean_mixer = Mixer::new(policy);
        let mut noisy_mixer = Mixer::new(policy);
        let sent_clean = relay_all(&mut clean_mixer, &clean);
        let sent_noisy = relay_all(&mut noisy_mixer, &noisy);
        assert_eq!(sent_noisy, sent_clean);
        assert_eq!(noisy_mixer.roster(), clean_mixer.roster());
    }
}

#[test]
fn malformed_payload_is_isolated() {
    let peer = peer_at(1, 9000);
    let mut corrupted = audio_datagram(5, peer);
    corrupted.bytes[4] = 0xFE;
    assert_eq!(decode(&corrupted.bytes, peer), Err(DecodeError::MalformedPayload));
    let mut datagrams: Vec<Datagram> = (0..9u8).map(|tag| audio_datagram(tag, peer)).collect();
    let expected: Vec<Transmission> = datagrams.iter().map(echo_for).collect();
    datagrams.insert(4, corrupted);
    let sent = relay_all(&mut Mixer::new(MixPolicy::Echo), &datagrams);
    assert_eq!(sent.len(), 9);
    assert_eq!(sent, expected);
}

#[test]
fn fan_out_pipeline_reaches_the_others() {
    let alice = peer_at(1, 9000);
    let bob = peer_at(2, 9000);
    let carol = peer_at(3, 9000);
    let datagrams = vec![
        audio_datagram(1, alice),
        audio_datagram(2, bob),
        audio_datagram(3, carol),
        audio_datagram(4, alice),
    ];
    let mut mixer = Mixer::new(MixPolicy::FanOut);
    let sent = relay_all(&mut mixer, &datagrams);
    assert_eq!(
        sent,
        vec![
            Transmission { frame: datagrams[1].bytes.clone(), to: alice },
            Transmission { frame: datagrams[2].bytes.clone(), to: alice },
            Transmission { frame: datagrams[2].bytes.clone(), to: bob },
            Transmission { frame: datagrams[3].bytes.clone(), to: bob },
            Transmission { frame: datagrams[3].bytes.clone(), to: carol },
        ]
    );
    assert_eq!(mixer.roster(), &[alice, bob, carol][..]);
}

#[test]
fn relay_all_is_relay_one_by_one() {
    let alice = peer_at(1, 9000);
    let bob = peer_at(2, 9001);
    let datagrams = vec![
        audio_datagram(1, alice),
        Datagram { bytes: vec![1, 2, 3], from: bob },
        audio_datagram(2, bob),
        audio_datagram(3, alice),
    ];
    let mut together = Mixer::new(MixPolicy::FanOut);
    let sent_together = relay_all(&mut together, &datagrams);
    let mut apart = Mixer::new(MixPolicy::FanOut);
    let mut sent_apart = Vec::new();
    for datagram in &datagrams {
        sent_apart.extend(relay(&mut apart, datagram));
    }
    assert_eq!(sent_together, sent_apart);
    assert_eq!(together.roster(), apart.roster());
}

#[test]
fn oversized_datagram_is_mixed_but_not_framed() {
    let peer = peer_at(1, 9000);
    let mut long = audio_datagram(0, peer);
    long.bytes.resize(1025, 0);
    let mut fits = audio_datagram(0, peer);
    fits.bytes.resize(1024, 0);
    let mut mixer = Mixer::new(MixPolicy::Echo);
    assert_eq!(relay(&mut mixer, &long), Vec::<Transmission>::new());
    assert_eq!(relay(&mut mixer, &fits), vec![echo_for(&fits)]);
}

#[test]
fn stages_joined_by_queues_echo_in_order() {
    let peer = peer_at(1, 9000);
    let (to_mixer, from_ingest) = flume::unbounded::<AudioMessage>();
    let (to_dispatch, from_mixer) = flume::unbounded::<AudioMessage>();
    let mut datagrams: Vec<Datagram> = (0..16u8).map(|tag| audio_datagram(tag, peer)).collect();
    let expected: Vec<Transmission> = datagrams.iter().map(echo_for).collect();
    datagrams.insert(3, Datagram { bytes: vec![0; 20], from: peer });
    datagrams.insert(7, Datagram { bytes: vec![b'1', b'2', b'3', 4], from: peer });

    let mut forwarded = 0;
    for datagram in datagrams {
        if ingest(&to_mixer, &IngestEvent::Received(datagram)) == IngestReport::Forwarded {
            forwarded += 1;
        }
    }
    assert_eq!(forwarded, 16);

    let mut mixer = Mixer::new(MixPolicy::Echo);
    for message in from_ingest.try_iter() {
        assert_eq!(mix_step(&mut mixer, &to_dispatch, MixEvent::Arrived(message)), MixReport::Emitted(1));
    }

    let mut sent = Vec::new();
    for message in from_mixer.try_iter() {
        match plan_dispatch(&DispatchEvent::Outbound(message)) {
            DispatchAction::Transmit(transmission) => sent.push(transmission),
            other => panic!("{:?}", other),
        }
    }
    assert_eq!(sent, expected);
}

/// Runs the three stages over real queues, each stage taking one item when
/// its letter comes up in `schedule`, and then lets them finish.
fn run_schedule(policy: MixPolicy, datagrams: &[Datagram], schedule: &str) -> Vec<Transmission> {
    let (to_mixer, from_ingest) = flume::unbounded::<AudioMessage>();
    let (to_dispatch, from_mixer) = flume::unbounded::<AudioMessage>();
    let mut arriving = datagrams.iter().cloned();
    let mut mixer = Mixer::new(policy);
    let mut sent = Vec::new();
    let finish = "i".repeat(datagrams.len()) + &"m".repeat(datagrams.len());
    let mut turns: Vec<char> = schedule.chars().chain(finish.chars()).collect();
    turns.extend(std::iter::repeat('d').take(datagrams.len() * datagrams.len() + 1));
    for turn in turns {
        match turn {
            'i' => {
                if let Some(datagram) = arriving.next() {
                    let _ = ingest(&to_mixer, &IngestEvent::Received(datagram));
                }
            }
            'm' => {
                if let Ok(message) = from_ingest.try_recv() {
                    let _ = mix_step(&mut mixer, &to_dispatch, MixEvent::Arrived(message));
                }
            }
            _ => {
                if let Ok(message) = from_mixer.try_recv() {
                    if let DispatchAction::Transmit(transmission) =
                        plan_dispatch(&DispatchEvent::Outbound(message))
                    {
                        sent.push(transmission);
                    }
                }
            }
        }
    }
    assert!(from_ingest.is_empty());
    assert!(from_mixer.is_empty());
    sent
}

#[test]
fn every_schedule_sends_the_same() {
    let alice = peer_at(1, 9000);
    let bob = peer_at(2, 9000);
    let carol = peer_at(3, 9000);
    let mut datagrams = Vec::new();
    for tag in 0..12u8 {
        let from = [alice, bob, carol][usize::from(tag % 3)];
        datagrams.push(audio_datagram(tag, from));
        if tag % 4 == 1 {
            datagrams.push(Datagram { bytes: vec![b'1', b'2', b'3', 1, tag], from });
        }
    }
    let schedules = [
        "",
        "imdimdimdimdimdimdimdimd",
        "iiiiiiiiiiiiiiimmmmmmmmmmmmmmmddddddddddddddd",
        "dmidmidmidmiiiimdddmmmiiidmdmdmd",
        "iimiimddiimmmddddiimdimdmmmdd",
    ];
    for policy in [MixPolicy::Echo, MixPolicy::FanOut] {
        let expected = relay_all(&mut Mixer::new(policy), &datagrams);
        assert!(!expected.is_empty());
        for schedule in schedules {
            assert_eq!(run_schedule(policy, &datagrams, schedule), expected);
        }
    }
}
