use grimoire::audio::{
    check_frame_length, choose_device, is_joined_channel, listed_names, selected_device_index,
    suppress_playout, unusable_default, AudioError, DeviceChoice, Speaker, VoiceDeviceConfig,
    VoiceState, FRAME_SAMPLES, MAX_PACKET_BYTES,
};
use grimoire::model::{ChannelId, Command, VoiceFrame, VoicePresence, VoiceStreamId};
use grimoire::playout::{Draw, VoicePlayout};

#[test]
fn mute_state_controls_transmission() {
    let mut muted = VoiceState::default();
    assert!(!muted.is_muted());
    muted.set_muted(true);
    assert!(muted.is_muted());
    muted.set_muted(false);
    assert!(!muted.is_muted());
}

#[test]
fn device_name_selection_uses_exact_match_or_default() {
    let names = vec!["Built-in".to_owned(), "USB Headset".to_owned()];

    assert_eq!(selected_device_index(Some("USB Headset"), &names), Some(1));
    assert_eq!(selected_device_index(Some("usb headset"), &names), None);
    assert_eq!(selected_device_index(Some("Missing"), &names), None);
    assert_eq!(selected_device_index(None, &names), None);
}

#[test]
fn deafen_suppresses_playout_frames() {
    let frame = [0.5_f32; FRAME_SAMPLES];

    assert_eq!(suppress_playout(false, Some(frame)), Some(frame));
    assert_eq!(suppress_playout(true, Some(frame)), None);
    assert_eq!(suppress_playout::<[f32; FRAME_SAMPLES]>(false, None), None);
}

#[test]
fn voice_frames_are_scoped_to_the_joined_channel() {
    let joined = ChannelId::from_bytes([2; 32]);
    let other = ChannelId::from_bytes([3; 32]);
    let frame =
        VoiceFrame::in_channel(VoiceStreamId::from_bytes([4; 16]), joined, 0, vec![1]).unwrap();

    assert!(is_joined_channel(&frame, joined));
    assert!(!is_joined_channel(&frame, other));
}

#[test]
fn playout_reorders_mixes_and_expires_remote_streams() {
    let mut playout = VoicePlayout::new();
    for stream in 0..3_u8 {
        let id = VoiceStreamId::from_bytes([stream; 16]);
        for sequence in [1, 0, 2] {
            playout.push(id, sequence, vec![sequence as u8]).unwrap();
        }
    }
    let drawn = playout.draw();
    assert_eq!(drawn.len(), 3);
    for (stream, draw) in drawn.iter().enumerate() {
        assert_eq!(draw.stream, VoiceStreamId::from_bytes([stream as u8; 16]));
        assert_eq!(draw.packet, Some(vec![0]));
    }

    let mut stalled = VoicePlayout::new();
    for stream in 0..3_u8 {
        stalled
            .push(VoiceStreamId::from_bytes([stream; 16]), 0, vec![1])
            .unwrap();
    }
    for _ in 0..11 {
        assert!(stalled.draw().is_empty());
    }
    assert!(stalled
        .push(VoiceStreamId::from_bytes([9; 16]), 0, vec![1])
        .is_ok());
}

#[test]
fn streams_play_forwards_and_drop_what_is_late() {
    let id = VoiceStreamId::from_bytes([7; 16]);
    let mut playout = VoicePlayout::new();
    for sequence in [2, 1, 0] {
        playout.push(id, sequence, vec![sequence as u8 + 10]).unwrap();
    }
    for expected in 10..13 {
        assert_eq!(
            playout.draw(),
            vec![Draw {
                stream: id,
                packet: Some(vec![expected]),
            }]
        );
        playout.decoded(id, true, true);
    }
    playout.push(id, 1, vec![99]).unwrap();
    assert_eq!(
        playout.draw(),
        vec![Draw {
            stream: id,
            packet: None,
        }]
    );
}

#[test]
fn silent_streams_end() {
    let id = VoiceStreamId::from_bytes([7; 16]);
    let mut playout = VoicePlayout::new();
    for sequence in 0..3 {
        playout.push(id, sequence, vec![1]).unwrap();
    }
    for _ in 0..13 {
        for draw in playout.draw() {
            playout.decoded(id, draw.packet.is_some(), true);
        }
        assert!(playout.has_stream(id));
    }
    for draw in playout.draw() {
        playout.decoded(id, draw.packet.is_some(), true);
    }
    assert!(!playout.has_stream(id));
}

#[test]
fn a_fourth_stream_and_wrong_packets_are_refused() {
    let mut playout = VoicePlayout::new();
    for stream in 0..3_u8 {
        playout
            .push(VoiceStreamId::from_bytes([stream; 16]), 0, vec![1])
            .unwrap();
    }
    let fourth = VoiceStreamId::from_bytes([9; 16]);
    assert!(playout.push(fourth, 0, vec![1]).is_err());
    let known = VoiceStreamId::from_bytes([0; 16]);
    assert!(playout.push(known, 1, vec![]).is_err());
    assert!(playout
        .push(known, 1, vec![0; MAX_PACKET_BYTES + 1])
        .is_err());
    assert_eq!(playout.admits(known, MAX_PACKET_BYTES), Ok(false));
    assert_eq!(VoicePlayout::new().admits(known, 1), Ok(true));
}

#[test]
fn device_lists_are_sorted_without_repeats() {
    let names = vec!["b".to_owned(), "a".to_owned(), "b".to_owned()];
    assert_eq!(listed_names(&names), vec!["a".to_owned(), "b".to_owned()]);
    assert_eq!(
        VoiceDeviceConfig::default(),
        VoiceDeviceConfig {
            input_device: None,
            output_device: None,
        }
    );
}

#[test]
fn unusable_devices_give_way_to_the_default() {
    assert_eq!(
        choose_device(Some(1), true, true, Some("usb"), "input"),
        Ok(DeviceChoice::Listed(1))
    );
    assert_eq!(
        choose_device(Some(1), false, true, Some("usb"), "input"),
        Ok(DeviceChoice::Default)
    );
    let missing = choose_device(None, false, false, Some("usb"), "input").unwrap_err();
    assert!(missing.text().contains("usb"));
    let none = choose_device(None, false, false, None, "output").unwrap_err();
    assert!(none.text().contains("output"));
    let cause = AudioError::message("busy");
    assert!(unusable_default("output", &cause).text().contains("busy"));
    assert!(check_frame_length(FRAME_SAMPLES).is_ok());
    assert!(check_frame_length(FRAME_SAMPLES + 1).is_err());
}

#[test]
fn speakers_number_their_frames_and_fall_silent_when_muted() {
    let room = ChannelId::voice_room();
    let mut speaker = Speaker::new(room, VoiceStreamId::from_bytes([4; 16]));
    let Ok(Some(Command::SendVoice(first))) = speaker.speak(vec![1]) else {
        panic!("a packet is sent as a frame");
    };
    assert_eq!(first.sequence(), 0);
    assert_eq!(first.channel_id(), room);
    speaker.spoken();
    let Ok(Some(Command::SendVoice(second))) = speaker.speak(vec![2]) else {
        panic!("a packet is sent as a frame");
    };
    assert_eq!(second.sequence(), 1);
    speaker.state.set_muted(true);
    assert_eq!(speaker.speak(vec![3]), Ok(None));
    assert!(matches!(
        speaker.presence(VoicePresence::Muted(true)),
        Command::SetVoicePresence {
            state: VoicePresence::Muted(true),
            ..
        }
    ));
    assert!(speaker.hears(&first));
    speaker.state.set_deafened(true);
    assert!(speaker.state.is_deafened());
    speaker.state.set_muted(false);
    assert!(speaker.speak(vec![]).is_err());
}
