use openlogi_agent::json_api::{
    complain, devices_reply, frame, handle, play_reply, respond, take_line, ApiCall, ApiError, Body, Command,
    Frame, HapticWaveform, Reply, Waveform, WriteError, MAX_LINE, PROTOCOL,
};

fn bytes(text: &str) -> Vec<u8> {
    text.as_bytes().to_vec()
}

#[test]
fn device_failures_keep_distinguishable_codes() {
    let not_found = ApiError::from_write_error(&WriteError::DeviceNotFound, String::new());
    assert_eq!(not_found.code, "device_not_found");

    let unsupported = ApiError::from_write_error(
        &WriteError::FeatureUnsupported {
            feature_hex: 0x19b0,
        },
        String::new(),
    );
    assert_eq!(unsupported.code, "feature_unsupported");

    let other = ApiError::from_write_error(&WriteError::AgentUnavailable, "gone".to_string());
    assert_eq!(other.code, "device_error");
    assert_eq!(other.message, "gone");
}

#[test]
fn a_default_waveform_is_the_subtle_one() {
    assert!(matches!(
        HapticWaveform::from(Waveform::default()),
        HapticWaveform::SubtleCollision
    ));
    assert!(matches!(
        HapticWaveform::from(Waveform::Damp),
        HapticWaveform::DampStateChange
    ));
}

#[test]
fn blank_lines_are_skipped_rather_than_answered() {
    assert_eq!(frame(Some(1), &bytes("\n")), Frame::Skip);
    assert_eq!(frame(Some(4), &bytes("   \n")), Frame::Skip);
    assert_eq!(
        frame(Some(16), &bytes("{\"cmd\":\"hello\"}\n")),
        Frame::Request
    );
}

#[test]
fn the_length_cap_applies_per_line_not_per_connection() {
    let request = bytes("{\"cmd\":\"hello\"}\n");
    let rounds = (MAX_LINE / request.len()) + 2;
    for _ in 0..rounds {
        assert_eq!(frame(Some(request.len()), &request), Frame::Request);
    }
}

#[test]
fn an_over_long_line_is_refused_and_ends_the_connection() {
    let flood = bytes(&"x".repeat(MAX_LINE));
    assert_eq!(frame(Some(flood.len()), &flood), Frame::TooLong);
    let mut whole = bytes(&"x".repeat(MAX_LINE - 1));
    whole.push(b'\n');
    assert_eq!(frame(Some(whole.len()), &whole), Frame::Request);
    let complaint = ApiError::too_long();
    assert_eq!(complaint.code, "bad_request");
    assert!(complaint.message.contains("exceeds"));
}

#[test]
fn a_clean_disconnect_ends_the_loop_without_a_response() {
    assert_eq!(frame(Some(0), &vec![]), Frame::End);
    assert_eq!(frame(None, &bytes("{\"cmd\"")), Frame::End);
}

#[test]
fn commands_answer_or_ask_for_work() {
    match handle(Command::Hello, "9.9.9") {
        ApiCall::Answer(Reply::Hello { protocol, agent }) => {
            assert_eq!(protocol, PROTOCOL);
            assert_eq!(agent, "9.9.9");
        }
        other => panic!("hello answers at once: {other:?}"),
    }
    assert!(matches!(
        handle(Command::Devices, ""),
        ApiCall::ListDevices
    ));
    assert!(matches!(
        handle(
            Command::Play {
                waveform: Waveform::Damp,
                device: Some("abc".into())
            },
            ""
        ),
        ApiCall::Resolve {
            device: Some(device),
            waveform: HapticWaveform::DampStateChange
        } if device == "abc"
    ));
}

#[test]
fn replies_carry_the_request_id_back() {
    let response = respond(Some(7), play_reply(Ok(())));
    assert_eq!(response.id, Some(7));
    assert!(matches!(
        response.body,
        Body::Answer(Reply::Played { accepted: true })
    ));
    let failed = play_reply(Err((WriteError::DeviceNotFound, "no device".into())));
    assert!(matches!(
        failed,
        Body::Error(ApiError { code: "device_not_found", message }) if message == "no device"
    ));
    let complaint = complain("not json".into());
    assert_eq!(complaint.id, None);
    assert!(matches!(
        complaint.body,
        Body::Error(ApiError { code: "bad_request", .. })
    ));
    match devices_reply(vec![("k".into(), "Lift".into())]) {
        Body::Answer(Reply::Devices { devices }) => {
            assert_eq!(devices[0].key, "k");
            assert_eq!(devices[0].name, "Lift");
        }
        other => panic!("a device list comes back: {other:?}"),
    }
}

/// The lines that a client's bytes come to, however they are cut into reads.
fn lines(chunks: &[&[u8]]) -> Vec<Vec<u8>> {
    let mut pending = Vec::new();
    let mut lines = Vec::new();
    for chunk in chunks {
        pending.extend_from_slice(chunk);
        while let Some(line) = take_line(&mut pending, false) {
            lines.push(line);
        }
    }
    while let Some(line) = take_line(&mut pending, true) {
        if line.is_empty() {
            break;
        }
        lines.push(line);
    }
    lines
}

#[test]
fn several_requests_share_one_connection_and_answer_in_order() {
    let whole: &[u8] = b"{\"id\":1,\"cmd\":\"hello\"}\n{\"id\":2,\"cmd\":\"play\"}\nrest";
    let expected = vec![
        bytes("{\"id\":1,\"cmd\":\"hello\"}\n"),
        bytes("{\"id\":2,\"cmd\":\"play\"}\n"),
        bytes("rest"),
    ];
    assert_eq!(lines(&[whole]), expected);
    for cut in 0..=whole.len() {
        assert_eq!(lines(&[&whole[..cut], &whole[cut..]]), expected);
    }
}

#[test]
fn a_line_stops_at_the_cap() {
    let flood = vec![b'x'; MAX_LINE * 2];
    let taken = lines(&[&flood]);
    assert_eq!(taken.len(), 2);
    assert_eq!(taken[0].len(), MAX_LINE);
    assert_eq!(frame(Some(taken[0].len()), &taken[0]), Frame::TooLong);
    let mut pending = bytes("half");
    assert_eq!(take_line(&mut pending, false), None);
    assert_eq!(pending, bytes("half"));
    assert_eq!(take_line(&mut pending, true), Some(bytes("half")));
    assert_eq!(take_line(&mut pending, true), Some(vec![]));
}

#[test]
fn every_ascii_blank_is_skipped() {
    assert_eq!(frame(Some(6), &bytes(" \t\r\n\x0c ")), Frame::Skip);
    assert_eq!(frame(Some(2), &bytes("\x0b\n")), Frame::Request);
}
