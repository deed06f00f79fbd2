use loramesh::radio::{
    assert_response, default_init_commands, has_prefix, init_lines, is_noise, mkerror, on_reply, oninit, onrx, rxstart,
    rxstop, same_text, tx, tx_command, Arbiter, Awaiting, RadioAction, Reply,
};

#[test]
fn response_must_match() {
    assert!(assert_response(String::from("ok"), String::from("ok")).is_ok());
    let fault = assert_response(String::from("busy"), String::from("ok")).unwrap_err();
    assert_eq!(fault.message, "Unexpected response: got busy, expected ok");
    let fault = assert_response(String::from(""), String::from("ok")).unwrap_err();
    assert_eq!(fault.message, "Unexpected response: got , expected ok");
    assert_eq!(mkerror("something").message, "something");
}

#[test]
fn text_helpers() {
    assert!(same_text("radio_err", "radio_err"));
    assert!(!same_text("radio_err", "radio_er"));
    assert!(has_prefix("radio_rx  00", "radio_rx "));
    assert!(has_prefix("radio_rx ", "radio_rx "));
    assert!(!has_prefix("radio_rx", "radio_rx "));
    assert!(!has_prefix("radio_tx_ok", "radio_rx "));
    assert!(has_prefix("anything", ""));
    assert!(is_noise("radio_err"));
    assert!(!is_noise("ok"));
}

#[test]
fn init_refuses_invalid_param_only() {
    assert!(oninit("ok").is_ok());
    assert!(oninit("RN2903 1.0.3").is_ok());
    assert!(oninit("radio_err").is_ok());
    assert_eq!(oninit("invalid_param").unwrap_err().message, "Bad response from radio during initialization");
}

#[test]
fn default_commands_in_order() {
    let commands = default_init_commands();
    assert_eq!(
        commands,
        vec![
            "sys get ver",
            "mac reset",
            "mac pause",
            "radio get mod",
            "radio get freq",
            "radio get pwr",
            "radio get sf",
            "radio get bw",
            "radio get cr",
            "radio get wdt",
            "radio set pwr 20",
            "radio set sf sf12",
            "radio set bw 125",
            "radio set cr 4/5",
            "radio set wdt 60000",
        ]
    );
    assert_eq!(init_lines(None), commands);
}

#[test]
fn init_file_replaces_defaults_and_skips_empty_lines() {
    let file = vec![String::from("mac pause"), String::new(), String::from("radio set sf sf7"), String::new()];
    assert_eq!(init_lines(Some(file)), vec!["mac pause", "radio set sf sf7"]);
    assert_eq!(init_lines(Some(vec![])), Vec::<String>::new());
    assert_eq!(init_lines(Some(vec![String::from(" ")])), vec![" "]);
}

#[test]
fn received_line_yields_the_frame() {
    assert_eq!(onrx("radio_rx  0001090302").unwrap(), Some(vec![0, 1, 9, 3, 2]));
    assert_eq!(onrx("radio_rx  DEADbeef").unwrap(), Some(vec![0xde, 0xad, 0xbe, 0xef]));
    assert_eq!(onrx("radio_rx  ").unwrap(), Some(vec![]));
    assert_eq!(onrx("radio_rx x41").unwrap(), Some(vec![0x41]));
    assert_eq!(onrx("radio_err").unwrap(), None);
    assert_eq!(onrx("ok").unwrap(), None);
    assert_eq!(onrx("").unwrap(), None);
    assert_eq!(onrx("radio_rx").unwrap(), None);
    assert_eq!(onrx("radio_tx_ok").unwrap(), None);
}

#[test]
fn received_line_with_bad_hex_is_a_fault() {
    for line in ["radio_rx ", "radio_rx  0", "radio_rx  0g", "radio_rx  00 11", "radio_rx \u{e9}41", "radio_rx  \u{e9}1"] {
        assert_eq!(onrx(line).unwrap_err().message, "Error with hex decoding", "{}", line);
    }
}

#[test]
fn transmit_command_is_lower_case_hex() {
    assert_eq!(tx_command(&vec![0x00, 0x2a, 0x09, 0xff, 0xAB]), "radio tx 002a09ffab");
    assert_eq!(tx_command(&vec![]), "radio tx ");
    let frame: Vec<u8> = (0..=255u8).collect();
    let command = tx_command(&frame);
    let line = format!("radio_rx  {}", &command["radio tx ".len()..]);
    assert_eq!(onrx(&line).unwrap(), Some(frame));
}

fn is_listen(action: &RadioAction, started: bool) -> bool {
    matches!(action, RadioAction::Listen { start } if *start == started)
}

#[test]
fn arbiter_listens_without_token_or_frame() {
    let mut arbiter = Arbiter::new();
    assert!(arbiter.is_listening());
    assert!(arbiter.wants_frame());
    assert!(is_listen(&arbiter.arbitrate(true), false));
    assert!(is_listen(&arbiter.arbitrate(false), false));
    arbiter.offer(vec![1]);
    assert!(!arbiter.wants_frame());
    assert!(is_listen(&arbiter.arbitrate(false), false));
    assert!(arbiter.is_listening());
    assert!(!arbiter.wants_frame());
}

#[test]
fn arbiter_transmits_one_frame_per_token_in_order() {
    let mut queue: Vec<Vec<u8>> = (1..=5u8).map(|n| vec![n]).collect();
    queue.reverse();
    let mut arbiter = Arbiter::new();
    let mut sent: Vec<(usize, Vec<u8>)> = Vec::new();
    // one token in every fourth step
    for step in 0..20usize {
        if arbiter.wants_frame() {
            if let Some(frame) = queue.pop() {
                arbiter.offer(frame);
            }
        }
        let token = step % 4 == 0;
        match arbiter.arbitrate(token) {
            RadioAction::Transmit { stop, frame } => {
                assert!(token);
                assert!(stop);
                assert!(!arbiter.is_listening());
                sent.push((step, frame));
            },
            RadioAction::Listen { start } => {
                assert_eq!(start, step % 4 == 1);
                assert!(arbiter.is_listening());
            },
        }
    }
    assert_eq!(sent, vec![(0, vec![1]), (4, vec![2]), (8, vec![3]), (12, vec![4]), (16, vec![5])]);
}

#[test]
fn arbiter_stays_in_transmit_while_tokens_last() {
    let mut arbiter = Arbiter::new();
    arbiter.offer(vec![1]);
    match arbiter.arbitrate(true) {
        RadioAction::Transmit { stop, frame } => {
            assert!(stop);
            assert_eq!(frame, vec![1]);
        },
        RadioAction::Listen { .. } => panic!("a frame and a token"),
    }
    arbiter.offer(vec![2]);
    match arbiter.arbitrate(true) {
        RadioAction::Transmit { stop, frame } => {
            assert!(!stop);
            assert_eq!(frame, vec![2]);
        },
        RadioAction::Listen { .. } => panic!("a frame and a token"),
    }
    assert!(is_listen(&arbiter.arbitrate(true), true));
    assert!(is_listen(&arbiter.arbitrate(true), false));
}

fn done_ok(reply: &Reply) -> bool {
    matches!(reply, Reply::Done(Ok(())))
}

fn fault(reply: Reply) -> String {
    match reply {
        Reply::Done(Err(fault)) => fault.message,
        other => panic!("no fault: {:?}", other),
    }
}

#[test]
fn starting_to_receive_ends_with_ok() {
    let exchange = rxstart();
    assert_eq!(exchange.command, "radio rx 0");
    assert_eq!(exchange.awaiting, Awaiting::RxAck { noise: false });
    assert!(done_ok(&on_reply(exchange.awaiting, "ok")));
    // one line of noise is passed over
    match on_reply(exchange.awaiting, "radio_err") {
        Reply::More(next) => {
            assert_eq!(next, Awaiting::RxAck { noise: true });
            assert!(done_ok(&on_reply(next, "ok")));
            assert_eq!(fault(on_reply(next, "radio_err")), "Unexpected response: got radio_err, expected ok");
        },
        other => panic!("{:?}", other),
    }
    assert_eq!(fault(on_reply(exchange.awaiting, "busy")), "Unexpected response: got busy, expected ok");
}

#[test]
fn transmission_ends_with_the_line_after_ok() {
    let exchange = tx(&vec![0, 1, 9, 3, 0, 0xfe]);
    assert_eq!(exchange.command, "radio tx 0001090300fe");
    assert_eq!(exchange.awaiting, Awaiting::TxAck { noise: false });
    let mut awaiting = exchange.awaiting;
    let mut seen = Vec::new();
    for line in ["radio_err", "ok", "radio_tx_ok"] {
        match on_reply(awaiting, line) {
            Reply::More(next) => {
                seen.push(next);
                awaiting = next;
            },
            reply => {
                assert!(done_ok(&reply));
                assert_eq!(line, "radio_tx_ok");
            },
        }
    }
    assert_eq!(seen, vec![Awaiting::TxAck { noise: true }, Awaiting::TxDone]);
    assert!(done_ok(&on_reply(Awaiting::TxDone, "radio_err")));
    assert_eq!(fault(on_reply(exchange.awaiting, "invalid_param")), "Unexpected response: got invalid_param, expected ok");
}

#[test]
fn stopping_to_receive_hands_on_a_late_frame() {
    let exchange = rxstop();
    assert_eq!(exchange.command, "radio rxstop");
    assert_eq!(exchange.awaiting, Awaiting::StopReply);
    assert!(done_ok(&on_reply(exchange.awaiting, "ok")));
    assert!(done_ok(&on_reply(exchange.awaiting, "radio_err")));
    match on_reply(exchange.awaiting, "radio_rx  00010903") {
        Reply::Frame(frame, next) => {
            assert_eq!(frame, vec![0, 1, 9, 3]);
            assert_eq!(next, Awaiting::StopTail);
            assert!(done_ok(&on_reply(next, "ok")));
            assert!(done_ok(&on_reply(next, "radio_err")));
        },
        other => panic!("{:?}", other),
    }
    assert_eq!(fault(on_reply(exchange.awaiting, "radio_rx  0x")), "Error with hex decoding");
}
