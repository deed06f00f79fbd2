//! The conversation with the radio modem: its commands and replies, and the
//! arbiter that shares the half-duplex link between receiving and sending.

use vstd::prelude::*;
use vstd::string::*;
use crate::hexcodec::{bytes_of_hex, hex_decode, hex_encode, hex_text, is_hex_text};

verus! {

/// The command that puts the modem into continuous receive.
pub const CMD_RX: &'static str = "radio rx 0";

/// The command that takes the modem out of receive.
pub const CMD_RXSTOP: &'static str = "radio rxstop";

/// What goes before the hexadecimal frame in the command to transmit.
pub const CMD_TX: &'static str = "radio tx ";

/// A command that the modem does not know, sent first to flush its input.
pub const CMD_INVALID: &'static str = "INVALIDCOMMAND";

/// The reply that accepts a command.
pub const REPLY_OK: &'static str = "ok";

/// A reply that may come before the awaited one and means nothing.
pub const REPLY_ERR: &'static str = "radio_err";

/// The reply that refuses a command of the initialisation.
pub const REPLY_INVALID_PARAM: &'static str = "invalid_param";

/// What goes before the hexadecimal frame in the line of a received frame.
pub const RX_PREFIX: &'static str = "radio_rx ";

/// Where the hexadecimal frame begins in the line of a received frame.
pub const RX_HEX_START: usize = 10;

/// The start of the message about an unexpected reply.
pub const UNEXPECTED_GOT: &'static str = "Unexpected response: got ";

/// The middle of the message about an unexpected reply.
pub const UNEXPECTED_EXPECTED: &'static str = ", expected ";

/// The message about a refused command of the initialisation.
pub const BAD_INIT: &'static str = "Bad response from radio during initialization";

/// The message about a received frame that is not hexadecimal.
pub const BAD_HEX: &'static str = "Error with hex decoding";

/// Received frames.  The option is populated only if the quality of
/// reception was read, and reflects the SNR and RSSI of the received packet.
#[derive(Debug)]
pub struct ReceivedFrames(pub Vec<u8>, pub Option<(String, String)>);

/// A radio that carries the frames of the mesh.
pub trait LoRaDevice {

}

/// A fault in the conversation with the modem.
#[derive(Debug)]
pub struct RadioError {
    pub message: String,
}

/// Whether `prefix` stands at the start of `text`.
pub open spec fn starts_with(text: Seq<char>, prefix: Seq<char>) -> bool {
    text.len() >= prefix.len() && text.subrange(0, prefix.len() as int) == prefix
}

/// The message about the reply `got` where `expected` was awaited.
pub open spec fn unexpected_response(got: Seq<char>, expected: Seq<char>) -> Seq<char> {
    UNEXPECTED_GOT@ + got + UNEXPECTED_EXPECTED@ + expected
}

/// Whether two texts are the same.
pub fn same_text(a: &str, b: &str) -> (same: bool)
    ensures
        same == (a@ == b@),
{
    String::from_str(a) == String::from_str(b)
}

/// Whether `prefix` stands at the start of `text`.
pub fn has_prefix(text: &str, prefix: &str) -> (found: bool)
    ensures
        found == starts_with(text@, prefix@),
{
    let wanted: usize = prefix.unicode_len();
    if text.unicode_len() < wanted {
        return false;
    }
    same_text(text.substring_char(0, wanted), prefix)
}

/// A fault with the given message.
pub fn mkerror(msg: &str) -> (fault: RadioError)
    ensures
        fault.message@ == msg@,
{
    RadioError { message: String::from_str(msg) }
}

/// Assert that a given response matches the given text. Return an error if
/// it does not.
pub fn assert_response(resp: String, expected: String) -> (checked: Result<(), RadioError>)
    ensures
        resp@ == expected@ ==> checked.is_ok(),
        resp@ != expected@ ==> checked.is_err() && checked.unwrap_err().message@ == unexpected_response(
            resp@,
            expected@,
        ),
{
    if resp == expected {
        Ok(())
    } else {
        let mut message = String::from_str(UNEXPECTED_GOT);
        message.append(resp.as_str());
        message.append(UNEXPECTED_EXPECTED);
        message.append(expected.as_str());
        Err(RadioError { message })
    }
}

/// Whether a reply is the one that may come before the awaited one, so that
/// another line has to be read.
pub fn is_noise(line: &str) -> (noise: bool)
    ensures
        noise == (line@ == REPLY_ERR@),
{
    same_text(line, REPLY_ERR)
}

/// Checks the reply to a command of the initialisation: it is refused
/// exactly when the modem answers that a parameter is invalid.
pub fn oninit(line: &str) -> (checked: Result<(), RadioError>)
    ensures
        line@ != REPLY_INVALID_PARAM@ ==> checked.is_ok(),
        line@ == REPLY_INVALID_PARAM@ ==> checked.is_err() && checked.unwrap_err().message@ == BAD_INIT@,
{
    if same_text(line, REPLY_INVALID_PARAM) {
        Err(mkerror(BAD_INIT))
    } else {
        Ok(())
    }
}

/// Whether a line announces a received frame.
pub open spec fn is_rx_line(line: Seq<char>) -> bool {
    starts_with(line, RX_PREFIX@)
}

/// Whether the line of a received frame holds a frame: after its first ten
/// bytes, which are the prefix and one more byte, it is hexadecimal.
pub open spec fn holds_frame(line: Seq<char>) -> bool {
    &&& line.len() >= RX_HEX_START
    &&& line[RX_HEX_START - 1] <= '\u{7f}'
    &&& is_hex_text(line.subrange(RX_HEX_START as int, line.len() as int))
}

/// The frame that the line of a received frame holds.
pub open spec fn frame_of_line(line: Seq<char>) -> Seq<u8>
    recommends
        holds_frame(line),
{
    bytes_of_hex(line.subrange(RX_HEX_START as int, line.len() as int))
}

/// Reads a line that the modem sent while listening: the frame that it
/// holds if it announces one, nothing for any other line, and a fault for an
/// announced frame that is not hexadecimal.
pub fn onrx(msg: &str) -> (received: Result<Option<Vec<u8>>, RadioError>)
    ensures
        !is_rx_line(msg@) ==> received.is_ok() && received.unwrap().is_none(),
        is_rx_line(msg@) && holds_frame(msg@) ==> received.is_ok() && received.unwrap().is_some()
            && received.unwrap().unwrap()@ == frame_of_line(msg@),
        is_rx_line(msg@) && !holds_frame(msg@) ==> received.is_err() && received.unwrap_err().message@ == BAD_HEX@,
{
    if !has_prefix(msg, RX_PREFIX) {
        return Ok(None);
    }
    let length: usize = msg.unicode_len();
    if length < RX_HEX_START {
        return Err(mkerror(BAD_HEX));
    }
    if msg.get_char(RX_HEX_START - 1) > '\u{7f}' {
        return Err(mkerror(BAD_HEX));
    }
    match hex_decode(msg.substring_char(RX_HEX_START, length)) {
        Some(decoded) => Ok(Some(decoded)),
        None => Err(mkerror(BAD_HEX)),
    }
}

/// The command that transmits a frame: the prefix, then the frame in
/// lower-case hexadecimal.
pub open spec fn tx_command_text(data: Seq<u8>) -> Seq<char> {
    CMD_TX@ + hex_text(data)
}

/// The command that transmits a frame.
pub fn tx_command(data: &Vec<u8>) -> (command: String)
    ensures
        command@ == tx_command_text(data@),
{
    let mut command = String::from_str(CMD_TX);
    let hex = hex_encode(data);
    command.append(hex.as_str());
    command
}

/// The views of a list of lines.
pub open spec fn line_views(lines: Seq<String>) -> Seq<Seq<char>> {
    lines.map_values(|line: String| line@)
}

/// The commands that initialise the modem when no others are given.
pub open spec fn default_commands() -> Seq<Seq<char>> {
    seq![
        "sys get ver"@,
        "mac reset"@,
        "mac pause"@,
        "radio get mod"@,
        "radio get freq"@,
        "radio get pwr"@,
        "radio get sf"@,
        "radio get bw"@,
        "radio get cr"@,
        "radio get wdt"@,
        "radio set pwr 20"@,
        "radio set sf sf12"@,
        "radio set bw 125"@,
        "radio set cr 4/5"@,
        "radio set wdt 60000"@,
    ]
}

/// The lines that are not empty, in order.
pub open spec fn nonempty_lines(lines: Seq<Seq<char>>) -> Seq<Seq<char>>
    decreases lines.len(),
{
    if lines.len() == 0 {
        lines
    } else if lines.last().len() == 0 {
        nonempty_lines(lines.drop_last())
    } else {
        nonempty_lines(lines.drop_last()).push(lines.last())
    }
}

/// The commands that initialise the modem when no others are given.
pub fn default_init_commands() -> (commands: Vec<String>)
    ensures
        line_views(commands@) == default_commands(),
{
    let mut commands: Vec<String> = Vec::new();
    commands.push(String::from_str("sys get ver"));
    commands.push(String::from_str("mac reset"));
    commands.push(String::from_str("mac pause"));
    commands.push(String::from_str("radio get mod"));
    commands.push(String::from_str("radio get freq"));
    commands.push(String::from_str("radio get pwr"));
    commands.push(String::from_str("radio get sf"));
    commands.push(String::from_str("radio get bw"));
    commands.push(String::from_str("radio get cr"));
    commands.push(String::from_str("radio get wdt"));
    commands.push(String::from_str("radio set pwr 20"));
    commands.push(String::from_str("radio set sf sf12"));
    commands.push(String::from_str("radio set bw 125"));
    commands.push(String::from_str("radio set cr 4/5"));
    commands.push(String::from_str("radio set wdt 60000"));
    assert(line_views(commands@) =~= default_commands());
    commands
}

/// The commands to send to the modem at start, in order: the lines of the
/// given file, or the default commands if there is none, without the empty
/// lines.
pub fn init_lines(custom: Option<Vec<String>>) -> (commands: Vec<String>)
    ensures
        line_views(commands@) == nonempty_lines(
            match custom {
                Some(lines) => line_views(lines@),
                None => default_commands(),
            },
        ),
{
    let lines: Vec<String> = match custom {
        Some(lines) => lines,
        None => default_init_commands(),
    };
    let mut commands: Vec<String> = Vec::new();
    let mut i: usize = 0;
    assert(line_views(lines@).take(0) =~= Seq::<Seq<char>>::empty());
    assert(line_views(commands@) =~= nonempty_lines(line_views(lines@).take(0)));
    while i < lines.len()
        invariant
            i <= lines@.len(),
            line_views(commands@) == nonempty_lines(line_views(lines@).take(i as int)),
        decreases lines@.len() - i,
    {
        proof {
            let all = line_views(lines@);
            assert(all.take(i as int + 1).drop_last() =~= all.take(i as int));
            assert(all.take(i as int + 1).last() == lines@[i as int]@);
        }
        if lines[i].as_str().unicode_len() > 0 {
            let line = lines[i].clone();
            assert(line_views(commands@.push(line)) =~= line_views(commands@).push(line@));
            commands.push(line);
        }
        i = i + 1;
    }
    assert(line_views(lines@).take(i as int) =~= line_views(lines@));
    commands
}

/// What the driver does next with the modem.
#[derive(Debug)]
pub enum RadioAction {
    /// Be in receive: `start` says whether the modem has to be put there.
    Listen { start: bool },
    /// Transmit `frame`: `stop` says whether the modem has to be taken out
    /// of receive first.
    Transmit { stop: bool, frame: Vec<u8> },
}

/// The arbiter of the half-duplex link: it knows whether the modem is in
/// receive and holds the frame that was taken from the queue and not sent yet.
pub struct Arbiter {
    listening: bool,
    pending_tx: Option<Vec<u8>>,
}

impl Arbiter {
    /// Whether the modem is in receive.
    pub closed spec fn listening(&self) -> bool {
        self.listening
    }

    /// The frame that was taken from the queue and not sent yet.
    pub closed spec fn pending(&self) -> Option<Seq<u8>> {
        match self.pending_tx {
            Some(frame) => Some(frame@),
            None => None,
        }
    }

    /// The arbiter of a modem that was put into receive and has nothing to
    /// send.
    pub fn new() -> (arbiter: Self)
        ensures
            arbiter.listening(),
            arbiter.pending().is_none(),
    {
        Arbiter { listening: true, pending_tx: None }
    }

    /// Whether the modem is in receive.
    pub fn is_listening(&self) -> (listening: bool)
        ensures
            listening == self.listening(),
    {
        self.listening
    }

    /// Whether the arbiter holds no frame, so that the next one can be taken
    /// from the queue.
    pub fn wants_frame(&self) -> (wanted: bool)
        ensures
            wanted == self.pending().is_none(),
    {
        self.pending_tx.is_none()
    }

    /// Hands the arbiter the frame that was taken from the queue.
    pub fn offer(&mut self, frame: Vec<u8>)
        requires
            old(self).pending().is_none(),
        ensures
            final(self).pending() == Some(frame@),
            final(self).listening() == old(self).listening(),
    {
        self.pending_tx = Some(frame);
    }

    /// Whether this arbiter and `action` are what becomes of `before` when
    /// it decides with or without a token. With a token and a frame the frame
    /// is transmitted, and the token is spent on it. Without a token or without
    /// a frame the modem is in receive afterwards, and a frame that is held
    /// stays held for the next token.
    pub open spec fn decided(&self, before: &Self, token: bool, action: RadioAction) -> bool {
        if token && before.pending().is_some() {
            &&& !self.listening()
            &&& self.pending().is_none()
            &&& match action {
                RadioAction::Transmit { stop, frame } => stop == before.listening() && before.pending() == Some(frame@),
                RadioAction::Listen { .. } => false,
            }
        } else {
            &&& self.listening()
            &&& self.pending() == before.pending()
            &&& match action {
                RadioAction::Listen { start } => start == !before.listening(),
                RadioAction::Transmit { .. } => false,
            }
        }
    }

    /// Decides what the driver does next.
    pub fn arbitrate(&mut self, token: bool) -> (action: RadioAction)
        ensures
            final(self).decided(old(self), token, action),
            !token || old(self).pending().is_none() ==> final(self).listening(),
    {
        if token && self.pending_tx.is_some() {
            let stop: bool = self.listening;
            self.listening = false;
            match self.pending_tx.take() {
                Some(frame) => RadioAction::Transmit { stop, frame },
                None => RadioAction::Listen { start: false },
            }
        } else {
            let start: bool = !self.listening;
            self.listening = true;
            RadioAction::Listen { start }
        }
    }
}

/// What the driver waits for after it has sent a command to the modem.
#[derive(Clone, Copy, PartialEq, Eq, Debug, Structural)]
pub enum Awaiting {
    /// The reply to the command that starts receiving; `noise` says whether
    /// a line of noise has come before it already.
    RxAck { noise: bool },
    /// The reply to the command that transmits a frame; `noise` says whether
    /// a line of noise has come before it already.
    TxAck { noise: bool },
    /// The line that reports the end of a transmission.
    TxDone,
    /// The reply to the command that stops receiving.
    StopReply,
    /// The line behind a frame that came in place of the reply to the
    /// command that stops receiving.
    StopTail,
}

/// What a line from the modem means to the driver that waits for it.
#[derive(Debug)]
pub enum Reply {
    /// Another line has to be read.
    More(Awaiting),
    /// A frame came in; it is handed on, and another line has to be read.
    Frame(Vec<u8>, Awaiting),
    /// The exchange is over, well or with a fault.
    Done(Result<(), RadioError>),
}

/// A reply, with the bytes and the text that it carries as values: the
/// fault of an exchange that ended badly is its message.
pub enum ReplyView {
    More(Awaiting),
    Frame(Seq<u8>, Awaiting),
    Done(Option<Seq<char>>),
}

impl View for Reply {
    type V = ReplyView;

    open spec fn view(&self) -> ReplyView {
        match self {
            Reply::More(next) => ReplyView::More(*next),
            Reply::Frame(bytes, next) => ReplyView::Frame(bytes@, *next),
            Reply::Done(Ok(_)) => ReplyView::Done(None),
            Reply::Done(Err(fault)) => ReplyView::Done(Some(fault.message@)),
        }
    }
}

/// What the reply to a command means that the modem has to accept: one line
/// of noise is passed over, `ok` accepts, and any other line is a fault.
pub open spec fn ack_reply(line: Seq<char>, noise: bool, again: Awaiting, accepted: ReplyView) -> ReplyView {
    if line == REPLY_ERR@ && !noise {
        ReplyView::More(again)
    } else if line == REPLY_OK@ {
        accepted
    } else {
        ReplyView::Done(Some(unexpected_response(line, REPLY_OK@)))
    }
}

/// What `line` means to a driver that waits for `awaiting`.
///
/// Starting to receive ends with the modem's `ok`. A transmission ends with
/// the line that follows the modem's `ok`, whatever it is. Stopping to
/// receive ends with the modem's reply, whatever it is, unless a frame comes
/// in its place: the frame is handed on, and the line behind it ends the
/// exchange.
pub open spec fn reply_to(awaiting: Awaiting, line: Seq<char>) -> ReplyView {
    match awaiting {
        Awaiting::RxAck { noise } => ack_reply(line, noise, Awaiting::RxAck { noise: true }, ReplyView::Done(None)),
        Awaiting::TxAck { noise } => ack_reply(
            line,
            noise,
            Awaiting::TxAck { noise: true },
            ReplyView::More(Awaiting::TxDone),
        ),
        Awaiting::TxDone => ReplyView::Done(None),
        Awaiting::StopReply => if !is_rx_line(line) {
            ReplyView::Done(None)
        } else if holds_frame(line) {
            ReplyView::Frame(frame_of_line(line), Awaiting::StopTail)
        } else {
            ReplyView::Done(Some(BAD_HEX@))
        },
        Awaiting::StopTail => ReplyView::Done(None),
    }
}

/// Reads the reply to a command that the modem has to accept.
fn on_ack(line: &str, noise: bool, again: Awaiting, accepted: Reply) -> (reply: Reply)
    ensures
        reply@ == ack_reply(line@, noise, again, accepted@),
{
    if is_noise(line) && !noise {
        Reply::More(again)
    } else {
        match assert_response(String::from_str(line), String::from_str(REPLY_OK)) {
            Ok(_) => accepted,
            Err(fault) => Reply::Done(Err(fault)),
        }
    }
}

/// Says what a line from the modem means to the driver that waits for
/// `awaiting`.
pub fn on_reply(awaiting: Awaiting, line: &str) -> (reply: Reply)
    ensures
        reply@ == reply_to(awaiting, line@),
{
    match awaiting {
        Awaiting::RxAck { noise } => on_ack(line, noise, Awaiting::RxAck { noise: true }, Reply::Done(Ok(()))),
        Awaiting::TxAck { noise } => on_ack(line, noise, Awaiting::TxAck { noise: true }, Reply::More(Awaiting::TxDone)),
        Awaiting::TxDone => Reply::Done(Ok(())),
        Awaiting::StopReply => match onrx(line) {
            // We had a race.  A packet was coming in.  Decode and deal with it,
            // then look for the 'ok' from rxstop.
            Ok(Some(frame)) => Reply::Frame(frame, Awaiting::StopTail),
            Ok(None) => Reply::Done(Ok(())),
            Err(fault) => Reply::Done(Err(fault)),
        },
        Awaiting::StopTail => Reply::Done(Ok(())),
    }
}

/// A command for the modem, and what the driver waits for once it is sent.
#[derive(Debug)]
pub struct Exchange {
    pub command: String,
    pub awaiting: Awaiting,
}

/// starts radio receiver
pub fn rxstart() -> (exchange: Exchange)
    ensures
        exchange.command@ == CMD_RX@,
        exchange.awaiting == (Awaiting::RxAck { noise: false }),
{
    Exchange { command: String::from_str(CMD_RX), awaiting: Awaiting::RxAck { noise: false } }
}

/// stops radio receiver so can transmit
pub fn rxstop() -> (exchange: Exchange)
    ensures
        exchange.command@ == CMD_RXSTOP@,
        exchange.awaiting == Awaiting::StopReply,
{
    Exchange { command: String::from_str(CMD_RXSTOP), awaiting: Awaiting::StopReply }
}

/// transmits a frame, do not call this directly
/// or you could have collisions
pub fn tx(data: &Vec<u8>) -> (exchange: Exchange)
    ensures
        exchange.command@ == tx_command_text(data@),
        exchange.awaiting == (Awaiting::TxAck { noise: false }),
{
    Exchange { command: tx_command(data), awaiting: Awaiting::TxAck { noise: false } }
}

} // verus!
