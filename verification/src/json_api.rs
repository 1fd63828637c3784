//! The JSON haptics API: line framing, commands, replies and error codes.
use vstd::prelude::*;

use crate::text::{decimal, push_decimal};

verus! {

/// Version of the JSON protocol.
pub const PROTOCOL: u32 = 1;

/// Longest accepted request line, in bytes.
pub const MAX_LINE: usize = 8192;

/// Whether a byte is ASCII white space.
pub open spec fn is_blank(byte: u8) -> bool {
    byte == 0x20 || byte == 0x09 || byte == 0x0a || byte == 0x0c || byte == 0x0d
}

/// What one read from a client comes to.
#[derive(Clone, Copy, Debug, PartialEq, Eq, Structural)]
pub enum Frame {
    /// The client is gone, or cannot be read.
    End,
    /// The line outgrew the cap: complain and hang up, because its unread tail
    /// would pass for another request.
    TooLong,
    /// A blank line, which is not answered.
    Skip,
    /// A request to parse and answer.
    Request,
}

/// What a read of so many bytes comes to.
pub open spec fn frame_of(count: Option<usize>, line: Seq<u8>) -> Frame {
    if count is None || count == Some(0usize) {
        Frame::End
    } else if count == Some(MAX_LINE) && (line.len() == 0 || line.last() != 0x0a) {
        Frame::TooLong
    } else if forall|i: int| 0 <= i < line.len() ==> is_blank(#[trigger] line[i]) {
        Frame::Skip
    } else {
        Frame::Request
    }
}

/// Frame one read. The cap bounds one line, not the connection: each read starts
/// counting anew.
pub fn frame(count: Option<usize>, line: &Vec<u8>) -> (frame: Frame)
    ensures
        frame == frame_of(count, line@),
{
    let read: usize = match count {
        Some(read) => read,
        None => {
            return Frame::End;
        },
    };
    if read == 0 {
        return Frame::End;
    }
    if read == MAX_LINE && (line.len() == 0 || line[line.len() - 1] != 0x0a) {
        return Frame::TooLong;
    }
    let mut i: usize = 0;
    while i < line.len()
        invariant
            i <= line@.len(),
            count == Some(read),
            read != 0,
            !(read == MAX_LINE && (line@.len() == 0 || line@.last() != 0x0a)),
            forall|j: int| 0 <= j < i ==> is_blank(#[trigger] line@[j]),
        decreases line@.len() - i,
    {
        let byte: u8 = line[i];
        let blank: bool = byte == 0x20 || byte == 0x09 || byte == 0x0a || byte == 0x0c || byte
            == 0x0d;
        if !blank {
            assert(!is_blank(line@[i as int]));
            return Frame::Request;
        }
        i = i + 1;
    }
    Frame::Skip
}

/// The line that a reader takes next from what a client has sent: up to and with
/// the first line feed, but at most [`MAX_LINE`] bytes.
pub open spec fn next_line(bytes: Seq<u8>) -> Seq<u8> {
    next_line_within(bytes, MAX_LINE as nat)
}

/// The line that a reader takes next, within so many bytes.
pub open spec fn next_line_within(bytes: Seq<u8>, cap: nat) -> Seq<u8>
    decreases cap,
{
    if cap == 0 || bytes.len() == 0 {
        Seq::empty()
    } else if bytes[0] == 0x0a {
        seq![bytes[0]]
    } else {
        seq![bytes[0]] + next_line_within(bytes.skip(1), (cap - 1) as nat)
    }
}

/// Whether the line that begins the bytes is whole: it ends in a line feed, or
/// reached the cap.
pub open spec fn is_whole(line: Seq<u8>) -> bool {
    line.len() > 0 && (line.last() == 0x0a || line.len() == MAX_LINE)
}

proof fn lemma_line_is_a_prefix(bytes: Seq<u8>, cap: nat)
    ensures
        next_line_within(bytes, cap).len() <= cap,
        next_line_within(bytes, cap).len() <= bytes.len(),
        bytes.take(next_line_within(bytes, cap).len() as int) == next_line_within(bytes, cap),
        bytes.len() > 0 && cap > 0 ==> next_line_within(bytes, cap).len() > 0,
    decreases cap,
{
    if cap > 0 && bytes.len() > 0 {
        if bytes[0] == 0x0a {
            assert(bytes.take(1) =~= seq![bytes[0]]);
        } else {
            lemma_line_is_a_prefix(bytes.skip(1), (cap - 1) as nat);
            let rest = next_line_within(bytes.skip(1), (cap - 1) as nat);
            let line = seq![bytes[0]] + rest;
            assert forall|i: int| 0 <= i < line.len() implies bytes[i] == line[i] by {
                if i > 0 {
                    assert(bytes.skip(1).take(rest.len() as int)[i - 1] == rest[i - 1]);
                }
            }
            assert(bytes.take(line.len() as int) =~= line);
        }
    }
}

/// A prefix without a line feed is the beginning of the line.
proof fn lemma_line_continues(bytes: Seq<u8>, cap: nat, at: int)
    requires
        0 <= at <= bytes.len(),
        at <= cap,
        forall|i: int| 0 <= i < at ==> bytes[i] != 0x0a,
    ensures
        next_line_within(bytes, cap) == bytes.take(at) + next_line_within(
            bytes.skip(at),
            (cap - at) as nat,
        ),
    decreases at,
{
    if at == 0 {
        assert(bytes.skip(0) =~= bytes);
        assert(bytes.take(0) + next_line_within(bytes, cap) =~= next_line_within(bytes, cap));
    } else {
        let rest = bytes.skip(1);
        assert forall|i: int| 0 <= i < at - 1 implies rest[i] != 0x0a by {
            assert(rest[i] == bytes[i + 1]);
        }
        lemma_line_continues(rest, (cap - 1) as nat, at - 1);
        assert(rest.skip(at - 1) =~= bytes.skip(at));
        assert(bytes[0] != 0x0a);
        assert(seq![bytes[0]] + rest.take(at - 1) =~= bytes.take(at));
        assert(next_line_within(bytes, cap) =~= bytes.take(at) + next_line_within(
            bytes.skip(at),
            (cap - at) as nat,
        ));
    }
}

/// Take the next line from what a client has sent. A line that is not whole is
/// taken only where nothing follows any more; until then it stays.
pub fn take_line(pending: &mut Vec<u8>, closed: bool) -> (line: Option<Vec<u8>>)
    ensures
        ({
            let next = next_line(old(pending)@);
            if closed || is_whole(next) {
                &&& line matches Some(line) && line@ == next
                &&& final(pending)@ == old(pending)@.skip(next.len() as int)
            } else {
                line is None && final(pending)@ == old(pending)@
            }
        }),
{
    let ghost bytes = pending@;
    let limit: usize = if pending.len() < MAX_LINE { pending.len() } else { MAX_LINE };
    let mut at: usize = 0;
    while at < limit && pending[at] != 0x0a
        invariant
            at <= limit,
            limit <= pending@.len(),
            limit <= MAX_LINE,
            pending@ == bytes,
            forall|i: int| 0 <= i < at ==> bytes[i] != 0x0a,
        decreases limit - at,
    {
        at = at + 1;
    }
    let found: bool = at < limit;
    proof {
        lemma_line_continues(bytes, MAX_LINE as nat, at as int);
        let rest = bytes.skip(at as int);
        if found {
            assert(rest[0] == bytes[at as int]);
            assert(bytes.take(at as int) + seq![rest[0]] =~= bytes.take(at + 1));
        } else {
            assert(next_line_within(rest, (MAX_LINE - at) as nat) =~= Seq::<u8>::empty());
            assert(bytes.take(at as int) + Seq::<u8>::empty() =~= bytes.take(at as int));
        }
    }
    let length: usize = if found { at + 1 } else { at };
    assert(next_line(bytes) == bytes.take(length as int));
    if !closed && !found && length != MAX_LINE {
        proof {
            if length > 0 {
                assert(bytes.take(length as int).last() == bytes[length - 1]);
            }
        }
        return None;
    }
    proof {
        if length > 0 {
            assert(bytes.take(length as int).last() == bytes[length - 1]);
        }
    }
    let mut line: Vec<u8> = pending.split_off(length);
    std::mem::swap(&mut line, pending);
    assert(line@ =~= bytes.take(length as int));
    assert(pending@ =~= bytes.skip(length as int));
    Some(line)
}

/// A line of up to the cap that ends in a line feed is never refused, whatever
/// was sent on the connection before.
pub proof fn the_cap_applies_per_line(line: Seq<u8>)
    requires
        0 < line.len() <= MAX_LINE,
        line.last() == 0x0a,
    ensures
        frame_of(Some(line.len() as usize), line) != Frame::TooLong,
        frame_of(Some(line.len() as usize), line) != Frame::End,
{
}

/// Reading makes progress and loses nothing: a line is what the bytes begin with,
/// and it is empty only where there are no bytes.
pub proof fn lines_are_read_in_order(bytes: Seq<u8>)
    ensures
        next_line(bytes) + bytes.skip(next_line(bytes).len() as int) == bytes,
        bytes.len() > 0 ==> next_line(bytes).len() > 0,
        next_line(bytes).len() <= MAX_LINE,
{
    lemma_line_is_a_prefix(bytes, MAX_LINE as nat);
    assert(next_line(bytes) + bytes.skip(next_line(bytes).len() as int) =~= bytes);
}

/// How the bytes arrive does not matter: what is taken as a whole line stays the
/// line, whatever follows.
pub proof fn whole_lines_do_not_wait(bytes: Seq<u8>, more: Seq<u8>)
    requires
        is_whole(next_line(bytes)),
    ensures
        next_line(bytes + more) == next_line(bytes),
{
    lemma_whole_line_stays(bytes, more, MAX_LINE as nat);
}

proof fn lemma_whole_line_stays(bytes: Seq<u8>, more: Seq<u8>, cap: nat)
    requires
        ({
            let line = next_line_within(bytes, cap);
            line.len() == cap || (line.len() > 0 && line.last() == 0x0a)
        }),
    ensures
        next_line_within(bytes + more, cap) == next_line_within(bytes, cap),
    decreases cap,
{
    if cap > 0 && bytes.len() > 0 && bytes[0] != 0x0a {
        let rest = next_line_within(bytes.skip(1), (cap - 1) as nat);
        let line = seq![bytes[0]] + rest;
        if rest.len() == 0 {
            assert(line =~= seq![bytes[0]]);
        } else {
            assert(line.last() == rest.last());
        }
        lemma_whole_line_stays(bytes.skip(1), more, (cap - 1) as nat);
        assert((bytes + more).skip(1) =~= bytes.skip(1) + more);
    }
}

// ── Commands ────────────────────────────────────────────────────────────────

/// The waveforms, as a caller spells them.
#[derive(Clone, Copy, Debug, PartialEq, Eq, Structural)]
pub enum Waveform {
    /// The light boundary tick.
    Subtle,
    /// The firmer confirmation pulse.
    Damp,
}

impl Default for Waveform {
    fn default() -> (waveform: Waveform)
        ensures
            waveform == Waveform::Subtle,
    {
        Waveform::Subtle
    }
}

/// The waveforms of the haptic engine.
#[derive(Clone, Copy, Debug, PartialEq, Eq, Structural)]
pub enum HapticWaveform {
    SubtleCollision,
    DampStateChange,
}

impl Waveform {
    pub open spec fn played_as(self) -> HapticWaveform {
        match self {
            Waveform::Subtle => HapticWaveform::SubtleCollision,
            Waveform::Damp => HapticWaveform::DampStateChange,
        }
    }
}

impl From<Waveform> for HapticWaveform {
    fn from(waveform: Waveform) -> (played: HapticWaveform) {
        match waveform {
            Waveform::Subtle => HapticWaveform::SubtleCollision,
            Waveform::Damp => HapticWaveform::DampStateChange,
        }
    }
}

impl vstd::std_specs::convert::FromSpecImpl<Waveform> for HapticWaveform {
    open spec fn obeys_from_spec() -> bool {
        true
    }

    open spec fn from_spec(waveform: Waveform) -> HapticWaveform {
        waveform.played_as()
    }
}

/// A request.
#[derive(Debug)]
pub enum Command {
    /// Report the protocol version and the agent's own version.
    Hello,
    /// List the online devices that have a haptic engine.
    Devices,
    /// Play one waveform on a device, or on the active one.
    Play { waveform: Waveform, device: Option<String> },
}

/// Why a write to a device failed.
#[derive(Debug)]
pub enum WriteError {
    DeviceNotFound,
    FeatureUnsupported { feature_hex: u16 },
    AgentUnavailable,
    LightUnsupported { control: String },
    InvalidLightValue { control: String, value: u16 },
    /// Any other failure, in words.
    Other(String),
}

/// A complaint: a stable code, and words for people.
#[derive(Debug)]
pub struct ApiError {
    pub code: &'static str,
    pub message: String,
}

/// The code under which a device failure is answered: each failure that a client
/// can act on has its own.
pub open spec fn code_of(error: WriteError) -> Seq<char> {
    match error {
        WriteError::DeviceNotFound => "device_not_found"@,
        WriteError::FeatureUnsupported { .. } => "feature_unsupported"@,
        _ => "device_error"@,
    }
}

impl ApiError {
    pub fn bad_request(message: String) -> (error: ApiError)
        ensures
            error.code@ == "bad_request"@,
            error.message == message,
    {
        ApiError { code: "bad_request", message }
    }

    /// The complaint about a device failure, which `message` puts in words.
    pub fn from_write_error(error: &WriteError, message: String) -> (complaint: ApiError)
        ensures
            complaint.code@ == code_of(*error),
            complaint.message == message,
    {
        let code: &'static str = match error {
            WriteError::DeviceNotFound => "device_not_found",
            WriteError::FeatureUnsupported { .. } => "feature_unsupported",
            _ => "device_error",
        };
        ApiError { code, message }
    }

    /// The complaint about a line that is too long.
    pub fn too_long() -> (complaint: ApiError)
        ensures
            complaint.code@ == "bad_request"@,
            complaint.message@ == "request line exceeds "@ + decimal(MAX_LINE as nat) + " bytes"@,
    {
        let mut message: String = "request line exceeds ".to_owned();
        push_decimal(&mut message, MAX_LINE as u64);
        message.append(" bytes");
        ApiError::bad_request(message)
    }
}

/// One buzzable device.
#[derive(Debug)]
pub struct DeviceEntry {
    /// Stable across reconnects and reboots.
    pub key: String,
    /// For people only.
    pub name: String,
}

/// A successful answer.
#[derive(Debug)]
pub enum Reply {
    Hello { protocol: u32, agent: String },
    Devices { devices: Vec<DeviceEntry> },
    /// Queued, not necessarily felt.
    Played { accepted: bool },
}

/// What a response says.
#[derive(Debug)]
pub enum Body {
    Answer(Reply),
    Error(ApiError),
}

/// A response, with the request's id where it had one.
#[derive(Debug)]
pub struct Response {
    pub id: Option<u64>,
    pub body: Body,
}

/// What a command needs from the agent before it can be answered.
#[derive(Debug)]
pub enum ApiCall {
    /// Nothing: the answer is here.
    Answer(Reply),
    /// The buzzable devices, for [`devices_reply`].
    ListDevices,
    /// The route of a device, or of the active one, for [`play_reply`].
    Resolve { device: Option<String>, waveform: HapticWaveform },
}

/// Decide what a command needs.
pub fn handle(command: Command, version: &str) -> (call: ApiCall)
    ensures
        match command {
            Command::Hello => call matches ApiCall::Answer(Reply::Hello { protocol, agent })
                && protocol == PROTOCOL && agent@ == version@,
            Command::Devices => call is ListDevices,
            Command::Play { waveform, device } => call == (ApiCall::Resolve {
                device,
                waveform: waveform.played_as(),
            }),
        },
{
    match command {
        Command::Hello => ApiCall::Answer(
            Reply::Hello { protocol: PROTOCOL, agent: version.to_owned() },
        ),
        Command::Devices => ApiCall::ListDevices,
        Command::Play { waveform, device } => ApiCall::Resolve {
            device,
            waveform: HapticWaveform::from(waveform),
        },
    }
}

/// The answer to a listing: every device, in order.
pub fn devices_reply(found: Vec<(String, String)>) -> (body: Body)
    ensures
        body matches Body::Answer(Reply::Devices { devices }) && devices@.len() == found@.len() && (
        forall|i: int|
            0 <= i < found@.len() ==> (#[trigger] devices@[i]).key == found@[i].0 && devices@[i].name
                == found@[i].1),
{
    let mut devices: Vec<DeviceEntry> = Vec::new();
    let mut i: usize = 0;
    while i < found.len()
        invariant
            i <= found@.len(),
            devices@.len() == i,
            forall|j: int|
                0 <= j < i ==> (#[trigger] devices@[j]).key == found@[j].0 && devices@[j].name
                    == found@[j].1,
        decreases found@.len() - i,
    {
        devices.push(DeviceEntry { key: found[i].0.clone(), name: found[i].1.clone() });
        i = i + 1;
    }
    Body::Answer(Reply::Devices { devices })
}

/// The answer to a play: accepted where the device was found, otherwise why not,
/// with the failure in words. Accepted is not played: the waveform is queued.
pub fn play_reply(resolved: Result<(), (WriteError, String)>) -> (body: Body)
    ensures
        resolved is Ok ==> (body matches Body::Answer(Reply::Played { accepted }) && accepted),
        resolved matches Err((error, message)) ==> (body matches Body::Error(complaint)
            && complaint.code@ == code_of(error) && complaint.message == message),
{
    match resolved {
        Ok(()) => Body::Answer(Reply::Played { accepted: true }),
        Err((error, message)) => Body::Error(ApiError::from_write_error(&error, message)),
    }
}

/// The response to a parsed request: its id goes back with the answer.
pub fn respond(id: Option<u64>, body: Body) -> (response: Response)
    ensures
        response == (Response { id, body }),
{
    Response { id, body }
}

/// The response to a line that is no request. Its id, if it had one, is not known.
pub fn complain(message: String) -> (response: Response)
    ensures
        response.id is None,
        response.body matches Body::Error(complaint) && complaint.code@ == "bad_request"@
            && complaint.message == message,
{
    Response { id: None, body: Body::Error(ApiError::bad_request(message)) }
}

// ── Laws ────────────────────────────────────────────────────────────────────

/// Each waveform is played as the one it names: the subtle one as the light tick, the
/// damp one as the firm pulse.
pub proof fn waveforms_play_as_named()
    ensures
        Waveform::Subtle.played_as() == HapticWaveform::SubtleCollision,
        Waveform::Damp.played_as() == HapticWaveform::DampStateChange,
{
}

/// A failure that a client can act on has a code of its own, told apart from every other;
/// the rest share one.
pub proof fn actionable_failures_have_their_codes(feature_hex: u16, other: WriteError)
    ensures
        code_of(WriteError::DeviceNotFound) == "device_not_found"@,
        code_of(WriteError::FeatureUnsupported { feature_hex }) == "feature_unsupported"@,
        code_of(other) == "device_error"@ <==> !(other is DeviceNotFound) && !(
        other is FeatureUnsupported),
        code_of(WriteError::DeviceNotFound) != code_of(
            WriteError::FeatureUnsupported { feature_hex },
        ),
{
    reveal_strlit("device_not_found");
    reveal_strlit("feature_unsupported");
    reveal_strlit("device_error");
    assert("device_not_found"@.len() == 16);
    assert("feature_unsupported"@.len() == 19);
    assert("device_error"@.len() == 12);
}

/// What a read comes to: an end where nothing was read, a complaint where a line fills
/// the cap of 8192 bytes without ending there, silence for a line of white space, and an
/// answer for every other line.
pub proof fn reads_are_framed(count: usize, line: Seq<u8>, at: int)
    requires
        count > 0,
    ensures
        frame_of(None, line) == Frame::End,
        frame_of(Some(0), line) == Frame::End,
        count == 8192 && line.len() > 0 && line.last() != 0x0a ==> frame_of(Some(count), line)
            == Frame::TooLong,
        count != 8192 || (line.len() > 0 && line.last() == 0x0a) ==> {
            &&& 0 <= at < line.len() && line[at] > 0x20 ==> frame_of(Some(count), line)
                == Frame::Request
            &&& (forall|i: int|
                0 <= i < line.len() ==> #[trigger] line[i] == 0x20 || line[i] == 0x09 || line[i]
                    == 0x0d || line[i] == 0x0a || line[i] == 0x0c) ==> frame_of(Some(count), line)
                == Frame::Skip
        },
{
    if 0 <= at < line.len() && line[at] > 0x20 {
        assert(!is_blank(line[at]));
    }
}

/// The next line runs up to the first line feed and holds it; bytes without one give what
/// is there, up to the cap of 8192.
pub proof fn lines_end_at_their_feed(text: Seq<u8>, rest: Seq<u8>)
    requires
        forall|i: int| 0 <= i < text.len() ==> text[i] != 0x0a,
        text.len() < 8192,
    ensures
        next_line(text.push(0x0a) + rest) == text.push(0x0a),
        next_line(text) == text,
        is_whole(text.push(0x0a)),
        !is_whole(text),
{
    let bytes = text.push(0x0a) + rest;
    let n = text.len() as int;
    assert forall|i: int| 0 <= i < n implies bytes[i] != 0x0a by {
        assert(bytes[i] == text[i]);
    }
    lemma_line_continues(bytes, MAX_LINE as nat, n);
    assert(bytes.skip(n)[0] == 0x0a);
    assert(bytes.take(n) =~= text);
    assert(next_line(bytes) =~= text.push(0x0a));
    lemma_line_continues(text, MAX_LINE as nat, n);
    assert(text.skip(n) =~= Seq::<u8>::empty());
    assert(text.take(n) =~= text);
    assert(next_line(text) =~= text);
    if n > 0 {
        assert(text[n - 1] != 0x0a);
    }
}

/// A line of 8192 bytes without a line feed is taken at the cap, and is whole there.
pub proof fn endless_lines_end_at_the_cap(text: Seq<u8>, rest: Seq<u8>)
    requires
        forall|i: int| 0 <= i < text.len() ==> text[i] != 0x0a,
        text.len() == 8192,
    ensures
        next_line(text + rest) == text,
        is_whole(text),
{
    let bytes = text + rest;
    assert forall|i: int| 0 <= i < 8192 implies bytes[i] != 0x0a by {
        assert(bytes[i] == text[i]);
    }
    lemma_line_continues(bytes, MAX_LINE as nat, 8192);
    assert(bytes.take(8192) =~= text);
    assert(next_line(bytes) =~= text);
}

} // verus!
