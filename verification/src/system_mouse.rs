//! The host-wide primary mouse button.
use vstd::prelude::*;

use crate::text::{decimal, hexadecimal, push_decimal, push_hexadecimal};

verus! {

/// Which physical button clicks.
#[derive(Clone, Copy, Debug, PartialEq, Eq, Structural)]
pub enum PrimaryMouseButton {
    Left,
    Right,
}

impl PrimaryMouseButton {
    pub open spec fn label(self) -> Seq<char> {
        match self {
            PrimaryMouseButton::Left => "Left"@,
            PrimaryMouseButton::Right => "Right"@,
        }
    }

    pub fn name(self) -> (name: &'static str)
        ensures
            name@ == self.label(),
    {
        match self {
            PrimaryMouseButton::Left => "Left",
            PrimaryMouseButton::Right => "Right",
        }
    }
}

/// The native calls that answer with a status.
#[derive(Clone, Copy, Debug, PartialEq, Eq, Structural)]
pub enum NativeCall {
    Open,
    Copy,
    Change,
}

impl NativeCall {
    pub open spec fn label(self) -> Seq<char> {
        match self {
            NativeCall::Open => "IOServiceOpen"@,
            NativeCall::Copy => "IOHIDCopyCFTypeParameter"@,
            NativeCall::Change => "IOHIDSetCFTypeParameter"@,
        }
    }

    pub fn name(self) -> (name: &'static str)
        ensures
            name@ == self.label(),
    {
        match self {
            NativeCall::Open => "IOServiceOpen",
            NativeCall::Copy => "IOHIDCopyCFTypeParameter",
            NativeCall::Change => "IOHIDSetCFTypeParameter",
        }
    }
}

/// Why the setting cannot be read or written.
#[derive(Clone, Copy, Debug, PartialEq, Eq, Structural)]
pub enum SystemMouseSettingError {
    /// The system has no such setting.
    Unsupported,
    /// No service could be looked up.
    NoMatching,
    /// The service was not found.
    NoService,
    /// A native call failed with the bits of its status.
    CallFailed { call: NativeCall, status: u32 },
    /// The live value is missing.
    NoValue,
    /// The live value is not a number.
    NotANumber,
    /// The live value is not a number of this size.
    NotAnInteger,
    /// The system answered with a mode that is none.
    UnrecognizedMode(i32),
    /// The persistent value is missing, or not a boolean.
    PreferenceAbsent,
    /// The persistent value was not taken.
    PreferenceRejected,
    /// The live value did not take the one requested.
    LiveMismatch { live: PrimaryMouseButton, requested: PrimaryMouseButton },
    /// The persistent value did not take the one requested.
    PersistentMismatch { persistent: PrimaryMouseButton, requested: PrimaryMouseButton },
}

/// A verification that failed, in words.
pub open spec fn mismatch_text(
    place: Seq<char>,
    found: PrimaryMouseButton,
    requested: PrimaryMouseButton,
) -> Seq<char> {
    place + " verification returned "@ + found.label() + " after requesting "@ + requested.label()
}

fn mismatch(place: &str, found: PrimaryMouseButton, requested: PrimaryMouseButton) -> (text: String)
    ensures
        text@ == mismatch_text(place@, found, requested),
{
    let mut text: String = place.to_owned();
    text.append(" verification returned ");
    text.append(found.name());
    text.append(" after requesting ");
    text.append(requested.name());
    text
}

/// A signed number in decimal notation.
pub open spec fn signed_decimal(number: int) -> Seq<char> {
    if number < 0 {
        "-"@ + decimal((-number) as nat)
    } else {
        decimal(number as nat)
    }
}

impl SystemMouseSettingError {
    /// What went wrong, in words. That there is no such setting goes without.
    pub open spec fn words(self) -> Seq<char> {
        match self {
            SystemMouseSettingError::Unsupported => Seq::empty(),
            SystemMouseSettingError::NoMatching => "IOServiceMatching returned null"@,
            SystemMouseSettingError::NoService => "IOHIDSystem service was not found"@,
            SystemMouseSettingError::CallFailed { call, status } => call.label()
                + " failed with 0x"@ + hexadecimal(status as nat, 8),
            SystemMouseSettingError::NoValue => "HIDPointerButtonMode returned null"@,
            SystemMouseSettingError::NotANumber => "HIDPointerButtonMode was not a CFNumber"@,
            SystemMouseSettingError::NotAnInteger => "HIDPointerButtonMode was not an i32"@,
            SystemMouseSettingError::UnrecognizedMode(mode) =>
                "unrecognized HIDPointerButtonMode value "@ + signed_decimal(mode as int),
            SystemMouseSettingError::PreferenceAbsent =>
                "persistent mouse swap preference was absent or not a boolean"@,
            SystemMouseSettingError::PreferenceRejected =>
                "CFPreferencesSynchronize rejected the mouse swap preference"@,
            SystemMouseSettingError::LiveMismatch { live, requested } => mismatch_text(
                "IOHIDSystem"@,
                live,
                requested,
            ),
            SystemMouseSettingError::PersistentMismatch { persistent, requested } => mismatch_text(
                "CFPreferences"@,
                persistent,
                requested,
            ),
        }
    }

    /// What went wrong, in words.
    pub fn message(&self) -> (message: String)
        ensures
            message@ == self.words(),
    {
        match *self {
            SystemMouseSettingError::Unsupported => String::new(),
            SystemMouseSettingError::NoMatching => "IOServiceMatching returned null".to_owned(),
            SystemMouseSettingError::NoService => "IOHIDSystem service was not found".to_owned(),
            SystemMouseSettingError::CallFailed { call, status } => {
                let mut text: String = call.name().to_owned();
                text.append(" failed with 0x");
                push_hexadecimal(&mut text, status, 8);
                text
            },
            SystemMouseSettingError::NoValue => "HIDPointerButtonMode returned null".to_owned(),
            SystemMouseSettingError::NotANumber => {
                "HIDPointerButtonMode was not a CFNumber".to_owned()
            },
            SystemMouseSettingError::NotAnInteger => {
                "HIDPointerButtonMode was not an i32".to_owned()
            },
            SystemMouseSettingError::UnrecognizedMode(mode) => {
                let mut text: String = "unrecognized HIDPointerButtonMode value ".to_owned();
                let wide: i64 = mode as i64;
                if wide < 0 {
                    text.append("-");
                    push_decimal(&mut text, (0 - wide) as u64);
                } else {
                    push_decimal(&mut text, wide as u64);
                }
                assert(text@ =~= self.words());
                text
            },
            SystemMouseSettingError::PreferenceAbsent => {
                "persistent mouse swap preference was absent or not a boolean".to_owned()
            },
            SystemMouseSettingError::PreferenceRejected => {
                "CFPreferencesSynchronize rejected the mouse swap preference".to_owned()
            },
            SystemMouseSettingError::LiveMismatch { live, requested } => mismatch(
                "IOHIDSystem",
                live,
                requested,
            ),
            SystemMouseSettingError::PersistentMismatch { persistent, requested } => mismatch(
                "CFPreferences",
                persistent,
                requested,
            ),
        }
    }
}

pub const LEFT_PRIMARY_MODE: i32 = 2;

pub const RIGHT_PRIMARY_MODE: i32 = 1;

pub open spec fn mode_of(button: PrimaryMouseButton) -> i32 {
    match button {
        PrimaryMouseButton::Left => LEFT_PRIMARY_MODE,
        PrimaryMouseButton::Right => RIGHT_PRIMARY_MODE,
    }
}

/// The system's number for a button.
pub fn encode_mode(button: PrimaryMouseButton) -> (mode: i32)
    ensures
        mode == mode_of(button),
{
    match button {
        PrimaryMouseButton::Left => LEFT_PRIMARY_MODE,
        PrimaryMouseButton::Right => RIGHT_PRIMARY_MODE,
    }
}

/// The button for the system's number.
pub open spec fn decoded(mode: i32) -> Result<PrimaryMouseButton, SystemMouseSettingError> {
    if mode == LEFT_PRIMARY_MODE {
        Ok(PrimaryMouseButton::Left)
    } else if mode == RIGHT_PRIMARY_MODE {
        Ok(PrimaryMouseButton::Right)
    } else {
        Err(SystemMouseSettingError::UnrecognizedMode(mode))
    }
}

/// The button for the system's number. Any other number is refused.
pub fn decode_mode(mode: i32) -> (button: Result<PrimaryMouseButton, SystemMouseSettingError>)
    ensures
        button == decoded(mode),
{
    if mode == LEFT_PRIMARY_MODE {
        Ok(PrimaryMouseButton::Left)
    } else if mode == RIGHT_PRIMARY_MODE {
        Ok(PrimaryMouseButton::Right)
    } else {
        Err(SystemMouseSettingError::UnrecognizedMode(mode))
    }
}

/// A button's number reads back as the button, and nothing else does.
pub proof fn modes_round_trip(button: PrimaryMouseButton, mode: i32)
    ensures
        decoded(mode_of(button)) == Ok::<PrimaryMouseButton, SystemMouseSettingError>(button),
        decoded(mode) == Ok::<PrimaryMouseButton, SystemMouseSettingError>(button) <==> mode
            == mode_of(button),
{
}

/// Whether the service could be opened, from whether it could be looked up and
/// found, and the status of opening it.
pub fn open(matching: bool, found: bool, status: u32) -> (opened: Result<(), SystemMouseSettingError>)
    ensures
        opened == (if !matching {
            Err(SystemMouseSettingError::NoMatching)
        } else if !found {
            Err(SystemMouseSettingError::NoService)
        } else if status != 0 {
            Err(SystemMouseSettingError::CallFailed { call: NativeCall::Open, status })
        } else {
            Ok(())
        }),
{
    if !matching {
        Err(SystemMouseSettingError::NoMatching)
    } else if !found {
        Err(SystemMouseSettingError::NoService)
    } else if status != 0 {
        Err(SystemMouseSettingError::CallFailed { call: NativeCall::Open, status })
    } else {
        Ok(())
    }
}

/// What the system hands out as the live value.
#[derive(Clone, Copy, Debug, PartialEq, Eq, Structural)]
pub enum LiveValue {
    Missing,
    /// Something that is no number.
    Other,
    /// A number that does not fit.
    Large,
    Mode(i32),
}

/// The button that the live session uses.
pub fn read_primary_button(status: u32, value: LiveValue) -> (button: Result<
    PrimaryMouseButton,
    SystemMouseSettingError,
>)
    ensures
        status != 0 ==> button == Err::<PrimaryMouseButton, SystemMouseSettingError>(
            SystemMouseSettingError::CallFailed { call: NativeCall::Copy, status },
        ),
        status == 0 ==> (match value {
            LiveValue::Missing => button == Err::<PrimaryMouseButton, SystemMouseSettingError>(
                SystemMouseSettingError::NoValue,
            ),
            LiveValue::Other => button == Err::<PrimaryMouseButton, SystemMouseSettingError>(
                SystemMouseSettingError::NotANumber,
            ),
            LiveValue::Large => button == Err::<PrimaryMouseButton, SystemMouseSettingError>(
                SystemMouseSettingError::NotAnInteger,
            ),
            LiveValue::Mode(mode) => button == decoded(mode),
        }),
{
    if status != 0 {
        return Err(SystemMouseSettingError::CallFailed { call: NativeCall::Copy, status });
    }
    match value {
        LiveValue::Missing => Err(SystemMouseSettingError::NoValue),
        LiveValue::Other => Err(SystemMouseSettingError::NotANumber),
        LiveValue::Large => Err(SystemMouseSettingError::NotAnInteger),
        LiveValue::Mode(mode) => decode_mode(mode),
    }
}

/// Whether the live session took a button, from the status of writing it.
pub fn write_primary_button(status: u32) -> (written: Result<(), SystemMouseSettingError>)
    ensures
        written == (if status != 0 {
            Err(SystemMouseSettingError::CallFailed { call: NativeCall::Change, status })
        } else {
            Ok(())
        }),
{
    if status != 0 {
        Err(SystemMouseSettingError::CallFailed { call: NativeCall::Change, status })
    } else {
        Ok(())
    }
}

/// The persistent button, from whether the preference is a boolean, and whether it
/// says that the buttons are swapped.
pub fn read_persistent(valid: bool, swapped: bool) -> (button: Result<
    PrimaryMouseButton,
    SystemMouseSettingError,
>)
    ensures
        button == (if !valid {
            Err(SystemMouseSettingError::PreferenceAbsent)
        } else if swapped {
            Ok(PrimaryMouseButton::Right)
        } else {
            Ok(PrimaryMouseButton::Left)
        }),
{
    if !valid {
        Err(SystemMouseSettingError::PreferenceAbsent)
    } else if swapped {
        Ok(PrimaryMouseButton::Right)
    } else {
        Ok(PrimaryMouseButton::Left)
    }
}

/// Whether the preference took a button.
pub fn write_persistent(synchronized: bool) -> (written: Result<(), SystemMouseSettingError>)
    ensures
        written == (if synchronized {
            Ok(())
        } else {
            Err(SystemMouseSettingError::PreferenceRejected)
        }),
{
    if synchronized {
        Ok(())
    } else {
        Err(SystemMouseSettingError::PreferenceRejected)
    }
}

/// Whether a write took, from reading both values back: the live session's first,
/// then the persistent one.
pub fn verify(
    requested: PrimaryMouseButton,
    live: Result<PrimaryMouseButton, SystemMouseSettingError>,
    persistent: Result<PrimaryMouseButton, SystemMouseSettingError>,
) -> (written: Result<PrimaryMouseButton, SystemMouseSettingError>)
    ensures
        written == (match (live, persistent) {
            (Err(error), _) => Err(error),
            (Ok(live), _) if live != requested => Err(
                SystemMouseSettingError::LiveMismatch { live, requested },
            ),
            (_, Err(error)) => Err(error),
            (_, Ok(persistent)) if persistent != requested => Err(
                SystemMouseSettingError::PersistentMismatch { persistent, requested },
            ),
            _ => Ok(requested),
        }),
{
    let live: PrimaryMouseButton = match live {
        Ok(live) => live,
        Err(error) => {
            return Err(error);
        },
    };
    if live != requested {
        return Err(SystemMouseSettingError::LiveMismatch { live, requested });
    }
    let persistent: PrimaryMouseButton = match persistent {
        Ok(persistent) => persistent,
        Err(error) => {
            return Err(error);
        },
    };
    if persistent != requested {
        return Err(SystemMouseSettingError::PersistentMismatch { persistent, requested });
    }
    Ok(live)
}

/// Systems without a backend.
pub struct UnsupportedBackend;

impl UnsupportedBackend {
    pub fn is_available() -> (available: bool)
        ensures
            !available,
    {
        false
    }

    pub fn read() -> (button: Result<PrimaryMouseButton, SystemMouseSettingError>)
        ensures
            button == Err::<PrimaryMouseButton, SystemMouseSettingError>(
                SystemMouseSettingError::Unsupported,
            ),
    {
        Err(SystemMouseSettingError::Unsupported)
    }

    pub fn set(_requested: PrimaryMouseButton) -> (button: Result<
        PrimaryMouseButton,
        SystemMouseSettingError,
    >)
        ensures
            button == Err::<PrimaryMouseButton, SystemMouseSettingError>(
                SystemMouseSettingError::Unsupported,
            ),
    {
        Err(SystemMouseSettingError::Unsupported)
    }
}

/// What a poll of the setting calls for.
#[derive(Clone, Copy, Debug, PartialEq, Eq, Structural)]
pub struct PollOutcome {
    /// The setting to publish, where it changed.
    pub publish: Option<PrimaryMouseButton>,
    /// Reading works again, which is worth a note.
    pub recovered: bool,
    /// Reading stopped working, which is worth a note.
    pub broke: bool,
}

/// The poller of the setting: tools of the system can change it at any time.
#[derive(Clone, Copy, Debug, PartialEq, Eq, Structural)]
pub struct MouseWatch {
    pub last: Option<PrimaryMouseButton>,
    pub failed: bool,
}

impl MouseWatch {
    pub fn new() -> (watch: MouseWatch)
        ensures
            watch == (MouseWatch { last: None, failed: false }),
    {
        MouseWatch { last: None, failed: false }
    }

    /// Take one reading in. Only changes are published, and only the first failure
    /// of a row is noted; a failure keeps what was last read.
    pub fn poll(&mut self, read: Result<PrimaryMouseButton, SystemMouseSettingError>) -> (outcome:
        PollOutcome)
        ensures
            match read {
                Ok(button) => {
                    &&& *final(self) == (MouseWatch { last: Some(button), failed: false })
                    &&& outcome == (PollOutcome {
                        publish: if old(self).last == Some(button) {
                            None
                        } else {
                            Some(button)
                        },
                        recovered: old(self).failed,
                        broke: false,
                    })
                },
                Err(_) => {
                    &&& *final(self) == (MouseWatch { failed: true, ..*old(self) })
                    &&& outcome == (PollOutcome {
                        publish: None,
                        recovered: false,
                        broke: !old(self).failed,
                    })
                },
            },
    {
        match read {
            Ok(button) => {
                let recovered: bool = self.failed;
                self.failed = false;
                let unchanged: bool = match self.last {
                    Some(last) => last == button,
                    None => false,
                };
                self.last = Some(button);
                PollOutcome {
                    publish: if unchanged { None } else { Some(button) },
                    recovered,
                    broke: false,
                }
            },
            Err(_) => {
                let broke: bool = !self.failed;
                self.failed = true;
                PollOutcome { publish: None, recovered: false, broke }
            },
        }
    }
}

// ── Laws ────────────────────────────────────────────────────────────────────

/// The system's numbers: two is a left primary button, one a right one, and every other
/// number is refused by itself.
pub proof fn modes_name_their_button(mode: i32)
    ensures
        mode_of(PrimaryMouseButton::Left) == 2,
        mode_of(PrimaryMouseButton::Right) == 1,
        decoded(2) == Ok::<PrimaryMouseButton, SystemMouseSettingError>(PrimaryMouseButton::Left),
        decoded(1) == Ok::<PrimaryMouseButton, SystemMouseSettingError>(PrimaryMouseButton::Right),
        mode != 1 && mode != 2 ==> decoded(mode) == Err::<
            PrimaryMouseButton,
            SystemMouseSettingError,
        >(SystemMouseSettingError::UnrecognizedMode(mode)),
{
}

/// What a failure says: a native call by its name and the eight digits of its status, a
/// mode by its number with its sign, and a verification by what it found and what was
/// requested.
pub proof fn failures_say_what_failed(status: u32, mode: i32)
    ensures
        (SystemMouseSettingError::CallFailed { call: NativeCall::Open, status }).words()
            == "IOServiceOpen failed with 0x"@ + hexadecimal(status as nat, 8),
        (SystemMouseSettingError::CallFailed { call: NativeCall::Copy, status }).words()
            == "IOHIDCopyCFTypeParameter failed with 0x"@ + hexadecimal(status as nat, 8),
        (SystemMouseSettingError::CallFailed { call: NativeCall::Change, status }).words()
            == "IOHIDSetCFTypeParameter failed with 0x"@ + hexadecimal(status as nat, 8),
        mode >= 0 ==> SystemMouseSettingError::UnrecognizedMode(mode).words()
            == "unrecognized HIDPointerButtonMode value "@ + decimal(mode as nat),
        mode < 0 ==> SystemMouseSettingError::UnrecognizedMode(mode).words()
            == "unrecognized HIDPointerButtonMode value -"@ + decimal((-mode) as nat),
        (SystemMouseSettingError::LiveMismatch {
            live: PrimaryMouseButton::Left,
            requested: PrimaryMouseButton::Right,
        }).words() == "IOHIDSystem verification returned Left after requesting Right"@,
        (SystemMouseSettingError::LiveMismatch {
            live: PrimaryMouseButton::Right,
            requested: PrimaryMouseButton::Left,
        }).words() == "IOHIDSystem verification returned Right after requesting Left"@,
        (SystemMouseSettingError::PersistentMismatch {
            persistent: PrimaryMouseButton::Left,
            requested: PrimaryMouseButton::Right,
        }).words() == "CFPreferences verification returned Left after requesting Right"@,
        (SystemMouseSettingError::PersistentMismatch {
            persistent: PrimaryMouseButton::Right,
            requested: PrimaryMouseButton::Left,
        }).words() == "CFPreferences verification returned Right after requesting Left"@,
{
    reveal_strlit("IOServiceOpen");
    reveal_strlit("IOHIDCopyCFTypeParameter");
    reveal_strlit("IOHIDSetCFTypeParameter");
    reveal_strlit(" failed with 0x");
    reveal_strlit("IOServiceOpen failed with 0x");
    reveal_strlit("IOHIDCopyCFTypeParameter failed with 0x");
    reveal_strlit("IOHIDSetCFTypeParameter failed with 0x");
    assert("IOServiceOpen failed with 0x"@ =~= "IOServiceOpen"@ + " failed with 0x"@);
    assert("IOHIDCopyCFTypeParameter failed with 0x"@ =~= "IOHIDCopyCFTypeParameter"@
        + " failed with 0x"@);
    assert("IOHIDSetCFTypeParameter failed with 0x"@ =~= "IOHIDSetCFTypeParameter"@
        + " failed with 0x"@);
    reveal_strlit("-");
    reveal_strlit("unrecognized HIDPointerButtonMode value ");
    reveal_strlit("unrecognized HIDPointerButtonMode value -");
    assert("unrecognized HIDPointerButtonMode value -"@
        =~= "unrecognized HIDPointerButtonMode value "@ + "-"@);
    if mode < 0 {
        assert(SystemMouseSettingError::UnrecognizedMode(mode).words()
            =~= "unrecognized HIDPointerButtonMode value -"@ + decimal((-mode) as nat));
    }
    reveal_strlit("Left");
    reveal_strlit("Right");
    reveal_strlit("IOHIDSystem");
    reveal_strlit("CFPreferences");
    reveal_strlit(" verification returned ");
    reveal_strlit(" after requesting ");
    reveal_strlit("IOHIDSystem verification returned Left after requesting Right");
    reveal_strlit("IOHIDSystem verification returned Right after requesting Left");
    reveal_strlit("CFPreferences verification returned Left after requesting Right");
    reveal_strlit("CFPreferences verification returned Right after requesting Left");
    assert(mismatch_text("IOHIDSystem"@, PrimaryMouseButton::Left, PrimaryMouseButton::Right)
        =~= "IOHIDSystem verification returned Left after requesting Right"@);
    assert(mismatch_text("IOHIDSystem"@, PrimaryMouseButton::Right, PrimaryMouseButton::Left)
        =~= "IOHIDSystem verification returned Right after requesting Left"@);
    assert(mismatch_text("CFPreferences"@, PrimaryMouseButton::Left, PrimaryMouseButton::Right)
        =~= "CFPreferences verification returned Left after requesting Right"@);
    assert(mismatch_text("CFPreferences"@, PrimaryMouseButton::Right, PrimaryMouseButton::Left)
        =~= "CFPreferences verification returned Right after requesting Left"@);
}

/// Only a system without the setting fails without words, and the fixed failures read as
/// they are named.
pub proof fn fixed_failures_have_their_words()
    ensures
        SystemMouseSettingError::Unsupported.words().len() == 0,
        SystemMouseSettingError::NoMatching.words() == "IOServiceMatching returned null"@,
        SystemMouseSettingError::NoService.words() == "IOHIDSystem service was not found"@,
        SystemMouseSettingError::NoValue.words() == "HIDPointerButtonMode returned null"@,
        SystemMouseSettingError::NotANumber.words() == "HIDPointerButtonMode was not a CFNumber"@,
        SystemMouseSettingError::NotAnInteger.words() == "HIDPointerButtonMode was not an i32"@,
        SystemMouseSettingError::PreferenceAbsent.words()
            == "persistent mouse swap preference was absent or not a boolean"@,
        SystemMouseSettingError::PreferenceRejected.words()
            == "CFPreferencesSynchronize rejected the mouse swap preference"@,
{
}

} // verus!
