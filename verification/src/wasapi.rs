//! The plain-value side of the audio session API used to play and capture
//! sound: its error type, the modes and states it reports, the stream
//! flags chosen when a client is set up, the buffer flags, and the checks
//! made on the data handed to and taken from a device's buffer.

use vstd::prelude::*;
use crate::parse::{decimal_text, usize_text};
use std::collections::VecDeque;

verus! {

/// Error reported by the audio layer.
#[derive(Debug)]
pub struct WasapiError {
    desc: String,
}

impl WasapiError {
    /// The text of the error.
    pub closed spec fn desc(&self) -> Seq<char> {
        self.desc@
    }

    /// An error that reads `desc`.
    pub fn new(desc: &str) -> (r: WasapiError)
        ensures
            r.desc() == desc@,
    {
        WasapiError { desc: desc.to_owned() }
    }

    /// The text of the error.
    pub fn description(&self) -> (r: &str)
        ensures
            r@ == self.desc(),
    {
        self.desc.as_str()
    }
}

/// Audio direction, playback or capture.
#[derive(Clone, Copy, Debug, PartialEq, Eq, Structural)]
pub enum Direction {
    Render,
    Capture,
}

/// Share mode of a device.
#[derive(Clone, Copy, Debug, PartialEq, Eq, Structural)]
pub enum ShareMode {
    Shared,
    Exclusive,
}

/// Sample type, float or integer.
#[derive(Clone, Copy, Debug, PartialEq, Eq, Structural)]
pub enum SampleType {
    Float,
    Int,
}

/// States of an audio session.
#[derive(Clone, Copy, Debug, PartialEq, Eq, Structural)]
pub enum SessionState {
    Active,
    Inactive,
    Expired,
}

/// The raw value of an inactive session's state.
pub const SESSION_STATE_INACTIVE: i32 = 0;

/// The raw value of an active session's state.
pub const SESSION_STATE_ACTIVE: i32 = 1;

/// The raw value of an expired session's state.
pub const SESSION_STATE_EXPIRED: i32 = 2;

impl SessionState {
    /// The state a raw session state stands for; any other value is an
    /// illegal state.
    pub fn from_state(state: i32) -> (r: Result<SessionState, WasapiError>)
        ensures
            state == SESSION_STATE_ACTIVE ==> r == Ok::<SessionState, WasapiError>(SessionState::Active),
            state == SESSION_STATE_INACTIVE ==> r == Ok::<SessionState, WasapiError>(SessionState::Inactive),
            state == SESSION_STATE_EXPIRED ==> r == Ok::<SessionState, WasapiError>(SessionState::Expired),
            !(0 <= state <= 2) ==> (r matches Err(e) && e.desc() == "Got an illegal state"@),
    {
        if state == SESSION_STATE_ACTIVE {
            Ok(SessionState::Active)
        } else if state == SESSION_STATE_INACTIVE {
            Ok(SessionState::Inactive)
        } else if state == SESSION_STATE_EXPIRED {
            Ok(SessionState::Expired)
        } else {
            Err(WasapiError::new("Got an illegal state"))
        }
    }
}

/// Stream flag: capture what a playback device plays.
pub const STREAMFLAGS_LOOPBACK: u32 = 0x0002_0000;

/// Stream flag: signal buffer events.
pub const STREAMFLAGS_EVENTCALLBACK: u32 = 0x0004_0000;

/// Stream flag: do not keep volume settings.
pub const STREAMFLAGS_NOPERSIST: u32 = 0x0008_0000;

/// Stream flag: default-quality sample rate conversion.
pub const STREAMFLAGS_SRC_DEFAULT_QUALITY: u32 = 0x0800_0000;

/// Stream flag: convert the sample format automatically.
pub const STREAMFLAGS_AUTOCONVERTPCM: u32 = 0x8000_0000;

/// The raw value of the shared mode.
pub const SHAREMODE_SHARED: i32 = 0;

/// The raw value of the exclusive mode.
pub const SHAREMODE_EXCLUSIVE: i32 = 1;

/// The stream flags for opening a device of direction `device` for
/// `direction` in `sharemode`: event callbacks, plus loopback to capture
/// from a playback device (shared mode only); a capture device cannot
/// play. With `convert`, automatic format and rate conversion are added.
pub open spec fn stream_flags_spec(device: Direction, direction: Direction, sharemode: ShareMode, convert: bool) -> Option<u32> {
    let base: Option<u32> = match (device, direction, sharemode) {
        (Direction::Render, Direction::Capture, ShareMode::Shared) => Some(
            STREAMFLAGS_EVENTCALLBACK | STREAMFLAGS_LOOPBACK,
        ),
        (Direction::Render, Direction::Capture, ShareMode::Exclusive) => None,
        (Direction::Capture, Direction::Render, _) => None,
        _ => Some(STREAMFLAGS_EVENTCALLBACK),
    };
    match base {
        Some(f) => if convert {
            Some(f | (STREAMFLAGS_AUTOCONVERTPCM | STREAMFLAGS_SRC_DEFAULT_QUALITY))
        } else {
            Some(f)
        },
        None => None,
    }
}

/// The stream flags for setting up a client of a `device` device to
/// `direction` in `sharemode`, or the error that forbids it: loopback
/// needs the shared mode, and a capture device cannot play.
pub fn stream_flags(device: Direction, direction: Direction, sharemode: ShareMode, convert: bool) -> (r: Result<u32, WasapiError>)
    ensures
        match stream_flags_spec(device, direction, sharemode, convert) {
            Some(f) => r == Ok::<u32, WasapiError>(f),
            None => r is Err,
        },
        device == Direction::Render && direction == Direction::Capture && sharemode == ShareMode::Exclusive
            ==> (r matches Err(e) && e.desc() == "Cant use Loopback with exclusive mode"@),
        device == Direction::Capture && direction == Direction::Render ==> (r matches Err(e) && e.desc()
            == "Cant render to a capture device"@),
{
    let mut flags: u32 = match (device, direction, sharemode) {
        (Direction::Render, Direction::Capture, ShareMode::Shared) => STREAMFLAGS_EVENTCALLBACK | STREAMFLAGS_LOOPBACK,
        (Direction::Render, Direction::Capture, ShareMode::Exclusive) => {
            return Err(WasapiError::new("Cant use Loopback with exclusive mode"));
        },
        (Direction::Capture, Direction::Render, _) => {
            return Err(WasapiError::new("Cant render to a capture device"));
        },
        _ => STREAMFLAGS_EVENTCALLBACK,
    };
    if convert {
        flags = flags | (STREAMFLAGS_AUTOCONVERTPCM | STREAMFLAGS_SRC_DEFAULT_QUALITY);
    }
    Ok(flags)
}

/// The raw value of a share mode.
pub fn share_mode_value(sharemode: ShareMode) -> (r: i32)
    ensures
        r == (match sharemode {
            ShareMode::Exclusive => SHAREMODE_EXCLUSIVE,
            ShareMode::Shared => SHAREMODE_SHARED,
        }),
{
    match sharemode {
        ShareMode::Exclusive => SHAREMODE_EXCLUSIVE,
        ShareMode::Shared => SHAREMODE_SHARED,
    }
}

/// The free space in a client's buffer, in frames: the whole buffer of
/// `buffer_frames` in exclusive mode, the buffer less the `padding` frames
/// still queued in shared mode; an error while the client has not been
/// set up.
pub fn available_space_in_frames(sharemode: Option<ShareMode>, buffer_frames: u32, padding: u32) -> (r: Result<u32, WasapiError>)
    requires
        sharemode == Some(ShareMode::Shared) ==> padding <= buffer_frames,
    ensures
        match sharemode {
            Some(ShareMode::Exclusive) => r == Ok::<u32, WasapiError>(buffer_frames),
            Some(ShareMode::Shared) => r == Ok::<u32, WasapiError>((buffer_frames - padding) as u32),
            None => r matches Err(e) && e.desc() == "Client has not been initialized"@,
        },
{
    match sharemode {
        Some(ShareMode::Exclusive) => Ok(buffer_frames),
        Some(ShareMode::Shared) => Ok(buffer_frames - padding),
        None => Err(WasapiError::new("Client has not been initialized")),
    }
}

/// The number of frames in the next captured packet, which is asked only
/// in shared mode: None in exclusive mode, `packet_frames` otherwise.
pub fn next_packet_frames(sharemode: Option<ShareMode>, packet_frames: u32) -> (r: Option<u32>)
    ensures
        r == (if sharemode == Some(ShareMode::Exclusive) {
            None
        } else {
            Some(packet_frames)
        }),
{
    if let Some(ShareMode::Exclusive) = sharemode {
        return None;
    }
    Some(packet_frames)
}

/// Buffer flag: the data is not continuous with the packet before.
pub const BUFFERFLAGS_DATA_DISCONTINUITY: u32 = 1;

/// Buffer flag: the packet is silent.
pub const BUFFERFLAGS_SILENT: u32 = 2;

/// Buffer flag: the packet's time stamp is wrong.
pub const BUFFERFLAGS_TIMESTAMP_ERROR: u32 = 4;

/// The flags of an audio buffer.
#[derive(Clone, Copy, Debug, PartialEq, Eq, Structural)]
pub struct BufferFlags {
    /// The data is not continuous with the packet before.
    pub data_discontinuity: bool,
    /// The packet is silent.
    pub silent: bool,
    /// The packet's time stamp is wrong.
    pub timestamp_error: bool,
}

impl BufferFlags {
    /// The value of a set of flags: each flag that is set adds its bit.
    pub open spec fn value(&self) -> u32 {
        ((if self.data_discontinuity { BUFFERFLAGS_DATA_DISCONTINUITY } else { 0 }) + (if self.silent {
            BUFFERFLAGS_SILENT
        } else {
            0
        }) + (if self.timestamp_error { BUFFERFLAGS_TIMESTAMP_ERROR } else { 0 })) as u32
    }

    /// The flags set in `flags`.
    pub fn new(flags: u32) -> (r: BufferFlags)
        ensures
            r.data_discontinuity == (flags & BUFFERFLAGS_DATA_DISCONTINUITY > 0),
            r.silent == (flags & BUFFERFLAGS_SILENT > 0),
            r.timestamp_error == (flags & BUFFERFLAGS_TIMESTAMP_ERROR > 0),
    {
        BufferFlags {
            data_discontinuity: flags & BUFFERFLAGS_DATA_DISCONTINUITY > 0,
            silent: flags & BUFFERFLAGS_SILENT > 0,
            timestamp_error: flags & BUFFERFLAGS_TIMESTAMP_ERROR > 0,
        }
    }

    /// The value of the flags.
    pub fn to_u32(&self) -> (r: u32)
        ensures
            r == self.value(),
    {
        let mut value: u32 = 0;
        if self.data_discontinuity {
            value = value + BUFFERFLAGS_DATA_DISCONTINUITY;
        }
        if self.silent {
            value = value + BUFFERFLAGS_SILENT;
        }
        if self.timestamp_error {
            value = value + BUFFERFLAGS_TIMESTAMP_ERROR;
        }
        value
    }
}

/// Reading flags back from their value gives the same flags.
pub proof fn lemma_buffer_flags_round_trip(f: BufferFlags)
    ensures
        (f.value() & BUFFERFLAGS_DATA_DISCONTINUITY > 0) == f.data_discontinuity,
        (f.value() & BUFFERFLAGS_SILENT > 0) == f.silent,
        (f.value() & BUFFERFLAGS_TIMESTAMP_ERROR > 0) == f.timestamp_error,
{
    let a = f.data_discontinuity;
    let b = f.silent;
    let c = f.timestamp_error;
    let v = f.value();
    assert(v == ((if a { 1u32 } else { 0u32 }) | (if b { 2u32 } else { 0u32 }) | (if c { 4u32 } else { 0u32 }))) by (bit_vector)
        requires
            v == ((if a { 1u32 } else { 0u32 }) + (if b { 2u32 } else { 0u32 }) + (if c { 4u32 } else { 0u32 })) as u32,
    ;
    assert((v & 1u32 > 0) == a && (v & 2u32 > 0) == b && (v & 4u32 > 0) == c) by (bit_vector)
        requires
            v == ((if a { 1u32 } else { 0u32 }) | (if b { 2u32 } else { 0u32 }) | (if c { 4u32 } else { 0u32 })),
    ;
}

/// The value of the flags read from `flags` keeps exactly the three flag
/// bits of `flags`.
pub proof fn lemma_buffer_flags_value(flags: u32)
    ensures
        ({
            let f = BufferFlags {
                data_discontinuity: flags & BUFFERFLAGS_DATA_DISCONTINUITY > 0,
                silent: flags & BUFFERFLAGS_SILENT > 0,
                timestamp_error: flags & BUFFERFLAGS_TIMESTAMP_ERROR > 0,
            };
            f.value() == flags & 7
        }),
{
    let a = flags & 1u32 > 0;
    let b = flags & 2u32 > 0;
    let c = flags & 4u32 > 0;
    assert(((if a { 1u32 } else { 0u32 }) + (if b { 2u32 } else { 0u32 }) + (if c { 4u32 } else { 0u32 })) as u32
        == flags & 7u32) by (bit_vector)
        requires
            a == (flags & 1u32 > 0),
            b == (flags & 2u32 > 0),
            c == (flags & 4u32 > 0),
    ;
}


/// The error text for data of `got` bytes where `expected` were wanted.
pub open spec fn wrong_length_text(got: nat, expected: nat) -> Seq<char> {
    "Wrong length of data, got "@ + decimal_text(got) + ", expected "@ + decimal_text(expected)
}

/// Checks the data handed over to fill a device buffer of `nbr_frames`
/// frames of `byte_per_frame` bytes: it must be exactly that many bytes.
/// Returns the number of bytes to copy.
pub fn check_write_length(nbr_frames: usize, byte_per_frame: usize, data_len: usize) -> (r: Result<usize, WasapiError>)
    requires
        nbr_frames * byte_per_frame <= usize::MAX,
    ensures
        match r {
            Ok(n) => n == nbr_frames * byte_per_frame && n == data_len,
            Err(e) => nbr_frames * byte_per_frame != data_len && e.desc() == wrong_length_text(
                data_len as nat,
                (nbr_frames * byte_per_frame) as nat,
            ),
        },
{
    let nbr_bytes = nbr_frames * byte_per_frame;
    if nbr_bytes != data_len {
        let mut text = String::from_str("Wrong length of data, got ");
        text.append(usize_text(data_len).as_str());
        text.append(", expected ");
        text.append(usize_text(nbr_bytes).as_str());
        return Err(WasapiError::new(text.as_str()));
    }
    Ok(nbr_bytes)
}

/// The error text for a queue of `got` bytes where `need` were wanted.
pub open spec fn too_little_text(got: nat, need: nat) -> Seq<char> {
    "To little data, got "@ + decimal_text(got) + ", need "@ + decimal_text(need)
}

/// Takes the bytes for a device buffer of `nbr_frames` frames of
/// `byte_per_frame` bytes from the front of the queue `data`, in order.
/// When the queue holds fewer bytes, nothing is taken and an error says so.
pub fn take_queued_bytes(nbr_frames: usize, byte_per_frame: usize, data: &mut VecDeque<u8>) -> (r: Result<Vec<u8>, WasapiError>)
    requires
        nbr_frames * byte_per_frame <= usize::MAX,
    ensures
        match r {
            Ok(bytes) => {
                let n = nbr_frames * byte_per_frame;
                &&& n <= old(data)@.len()
                &&& bytes@ == old(data)@.take(n)
                &&& final(data)@ == old(data)@.skip(n)
            },
            Err(e) => {
                &&& old(data)@.len() < nbr_frames * byte_per_frame
                &&& final(data)@ == old(data)@
                &&& e.desc() == too_little_text(old(data)@.len(), (nbr_frames * byte_per_frame) as nat)
            },
        },
{
    let nbr_bytes = nbr_frames * byte_per_frame;
    if nbr_bytes > data.len() {
        let mut text = String::from_str("To little data, got ");
        text.append(usize_text(data.len()).as_str());
        text.append(", need ");
        text.append(usize_text(nbr_bytes).as_str());
        return Err(WasapiError::new(text.as_str()));
    }
    let mut bytes: Vec<u8> = Vec::new();
    let mut i: usize = 0;
    while i < nbr_bytes
        invariant
            nbr_bytes <= old(data)@.len(),
            i <= nbr_bytes,
            bytes@ == old(data)@.take(i as int),
            data@ == old(data)@.skip(i as int),
        decreases nbr_bytes - i,
    {
        let b = data.pop_front();
        match b {
            Some(x) => {
                proof {
                    assert(old(data)@.take(i + 1) =~= old(data)@.take(i as int).push(x));
                    assert(data@ =~= old(data)@.skip(i + 1));
                }
                bytes.push(x);
            },
            None => {
                proof {
                    assert(old(data)@.skip(i as int).len() > 0);
                }
            },
        }
        i = i + 1;
    }
    Ok(bytes)
}

/// The error text for room for `got` frames where `expected` came.
pub open spec fn too_few_frames_text(got: nat, expected: nat) -> Seq<char> {
    "Wrong length of data, got "@ + decimal_text(got) + " frames, expected at least "@ + decimal_text(expected)
        + " frames"@
}

/// Checks that the `frames_returned` frames of `bytes_per_frame` bytes that
/// a capture buffer holds fit into data of `data_len` bytes. Returns the
/// number of bytes to copy: none when the buffer is empty.
pub fn check_read_length(bytes_per_frame: usize, data_len: usize, frames_returned: u32) -> (r: Result<usize, WasapiError>)
    requires
        0 < bytes_per_frame,
        frames_returned * bytes_per_frame <= usize::MAX,
    ensures
        match r {
            Ok(n) => {
                &&& n == frames_returned * bytes_per_frame
                &&& (frames_returned == 0 || frames_returned <= data_len / bytes_per_frame)
            },
            Err(e) => {
                &&& frames_returned != 0
                &&& data_len / bytes_per_frame < frames_returned
                &&& e.desc() == too_few_frames_text((data_len / bytes_per_frame) as nat, frames_returned as nat)
            },
        },
{
    let data_len_in_frames = data_len / bytes_per_frame;
    if frames_returned == 0 {
        return Ok(0);
    }
    if data_len_in_frames < frames_returned as usize {
        let mut text = String::from_str("Wrong length of data, got ");
        text.append(usize_text(data_len_in_frames).as_str());
        text.append(" frames, expected at least ");
        text.append(usize_text(frames_returned as usize).as_str());
        text.append(" frames");
        return Err(WasapiError::new(text.as_str()));
    }
    Ok(frames_returned as usize * bytes_per_frame)
}

/// The first position in `names` that holds `name`, if any.
pub open spec fn first_with_name(names: Seq<Seq<char>>, name: Seq<char>, i: int) -> Option<int>
    decreases names.len() - i,
{
    if i < 0 || i >= names.len() {
        None
    } else if names[i] == name {
        Some(i)
    } else {
        first_with_name(names, name, i + 1)
    }
}

/// The device to use among devices named `names` (in the order the system
/// lists them): the first whose name is `name`, else an error naming it.
pub fn find_device_by_name(names: &Vec<String>, name: &str) -> (r: Result<usize, WasapiError>)
    ensures
        match r {
            Ok(i) => first_with_name(names@.map_values(|s: String| s@), name@, 0) == Some(i as int),
            Err(e) => first_with_name(names@.map_values(|s: String| s@), name@, 0) is None
                && e.desc() == "Unable to find device "@ + name@,
        },
{
    let ghost all = names@.map_values(|s: String| s@);
    let mut i: usize = 0;
    while i < names.len()
        invariant
            i <= names@.len(),
            all == names@.map_values(|s: String| s@),
            first_with_name(all, name@, 0) == first_with_name(all, name@, i as int),
        decreases names@.len() - i,
    {
        proof {
            assert(all[i as int] == names@[i as int]@);
        }
        if crate::data::same_text(names[i].as_str(), name) {
            return Ok(i);
        }
        i = i + 1;
    }
    let mut text = String::from_str("Unable to find device ");
    text.append(name);
    Err(WasapiError::new(text.as_str()))
}

} // verus!
