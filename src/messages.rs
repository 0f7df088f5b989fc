//! Messages exchanged between the tasks, and the small hardware-facing
//! value types they carry.
use vstd::prelude::*;
use crate::rtp::RtpPacket;

verus! {

/// Level of the single user button.
#[derive(Debug, Clone, Copy, PartialEq, Eq, Structural)]
pub enum ButtonState {
    Pressed,
    Released,
}

/// What the indicator shows.
#[derive(Debug, Clone, Copy, PartialEq, Eq, Structural)]
pub enum LedState {
    Off,
    Color { red: u8, green: u8, blue: u8 },
}

/// Audio direction during a call: speaker only, or microphone to network.
#[derive(Debug, Clone, Copy, PartialEq, Eq, Structural)]
pub enum AudioMode {
    Listen,
    Talk,
}

#[derive(Debug, Clone, Copy, PartialEq, Eq, Structural)]
pub enum ButtonEvent {
    StateChanged(ButtonState),
    ShortPress,
    DoubleTap,
}

#[derive(Debug, Clone, Copy, PartialEq, Eq, Structural)]
pub enum SipCommand {
    Button(ButtonEvent),
}

#[derive(Debug, Clone, Copy, PartialEq, Eq, Structural)]
pub enum AudioCodec {
    Pcmu8k,
}

/// Call state as the UI and the audio engine see it.
#[derive(Debug, Clone, Copy, PartialEq, Eq, Structural)]
pub enum PhoneState {
    Idle,
    Ringing,
    Established,
}

#[derive(Debug, Clone, Copy, PartialEq, Eq, Structural)]
pub enum AudioCommand {
    SetMode(AudioMode),
    SetDialogState(PhoneState),
}

#[derive(Debug, Clone, PartialEq, Eq)]
pub enum RtpCommand {
    StartStream {
        remote_ip: String,
        remote_port: u16,
        expected_remote_ssrc: Option<u32>,
        local_ssrc: Option<u32>,
        payload_type: u8,
    },
    StopStream,
}

#[derive(Debug, Clone, Copy, PartialEq, Eq, Structural)]
pub enum UiCommand {
    DialogStateChanged(PhoneState),
    RegistrationStateChanged(bool),
    SetLed(LedState),
}

/// Captured PCM: 160 samples, 20 ms at 8 kHz.
#[derive(Debug, Clone, PartialEq, Eq)]
pub enum MediaOut {
    PcmFrame(Vec<i16>),
}

/// Largest inbound RTP payload handed to the audio task.
pub const RX_PAYLOAD_MAX: usize = 512;

pub type RxRtpPacket = RtpPacket<512>;

/// An inbound RTP packet that passed the stream's checks.
#[derive(Debug, Clone, PartialEq, Eq)]
pub enum MediaIn {
    RtpPcmuPacket(RxRtpPacket),
}

/// Errors that end the program during start-up.
#[derive(Debug, Clone, Copy, PartialEq, Eq, Structural)]
pub enum AppError {
    Hardware,
    Sip,
    Io,
}

/// Errors of the hardware layer.
#[derive(Debug, Clone, Copy, PartialEq, Eq)]
pub enum HardwareError {
    Wifi(&'static str),
    Audio(&'static str),
    Gpio(&'static str),
    Config(&'static str),
    Other(&'static str),
}

/// Static endpoint configuration.
#[derive(Debug, Clone, PartialEq, Eq)]
pub struct Settings {
    pub wifi_ssid: String,
    pub wifi_password: String,
    /// Set for WPA2-Enterprise.
    pub wifi_username: Option<String>,
    pub sip_registrar: String,
    pub sip_contact: String,
    pub sip_username: String,
    pub sip_password: String,
    pub sip_target: String,
    /// Seconds an unanswered call rings.
    pub ring_timeout: i64,
    pub task_stats: bool,
}

/// Longest SSID, in bytes.
pub const SSID_MAX: usize = 32;

/// Longest Wi-Fi password, in bytes.
pub const PASSWORD_MAX: usize = 64;

/// Longest WPA2-Enterprise user name, in bytes.
pub const USERNAME_MAX: usize = 32;

/// Wi-Fi credentials; a user name selects WPA2-Enterprise.
#[derive(Debug, Clone, PartialEq, Eq)]
pub struct WifiConfig {
    pub ssid: String,
    pub password: String,
    pub username: Option<String>,
}

/// Number of UTF-8 bytes of `s`.
pub open spec fn byte_len(s: Seq<char>) -> int {
    vstd::utf8::encode_utf8(s).len() as int
}

fn fits(s: &str, max: usize) -> (r: bool)
    ensures
        r == (byte_len(s@) <= max),
{
    s.as_bytes().len() <= max
}

impl WifiConfig {
    /// Credentials within the radio's limits: SSID up to 32 bytes, password
    /// up to 64, user name up to 32; otherwise `Config`, for the first field
    /// that is too long.
    pub fn new(ssid: &str, password: &str, username: Option<&str>) -> (r: Result<WifiConfig, HardwareError>)
        ensures
            (byte_len(ssid@) <= SSID_MAX && byte_len(password@) <= PASSWORD_MAX && match username {
                Some(u) => byte_len(u@) <= USERNAME_MAX,
                None => true,
            }) ==> (r matches Ok(c) && c.ssid@ == ssid@ && c.password@ == password@ && match username {
                Some(u) => c.username matches Some(cu) && cu@ == u@,
                None => c.username is None,
            }),
            !(byte_len(ssid@) <= SSID_MAX && byte_len(password@) <= PASSWORD_MAX && match username {
                Some(u) => byte_len(u@) <= USERNAME_MAX,
                None => true,
            }) ==> r matches Err(HardwareError::Config(_)),
    {
        if !fits(ssid, SSID_MAX) {
            return Err(HardwareError::Config("SSID too long"));
        }
        if !fits(password, PASSWORD_MAX) {
            return Err(HardwareError::Config("password too long"));
        }
        let user = match username {
            Some(u) => {
                if !fits(u, USERNAME_MAX) {
                    return Err(HardwareError::Config("username too long"));
                }
                Some(crate::registration::lit(u))
            },
            None => None,
        };
        Ok(WifiConfig {
            ssid: crate::registration::lit(ssid),
            password: crate::registration::lit(password),
            username: user,
        })
    }
}

/// Sample format of an audio stream.
#[derive(Debug, Clone, Copy, PartialEq, Eq, Structural)]
pub struct SampleInfo {
    pub sample_rate: u32,
    pub bits_per_sample: u8,
}

#[derive(Debug, Clone, Copy, PartialEq, Eq, Structural)]
pub struct AudioCaps {
    pub full_duplex: bool,
}

} // verus!
