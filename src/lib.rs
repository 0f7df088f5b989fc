//! Call engine of a push-to-talk SIP intercom: SIP message model and state
//! machines, RTP framing and stream handling, µ-law codec, jitter buffer,
//! polyphase upsampler, automatic gain control and the UI gesture logic.
use vstd::prelude::*;

pub mod agc;
pub mod agent;
pub mod audio;
pub mod auth;
pub mod dialog;
pub mod dsp;
pub mod jitter;
pub mod message;
pub mod messages;
pub mod registration;
pub mod rtp;
pub mod rtp_session;
pub mod sdp;
pub mod stack;
pub mod text;
pub mod transaction;
pub mod ui;
pub mod ulaw;

verus! {

/// Adds two integers; the caller keeps the sum within `i32`.
pub fn add_numbers(a: i32, b: i32) -> (r: i32)
    requires
        i32::MIN <= a + b <= i32::MAX,
    ensures
        r == a + b,
{
    a + b
}

} // verus!
