//! Keeping the machine awake while music plays. The controller decides
//! when to ask for that and when to let go; the asking itself is left to
//! whoever holds the handle to the desktop.

use crate::playback::PlaybackState;
use vstd::prelude::*;

verus! {

/// What the controller asks of the desktop.
#[derive(Clone, Copy, Debug, PartialEq, Eq, Structural)]
pub enum InhibitRequest {
    /// Ask the desktop not to suspend, and hand the cookie it gives to
    /// `inhibited`.
    Inhibit,
    /// Give back the cookie.
    Uninhibit(u32),
    /// Nothing to do.
    Nothing,
}

/// The controller. Its cookie is 0 while suspending is not held off.
#[derive(Debug)]
pub struct InhibitController {
    cookie: u32,
}

impl View for InhibitController {
    type V = u32;

    closed spec fn view(&self) -> u32 {
        self.cookie
    }
}

impl Default for InhibitController {
    fn default() -> (res: Self)
        ensures
            res@ == 0,
    {
        InhibitController::new()
    }
}

/// What a playback state asks for, given the cookie that is held.
pub open spec fn spec_request(cookie: u32, state: PlaybackState) -> InhibitRequest {
    if state == PlaybackState::Playing {
        if cookie == 0 {
            InhibitRequest::Inhibit
        } else {
            InhibitRequest::Nothing
        }
    } else if cookie != 0 {
        InhibitRequest::Uninhibit(cookie)
    } else {
        InhibitRequest::Nothing
    }
}

impl InhibitController {
    pub fn new() -> (res: InhibitController)
        ensures
            res@ == 0,
    {
        InhibitController { cookie: 0 }
    }

    /// Takes note of a playback state. Playing asks for suspending to be
    /// held off, unless it is already; any other state gives the cookie
    /// back, if one is held, and holds none afterwards.
    pub fn set_playback_state(&mut self, playback_state: &PlaybackState) -> (res: InhibitRequest)
        ensures
            res == spec_request(old(self)@, *playback_state),
            final(self)@ == if *playback_state == PlaybackState::Playing {
                old(self)@
            } else {
                0
            },
    {
        match playback_state {
            PlaybackState::Playing => {
                if self.cookie == 0 {
                    InhibitRequest::Inhibit
                } else {
                    InhibitRequest::Nothing
                }
            },
            _ => {
                let cookie = self.cookie;
                self.cookie = 0;
                if cookie != 0 {
                    InhibitRequest::Uninhibit(cookie)
                } else {
                    InhibitRequest::Nothing
                }
            },
        }
    }

    /// Records the cookie that the desktop gave in answer to `Inhibit`.
    pub fn inhibited(&mut self, cookie: u32)
        ensures
            final(self)@ == cookie,
    {
        self.cookie = cookie;
    }

    /// The cookie that is held, 0 for none.
    pub fn cookie(&self) -> (res: u32)
        ensures
            res == self@,
    {
        self.cookie
    }
}

/// While a cookie is held, being told of playing again asks for nothing:
/// suspending is held off once, however often playing is reported.
pub proof fn lemma_inhibit_once(cookie: u32)
    requires
        cookie != 0,
    ensures
        spec_request(cookie, PlaybackState::Playing) == InhibitRequest::Nothing,
        spec_request(cookie, PlaybackState::Paused) == InhibitRequest::Uninhibit(cookie),
        spec_request(cookie, PlaybackState::Stopped) == InhibitRequest::Uninhibit(cookie),
        spec_request(0, PlaybackState::Paused) == InhibitRequest::Nothing,
{
}

} // verus!
