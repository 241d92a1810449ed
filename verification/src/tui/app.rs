//! The application: which session is on display, and when the tool ends.

use super::raw_session::{begun_session, informed, key_request, pressed, RawSession, RawView};
use super::worker::{Request, Response, ResponseView};
use vstd::prelude::*;

verus! {

/// What is on display. A raw session takes precedence over one of a known device;
/// the two never exist together.
#[derive(Debug)]
pub enum Display {
    /// The tool waits for a device.
    Waiting,
    /// A session with a known device.
    Session,
    /// A session with an unknown device.
    Raw(RawSession),
}

/// What is on display, in the abstract.
pub ghost enum DisplayView {
    Waiting,
    Session,
    Raw(RawView),
}

impl View for Display {
    type V = DisplayView;

    open spec fn view(&self) -> DisplayView {
        match *self {
            Display::Waiting => DisplayView::Waiting,
            Display::Session => DisplayView::Session,
            Display::Raw(raw) => DisplayView::Raw(raw@),
        }
    }
}

/// What is done with a response of the worker.
#[derive(Debug)]
pub enum Routed {
    /// It is dealt with.
    Taken,
    /// It is for the session with a known device.
    Session(Response),
}

/// The display after a response.
pub open spec fn shown(d: DisplayView, r: ResponseView) -> DisplayView {
    match r {
        ResponseView::DeviceConnected { .. } => DisplayView::Session,
        ResponseView::UnknownDeviceConnected { software_id } => DisplayView::Raw(
            begun_session(software_id),
        ),
        ResponseView::DeviceDisconnected => DisplayView::Waiting,
        _ => match d {
            DisplayView::Raw(raw) => DisplayView::Raw(informed(raw, r)),
            other => other,
        },
    }
}

/// What a key press comes to.
#[derive(Debug)]
pub enum KeyAction {
    /// Send this request to the worker.
    Send(Request),
    /// Nothing.
    Idle,
    /// The tool ends.
    Exit,
}

/// The response is for the session with a known device, where that is on display.
pub open spec fn for_session(d: DisplayView, r: ResponseView) -> bool {
    d is Session && !(r is DeviceConnected) && !(r is UnknownDeviceConnected) && !(r
        is DeviceDisconnected)
}

/// Takes a response of the worker.
pub fn handle_worker_response(display: Display, response: Response) -> (r: (Display, Routed))
    ensures
        r.0@ == shown(display@, response@),
        r.1 is Session <==> for_session(display@, response@),
        r.1 matches Routed::Session(same) ==> same == response,
{
    match response {
        Response::DeviceConnected { .. } => (Display::Session, Routed::Taken),
        Response::UnknownDeviceConnected { software_id } => (
            Display::Raw(RawSession::create(software_id)),
            Routed::Taken,
        ),
        Response::DeviceDisconnected => (Display::Waiting, Routed::Taken),
        other => match display {
            Display::Raw(raw) => {
                let mut raw = raw;
                raw.handle_worker_response(other);
                (Display::Raw(raw), Routed::Taken)
            },
            Display::Session => (Display::Session, Routed::Session(other)),
            Display::Waiting => (Display::Waiting, Routed::Taken),
        },
    }
}

/// The tool ends on `q`, or on `c` with the control key.
pub open spec fn ends(key: char, control: bool) -> bool {
    key == 'q' || (key == 'c' && control)
}

/// What a key press comes to.
pub open spec fn key_action(d: DisplayView, key: char, control: bool) -> KeyAction {
    if d is Raw && key_request(key) is Some {
        KeyAction::Send(key_request(key).unwrap())
    } else if ends(key, control) {
        KeyAction::Exit
    } else {
        KeyAction::Idle
    }
}

/// The display after a key press.
pub open spec fn shown_after_key(d: DisplayView, key: char) -> DisplayView {
    match d {
        DisplayView::Raw(raw) => DisplayView::Raw(pressed(raw, key)),
        other => other,
    }
}

/// Takes a key press that a session with a known device has not dealt with.
pub fn handle_event(display: Display, key: char, control: bool) -> (r: (Display, KeyAction))
    ensures
        r.1 == key_action(display@, key, control),
        r.0@ == shown_after_key(display@, key),
{
    let mut display = display;
    if let Display::Raw(raw) = display {
        let mut raw = raw;
        let request = raw.handle_event(key);
        display = Display::Raw(raw);
        if let Some(request) = request {
            return (display, KeyAction::Send(request));
        }
    }
    if key == 'q' || (key == 'c' && control) {
        return (display, KeyAction::Exit);
    }
    (display, KeyAction::Idle)
}

} // verus!
