//! State shared between the Servo engine and the Slint window.
//!
//! The engine, its web view and the rendering adapter are created after the
//! window; until [`SlintServoAdapter::set_inner`] installs them the slots are
//! empty.
//!
//! Frames reach the window in two steps.  Whenever a new frame may have been
//! painted (once right after installation, then after every paint) a frame is
//! pending; an update reads a frame back only while one is pending, and the
//! frame read is copied into the window only when the read-back produced a
//! new frame version.  So the first update after installation shows a frame,
//! and an update with nothing new painted reads nothing back.
use vstd::prelude::*;
use crate::frame::readback_step;

verus! {

/// Whether a frame with `version`, read back just now, has to be shown when
/// the one last shown had `last_shown`.
pub open spec fn frame_is_new(last_shown: u64, version: u64) -> bool {
    version != last_shown
}

/// The slots that tie a Servo engine (`S`), its web view (`W`) and a
/// rendering adapter (`R`) to the window, plus the graphics handles (`G`) the
/// window renders with.
pub struct SlintServoAdapter<S, W, R, G> {
    servo: Option<S>,
    webview: Option<W>,
    rendering_adapter: Option<R>,
    graphics: G,
    last_frame_version: u64,
    frame_pending: bool,
    current_url: Option<String>,
}

impl<S, W, R, G> SlintServoAdapter<S, W, R, G> {
    /// The engine, once installed.
    pub closed spec fn spec_servo(&self) -> Option<S> {
        self.servo
    }

    /// The web view, once installed.
    pub closed spec fn spec_webview(&self) -> Option<W> {
        self.webview
    }

    /// The rendering adapter, once installed.
    pub closed spec fn spec_rendering_adapter(&self) -> Option<R> {
        self.rendering_adapter
    }

    /// The graphics handles the adapter was made with.
    pub closed spec fn spec_graphics(&self) -> G {
        self.graphics
    }

    /// The version of the frame last copied into the window (0 before any).
    pub closed spec fn spec_last_frame_version(&self) -> u64 {
        self.last_frame_version
    }

    /// Whether a frame may have been painted since the last read-back.
    pub closed spec fn spec_frame_pending(&self) -> bool {
        self.frame_pending
    }

    /// The address the web view last reported, as text.
    pub closed spec fn spec_current_url(&self) -> Option<Seq<char>> {
        match self.current_url {
            Some(url) => Some(url@),
            None => None,
        }
    }

    /// The adapter after [`Self::set_inner`] installs `servo`, `webview` and
    /// `rendering_adapter`: those slots filled and a frame pending.
    pub closed spec fn spec_installed(self, servo: S, webview: W, rendering_adapter: R) -> Self {
        SlintServoAdapter {
            servo: Some(servo),
            webview: Some(webview),
            rendering_adapter: Some(rendering_adapter),
            frame_pending: true,
            ..self
        }
    }

    /// The adapter after [`Self::update_web_content_with_latest_frame`]: no
    /// frame pending.
    pub closed spec fn spec_updated(self) -> Self {
        SlintServoAdapter { frame_pending: false, ..self }
    }

    /// The adapter after [`Self::mark_frame_painted`]: a frame pending.
    pub closed spec fn spec_painted(self) -> Self {
        SlintServoAdapter { frame_pending: true, ..self }
    }

    /// The adapter after [`Self::accept_frame_version`] took `version`: that
    /// version is the last one shown.
    pub closed spec fn spec_accepted(self, version: u64) -> Self {
        SlintServoAdapter { last_frame_version: version, ..self }
    }

    /// The engine, web view, rendering adapter, graphics handles and address
    /// of `self` and `other` agree.
    pub open spec fn same_slots(&self, other: &Self) -> bool {
        &&& self.spec_servo() == other.spec_servo()
        &&& self.spec_webview() == other.spec_webview()
        &&& self.spec_rendering_adapter() == other.spec_rendering_adapter()
        &&& self.spec_graphics() == other.spec_graphics()
        &&& self.spec_current_url() == other.spec_current_url()
    }

    /// An adapter with empty slots, holding the window's graphics handles.
    pub fn new(graphics: G) -> (adapter: Self)
        ensures
            adapter.spec_servo() is None,
            adapter.spec_webview() is None,
            adapter.spec_rendering_adapter() is None,
            adapter.spec_graphics() == graphics,
            adapter.spec_last_frame_version() == 0,
            !adapter.spec_frame_pending(),
            adapter.spec_current_url() is None,
    {
        SlintServoAdapter {
            servo: None,
            webview: None,
            rendering_adapter: None,
            graphics,
            last_frame_version: 0,
            frame_pending: false,
            current_url: None,
        }
    }

    /// Installs the engine, its web view and the rendering adapter.  The
    /// surface may already hold a frame, so one is pending: the first update
    /// afterwards reads it back.
    pub fn set_inner(&mut self, servo: S, webview: W, rendering_adapter: R)
        ensures
            final(self).spec_servo() == Some(servo),
            final(self).spec_webview() == Some(webview),
            final(self).spec_rendering_adapter() == Some(rendering_adapter),
            final(self).spec_graphics() == old(self).spec_graphics(),
            final(self).spec_current_url() == old(self).spec_current_url(),
            final(self).spec_last_frame_version() == old(self).spec_last_frame_version(),
            final(self).spec_frame_pending(),
            *final(self) == old(self).spec_installed(servo, webview, rendering_adapter),
    {
        self.servo = Some(servo);
        self.webview = Some(webview);
        self.rendering_adapter = Some(rendering_adapter);
        self.frame_pending = true;
    }

    /// Whether an engine is installed.
    pub fn has_servo(&self) -> (installed: bool)
        ensures
            installed == self.spec_servo() is Some,
    {
        self.servo.is_some()
    }

    /// Whether a web view is installed.
    pub fn has_webview(&self) -> (installed: bool)
        ensures
            installed == self.spec_webview() is Some,
    {
        self.webview.is_some()
    }

    /// The installed engine.
    pub fn servo(&self) -> (servo: &S)
        requires
            self.spec_servo() is Some,
        ensures
            *servo == self.spec_servo()->0,
    {
        self.servo.as_ref().unwrap()
    }

    /// The installed web view.
    pub fn webview(&self) -> (webview: &W)
        requires
            self.spec_webview() is Some,
        ensures
            *webview == self.spec_webview()->0,
    {
        self.webview.as_ref().unwrap()
    }

    /// The rendering adapter, if one is installed (presenting does nothing
    /// without one).
    pub fn rendering_adapter(&self) -> (adapter: Option<&R>)
        ensures
            adapter is Some <==> self.spec_rendering_adapter() is Some,
            adapter matches Some(r) ==> *r == self.spec_rendering_adapter()->0,
    {
        self.rendering_adapter.as_ref()
    }

    /// Whether frames can be shown: a rendering adapter is installed.
    pub fn is_active(&self) -> (active: bool)
        ensures
            active == self.spec_rendering_adapter() is Some,
    {
        self.rendering_adapter.is_some()
    }

    /// The web view painted a frame: it is pending until the next update.
    pub fn mark_frame_painted(&mut self)
        ensures
            final(self).spec_frame_pending(),
            final(self).same_slots(&*old(self)),
            final(self).spec_last_frame_version() == old(self).spec_last_frame_version(),
            *final(self) == old(self).spec_painted(),
    {
        self.frame_pending = true;
    }

    /// Starts copying the latest frame into the window.  Returns whether to
    /// read a frame back now: exactly when one is pending, which it then no
    /// longer is.
    pub fn update_web_content_with_latest_frame(&mut self) -> (read_back: bool)
        requires
            old(self).spec_rendering_adapter() is Some,
        ensures
            read_back == old(self).spec_frame_pending(),
            !final(self).spec_frame_pending(),
            final(self).same_slots(&*old(self)),
            final(self).spec_last_frame_version() == old(self).spec_last_frame_version(),
            *final(self) == old(self).spec_updated(),
    {
        let read_back = self.frame_pending;
        self.frame_pending = false;
        read_back
    }

    /// Takes the rendering adapter's frame version after a read-back and says
    /// whether the frame read is copied into the window: only when the version
    /// differs from the one last shown, which it then becomes.
    pub fn accept_frame_version(&mut self, version: u64) -> (show: bool)
        ensures
            show == frame_is_new(old(self).spec_last_frame_version(), version),
            show <==> version != old(self).spec_last_frame_version(),
            final(self).spec_last_frame_version() == version,
            final(self).spec_frame_pending() == old(self).spec_frame_pending(),
            final(self).same_slots(&*old(self)),
            *final(self) == old(self).spec_accepted(version),
    {
        if version == self.last_frame_version {
            false
        } else {
            self.last_frame_version = version;
            true
        }
    }

    /// Records the address the web view moved to.
    pub fn set_current_url(&mut self, url: String)
        ensures
            final(self).spec_current_url() == Some(url@),
            final(self).spec_servo() == old(self).spec_servo(),
            final(self).spec_webview() == old(self).spec_webview(),
            final(self).spec_rendering_adapter() == old(self).spec_rendering_adapter(),
            final(self).spec_graphics() == old(self).spec_graphics(),
            final(self).spec_last_frame_version() == old(self).spec_last_frame_version(),
            final(self).spec_frame_pending() == old(self).spec_frame_pending(),
    {
        self.current_url = Some(url);
    }

    /// The address the web view last reported.
    pub fn current_url(&self) -> (url: Option<&String>)
        ensures
            url is Some <==> self.spec_current_url() is Some,
            url matches Some(u) ==> u@ == self.spec_current_url()->0,
    {
        self.current_url.as_ref()
    }
}

/// The first update after installation shows a frame.  After
/// [`SlintServoAdapter::set_inner`] a frame is pending, so the next
/// [`SlintServoAdapter::update_web_content_with_latest_frame`] reads one back;
/// while the rendering adapter's counter stands at the version last shown, a
/// read-back that produces a frame bumps it by one, and
/// [`SlintServoAdapter::accept_frame_version`] then shows it.
pub proof fn lemma_first_update_after_set_inner_shows_frame<S, W, R, G>(
    adapter: SlintServoAdapter<S, W, R, G>,
    servo: S,
    webview: W,
    rendering_adapter: R,
)
    requires
        adapter.spec_last_frame_version() < u64::MAX,
    ensures
        ({
            let installed = adapter.spec_installed(servo, webview, rendering_adapter);
            let updated = installed.spec_updated();
            let read = (adapter.spec_last_frame_version() + 1) as u64;
            &&& installed.spec_frame_pending()
            &&& readback_step(adapter.spec_last_frame_version(), true, read)
            &&& frame_is_new(updated.spec_last_frame_version(), read)
            &&& updated.spec_accepted(read).spec_last_frame_version() == read
        }),
{
}

/// An update reads a frame back only when one was painted since the last
/// update: right after an update (and after the version it read was taken),
/// a second update reads nothing back; after a paint it does.
pub proof fn lemma_no_read_back_without_new_frame<S, W, R, G>(
    adapter: SlintServoAdapter<S, W, R, G>,
    version: u64,
)
    ensures
        !adapter.spec_updated().spec_frame_pending(),
        !adapter.spec_updated().spec_accepted(version).spec_frame_pending(),
        adapter.spec_updated().spec_accepted(version).spec_painted().spec_frame_pending(),
{
}

/// A frame version that was just taken is not shown again: taking the same
/// version twice in a row shows it at most once.
pub proof fn lemma_same_version_shown_once<S, W, R, G>(
    adapter: SlintServoAdapter<S, W, R, G>,
    version: u64,
)
    ensures
        !frame_is_new(adapter.spec_accepted(version).spec_last_frame_version(), version),
{
}

} // verus!
