//! The order in which ways to capture the screen are tried.

use crate::image::Argb32Image;
use crate::text::{self, is_switched_on, same_text};
use std::sync::Arc;
use vstd::prelude::*;

verus! {

/// One step of capturing the full screen.
#[derive(Debug, Clone, Copy, PartialEq, Eq, Structural)]
pub enum CaptureStep {
    /// Paint the test image.
    Demo,
    /// Ask the portal, naming the parent window if there is one.
    Portal,
    /// Store the permission to take screenshots.
    GrantPermission,
    /// Ask the portal again, without a parent window.
    PortalRetry,
    /// Ask GNOME Shell over D-Bus.
    GnomeDbus,
    /// There is an image.
    Done,
    Failed,
}

/// The step after a step that went well or did not. Storing the permission is
/// never what decides: the portal is asked again either way.
pub open spec fn step_after(step: CaptureStep, ok: bool, allow_dbus: bool) -> CaptureStep {
    match step {
        CaptureStep::Demo => CaptureStep::Done,
        CaptureStep::Portal => if ok {
            CaptureStep::Done
        } else {
            CaptureStep::GrantPermission
        },
        CaptureStep::GrantPermission => CaptureStep::PortalRetry,
        CaptureStep::PortalRetry => if ok {
            CaptureStep::Done
        } else if allow_dbus {
            CaptureStep::GnomeDbus
        } else {
            CaptureStep::Failed
        },
        CaptureStep::GnomeDbus => if ok {
            CaptureStep::Done
        } else {
            CaptureStep::Failed
        },
        CaptureStep::Done => CaptureStep::Done,
        CaptureStep::Failed => CaptureStep::Failed,
    }
}

/// The way to the screen's contents.
#[derive(Debug, Clone, Copy)]
pub struct ScreenshotService {
    allow_gnome_dbus_fallback: bool,
}

impl ScreenshotService {
    /// Whether GNOME Shell may be asked where the portal fails.
    pub closed spec fn allows_dbus(self) -> bool {
        self.allow_gnome_dbus_fallback
    }

    /// The usual service, which may ask GNOME Shell.
    pub fn new() -> (r: ScreenshotService)
        ensures
            r.allows_dbus(),
    {
        ScreenshotService { allow_gnome_dbus_fallback: true }
    }

    /// The first step of a capture: the test image where demo mode is set to
    /// `1`, else the portal.
    pub fn capture_full_screen(&self, demo_mode: Option<&String>) -> (r: CaptureStep)
        ensures
            r == if demo_mode is Some && demo_mode->Some_0@ == "1"@ {
                CaptureStep::Demo
            } else {
                CaptureStep::Portal
            },
    {
        match demo_mode {
            Some(value) => if same_text(value, "1") {
                CaptureStep::Demo
            } else {
                CaptureStep::Portal
            },
            None => CaptureStep::Portal,
        }
    }

    /// The step after one that went well or did not.
    pub fn next_step(&self, step: CaptureStep, ok: bool) -> (r: CaptureStep)
        ensures
            r == step_after(step, ok, self.allows_dbus()),
    {
        match step {
            CaptureStep::Demo => CaptureStep::Done,
            CaptureStep::Portal => if ok {
                CaptureStep::Done
            } else {
                CaptureStep::GrantPermission
            },
            CaptureStep::GrantPermission => CaptureStep::PortalRetry,
            CaptureStep::PortalRetry => if ok {
                CaptureStep::Done
            } else if self.allow_gnome_dbus_fallback {
                CaptureStep::GnomeDbus
            } else {
                CaptureStep::Failed
            },
            CaptureStep::GnomeDbus => if ok {
                CaptureStep::Done
            } else {
                CaptureStep::Failed
            },
            CaptureStep::Done => CaptureStep::Done,
            CaptureStep::Failed => CaptureStep::Failed,
        }
    }
}

impl Default for ScreenshotService {
    fn default() -> (r: ScreenshotService)
        ensures
            r.allows_dbus(),
    {
        ScreenshotService::new()
    }
}

/// Why GNOME Shell's reply gives no image.
#[derive(Debug, Clone, Copy, PartialEq, Eq, Structural)]
pub enum ShellCaptureError {
    /// The shell reported that it did not succeed.
    Refused,
    /// The image in the file has no pixels.
    InvalidSize,
}

/// Reads GNOME Shell's reply: the name of the file it wrote, if it succeeded.
pub fn shell_reply(success: bool, filename_used: String) -> (r: Result<String, ShellCaptureError>)
    ensures
        success ==> r == Ok::<String, ShellCaptureError>(filename_used),
        !success ==> r == Err::<String, ShellCaptureError>(ShellCaptureError::Refused),
{
    if success {
        Ok(filename_used)
    } else {
        Err(ShellCaptureError::Refused)
    }
}

/// Checks the size of the image that GNOME Shell wrote.
pub fn check_texture_size(width: i32, height: i32) -> (r: Result<(), ShellCaptureError>)
    ensures
        width > 0 && height > 0 ==> r == Ok::<(), ShellCaptureError>(()),
        width <= 0 || height <= 0 ==> r == Err::<(), ShellCaptureError>(
            ShellCaptureError::InvalidSize,
        ),
{
    if width <= 0 || height <= 0 {
        Err(ShellCaptureError::InvalidSize)
    } else {
        Ok(())
    }
}

/// Makes an image shareable.
pub fn wrap_surface(surface: Argb32Image) -> (r: Arc<Argb32Image>)
    ensures
        *r == surface,
{
    Arc::new(surface)
}

/// Whether the screen cast is to be tried first.
pub fn wants_screencast(value: Option<&String>) -> (r: bool)
    ensures
        r == (value is Some && (value->Some_0@ == "1"@ || text::spells_true(value->Some_0@))),
{
    match value {
        Some(v) => is_switched_on(v),
        None => false,
    }
}

/// One step from the start of the program to the selection.
#[derive(Debug, Clone, Copy, PartialEq, Eq, Structural)]
pub enum FlowStep {
    /// Record the screen's frames.
    Screencast,
    /// Put the frames together.
    Stitch,
    /// Capture the screen without a parent window.
    PortalBare,
    /// Capture the screen with a window made for the purpose as the parent.
    PortalWithParent,
    /// Let the user select.
    Select,
    Fail,
}

/// The step after a step that went well or did not.
pub open spec fn flow_after(step: FlowStep, ok: bool) -> FlowStep {
    match step {
        FlowStep::Screencast => if ok {
            FlowStep::Stitch
        } else {
            FlowStep::PortalBare
        },
        FlowStep::Stitch => if ok {
            FlowStep::Select
        } else {
            FlowStep::PortalBare
        },
        FlowStep::PortalBare => if ok {
            FlowStep::Select
        } else {
            FlowStep::PortalWithParent
        },
        FlowStep::PortalWithParent => if ok {
            FlowStep::Select
        } else {
            FlowStep::Fail
        },
        FlowStep::Select => FlowStep::Select,
        FlowStep::Fail => FlowStep::Fail,
    }
}

impl FlowStep {
    /// The step to begin with.
    pub fn first(screencast: bool) -> (r: FlowStep)
        ensures
            r == if screencast {
                FlowStep::Screencast
            } else {
                FlowStep::PortalBare
            },
    {
        if screencast {
            FlowStep::Screencast
        } else {
            FlowStep::PortalBare
        }
    }

    /// The step after this one, which went well or did not.
    pub fn next(self, ok: bool) -> (r: FlowStep)
        ensures
            r == flow_after(self, ok),
    {
        match self {
            FlowStep::Screencast => if ok {
                FlowStep::Stitch
            } else {
                FlowStep::PortalBare
            },
            FlowStep::Stitch => if ok {
                FlowStep::Select
            } else {
                FlowStep::PortalBare
            },
            FlowStep::PortalBare => if ok {
                FlowStep::Select
            } else {
                FlowStep::PortalWithParent
            },
            FlowStep::PortalWithParent => if ok {
                FlowStep::Select
            } else {
                FlowStep::Fail
            },
            FlowStep::Select => FlowStep::Select,
            FlowStep::Fail => FlowStep::Fail,
        }
    }
}

/// How long the recording thread may take, and how often it is asked.
pub const WORKER_DEADLINE_MILLIS: u64 = 30000;

pub const WORKER_POLL_MILLIS: u64 = 20;

/// What the recording thread's channel holds.
#[derive(Debug, Clone, Copy, PartialEq, Eq, Structural)]
pub enum WorkerMail {
    Result,
    Empty,
    Disconnected,
}

/// What to do about it.
#[derive(Debug, Clone, Copy, PartialEq, Eq, Structural)]
pub enum WorkerWait {
    Take,
    Died,
    TimedOut,
    WaitMillis(u64),
}

/// Decides whether to go on waiting for the recording thread. A result counts
/// even when it comes too late.
pub fn poll_worker(mail: WorkerMail, elapsed_millis: u64) -> (r: WorkerWait)
    ensures
        mail is Result ==> r == WorkerWait::Take,
        mail is Disconnected ==> r == WorkerWait::Died,
        mail is Empty && elapsed_millis >= WORKER_DEADLINE_MILLIS ==> r == WorkerWait::TimedOut,
        mail is Empty && elapsed_millis < WORKER_DEADLINE_MILLIS ==> r == WorkerWait::WaitMillis(
            WORKER_POLL_MILLIS,
        ),
        mail is Empty && elapsed_millis >= 30000 ==> r == WorkerWait::TimedOut,
        mail is Empty && elapsed_millis < 30000 ==> r == WorkerWait::WaitMillis(20),
{
    match mail {
        WorkerMail::Result => WorkerWait::Take,
        WorkerMail::Disconnected => WorkerWait::Died,
        WorkerMail::Empty => if elapsed_millis >= WORKER_DEADLINE_MILLIS {
            WorkerWait::TimedOut
        } else {
            WorkerWait::WaitMillis(WORKER_POLL_MILLIS)
        },
    }
}

/// The steps of a capture from `step` on, where `oks` says how each went.
pub open spec fn steps_from(step: CaptureStep, oks: Seq<bool>, allow_dbus: bool) -> CaptureStep
    decreases oks.len(),
{
    if oks.len() == 0 {
        step
    } else {
        step_after(steps_from(step, oks.drop_last(), allow_dbus), oks.last(), allow_dbus)
    }
}

/// A capture fails only after both requests to the portal failed, and then the
/// one to GNOME Shell where that is allowed; it is over after four steps.
pub proof fn law_every_way_is_tried(portal: bool, grant: bool, retry: bool, dbus: bool, allow: bool)
    ensures
        ({
            let over = steps_from(CaptureStep::Portal, seq![portal, grant, retry, dbus], allow);
            &&& over is Done || over is Failed
            &&& over is Done <==> portal || retry || allow && dbus
        }),
{
    reveal_with_fuel(steps_from, 6);
    let s = seq![portal, grant, retry, dbus];
    assert(s.drop_last() =~= seq![portal, grant, retry]);
    assert(seq![portal, grant, retry].drop_last() =~= seq![portal, grant]);
    assert(seq![portal, grant].drop_last() =~= seq![portal]);
    assert(seq![portal].drop_last() =~= seq![]);
}

/// The permission is stored only after the portal has refused once.
pub proof fn law_permission_is_granted_late(step: CaptureStep, ok: bool, allow: bool)
    ensures
        step_after(step, ok, allow) is GrantPermission <==> step is Portal && !ok,
{
}

/// The selection is reached only through an image, and given up on only when the
/// portal has failed without and with a parent window.
pub proof fn law_flow_falls_back(cast: bool, stitch: bool, bare: bool, parent: bool)
    ensures
        ({
            let after_cast = flow_after(FlowStep::Screencast, cast);
            let after_stitch = if after_cast is Stitch {
                flow_after(after_cast, stitch)
            } else {
                after_cast
            };
            let after_bare = flow_after(after_stitch, bare);
            let end = flow_after(after_bare, parent);
            &&& end is Select || end is Fail
            &&& end is Select <==> cast && stitch || bare || parent
            &&& cast && stitch ==> after_stitch is Select
        }),
{
}

/// Each way of capturing comes after the one before it has failed, and a step that
/// gave an image is the last.
pub proof fn law_capture_order(ok: bool, allow: bool)
    ensures
        step_after(CaptureStep::Demo, ok, allow) == CaptureStep::Done,
        step_after(CaptureStep::Portal, true, allow) == CaptureStep::Done,
        step_after(CaptureStep::Portal, false, allow) == CaptureStep::GrantPermission,
        step_after(CaptureStep::GrantPermission, ok, allow) == CaptureStep::PortalRetry,
        step_after(CaptureStep::PortalRetry, true, allow) == CaptureStep::Done,
        step_after(CaptureStep::PortalRetry, false, true) == CaptureStep::GnomeDbus,
        step_after(CaptureStep::PortalRetry, false, false) == CaptureStep::Failed,
        step_after(CaptureStep::GnomeDbus, true, allow) == CaptureStep::Done,
        step_after(CaptureStep::GnomeDbus, false, allow) == CaptureStep::Failed,
        step_after(CaptureStep::Done, ok, allow) == CaptureStep::Done,
        step_after(CaptureStep::Failed, ok, allow) == CaptureStep::Failed,
{
}

/// The screen cast leads to the stitched image, and whatever fails of the two leads
/// to the portal, which is asked without a parent window first and with one then.
pub proof fn law_flow_order(ok: bool)
    ensures
        flow_after(FlowStep::Screencast, true) == FlowStep::Stitch,
        flow_after(FlowStep::Screencast, false) == FlowStep::PortalBare,
        flow_after(FlowStep::Stitch, true) == FlowStep::Select,
        flow_after(FlowStep::Stitch, false) == FlowStep::PortalBare,
        flow_after(FlowStep::PortalBare, true) == FlowStep::Select,
        flow_after(FlowStep::PortalBare, false) == FlowStep::PortalWithParent,
        flow_after(FlowStep::PortalWithParent, true) == FlowStep::Select,
        flow_after(FlowStep::PortalWithParent, false) == FlowStep::Fail,
        flow_after(FlowStep::Select, ok) == FlowStep::Select,
        flow_after(FlowStep::Fail, ok) == FlowStep::Fail,
{
}

} // verus!
