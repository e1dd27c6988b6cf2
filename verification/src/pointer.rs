//! Mouse clicks and wheel scrolls through a virtual pointer: where the
//! pointer acts, on which seat, in whose layout, and what it is told to do.
//! The Wayland connection itself is the caller's.
use vstd::prelude::*;

use crate::error::{Error, invalid};
use crate::guard::{cursor_near, fmt_pair, near, pair_text};
use crate::hypr::{Client, Ctl, LayoutBox, ProcessOutput, cursor_read};
use crate::path::{join, join_spec};
use crate::session::{Instance, Isolated};
use crate::text::{cat, cat3, dec, fmt_i64, fmt_u64, int_text, own};

verus! {

pub const VIRTUAL_POINTER_INTERFACE: &'static str = "zwlr_virtual_pointer_manager_v1";
pub const BUTTON_GAP_MS: u64 = 30;
/// Under the usual multi-click interval of GUI toolkits.
pub const DOUBLE_CLICK_GAP_MS: u64 = 80;
pub const DETENT_GAP_MS: u64 = 20;

#[derive(Debug, Clone, Copy, PartialEq, Eq, Structural)]
pub enum MouseButton {
    Left,
    Right,
    Middle,
}

/// A button as a message names it.
pub open spec fn button_label(b: MouseButton) -> Seq<char> {
    match b {
        MouseButton::Left => "left"@,
        MouseButton::Right => "right"@,
        MouseButton::Middle => "middle"@,
    }
}

impl MouseButton {
    /// Linux input event codes (`BTN_LEFT`...).
    pub fn code(self) -> (r: u32)
        ensures
            r == match self {
                MouseButton::Left => 0x110u32,
                MouseButton::Right => 0x111u32,
                MouseButton::Middle => 0x112u32,
            },
    {
        match self {
            MouseButton::Left => 0x110,
            MouseButton::Right => 0x111,
            MouseButton::Middle => 0x112,
        }
    }

    pub fn label(self) -> (r: &'static str)
        ensures
            r@ == button_label(self),
    {
        match self {
            MouseButton::Left => "left",
            MouseButton::Right => "right",
            MouseButton::Middle => "middle",
        }
    }
}

/// Which compositor the virtual pointer is created on: the user's session,
/// from the environment, or an agent desktop's nested compositor, by socket
/// path.
#[derive(Debug, Clone, Copy, PartialEq, Eq)]
pub enum Seat<'a> {
    User,
    Agent(&'a str),
}

/// The nested compositor's socket sits directly in the runtime directory,
/// next to the user's own.
pub fn socket_path(runtime_dir: &str, wayland_display: &str) -> (r: String)
    ensures
        r@ == join_spec(runtime_dir@, wayland_display@),
{
    join(runtime_dir, wayland_display)
}

/// The refusal of a state whose nested compositor was never spawned: never a
/// fall back to the user's seat.
pub open spec fn pending_hint(name: Seq<char>) -> Seq<char> {
    "its nested compositor was never spawned (`session start --isolated` did not finish); run `hyprpilot --session "@
        + name + " teardown`"@
}

/// The refusal of an agent desktop that tracks no window.
pub open spec fn no_target_hint(name: Seq<char>) -> Seq<char> {
    "no window is tracked in it, its app never appeared; run `hyprpilot --session "@ + name
        + " teardown`"@
}

pub fn instance_pending(name: &str) -> (e: Error)
    ensures
        e matches Error::Invalid { what, value, hint } && what@ == "agent desktop"@ && value@
            == name@ && hint@ == pending_hint(name@),
{
    let mut hint = String::from_str(
        "its nested compositor was never spawned (`session start --isolated` did not finish); run `hyprpilot --session ",
    );
    hint.append(name);
    hint.append(" teardown`");
    invalid("agent desktop", own(name), hint)
}

pub fn no_target(name: &str) -> (e: Error)
    ensures
        e matches Error::Invalid { what, value, hint } && what@ == "agent desktop"@ && value@
            == name@ && hint@ == no_target_hint(name@),
{
    let mut hint = String::from_str(
        "no window is tracked in it, its app never appeared; run `hyprpilot --session ",
    );
    hint.append(name);
    hint.append(" teardown`");
    invalid("agent desktop", own(name), hint)
}

/// The nested compositor an isolated session drives, read from its state
/// alone.
#[derive(Debug)]
pub struct AgentTarget {
    pub signature: String,
    pub socket: String,
    pub address: String,
}

impl AgentTarget {
    /// The instance, its socket and the tracked window of a live agent
    /// desktop; an unfinished one, or one tracking no window, is refused.
    pub fn resolve(name: &str, isolated: &Isolated, runtime_dir: &str) -> (r: Result<Self, Error>)
        ensures
            match isolated.instance {
                Instance::Live { signature, wayland_display, .. } => match isolated.active_address {
                    Some(a) => r matches Ok(t) && t.signature@ == signature@ && t.socket@
                        == join_spec(runtime_dir@, wayland_display@) && t.address@ == a@,
                    None => r matches Err(Error::Invalid { what, value, hint }) && what@
                        == "agent desktop"@ && value@ == name@ && hint@ == no_target_hint(name@),
                },
                _ => r matches Err(Error::Invalid { what, value, hint }) && what@
                    == "agent desktop"@ && value@ == name@ && hint@ == pending_hint(name@),
            },
    {
        match &isolated.instance {
            Instance::Live { signature, wayland_display, .. } => match &isolated.active_address {
                Some(address) => Ok(
                    AgentTarget {
                        signature: own(signature.as_str()),
                        socket: socket_path(runtime_dir, wayland_display.as_str()),
                        address: own(address.as_str()),
                    },
                ),
                None => Err(no_target(name)),
            },
            _ => Err(instance_pending(name)),
        }
    }
}

/// Which seat the pointer acts on, and whose layout the target coordinates
/// belong to. An isolated session resolves every read and every pointer
/// event to its own nested compositor: the user's cursor is never moved.
#[derive(Debug)]
pub enum Route {
    Shared { window: Client },
    Isolated { signature: String, socket: String, window: Client },
}

impl Route {
    pub fn window(&self) -> (r: &Client)
        ensures
            *r == match self {
                Route::Shared { window } => *window,
                Route::Isolated { window, .. } => *window,
            },
    {
        match self {
            Route::Shared { window } => window,
            Route::Isolated { window, .. } => window,
        }
    }

    /// The compositor every read goes to.
    pub fn ctl(&self) -> (r: Ctl<'_>)
        ensures
            match self {
                Route::Shared { .. } => r == Ctl::Host,
                Route::Isolated { signature, .. } => r matches Ctl::Instance(s) && s@ == signature@,
            },
    {
        match self {
            Route::Shared { .. } => Ctl::Host,
            Route::Isolated { signature, .. } => Ctl::Instance(signature.as_str()),
        }
    }

    /// The seat the pointer is created on.
    pub fn seat(&self) -> (r: Seat<'_>)
        ensures
            match self {
                Route::Shared { .. } => r == Seat::User,
                Route::Isolated { socket, .. } => r matches Seat::Agent(s) && s@ == socket@,
            },
    {
        match self {
            Route::Shared { .. } => Seat::User,
            Route::Isolated { socket, .. } => Seat::Agent(socket.as_str()),
        }
    }

    /// The window to focus before acting, if any: `--focus` is ignored on an
    /// agent desktop, whose target already is the focused window of its seat.
    pub fn focus_address(&self, focus: bool) -> (r: Option<&str>)
        ensures
            match self {
                Route::Shared { window } => if focus {
                    r matches Some(a) && a@ == window.address@
                } else {
                    r is None
                },
                Route::Isolated { .. } => r is None,
            },
    {
        match self {
            Route::Shared { window } => if focus {
                Some(window.address.as_str())
            } else {
                None
            },
            Route::Isolated { .. } => None,
        }
    }
}

/// Window-relative coordinates mapped to the layout, or `--absolute` ones
/// passed through; a relative target outside the window is refused.
pub fn resolve_target(window: &Client, x: i32, y: i32, absolute: bool) -> (r: Result<(i32, i32), Error>)
    requires
        !absolute && 0 <= x < window.size[0] && 0 <= y < window.size[1] ==> i32::MIN <= window.at[0]
            + x <= i32::MAX && i32::MIN <= window.at[1] + y <= i32::MAX,
    ensures
        absolute ==> r == Ok::<(i32, i32), Error>((x, y)),
        !absolute && 0 <= x < window.size[0] && 0 <= y < window.size[1] ==> r == Ok::<
            (i32, i32),
            Error,
        >(((window.at[0] + x) as i32, (window.at[1] + y) as i32)),
        !absolute && !(0 <= x < window.size[0] && 0 <= y < window.size[1]) ==> (r matches Err(
            Error::Invalid { what, value, hint },
        ) && what@ == "target"@ && value@ == pair_text((x, y)) && hint@
            == "outside the window (size "@ + int_text(window.size[0] as int) + "x"@ + int_text(
            window.size[1] as int,
        ) + "); use --absolute for global coordinates"@),
{
    if absolute {
        return Ok((x, y));
    }
    if x < 0 || y < 0 || x >= window.size[0] || y >= window.size[1] {
        let mut hint = cat("outside the window (size ", fmt_i64(window.size[0] as i64).as_str());
        hint.append("x");
        hint.append(fmt_i64(window.size[1] as i64).as_str());
        hint.append("); use --absolute for global coordinates");
        return Err(invalid("target", fmt_pair((x, y)), hint));
    }
    Ok((window.at[0] + x, window.at[1] + y))
}

/// A wheel axis, as `wl_pointer` names them.
#[derive(Debug, Clone, Copy, PartialEq, Eq, Structural)]
pub enum Axis {
    VerticalScroll,
    HorizontalScroll,
}

/// `n` detents of `step` on `axis`.
pub open spec fn detents(axis: Axis, step: i32, n: nat) -> Seq<(Axis, i32)> {
    Seq::new(n, |i: int| (axis, step))
}

/// The sign of a detent count.
pub open spec fn signum(v: i32) -> i32 {
    if v > 0 {
        1i32
    } else if v < 0 {
        -1i32
    } else {
        0i32
    }
}

/// The magnitude of a detent count.
pub open spec fn magnitude(v: i32) -> nat {
    if v < 0 {
        (-v) as nat
    } else {
        v as nat
    }
}

/// One `(axis, discrete step)` entry per wheel detent, vertical detents first;
/// positive is down or right.
pub open spec fn plan_spec(dx: i32, dy: i32) -> Seq<(Axis, i32)> {
    detents(Axis::VerticalScroll, signum(dy), magnitude(dy)) + detents(
        Axis::HorizontalScroll,
        signum(dx),
        magnitude(dx),
    )
}

fn push_detents(plan: &mut Vec<(Axis, i32)>, axis: Axis, amount: i32)
    requires
        amount > i32::MIN,
    ensures
        final(plan)@ == old(plan)@ + detents(axis, signum(amount), magnitude(amount)),
{
    let step: i32 = if amount > 0 {
        1
    } else if amount < 0 {
        -1
    } else {
        0
    };
    let count: i32 = if amount < 0 {
        -amount
    } else {
        amount
    };
    let ghost start = plan@;
    let mut i: i32 = 0;
    while i < count
        invariant
            0 <= i <= count,
            count == magnitude(amount),
            step == signum(amount),
            plan@ == start + detents(axis, step, i as nat),
        decreases count - i,
    {
        plan.push((axis, step));
        assert(detents(axis, step, (i + 1) as nat) =~= detents(axis, step, i as nat).push(
            (axis, step),
        ));
        assert(start + detents(axis, step, (i + 1) as nat) =~= (start + detents(
            axis,
            step,
            i as nat,
        )).push((axis, step)));
        i += 1;
    }
}

/// The detents a scroll emits; no detent at all is refused.
pub fn detent_plan(dx: i32, dy: i32) -> (r: Result<Vec<(Axis, i32)>, Error>)
    requires
        dx > i32::MIN,
        dy > i32::MIN,
    ensures
        dx == 0 && dy == 0 ==> (r matches Err(Error::Invalid { what, value, hint }) && what@
            == "scroll amount"@ && value@ == "dy "@ + int_text(dy as int) + ", dx "@ + int_text(
            dx as int,
        ) && hint@ == "at least one wheel detent is required (positive = down/right)"@),
        !(dx == 0 && dy == 0) ==> (r matches Ok(plan) && plan@ == plan_spec(dx, dy)),
{
    if dx == 0 && dy == 0 {
        let mut value = cat("dy ", fmt_i64(dy as i64).as_str());
        value.append(", dx ");
        value.append(fmt_i64(dx as i64).as_str());
        return Err(
            invalid(
                "scroll amount",
                value,
                String::from_str("at least one wheel detent is required (positive = down/right)"),
            ),
        );
    }
    let mut plan: Vec<(Axis, i32)> = Vec::new();
    push_detents(&mut plan, Axis::VerticalScroll, dy);
    push_detents(&mut plan, Axis::HorizontalScroll, dx);
    assert(plan@ =~= plan_spec(dx, dy));
    Ok(plan)
}

/// A scroll is as many detents as asked for, vertical ones first, each one
/// step in the direction asked.
pub proof fn a_scroll_emits_one_entry_per_detent(dx: i32, dy: i32)
    requires
        dx > i32::MIN,
        dy > i32::MIN,
    ensures
        plan_spec(dx, dy).len() == magnitude(dx) + magnitude(dy),
        forall|i: int|
            0 <= i < magnitude(dy) ==> plan_spec(dx, dy)[i] == (Axis::VerticalScroll, signum(dy)),
        forall|i: int|
            magnitude(dy) <= i < magnitude(dy) + magnitude(dx) ==> plan_spec(dx, dy)[i] == (
            Axis::HorizontalScroll,
            signum(dx),
        ),
{
}

/// Where a warp to layout coordinates `(x, y)` lands on the pointer's extent,
/// or the refusal of a target outside the layout.
pub fn warp_offset(layout: &LayoutBox, x: i32, y: i32) -> (r: Result<(i64, i64), Error>)
    requires
        -0x1000_0000_0000 <= layout.x <= 0x1000_0000_0000,
        -0x1000_0000_0000 <= layout.y <= 0x1000_0000_0000,
    ensures
        ({
            let rx = x - layout.x;
            let ry = y - layout.y;
            if rx < 0 || ry < 0 || rx > layout.width || ry > layout.height {
                r matches Err(Error::Invalid { what, value, hint }) && what@ == "target"@ && value@
                    == pair_text((x, y)) && hint@ == "outside the monitor layout"@
            } else {
                r == Ok::<(i64, i64), Error>((rx as i64, ry as i64))
            }
        }),
{
    let rx = x as i64 - layout.x;
    let ry = y as i64 - layout.y;
    if rx < 0 || ry < 0 || rx > layout.width || ry > layout.height {
        return Err(
            invalid("target", fmt_pair((x, y)), String::from_str("outside the monitor layout")),
        );
    }
    Ok((rx, ry))
}

/// Reads the cursor back after a warp: it has to be within the warp tolerance
/// of the target, or the absolute motion mapping is wrong.
pub fn verify_warp<R: FnOnce(Vec<String>) -> Result<ProcessOutput, String>>(run: R, ctl: Ctl, gx: i32, gy: i32) -> (r:
    Result<(), Error>)
    requires
        forall|v: Vec<String>| call_requires(run, (v,)),
    ensures
        exists|c: Result<(i32, i32), Error>|
            cursor_read(run, ctl, c) && match c {
                Err(e) => r == Err::<(), Error>(e),
                Ok(p) => if near(p, (gx, gy)) {
                    r is Ok
                } else {
                    r matches Err(Error::Pointer(m)) && m@ == "warp landed at "@ + pair_text(p)
                        + " instead of "@ + pair_text((gx, gy))
                        + " — absolute motion mapping mismatch"@
                },
            },
{
    let c = crate::hypr::cursor_pos_on(run, ctl);
    let ghost gc = c;
    assert(cursor_read(run, ctl, gc));
    match c {
        Err(e) => Err(e),
        Ok(p) => {
            if cursor_near(p, (gx, gy)) {
                Ok(())
            } else {
                let mut m = cat("warp landed at ", fmt_pair(p).as_str());
                m.append(" instead of ");
                m.append(fmt_pair((gx, gy)).as_str());
                m.append(" — absolute motion mapping mismatch");
                Err(Error::Pointer(m))
            }
        },
    }
}

/// What a click reports: the gesture, where, and what the guard said.
pub fn click_message(double: bool, button: MouseButton, gx: i32, gy: i32, note: &str) -> (r: String)
    ensures
        r@ == (if double {
            "double-clicked"@
        } else {
            "clicked"@
        }) + " "@ + button_label(button) + " at "@ + pair_text((gx, gy)) + " — "@ + note@,
{
    let mut r = String::from_str(if double { "double-clicked" } else { "clicked" });
    r.append(" ");
    r.append(button.label());
    r.append(" at ");
    r.append(fmt_pair((gx, gy)).as_str());
    r.append(" — ");
    r.append(note);
    r
}

/// What a scroll reports: the amounts, vertical first, only those asked for.
pub fn scroll_message(dx: i32, dy: i32, gx: i32, gy: i32, note: &str) -> (r: String)
    ensures
        r@ == "scrolled "@ + (if dy != 0 && dx != 0 {
            "dy "@ + int_text(dy as int) + ", dx "@ + int_text(dx as int)
        } else if dy != 0 {
            "dy "@ + int_text(dy as int)
        } else if dx != 0 {
            "dx "@ + int_text(dx as int)
        } else {
            Seq::<char>::empty()
        }) + " at "@ + pair_text((gx, gy)) + " — "@ + note@,
{
    let amounts = if dy != 0 && dx != 0 {
        let mut a = cat("dy ", fmt_i64(dy as i64).as_str());
        a.append(", dx ");
        a.append(fmt_i64(dx as i64).as_str());
        a
    } else if dy != 0 {
        cat("dy ", fmt_i64(dy as i64).as_str())
    } else if dx != 0 {
        cat("dx ", fmt_i64(dx as i64).as_str())
    } else {
        String::new()
    };
    let mut r = cat("scrolled ", amounts.as_str());
    r.append(" at ");
    r.append(fmt_pair((gx, gy)).as_str());
    r.append(" — ");
    r.append(note);
    r
}

/// What a pointer action on an agent desktop's seat reports: nothing is
/// restored there, the cursor stays where the action left it.
pub fn agent_seat_note(gx: i32, gy: i32) -> (r: String)
    ensures
        r@ == "cursor left at "@ + pair_text((gx, gy)) + " on the agent desktop seat"@,
{
    let mut r = cat("cursor left at ", fmt_pair((gx, gy)).as_str());
    r.append(" on the agent desktop seat");
    r
}

} // verus!
