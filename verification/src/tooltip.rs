use vstd::prelude::*;

verus! {

/// The longest span a `std::time::Duration` holds, in nanoseconds.
pub open spec fn max_duration_nanos() -> int {
    18_446_744_073_709_551_615int * 1_000_000_000int + 999_999_999int
}

/// The default hover delay before a tooltip appears: 500 ms.
pub const DEFAULT_DELAY_NANOS: u128 = 500_000_000;

/// What one frame tick of a tooltip's hover timer does.
#[derive(Clone, Copy, PartialEq, Eq, Structural, Debug)]
pub enum HoverTick {
    /// The pointer left (or the tooltip was removed) before the delay elapsed: stop without showing.
    Cancel,
    /// The delay has elapsed while hovering: show the tooltip and stop.
    Show,
    /// Keep waiting, with this much hover time accumulated (in nanoseconds).
    Wait(u128),
}

/// One tick of the hover timer: cancelled when the pointer is no longer hovering; otherwise `dt` is added
/// to the accumulated `elapsed`, and the tooltip shows once the total reaches `delay`.
pub open spec fn spec_hover_tick(hovering: bool, elapsed: u128, dt: u128, delay: u128) -> HoverTick {
    if !hovering {
        HoverTick::Cancel
    } else if elapsed + dt >= delay {
        HoverTick::Show
    } else {
        HoverTick::Wait((elapsed + dt) as u128)
    }
}

/// Executable form of [`spec_hover_tick`]; times are in nanoseconds and stay within what a `Duration`
/// can hold.
pub fn hover_tick(hovering: bool, elapsed: u128, dt: u128, delay: u128) -> (r: HoverTick)
    requires
        elapsed + dt <= max_duration_nanos(),
    ensures
        r == spec_hover_tick(hovering, elapsed, dt, delay),
{
    if !hovering {
        return HoverTick::Cancel;
    }
    let total = elapsed + dt;
    if total >= delay {
        HoverTick::Show
    } else {
        HoverTick::Wait(total)
    }
}

/// Whether a pointer entering the target starts a new hover timer: only when none is pending, so a rapid
/// re-enter does not register a duplicate.
pub fn starts_timer(pending: bool) -> (r: bool)
    ensures
        r == !pending,
{
    !pending
}

/// While the pointer keeps hovering, the timer waits through every tick that leaves the accumulated time
/// short of the delay, and shows on the first tick that reaches it.
pub proof fn lemma_hover_shows_on_reaching_delay(elapsed: u128, dt: u128, delay: u128)
    requires
        elapsed + dt <= u128::MAX,
    ensures
        spec_hover_tick(true, elapsed, dt, delay) == HoverTick::Show <==> elapsed + dt >= delay,
        elapsed + dt < delay ==> spec_hover_tick(true, elapsed, dt, delay) == HoverTick::Wait(
            (elapsed + dt) as u128,
        ),
        spec_hover_tick(false, elapsed, dt, delay) == HoverTick::Cancel,
{
}

/// A tooltip's hover state: whether the pointer is over the target, the accumulated time of the pending
/// delay timer (if one runs), and whether the bubble is open.
#[derive(Clone, Copy, PartialEq, Eq, Structural, Debug)]
pub struct TooltipState {
    pub hovering: bool,
    pub timer: Option<u128>,
    pub open: bool,
}

/// An event a tooltip reacts to.
#[derive(Clone, Copy, PartialEq, Eq, Structural, Debug)]
pub enum TooltipEvent {
    /// The pointer enters the target.
    Enter,
    /// The pointer leaves the target.
    Leave,
    /// A frame tick of this many nanoseconds.
    Tick(u128),
    /// The tooltip is removed from the tree.
    Removed,
}

/// The tooltip's reaction to an event, for a hover `delay` and whether frame timing is available
/// (`can_time`): entering arms the hover state and starts a timer unless one is pending; leaving disarms
/// and closes; a tick advances a pending timer by [`spec_hover_tick`], which cancels it once the pointer
/// has gone and opens the bubble once the delay is reached; removal disarms.
pub open spec fn spec_tooltip_step(s: TooltipState, e: TooltipEvent, delay: u128, can_time: bool) -> TooltipState {
    match e {
        TooltipEvent::Enter => TooltipState {
            hovering: true,
            timer: if can_time && s.timer is None { Some(0u128) } else { s.timer },
            open: s.open,
        },
        TooltipEvent::Leave => TooltipState { hovering: false, timer: s.timer, open: false },
        TooltipEvent::Tick(dt) => match s.timer {
            Some(elapsed) => match spec_hover_tick(s.hovering, elapsed, dt, delay) {
                HoverTick::Cancel => TooltipState { hovering: s.hovering, timer: None, open: s.open },
                HoverTick::Show => TooltipState { hovering: s.hovering, timer: None, open: true },
                HoverTick::Wait(total) => TooltipState { hovering: s.hovering, timer: Some(total), open: s.open },
            },
            None => s,
        },
        TooltipEvent::Removed => TooltipState { hovering: false, timer: s.timer, open: s.open },
    }
}

/// Executable form of [`spec_tooltip_step`]; a tick keeps the timer within what a `Duration` holds.
pub fn tooltip_step(s: TooltipState, e: TooltipEvent, delay: u128, can_time: bool) -> (r: TooltipState)
    requires
        e matches TooltipEvent::Tick(dt) ==> (s.timer matches Some(elapsed) ==> elapsed + dt
            <= max_duration_nanos()),
    ensures
        r == spec_tooltip_step(s, e, delay, can_time),
{
    match e {
        TooltipEvent::Enter => TooltipState {
            hovering: true,
            timer: if can_time && starts_timer(s.timer.is_some()) { Some(0) } else { s.timer },
            open: s.open,
        },
        TooltipEvent::Leave => TooltipState { hovering: false, timer: s.timer, open: false },
        TooltipEvent::Tick(dt) => match s.timer {
            Some(elapsed) => match hover_tick(s.hovering, elapsed, dt, delay) {
                HoverTick::Cancel => TooltipState { hovering: s.hovering, timer: None, open: s.open },
                HoverTick::Show => TooltipState { hovering: s.hovering, timer: None, open: true },
                HoverTick::Wait(total) => TooltipState { hovering: s.hovering, timer: Some(total), open: s.open },
            },
            None => s,
        },
        TooltipEvent::Removed => TooltipState { hovering: false, timer: s.timer, open: s.open },
    }
}

/// A tooltip is open only while the pointer hovers its target: every event but removal keeps this, and
/// leaving always closes it.
pub proof fn lemma_open_only_while_hovering(s: TooltipState, e: TooltipEvent, delay: u128, can_time: bool)
    requires
        s.open ==> s.hovering,
        e != TooltipEvent::Removed,
        e matches TooltipEvent::Tick(dt) ==> (s.timer matches Some(elapsed) ==> elapsed + dt <= u128::MAX),
    ensures
        spec_tooltip_step(s, e, delay, can_time).open ==> spec_tooltip_step(s, e, delay, can_time).hovering,
        spec_tooltip_step(s, TooltipEvent::Leave, delay, can_time).open == false,
{
}

} // verus!
