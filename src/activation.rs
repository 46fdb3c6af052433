//! The activation sequence: switch to the window's desktop, then make it active.
//!
//! The caller performs each requested step against the display server and
//! reports whether it was acknowledged; the sequence decides what comes next.
use vstd::prelude::*;

verus! {

/// The timestamp that stands for "now" in client messages.
pub const CURRENT_TIME: u32 = 0;

/// Source indication of an activation request made on the user's behalf.
pub const SOURCE_PAGER: u32 = 2;

/// The next request to make for an activation.
#[derive(Clone, Copy, Debug, PartialEq, Eq, Structural)]
pub enum ActivationStep {
    /// Send _NET_CURRENT_DESKTOP with this desktop index to the root window.
    SwitchDesktop { desktop: u32 },
    /// Ask the window manager to make the window active.
    SetActiveWindow,
    /// Deliver all queued requests to the server.
    Flush,
    /// The activation is complete.
    Done,
}

/// The step of an activation that was not acknowledged.
#[derive(Clone, Copy, Debug, PartialEq, Eq, Structural)]
pub enum ActivationError {
    DesktopSwitchFailed,
    SetActiveWindowFailed,
    FlushFailed,
}

/// The desktop that a _NET_WM_DESKTOP value (32-bit items) names: its first item.
pub open spec fn desktop_of(items: Option<Seq<u32>>) -> Option<u32> {
    match items {
        Some(v) => if v.len() > 0 {
            Some(v[0])
        } else {
            None
        },
        None => None,
    }
}

/// Where an activation starts: on the window's desktop if it names one,
/// else directly at making it active.
pub open spec fn first_step_of(items: Option<Seq<u32>>) -> ActivationStep {
    match desktop_of(items) {
        Some(d) => ActivationStep::SwitchDesktop { desktop: d },
        None => ActivationStep::SetActiveWindow,
    }
}

/// What follows a step, given whether it was acknowledged.
pub open spec fn after(step: ActivationStep, acknowledged: bool) -> Result<ActivationStep, ActivationError> {
    match step {
        ActivationStep::SwitchDesktop { .. } => if acknowledged {
            Ok(ActivationStep::SetActiveWindow)
        } else {
            Err(ActivationError::DesktopSwitchFailed)
        },
        ActivationStep::SetActiveWindow => if acknowledged {
            Ok(ActivationStep::Flush)
        } else {
            Err(ActivationError::SetActiveWindowFailed)
        },
        ActivationStep::Flush => if acknowledged {
            Ok(ActivationStep::Done)
        } else {
            Err(ActivationError::FlushFailed)
        },
        ActivationStep::Done => Ok(ActivationStep::Done),
    }
}

/// Where a sequence of answers leads from a step; the first refusal ends it.
pub open spec fn run(step: ActivationStep, answers: Seq<bool>) -> Result<ActivationStep, ActivationError>
    decreases answers.len(),
{
    if answers.len() == 0 {
        Ok(step)
    } else {
        match after(step, answers[0]) {
            Ok(next) => run(next, answers.drop_first()),
            Err(e) => Err(e),
        }
    }
}

/// Activating a window whose every request is acknowledged completes, whether or
/// not it names a desktop; a completed activation stays complete. So activating
/// the same window again, with the same answers, completes again.
pub proof fn lemma_acknowledged_activation_completes(items: Option<Seq<u32>>, more: Seq<bool>)
    ensures
        run(first_step_of(items), seq![true, true, true]) == Ok::<ActivationStep, ActivationError>(
            ActivationStep::Done,
        ),
        run(ActivationStep::Done, more) == Ok::<ActivationStep, ActivationError>(
            ActivationStep::Done,
        ),
    decreases more.len(),
{
    let answers = seq![true, true, true];
    reveal_with_fuel(run, 4);
    assert(answers[0] && answers[1] && answers[2]);
    assert(answers.drop_first() =~= seq![true, true]);
    assert(answers.drop_first().drop_first() =~= seq![true]);
    assert(answers.drop_first().drop_first().drop_first() =~= Seq::<bool>::empty());
    if more.len() > 0 {
        lemma_acknowledged_activation_completes(items, more.drop_first());
    }
}

/// Without a desktop to switch to, no desktop switch is requested: the
/// activation goes straight to making the window active.
pub proof fn lemma_no_desktop_no_switch(items: Option<Seq<u32>>)
    requires
        desktop_of(items) is None,
    ensures
        first_step_of(items) == ActivationStep::SetActiveWindow,
        forall|d: u32| first_step_of(items) != (ActivationStep::SwitchDesktop { desktop: d }),
{
}

pub open spec fn items_of(o: Option<Vec<u32>>) -> Option<Seq<u32>> {
    match o {
        Some(v) => Some(v@),
        None => None,
    }
}

/// The first step of activating a window, from its _NET_WM_DESKTOP property.
pub fn first_step(desktop_property: &Option<Vec<u32>>) -> (r: ActivationStep)
    ensures
        r == first_step_of(items_of(*desktop_property)),
        desktop_property is None ==> r == ActivationStep::SetActiveWindow,
{
    match desktop_property {
        Some(v) => if v.len() > 0 {
            ActivationStep::SwitchDesktop { desktop: v[0] }
        } else {
            ActivationStep::SetActiveWindow
        },
        None => ActivationStep::SetActiveWindow,
    }
}

/// The step after `step`, or the error that ends the activation.
pub fn next_step(step: ActivationStep, acknowledged: bool) -> (r: Result<ActivationStep, ActivationError>)
    ensures
        r == after(step, acknowledged),
{
    match step {
        ActivationStep::SwitchDesktop { .. } => if acknowledged {
            Ok(ActivationStep::SetActiveWindow)
        } else {
            Err(ActivationError::DesktopSwitchFailed)
        },
        ActivationStep::SetActiveWindow => if acknowledged {
            Ok(ActivationStep::Flush)
        } else {
            Err(ActivationError::SetActiveWindowFailed)
        },
        ActivationStep::Flush => if acknowledged {
            Ok(ActivationStep::Done)
        } else {
            Err(ActivationError::FlushFailed)
        },
        ActivationStep::Done => Ok(ActivationStep::Done),
    }
}

/// The data of the _NET_CURRENT_DESKTOP client message.
pub fn switch_desktop_data(desktop: u32) -> (r: [u32; 5])
    ensures
        r@ == seq![desktop, CURRENT_TIME, 0u32, 0u32, 0u32],
{
    let r = [desktop, CURRENT_TIME, 0, 0, 0];
    assert(r@ =~= seq![desktop, CURRENT_TIME, 0u32, 0u32, 0u32]);
    r
}

/// The data of the _NET_ACTIVE_WINDOW client message.
pub fn active_window_data() -> (r: [u32; 5])
    ensures
        r@ == seq![SOURCE_PAGER, CURRENT_TIME, 0u32, 0u32, 0u32],
{
    let r = [SOURCE_PAGER, CURRENT_TIME, 0, 0, 0];
    assert(r@ =~= seq![SOURCE_PAGER, CURRENT_TIME, 0u32, 0u32, 0u32]);
    r
}

} // verus!
