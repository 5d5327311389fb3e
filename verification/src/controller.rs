//! Activation state machine of the overlay daemon.
//!
//! A single consumer loop owns the controller and feeds it one event at a
//! time: activation triggers, the result of a compositor query, and the
//! user's choice.  The controller decides, without doing any I/O itself,
//! what the surrounding application must do next: query the compositor,
//! show an ordered window list, advance the selection, focus a window, or
//! dismiss the overlay.  Blocking compositor calls happen outside, between
//! the event that requests them and the event that carries their result.

use crate::window_cache::WindowCache;
use crate::window_cache::moved_to_front;
use crate::window_cache::reconciled;
use vstd::prelude::*;

verus! {

/// Whether the overlay is currently presented.
#[derive(Clone, Copy, PartialEq, Eq, Structural, Debug)]
pub enum OverlayState {
    Hidden,
    Visible,
}

/// Event delivered over the D-Bus trigger mailbox.
#[derive(Clone, Copy, PartialEq, Eq, Structural, Debug)]
pub enum DbusEvent {
    /// The client asked for the overlay.
    Activate,
}

/// An inbound event for the controller.
pub enum Event {
    /// An activation trigger arrived.
    Trigger,
    /// The compositor answered a window query with these IDs.
    WindowsListed(Vec<u64>),
    /// The compositor query failed or timed out.
    QueryFailed,
    /// The user picked this window from the presented list.
    UserSelected(u64),
    /// The user dismissed the overlay without picking a window.
    UserCancelled,
}

/// What the surrounding application must do after an event.
pub enum Action {
    /// Query the compositor for the live window set and feed the answer
    /// back as `WindowsListed`, or a failure as `QueryFailed`.
    QueryWindows,
    /// Present this window list, first entry selected.
    Show(Vec<u64>),
    /// Advance the selection in the presented list, wrapping around.
    AdvanceSelection,
    /// Hide the overlay.
    Dismiss,
    /// Command the compositor to focus this window, then hide the overlay.
    Focus(u64),
    /// Report the failed operation to the user and hide the overlay.
    ReportFailure,
    /// There is no window to present; leave the overlay hidden.
    NoWindows,
}

/// The list as presented: with two or more windows the first two swap
/// places, so that the second-most-recent window sits in the first visual
/// slot.  This is a presentation transform only; the cache keeps its order.
pub open spec fn swapped_first_two(order: Seq<u64>) -> Seq<u64> {
    if order.len() >= 2 {
        order.update(0, order[1]).update(1, order[0])
    } else {
        order
    }
}

/// Compute the presented list from a snapshot of the recency order: the
/// first two entries swap places when there are at least two.
pub fn presentation_order(order: &Vec<u64>) -> (presented: Vec<u64>)
    ensures
        presented@ == swapped_first_two(order@),
{
    let mut presented = copy_order(order);
    if presented.len() >= 2 {
        let most_recent = presented.remove(0);
        presented.insert(1, most_recent);
        proof {
            assert(presented@ =~= swapped_first_two(order@));
        }
    }
    presented
}

/// Plain element-wise copy of an order.
fn copy_order(order: &Vec<u64>) -> (copied: Vec<u64>)
    ensures
        copied@ == order@,
{
    let mut copied: Vec<u64> = Vec::new();
    let mut i: usize = 0;
    while i < order.len()
        invariant
            i <= order@.len(),
            copied@ == order@.subrange(0, i as int),
        decreases order@.len() - i,
    {
        copied.push(order[i]);
        proof {
            assert(order@.subrange(0, i + 1 as int) =~= order@.subrange(0, i as int).push(
                order@[i as int],
            ));
        }
        i += 1;
    }
    proof {
        assert(order@.subrange(0, order@.len() as int) =~= order@);
    }
    copied
}

/// Calculate the next index for a looping list, handling wrap-around in
/// both directions: the result is the index `direction` steps from
/// `current_index`, modulo the list length.
pub fn calculate_wrapped_index(current_index: i32, direction: i32, n_items: i32) -> (wrapped: u32)
    requires
        0 <= current_index < n_items,
        n_items <= 0x3fff_ffff,
        current_index + direction + n_items >= 0,
        current_index + direction <= 0x3fff_ffff,
    ensures
        wrapped == (current_index + direction) % (n_items as int),
{
    let new_selected_raw = current_index + direction;

    /* Shifting by one period keeps the dividend positive, so taking the
     * remainder once wraps a step off either end back into range */
    let wrapped_index_i32 = (new_selected_raw + n_items) % n_items;

    proof {
        vstd::arithmetic::div_mod::lemma_mod_add_multiples_vanish(
            current_index + direction,
            n_items as int,
        );
    }
    /* Cast the final, safe index to u32 as required by the widget layer */
    wrapped_index_i32 as u32
}

/// The single state machine that gates what a trigger means.  It owns the
/// recency cache and the overlay visibility; everything it decides is
/// returned as an [`Action`] for the surrounding application to perform.
pub struct ActivationController {
    state: OverlayState,
    cache: WindowCache,
}

impl ActivationController {
    /// The cache invariant holds.
    pub closed spec fn wf(&self) -> bool {
        self.cache.wf()
    }

    /// Whether the overlay is presented.
    pub closed spec fn mode(&self) -> OverlayState {
        self.state
    }

    /// The cached recency order, front = most recent.
    pub closed spec fn order(&self) -> Seq<u64> {
        self.cache@
    }

    /// A fresh controller: overlay hidden, cache empty.
    pub fn new() -> (controller: Self)
        ensures
            controller.wf(),
            controller.mode() is Hidden,
            controller.order() == Seq::<u64>::empty(),
    {
        Self { state: OverlayState::Hidden, cache: WindowCache::new() }
    }

    /// Whether the overlay is presented.
    pub fn is_visible(&self) -> (visible: bool)
        ensures
            visible == (self.mode() is Visible),
    {
        match self.state {
            OverlayState::Visible => true,
            OverlayState::Hidden => false,
        }
    }

    /// Whether `window_id` is in the cached order.  A `UserSelected`
    /// event may only carry a window that the controller knows.
    pub fn knows_window(&self, window_id: u64) -> (known: bool)
        requires
            self.wf(),
        ensures
            known == self.order().contains(window_id),
    {
        self.cache.contains(window_id)
    }

    /// Handle one event from the D-Bus connection.
    pub fn handle_dbus_event(&mut self, event: DbusEvent) -> (action: Action)
        requires
            old(self).wf(),
        ensures
            final(self).wf(),
            final(self).mode() == old(self).mode(),
            final(self).order() == old(self).order(),
            old(self).mode() is Hidden ==> action is QueryWindows,
            old(self).mode() is Visible ==> action is AdvanceSelection,
    {
        match event {
            DbusEvent::Activate => self.handle_event(Event::Trigger),
        }
    }

    /// Advance the state machine by one event and return what the
    /// application must do.
    ///
    /// A trigger while hidden asks for a compositor query; the query's
    /// answer reconciles the cache and presents the swapped order, or
    /// presents nothing when no window is open.  A trigger while visible
    /// only advances the selection.  A selection moves the chosen window
    /// to the front of the cache and asks for a focus command; a
    /// cancellation or a failed query dismisses the overlay.  Every path
    /// but a successful query ends, or stays, hidden.
    pub fn handle_event(&mut self, event: Event) -> (action: Action)
        requires
            old(self).wf(),
            event matches Event::UserSelected(id) ==> old(self).mode() is Visible && old(
                self,
            ).order().contains(id),
            event matches Event::WindowsListed(ids) ==> old(self).mode() is Hidden
                && ids@.no_duplicates(),
        ensures
            final(self).wf(),
            event is Trigger ==> {
                &&& final(self).mode() == old(self).mode()
                &&& final(self).order() == old(self).order()
                &&& (old(self).mode() is Hidden ==> action is QueryWindows)
                &&& (old(self).mode() is Visible ==> action is AdvanceSelection)
            },
            event matches Event::WindowsListed(ids) ==> if ids@.len() == 0 {
                &&& action is NoWindows
                &&& final(self).mode() is Hidden
                &&& final(self).order() == old(self).order()
            } else {
                &&& final(self).mode() is Visible
                &&& final(self).order() == reconciled(old(self).order(), ids@)
                &&& action matches Action::Show(presented) && presented@ == swapped_first_two(
                    reconciled(old(self).order(), ids@),
                )
            },
            event is QueryFailed ==> {
                &&& action is ReportFailure
                &&& final(self).mode() is Hidden
                &&& final(self).order() == old(self).order()
            },
            event matches Event::UserSelected(id) ==> {
                &&& action == Action::Focus(id)
                &&& final(self).mode() is Hidden
                &&& final(self).order() == moved_to_front(old(self).order(), id)
            },
            event is UserCancelled ==> {
                &&& action is Dismiss
                &&& final(self).mode() is Hidden
                &&& final(self).order() == old(self).order()
            },
    {
        match event {
            Event::Trigger => {
                /* If the overlay is already shown, only move the selection;
                 * else the window list has to be refreshed first */
                match self.state {
                    OverlayState::Hidden => Action::QueryWindows,
                    OverlayState::Visible => Action::AdvanceSelection,
                }
            },
            Event::WindowsListed(ids) => {
                /* No need to display anything if there is no window */
                if ids.len() == 0 {
                    Action::NoWindows
                } else {
                    /* The window list could have changed since last time */
                    self.cache.update_cache(ids);
                    self.state = OverlayState::Visible;
                    let order = self.cache.snapshot_order();
                    Action::Show(presentation_order(&order))
                }
            },
            Event::QueryFailed => {
                self.state = OverlayState::Hidden;
                Action::ReportFailure
            },
            Event::UserSelected(id) => {
                /* Move the chosen window to the front of the window list,
                 * then have the compositor focus it */
                self.cache.move_to_front(&id);
                self.state = OverlayState::Hidden;
                Action::Focus(id)
            },
            Event::UserCancelled => {
                self.state = OverlayState::Hidden;
                Action::Dismiss
            },
        }
    }
}

} // verus!
