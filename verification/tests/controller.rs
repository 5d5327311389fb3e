use niri_switch::controller::Action;
use niri_switch::controller::ActivationController;
use niri_switch::controller::DbusEvent;
use niri_switch::controller::Event;
use niri_switch::controller::calculate_wrapped_index;
use niri_switch::controller::presentation_order;

fn shown_list(action: Action) -> Vec<u64> {
    match action {
        Action::Show(list) => list,
        _ => panic!("expected a Show action"),
    }
}

#[test]
fn trigger_when_hidden_asks_for_a_query() {
    let mut controller = ActivationController::new();
    assert!(!controller.is_visible());
    let action = controller.handle_event(Event::Trigger);
    assert!(matches!(action, Action::QueryWindows));
    assert!(!controller.is_visible());
}

#[test]
fn trigger_when_visible_advances_the_selection() {
    let mut controller = ActivationController::new();
    controller.handle_event(Event::Trigger);
    controller.handle_event(Event::WindowsListed(vec![1, 2]));
    assert!(controller.is_visible());
    let action = controller.handle_event(Event::Trigger);
    assert!(matches!(action, Action::AdvanceSelection));
    assert!(controller.is_visible());
}

#[test]
fn empty_window_set_presents_nothing() {
    let mut controller = ActivationController::new();
    controller.handle_event(Event::Trigger);
    let action = controller.handle_event(Event::WindowsListed(vec![]));
    assert!(matches!(action, Action::NoWindows));
    assert!(!controller.is_visible());
}

#[test]
fn presentation_swaps_first_two() {
    assert_eq!(presentation_order(&vec![10, 20, 30]), vec![20, 10, 30]);
}

#[test]
fn presentation_of_single_window_is_unchanged() {
    assert_eq!(presentation_order(&vec![10]), vec![10]);
}

#[test]
fn presentation_of_empty_list_is_empty() {
    assert_eq!(presentation_order(&vec![]), Vec::<u64>::new());
}

#[test]
fn query_failure_reports_and_stays_hidden() {
    let mut controller = ActivationController::new();
    controller.handle_event(Event::Trigger);
    let action = controller.handle_event(Event::QueryFailed);
    assert!(matches!(action, Action::ReportFailure));
    assert!(!controller.is_visible());
}

#[test]
fn cancellation_dismisses() {
    let mut controller = ActivationController::new();
    controller.handle_event(Event::Trigger);
    controller.handle_event(Event::WindowsListed(vec![1, 2]));
    assert!(controller.is_visible());
    let action = controller.handle_event(Event::UserCancelled);
    assert!(matches!(action, Action::Dismiss));
    assert!(!controller.is_visible());
}

#[test]
fn dbus_activate_acts_as_a_trigger() {
    let mut controller = ActivationController::new();
    let action = controller.handle_dbus_event(DbusEvent::Activate);
    assert!(matches!(action, Action::QueryWindows));
}

#[test]
fn end_to_end_activation_and_selection() {
    let mut controller = ActivationController::new();
    assert!(!controller.is_visible());

    /* A trigger arrives while hidden: the compositor must be queried */
    let action = controller.handle_event(Event::Trigger);
    assert!(matches!(action, Action::QueryWindows));

    /* The query returns windows 1, 2, 3 into an empty cache: the cached
     * order is [1, 2, 3] and the presented list swaps the first two */
    let action = controller.handle_event(Event::WindowsListed(vec![1, 2, 3]));
    assert_eq!(shown_list(action), vec![2, 1, 3]);
    assert!(controller.is_visible());

    /* The user picks window 3: it moves to the front of the cache, the
     * compositor is told to focus it, and the overlay hides */
    assert!(controller.knows_window(3));
    let action = controller.handle_event(Event::UserSelected(3));
    assert!(matches!(action, Action::Focus(3)));
    assert!(!controller.is_visible());

    /* The next activation sees the cache order [3, 1, 2] and presents it
     * with the first two swapped */
    controller.handle_event(Event::Trigger);
    let action = controller.handle_event(Event::WindowsListed(vec![1, 2, 3]));
    assert_eq!(shown_list(action), vec![1, 3, 2]);
}

#[test]
fn wrapped_index_steps_forward() {
    assert_eq!(calculate_wrapped_index(0, 1, 3), 1);
    assert_eq!(calculate_wrapped_index(1, 1, 3), 2);
}

#[test]
fn wrapped_index_wraps_at_the_end() {
    assert_eq!(calculate_wrapped_index(2, 1, 3), 0);
}

#[test]
fn wrapped_index_wraps_at_the_beginning() {
    assert_eq!(calculate_wrapped_index(0, -1, 3), 2);
}
