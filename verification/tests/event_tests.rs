use ppc::event::Event;

#[test]
fn signal_then_signaled() {
    let mut e = Event::NONE();
    assert!(e.is_empty());
    e.signal(Event::RESIZE());
    assert!(e.signaled(Event::RESIZE()));
    assert!(!e.signaled(Event::TRANSACTION_COMMIT()));
    assert!(e.has_events());
}

use ppc::event::EventHandling;

#[test]
fn event_constants() {
    assert_eq!(Event::NONE().0, 0);
    assert_eq!(Event::RESIZE().0, 1);
    assert_eq!(Event::TRANSACTION_COMMIT().0, 2);
    assert_eq!(Event::AXIS_STATE_CHANGE().0, 1 << 20);
    assert_eq!(Event::AXIS_POSITION_CHANGE().0, 1 << 21);
    assert_eq!(Event::AXIS_ORDER_CHANGE().0, 1 << 22);
    assert_eq!(Event::SELECTIONS_CHANGE().0, 1 << 23);
}

#[test]
fn clear_returns_previous_events() {
    let mut e = Event::RESIZE() | Event::SELECTIONS_CHANGE();
    let old = e.clear();
    assert_eq!(old, Event::RESIZE() | Event::SELECTIONS_CHANGE());
    assert!(e.is_empty());
    assert!(!e.has_events());
}

#[test]
fn signal_twice_is_signal_once() {
    let mut a = Event::AXIS_ORDER_CHANGE();
    a.signal(Event::RESIZE());
    let once = a;
    a.signal(Event::RESIZE());
    assert_eq!(a, once);
}

#[test]
fn signal_many_signals_each() {
    let mut e = Event::TRANSACTION_COMMIT();
    e.signal_many(&[Event::RESIZE(), Event::NONE(), Event::AXIS_ORDER_CHANGE()]);
    assert!(e.signaled(Event::RESIZE()));
    assert!(e.signaled(Event::AXIS_ORDER_CHANGE()));
    assert!(e.signaled(Event::TRANSACTION_COMMIT()));
    assert!(!e.signaled(Event::SELECTIONS_CHANGE()));
    assert_eq!(e.0, 1 | 2 | (1 << 22));
    let mut none = Event::NONE();
    none.signal_many(&[]);
    assert!(none.is_empty());
}

#[test]
fn signaled_any_and_all() {
    let e = Event::RESIZE() | Event::AXIS_STATE_CHANGE();
    assert!(e.signaled_any(&[Event::SELECTIONS_CHANGE(), Event::RESIZE()]));
    assert!(!e.signaled_any(&[Event::SELECTIONS_CHANGE()]));
    assert!(!e.signaled_any(&[]));
    assert!(e.signaled_all(&[Event::AXIS_STATE_CHANGE(), Event::RESIZE()]));
    assert!(!e.signaled_all(&[Event::AXIS_STATE_CHANGE(), Event::SELECTIONS_CHANGE()]));
    assert!(e.signaled_all(&[]));
    // An empty event is never signaled.
    assert!(!e.signaled(Event::NONE()));
}

#[test]
fn bit_operators() {
    let a = Event(0b1100);
    let b = Event(0b1010);
    assert_eq!(a & b, Event(0b1000));
    assert_eq!(a | b, Event(0b1110));
    assert_eq!(a ^ b, Event(0b0110));
    assert_eq!(!Event(0), Event(u32::MAX));
}

#[test]
fn handling_of_event_batches() {
    let h = (Event::RESIZE() | Event::SELECTIONS_CHANGE()).handling();
    assert_eq!(
        h,
        EventHandling {
            resize: true,
            commit_transaction: false,
            update_axes_buffer: true,
            update_selection_lines_buffer: true,
            update_data_lines_buffer: false,
            resample: true,
        }
    );
    let h = Event::AXIS_ORDER_CHANGE().handling();
    assert_eq!(
        h,
        EventHandling {
            resize: false,
            commit_transaction: false,
            update_axes_buffer: false,
            update_selection_lines_buffer: false,
            update_data_lines_buffer: true,
            resample: false,
        }
    );
    let h = Event::TRANSACTION_COMMIT().handling();
    assert!(h.commit_transaction && h.resample && !h.update_axes_buffer);
    let h = Event::AXIS_POSITION_CHANGE().handling();
    assert!(h.update_axes_buffer && !h.update_data_lines_buffer && !h.resample);
    let h = Event::NONE().handling();
    assert!(!h.resize && !h.commit_transaction && !h.update_axes_buffer);
}
