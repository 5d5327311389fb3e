use niri_switch::controller::DbusEvent;
use niri_switch::trigger_channel::CLIENT_REQUEST_CAP;
use niri_switch::trigger_channel::ChannelFull;
use niri_switch::trigger_channel::TriggerChannel;

#[test]
fn new_channel_is_empty() {
    let channel = TriggerChannel::new(CLIENT_REQUEST_CAP);
    assert!(channel.is_empty());
    assert_eq!(channel.len(), 0);
}

#[test]
fn queued_triggers_come_back_out() {
    let mut channel = TriggerChannel::new(CLIENT_REQUEST_CAP);
    assert_eq!(channel.try_send(DbusEvent::Activate), Ok(()));
    assert_eq!(channel.try_send(DbusEvent::Activate), Ok(()));
    assert_eq!(channel.len(), 2);
    assert!(matches!(channel.try_recv(), Some(DbusEvent::Activate)));
    assert!(matches!(channel.try_recv(), Some(DbusEvent::Activate)));
    assert!(channel.try_recv().is_none());
    assert!(channel.is_empty());
}

#[test]
fn receive_on_empty_channel_gives_none() {
    let mut channel = TriggerChannel::new(3);
    assert!(channel.try_recv().is_none());
}

#[test]
fn full_channel_refuses_further_triggers() {
    let mut channel = TriggerChannel::new(2);
    assert_eq!(channel.try_send(DbusEvent::Activate), Ok(()));
    assert_eq!(channel.try_send(DbusEvent::Activate), Ok(()));
    assert_eq!(channel.try_send(DbusEvent::Activate), Err(ChannelFull));
    assert_eq!(channel.len(), 2);
}

#[test]
fn draining_a_full_channel_frees_a_slot() {
    let mut channel = TriggerChannel::new(1);
    assert_eq!(channel.try_send(DbusEvent::Activate), Ok(()));
    assert_eq!(channel.try_send(DbusEvent::Activate), Err(ChannelFull));
    assert!(channel.try_recv().is_some());
    assert_eq!(channel.try_send(DbusEvent::Activate), Ok(()));
}
