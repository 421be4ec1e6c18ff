use lamport::mailbox::MailboxFull;
use lamport::{Envelope, Mailbox, Ref, SystemMessage, TimerFired, TimerToken};

fn into_u32(envelope: Envelope) -> u32 {
    match envelope {
        Envelope::User(payload) => payload.downcast::<u32>().ok().unwrap(),
        other => panic!("unexpected envelope: {other:?}"),
    }
}

fn is_u32(envelope: &Envelope, value: u32) -> bool {
    match envelope {
        Envelope::User(payload) => payload.downcast_ref::<u32>() == Some(&value),
        _ => false,
    }
}

#[test]
fn fifo_pop_preserves_send_order() {
    let mut mailbox = Mailbox::new();
    mailbox.push(Envelope::user(1_u32, "u32"));
    mailbox.push(Envelope::user(2_u32, "u32"));
    mailbox.push(Envelope::user(3_u32, "u32"));

    assert_eq!(into_u32(mailbox.pop_front().unwrap()), 1);
    assert_eq!(into_u32(mailbox.pop_front().unwrap()), 2);
    assert_eq!(into_u32(mailbox.pop_front().unwrap()), 3);
    assert!(mailbox.pop_front().is_none());
}

#[test]
fn selective_receive_preserves_unmatched_relative_order() {
    let mut mailbox = Mailbox::new();
    mailbox.push(Envelope::user(1_u32, "u32"));
    mailbox.push(Envelope::user(2_u32, "u32"));
    mailbox.push(Envelope::user(3_u32, "u32"));

    let matched = mailbox.selective_receive(|envelope| is_u32(envelope, 2));

    assert_eq!(into_u32(matched.unwrap()), 2);
    assert_eq!(into_u32(mailbox.pop_front().unwrap()), 1);
    assert_eq!(into_u32(mailbox.pop_front().unwrap()), 3);
}

#[test]
fn selective_receive_after_skips_older_messages() {
    let mut mailbox = Mailbox::new();
    mailbox.push(Envelope::user(10_u32, "u32"));
    let watermark = mailbox.watermark();
    mailbox.push(Envelope::user(20_u32, "u32"));
    mailbox.push(Envelope::user(30_u32, "u32"));

    let matched = mailbox.selective_receive_after(watermark, |envelope| is_u32(envelope, 20));

    assert_eq!(into_u32(matched.unwrap()), 20);
    assert_eq!(into_u32(mailbox.pop_front().unwrap()), 10);
    assert_eq!(into_u32(mailbox.pop_front().unwrap()), 30);
}

#[test]
fn bounded_mailbox_applies_backpressure() {
    let mut mailbox = Mailbox::with_capacity(1);

    mailbox.try_push(Envelope::user(1_u32, "u32")).unwrap();
    assert_eq!(
        mailbox.try_push(Envelope::user(2_u32, "u32")),
        Err(MailboxFull { capacity: 1 })
    );
}

#[test]
fn runtime_reserve_keeps_one_slot_for_runtime_messages() {
    let mut mailbox = Mailbox::with_limits(2, 1);

    mailbox.try_push(Envelope::user(1_u32, "u32")).unwrap();
    assert_eq!(
        mailbox.try_push(Envelope::user(2_u32, "u32")),
        Err(MailboxFull { capacity: 2 })
    );
    mailbox
        .try_push(Envelope::call_timeout(Ref::new(1)))
        .unwrap();
}

fn contents(mailbox: &mut Mailbox) -> Vec<u32> {
    let mut seen: Vec<u32> = Vec::new();
    while let Some(envelope) = mailbox.pop_front() {
        seen.push(into_u32(envelope));
    }
    seen
}

#[test]
fn limits_keep_room_for_one_user_message() {
    let mailbox = Mailbox::with_limits(0, 9);
    assert_eq!(mailbox.capacity(), Some(1));
    assert_eq!(mailbox.runtime_reserve(), 0);

    let mailbox = Mailbox::with_limits(3, 9);
    assert_eq!(mailbox.capacity(), Some(3));
    assert_eq!(mailbox.runtime_reserve(), 2);

    assert_eq!(Mailbox::new().capacity(), None);
    assert!(Mailbox::default().is_empty());
}

#[test]
fn reserve_holds_as_many_runtime_messages_as_promised() {
    let mut mailbox = Mailbox::with_limits(4, 2);
    mailbox.try_push(Envelope::user(1_u32, "u32")).unwrap();
    mailbox.try_push(Envelope::user(2_u32, "u32")).unwrap();
    assert!(mailbox.try_push(Envelope::user(3_u32, "u32")).is_err());
    mailbox.try_push(Envelope::call_timeout(Ref::new(1))).unwrap();
    mailbox.try_push(Envelope::call_timeout(Ref::new(2))).unwrap();
    assert_eq!(
        mailbox.try_push(Envelope::call_timeout(Ref::new(3))),
        Err(MailboxFull { capacity: 4 })
    );
    assert_eq!(mailbox.len(), 4);
}

#[test]
fn selective_receive_leaves_everything_when_nothing_matches() {
    let mut mailbox = Mailbox::new();
    mailbox.push(Envelope::user(1_u32, "u32"));
    mailbox.push(Envelope::user(2_u32, "u32"));
    assert!(mailbox.selective_receive(|_| false).is_none());
    assert_eq!(contents(&mut mailbox), vec![1, 2]);
}

#[test]
fn watermark_hides_a_matching_older_message() {
    let mut mailbox = Mailbox::new();
    mailbox.push(Envelope::user(7_u32, "u32"));
    let watermark = mailbox.watermark();
    assert_eq!(watermark.sequence(), 1);
    assert!(mailbox
        .selective_receive_after(watermark, |envelope| is_u32(envelope, 7))
        .is_none());
    mailbox.push(Envelope::user(7_u32, "u32"));
    assert!(mailbox
        .selective_receive_after(watermark, |envelope| is_u32(envelope, 7))
        .is_some());
    assert_eq!(mailbox.len(), 1);
}

#[test]
fn reserved_traffic_is_found_behind_user_messages() {
    let mut mailbox = Mailbox::new();
    mailbox.push(Envelope::user(1_u32, "u32"));
    mailbox.push(Envelope::System(SystemMessage::Shutdown));
    mailbox.push(Envelope::user(2_u32, "u32"));
    assert!(matches!(
        mailbox.receive_reserved(),
        Some(Envelope::System(SystemMessage::Shutdown))
    ));
    assert!(mailbox.receive_reserved().is_none());
    assert_eq!(contents(&mut mailbox), vec![1, 2]);
}

#[test]
fn only_the_firing_of_the_given_timer_is_withdrawn() {
    let first = TimerToken::from_ref(Ref::new(1));
    let second = TimerToken::from_ref(Ref::new(2));
    let mut mailbox = Mailbox::new();
    mailbox.push(Envelope::Timer(TimerFired { token: first }));
    mailbox.push(Envelope::user(1_u32, "u32"));
    mailbox.push(Envelope::Timer(TimerFired { token: second }));
    assert!(mailbox.withdraw_timer(second));
    assert!(!mailbox.withdraw_timer(second));
    assert_eq!(mailbox.len(), 2);
    assert!(matches!(
        mailbox.pop_front(),
        Some(Envelope::Timer(timer)) if timer.token == first
    ));
}

#[test]
fn every_firing_of_a_timer_is_withdrawn() {
    let token = TimerToken::from_ref(Ref::new(1));
    let mut mailbox = Mailbox::new();
    mailbox.push(Envelope::Timer(TimerFired { token }));
    mailbox.push(Envelope::user(1_u32, "u32"));
    mailbox.push(Envelope::Timer(TimerFired { token }));
    mailbox.push(Envelope::user(2_u32, "u32"));
    assert!(mailbox.withdraw_timer(token));
    assert!(!mailbox.withdraw_timer(token));
    assert_eq!(contents(&mut mailbox), vec![1, 2]);
}
