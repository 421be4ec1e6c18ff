use lamport::behaviour::adapter::{classify_envelope, DispatchEnvelope};
use lamport::control::StateSnapshot;
use lamport::{
    ActorId, CallTimedOut, Envelope, EnvelopeKind, ExitReason, ExitSignal, Message, Payload,
    PoolKind, Ref, ReplyToken, RuntimeInfo, SystemMessage, TaskCompleted,
};

#[test]
fn payload_round_trips_through_downcast() {
    fn extract<M: Message>(envelope: Envelope) -> M {
        match envelope {
            Envelope::User(payload) => payload.downcast::<M>().ok().unwrap(),
            other => panic!("unexpected envelope: {other:?}"),
        }
    }

    assert_eq!(extract::<u32>(Envelope::user(42_u32, "u32")), 42);
}

#[test]
fn payload_of_another_type_comes_back_unchanged() {
    let payload = Payload::new(String::from("text"), "String");
    assert!(payload.is::<String>());
    assert!(!payload.is::<u32>());
    assert_eq!(payload.downcast_ref::<u32>(), None);
    assert_eq!(payload.downcast_ref::<String>(), Some(&String::from("text")));
    let payload = payload.downcast::<u32>().unwrap_err();
    assert_eq!(payload.label(), "String");
    assert_eq!(payload.downcast::<String>().ok().as_deref(), Some("text"));
}

#[test]
fn payloads_keep_the_name_of_their_type() {
    assert_eq!(Payload::new(1_u32, "u32").label(), "u32");
    assert_eq!(StateSnapshot::new(3, 1_u32, "u32").payload.label(), "u32");
    let payload = Payload::new(1_u8, "u8");
    assert_eq!(StateSnapshot::from_payload(3, payload).payload.label(), "u8");
    let token = ReplyToken::new(ActorId::new(1, 0), Ref::new(2));
    let labels: Vec<&'static str> = [
        Envelope::user(1_u32, "user"),
        Envelope::request(token, 1_u32, "request"),
        Envelope::reply(Ref::new(2), 1_u32, "reply"),
        Envelope::task(Ref::new(2), PoolKind::BlockingCpu, 1_u32, "task"),
    ]
    .iter()
    .map(|envelope| match envelope {
        Envelope::User(payload) => payload.label(),
        Envelope::Request { message, .. } => message.label(),
        Envelope::Reply { message, .. } => message.label(),
        Envelope::Task(task) => task.result.label(),
        other => panic!("unexpected envelope: {other:?}"),
    })
    .collect();
    assert_eq!(labels, vec!["user", "request", "reply", "task"]);
}

#[test]
fn type_tests_agree_and_a_failed_downcast_loses_nothing() {
    let payload = Payload::new(7_u32, "u32");
    assert!(payload.is::<u32>());
    assert_eq!(payload.downcast_ref::<u32>(), Some(&7));
    assert!(!payload.is::<i32>());
    assert_eq!(payload.downcast_ref::<i32>(), None);
    let payload = payload.downcast::<i32>().unwrap_err();
    assert_eq!(payload.label(), "u32");
    assert_eq!(payload.downcast::<u32>().ok(), Some(7));
}

#[test]
fn envelopes_know_their_kind() {
    let token = ReplyToken::new(ActorId::new(1, 0), Ref::new(2));
    assert_eq!(Envelope::user((), "()").kind(), EnvelopeKind::User);
    assert_eq!(Envelope::request(token, (), "()").kind(), EnvelopeKind::Request);
    assert_eq!(Envelope::reply(Ref::new(2), (), "()").kind(), EnvelopeKind::Reply);
    assert_eq!(
        Envelope::task(Ref::new(3), PoolKind::BlockingIo, (), "()").kind(),
        EnvelopeKind::Task
    );
    assert_eq!(Envelope::call_timeout(Ref::new(4)).kind(), EnvelopeKind::CallTimeout);
    let system = Envelope::System(SystemMessage::Shutdown);
    assert!(system.is_system_message());
    assert!(system.can_run_while_suspended());
    assert!(!Envelope::user((), "()").can_run_while_suspended());
}

#[test]
fn behaviours_see_requests_and_user_messages_as_their_own() {
    let token = ReplyToken::new(ActorId::new(1, 0), Ref::new(2));
    assert!(matches!(
        classify_envelope(Envelope::request(token, 5_u8, "u8")),
        DispatchEnvelope::Request { token: asked, message }
            if asked == token && message.is::<u8>()
    ));
    assert!(matches!(
        classify_envelope(Envelope::user(5_u8, "u8")),
        DispatchEnvelope::User(payload) if payload.is::<u8>()
    ));
    assert!(matches!(
        classify_envelope(Envelope::reply(Ref::new(9), 5_u8, "u8")),
        DispatchEnvelope::Runtime(RuntimeInfo::Reply { reference, .. })
            if reference == Ref::new(9)
    ));
    assert!(matches!(
        classify_envelope(Envelope::call_timeout(Ref::new(9))),
        DispatchEnvelope::Runtime(RuntimeInfo::CallTimeout(CallTimedOut { reference }))
            if reference == Ref::new(9)
    ));
    let signal = ExitSignal {
        from: ActorId::new(1, 0),
        reason: ExitReason::Kill,
        linked: true,
    };
    assert!(matches!(
        classify_envelope(Envelope::Exit(signal)),
        DispatchEnvelope::Runtime(RuntimeInfo::Exit(seen)) if seen.reason == ExitReason::Kill
    ));
    let task = TaskCompleted {
        reference: Ref::new(3),
        pool: PoolKind::BlockingCpu,
        result: Payload::new(1_u8, "u8"),
    };
    assert!(matches!(
        classify_envelope(Envelope::Task(task)),
        DispatchEnvelope::Runtime(RuntimeInfo::Task(done)) if done.reference == Ref::new(3)
    ));
}
