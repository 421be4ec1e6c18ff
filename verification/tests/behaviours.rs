use lamport::behaviour::gen_server::{map_server_outcome, settle_call, ServerWork};
use lamport::behaviour::gen_statem::{map_statem_outcome, settle_statem_call};
use lamport::control::ControlError;
use lamport::{
    ActorId, ActorTurn, CallOutcome, CastMessage, Envelope, ExitReason, GenServerActor,
    GenStatemActor, InfoMessage, Payload, Ref, ReplyToken, RuntimeInfo, ServerOutcome,
    StatemCallOutcome, StatemOutcome,
};

fn server() -> GenServerActor<(), i32> {
    let mut actor = GenServerActor::new(());
    actor.initialized(Ok(0), 3).unwrap();
    actor
}

fn stopped(text: &str) -> ActorTurn {
    ActorTurn::Stop(ExitReason::Error(text.into()))
}

#[test]
fn server_tells_calls_casts_and_infos_apart() {
    let actor = server();
    let token = ReplyToken::new(ActorId::new(4, 0), Ref::new(1));
    assert!(matches!(
        actor.work::<u8, u16, u32>(Envelope::request(token, 1_u8, "u8")),
        Ok(ServerWork::Call(asker, 1)) if asker == token
    ));
    assert!(matches!(
        actor.work::<u8, u16, u32>(Envelope::user(CastMessage(2_u16), "CastMessage<u16>")),
        Ok(ServerWork::Cast(2))
    ));
    assert!(matches!(
        actor.work::<u8, u16, u32>(Envelope::user(InfoMessage(3_u32), "InfoMessage<u32>")),
        Ok(ServerWork::Info(3))
    ));
    assert!(matches!(
        actor.work::<u8, u16, u32>(Envelope::call_timeout(Ref::new(5))),
        Ok(ServerWork::Runtime(RuntimeInfo::CallTimeout(_)))
    ));
}

#[test]
fn unknown_payloads_stop_a_server() {
    let actor = server();
    let token = ReplyToken::new(ActorId::new(4, 0), Ref::new(1));
    let request = Envelope::Request {
        token,
        message: Payload::new(1_u64, "u64"),
    };
    assert_eq!(
        actor.work::<u8, u16, u32>(request).unwrap_err(),
        stopped("unexpected call payload `u64`")
    );
    let user = Envelope::User(Payload::new(1_u64, "u64"));
    assert_eq!(
        actor.work::<u8, u16, u32>(user).unwrap_err(),
        stopped("unexpected server user payload `u64`")
    );
}

#[test]
fn server_without_state_handles_nothing() {
    let mut actor: GenServerActor<(), i32> = GenServerActor::new(());
    assert_eq!(
        actor
            .work::<u8, u16, u32>(Envelope::user(CastMessage(2_u16), "CastMessage<u16>"))
            .unwrap_err(),
        stopped("gen server state is not initialized")
    );
    assert_eq!(
        actor.admit_control("replace_state"),
        Err(ControlError::Rejected {
            operation: "replace_state",
            reason: "server state is not initialized".into(),
        })
    );
    assert_eq!(
        actor.initialized(Err(ExitReason::Shutdown), 1),
        Err(ExitReason::Shutdown)
    );
    assert_eq!(actor.state, None);
    assert_eq!(actor.state_version, 0);
}

#[test]
fn code_change_raises_the_version_only_when_it_succeeds() {
    let mut actor = server();
    assert_eq!(actor.admit_control("code_change"), Ok(()));
    let refused = Err(ControlError::unsupported("code_change"));
    assert_eq!(actor.code_changed(4, refused.clone()), refused);
    assert_eq!(actor.state_version, 3);
    assert_eq!(actor.code_changed(4, Ok(())), Ok(()));
    assert_eq!(actor.state_version, 4);
}

#[test]
fn call_outcomes_reply_and_end_turns() {
    assert_eq!(settle_call(CallOutcome::Reply(1)), (Some(1), ActorTurn::Continue));
    assert_eq!(
        settle_call(CallOutcome::ReplyAndStop { reply: 2, reason: ExitReason::Normal }),
        (Some(2), ActorTurn::Stop(ExitReason::Normal))
    );
    assert_eq!(settle_call::<u8>(CallOutcome::NoReply), (None, ActorTurn::Continue));
    assert_eq!(
        settle_call::<u8>(CallOutcome::Stop(ExitReason::Kill)),
        (None, ActorTurn::Stop(ExitReason::Kill))
    );
    assert_eq!(map_server_outcome(ServerOutcome::Continue), ActorTurn::Continue);
    assert_eq!(map_server_outcome(ServerOutcome::Yield), ActorTurn::Yield);
    assert_eq!(
        map_server_outcome(ServerOutcome::Stop(ExitReason::Normal)),
        ActorTurn::Stop(ExitReason::Normal)
    );
}

#[test]
fn state_machine_outcomes_move_the_state() {
    let mut state: u8 = 1;
    assert_eq!(
        settle_statem_call(&mut state, StatemCallOutcome::Reply("same")),
        (Some("same"), ActorTurn::Continue)
    );
    assert_eq!(state, 1);
    assert_eq!(
        settle_statem_call(
            &mut state,
            StatemCallOutcome::ReplyAndTransition { reply: "next", state: 2 },
        ),
        (Some("next"), ActorTurn::Continue)
    );
    assert_eq!(state, 2);
    assert_eq!(
        settle_statem_call::<u8, &str>(&mut state, StatemCallOutcome::NoReplyAndTransition(3)),
        (None, ActorTurn::Continue)
    );
    assert_eq!(state, 3);
    assert_eq!(
        settle_statem_call(
            &mut state,
            StatemCallOutcome::ReplyAndStop { reply: "bye", reason: ExitReason::Normal },
        ),
        (Some("bye"), ActorTurn::Stop(ExitReason::Normal))
    );
    assert_eq!(
        map_statem_outcome(&mut state, StatemOutcome::TransitionAndYield(4)),
        ActorTurn::Yield
    );
    assert_eq!(state, 4);
    assert_eq!(map_statem_outcome(&mut state, StatemOutcome::Yield), ActorTurn::Yield);
    assert_eq!(
        map_statem_outcome(&mut state, StatemOutcome::Stop(ExitReason::Kill)),
        ActorTurn::Stop(ExitReason::Kill)
    );
    assert_eq!(state, 4);
}

#[test]
fn state_machine_needs_state_and_data() {
    let mut machine: GenStatemActor<(), u8, u8> = GenStatemActor::new(());
    let cast = || Envelope::user(CastMessage(2_u16), "CastMessage<u16>");
    assert_eq!(
        machine.work::<u8, u16, u32>(cast()).unwrap_err(),
        stopped("gen statem state is not initialized")
    );
    machine.state = Some(1);
    assert_eq!(
        machine.work::<u8, u16, u32>(cast()).unwrap_err(),
        stopped("gen statem data is not initialized")
    );
    assert_eq!(
        machine.admit_control("inspect_state"),
        Err(ControlError::Rejected {
            operation: "inspect_state",
            reason: "state machine is not initialized".into(),
        })
    );
    machine.initialized(Ok((1, 2)), 7).unwrap();
    assert!(matches!(
        machine.work::<u8, u16, u32>(cast()),
        Ok(ServerWork::Cast(2))
    ));
    let user = Envelope::User(Payload::new(1_u64, "u64"));
    assert_eq!(
        machine.work::<u8, u16, u32>(user).unwrap_err(),
        stopped("unexpected statem user payload `u64`")
    );
    assert_eq!(machine.code_changed(8, Ok(())), Ok(()));
    assert_eq!(machine.state_version, 8);
}
