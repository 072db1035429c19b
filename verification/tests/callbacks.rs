//! Functions, aggregates, collations, handlers and extensions.

use rapsqlite::callbacks::{
    check_aggregate, check_function, CallbackKind, Callbacks, Change, Registration,
    RegistrationError, RegistrationReply, RegistrationStep,
};
use rapsqlite::codes;
use rapsqlite::error::{Class, ConnectionError};
use rapsqlite::extensions::{Extensions, Load, LoadError, LoadReply, LoadStep};
use rapsqlite::handlers::{Handler, Install, InstallReply, InstallStep};
use rapsqlite::invocation::{Invocation, InvocationReply, InvocationStep, Invoked, Receiver};
use rapsqlite::registry::Registry;
use rapsqlite::trampolines::{
    authorizer_verdict, collation_text, collation_verdict, enter_instance, mark_memory, mishap_text,
    progress_verdict, take_instance, AggregateState, Mishap, Progressed, AGGREGATE_MAGIC,
};
use std::marker::PhantomData;

fn create(
    kind: CallbackKind,
    name: &str,
    callback: u64,
    callbacks: &Callbacks,
) -> Registration<&'static str> {
    Registration::new(
        kind,
        name.to_string(),
        Change::Create { nargs: 1, callback, deterministic: false },
        false,
        callbacks,
    )
}

fn run(
    registration: &Registration<&'static str>,
    callbacks: &mut Callbacks,
    replies: Vec<RegistrationReply<&'static str>>,
) -> RegistrationStep<&'static str> {
    let mut step = registration.start();
    for reply in replies {
        step = registration.resume(callbacks, step, reply);
    }
    step
}

#[test]
fn registries_map_names_to_values() {
    let mut registry: Registry<u64> = Registry::new();
    assert!(registry.is_empty());
    assert_eq!(registry.insert("a".to_string(), 1), None);
    assert_eq!(registry.insert("b".to_string(), 2), None);
    assert_eq!(registry.insert("a".to_string(), 3), Some(1));
    assert_eq!(registry.get(&"a".to_string()), Some(3));
    assert_eq!(registry.get(&"A".to_string()), None);
    assert_eq!(registry.names(), vec!["a".to_string(), "b".to_string()]);
    assert_eq!(registry.remove(&"a".to_string()), Some(3));
    assert_eq!(registry.remove(&"a".to_string()), None);
    assert!(!registry.is_empty());
    registry.clear();
    assert!(registry.is_empty());
}

#[test]
fn argument_counts_are_checked() {
    assert!(check_function(-1, false, 0).is_ok());
    assert!(check_function(127, true, 3008003).is_ok());
    match check_function(128, false, 3045000) {
        Err(error) => {
            assert!(error.class() == Class::Programming);
            assert_eq!(
                error.message(),
                "Invalid nargs for create_function: 128. Expected -1..=127."
            );
        }
        _ => panic!(),
    }
    match check_function(0, true, 3008002) {
        Err(error) => {
            assert!(error.class() == Class::NotSupported);
            assert_eq!(
                error.message(),
                "create_function(deterministic=True) requires SQLite 3.8.3 or newer; got 3.8.2"
            );
        }
        _ => panic!(),
    }
    match check_aggregate(-2) {
        Err(error) => assert_eq!(
            error.message(),
            "Invalid num_params for create_aggregate: -2. Expected -1..=127."
        ),
        _ => panic!(),
    }
}

#[test]
fn an_aggregate_is_registered() {
    let mut callbacks = Callbacks::new();
    let registration = create(CallbackKind::Aggregate, "total", 7, &callbacks);
    let step = run(
        &registration,
        &mut callbacks,
        vec![
            RegistrationReply::Ran(Ok(())),
            RegistrationReply::Found(true),
            RegistrationReply::Ran(Ok(())),
        ],
    );
    match step {
        RegistrationStep::Call { transaction: false, call, earlier: None } => {
            assert_eq!(call.nargs, 1);
            assert_eq!(call.encoding, codes::SQLITE_UTF8);
            assert_eq!(call.callback, Some(7));
        }
        _ => panic!(),
    }
    let step = registration.resume(&mut callbacks, step, RegistrationReply::Code(0));
    assert!(matches!(step, RegistrationStep::Finished(Ok(()))));
    assert!(callbacks.has_callbacks());
    assert_eq!(callbacks.aggregates.get(&"total".to_string()).unwrap().callback, 7);
}

#[test]
fn a_refused_collation_changes_nothing() {
    let mut callbacks = Callbacks::new();
    let registration = create(CallbackKind::Collation, "rev", 7, &callbacks);
    let step = run(
        &registration,
        &mut callbacks,
        vec![
            RegistrationReply::Ran(Ok(())),
            RegistrationReply::Found(true),
            RegistrationReply::Ran(Ok(())),
            RegistrationReply::Code(21),
        ],
    );
    assert!(matches!(step, RegistrationStep::Free { callback: 7, .. }));
    let mut step = step;
    while !matches!(step, RegistrationStep::Finished(_)) {
        step = registration.resume(&mut callbacks, step, RegistrationReply::Done);
    }
    match step {
        RegistrationStep::Finished(Err(RegistrationError::Refused(error))) => {
            assert_eq!(
                error.message(),
                "Failed to create collation 'rev': SQLite error code 21"
            );
        }
        _ => panic!(),
    }
    assert!(!callbacks.has_callbacks());
}

#[test]
fn removing_the_last_function_gives_the_connection_up() {
    let mut callbacks = Callbacks::new();
    let registration = create(CallbackKind::Function, "f", 7, &callbacks);
    let step = run(
        &registration,
        &mut callbacks,
        vec![
            RegistrationReply::Found(false),
            RegistrationReply::Ran(Ok(())),
            RegistrationReply::Found(true),
            RegistrationReply::Ran(Ok(())),
            RegistrationReply::Code(0),
        ],
    );
    assert!(matches!(step, RegistrationStep::Finished(Ok(()))));
    let removal: Registration<&'static str> = Registration::new(
        CallbackKind::Function,
        "f".to_string(),
        Change::Remove { nargs: 1 },
        false,
        &callbacks,
    );
    let mut step = run(
        &removal,
        &mut callbacks,
        vec![
            RegistrationReply::Found(false),
            RegistrationReply::Ran(Ok(())),
            RegistrationReply::Found(true),
            RegistrationReply::Ran(Ok(())),
        ],
    );
    match &step {
        RegistrationStep::Call { call, .. } => assert_eq!(call.callback, None),
        _ => panic!(),
    }
    step = removal.resume(&mut callbacks, step, RegistrationReply::Code(0));
    let mut released = false;
    while !matches!(step, RegistrationStep::Finished(_)) {
        released = released || matches!(step, RegistrationStep::Release);
        step = removal.resume(&mut callbacks, step, RegistrationReply::Done);
    }
    assert!(released);
    assert!(matches!(step, RegistrationStep::Finished(Ok(()))));
    assert!(!callbacks.has_callbacks());
}

#[test]
fn names_with_nul_and_closed_connections_are_refused() {
    let mut callbacks = Callbacks::new();
    let registration = create(CallbackKind::Collation, "a\0", 7, &callbacks);
    let step = run(
        &registration,
        &mut callbacks,
        vec![
            RegistrationReply::Ran(Ok(())),
            RegistrationReply::Found(true),
            RegistrationReply::Ran(Ok(())),
        ],
    );
    match step {
        RegistrationStep::Finished(Err(RegistrationError::Refused(error))) => assert_eq!(
            error.message(),
            "Collation name contains null byte: nul byte found in provided data at position: 1"
        ),
        _ => panic!(),
    }
    let closed: Registration<&'static str> = Registration::new(
        CallbackKind::Aggregate,
        "a".to_string(),
        Change::Remove { nargs: -1 },
        true,
        &callbacks,
    );
    assert!(matches!(
        closed.start(),
        RegistrationStep::Finished(Err(RegistrationError::Refused(ConnectionError::Closed)))
    ));
}

#[test]
fn the_trace_callback_counts_as_a_callback() {
    let mut callbacks = Callbacks::new();
    assert!(callbacks.set_trace_callback(Some(3), false).is_ok());
    assert!(callbacks.has_callbacks());
    assert!(callbacks.set_trace_callback(None, true).is_err());
    assert!(!callbacks.has_callbacks());
    assert!(callbacks.set_trace_callback(Some(3), false).is_ok());
    callbacks.clear();
    assert!(!callbacks.has_callbacks());
}

#[test]
fn a_handler_replaces_the_earlier_one() {
    let mut callbacks = Callbacks::new();
    let first: Install<&'static str> =
        Install::new(Handler::Progress { steps: 100 }, Some(7), false, &mut callbacks);
    let mut step = first.start(&callbacks);
    for reply in [
        InstallReply::Ran(Ok(())),
        InstallReply::Found(true),
        InstallReply::Ran(Ok(())),
    ] {
        step = first.resume(&mut callbacks, step, reply);
    }
    assert!(matches!(step, InstallStep::Call { callback: Some(7), steps: 100 }));
    step = first.resume(&mut callbacks, step, InstallReply::Installed { context: 70 });
    assert!(matches!(step, InstallStep::Finished(Ok(()))));
    let second: Install<&'static str> =
        Install::new(Handler::Progress { steps: 5 }, Some(8), false, &mut callbacks);
    let mut step = second.start(&callbacks);
    for reply in [
        InstallReply::Ran(Ok(())),
        InstallReply::Found(true),
        InstallReply::Ran(Ok(())),
        InstallReply::Installed { context: 80 },
    ] {
        step = second.resume(&mut callbacks, step, reply);
    }
    assert!(matches!(step, InstallStep::Free { context: 70 }));
    step = second.resume(&mut callbacks, step, InstallReply::Done);
    assert!(matches!(step, InstallStep::Finished(Ok(()))));
    assert_eq!(callbacks.progress_context, 80);
    assert_eq!(callbacks.progress, Some((5, 8)));
}

#[test]
fn the_last_handler_gives_the_connection_up() {
    let mut callbacks = Callbacks::new();
    let install: Install<&'static str> =
        Install::new(Handler::Authorizer, None, false, &mut callbacks);
    let step = install.start(&callbacks);
    assert!(matches!(step, InstallStep::Release));
    let step = install.resume(&mut callbacks, step, InstallReply::Done);
    assert!(matches!(step, InstallStep::Finished(Ok(()))));
}

#[test]
fn verdicts_of_callbacks() {
    assert_eq!(progress_verdict(Progressed::Flag(true)), 0);
    assert_eq!(progress_verdict(Progressed::Flag(false)), 1);
    assert_eq!(progress_verdict(Progressed::Number(9)), 9);
    assert_eq!(progress_verdict(Progressed::Other), 0);
    assert_eq!(progress_verdict(Progressed::Raised), 0);
    assert_eq!(authorizer_verdict(Some(2)), 2);
    assert_eq!(authorizer_verdict(None), codes::SQLITE_DENY);
    assert_eq!(collation_verdict(Some(17)), 1);
    assert_eq!(collation_verdict(Some(-17)), -1);
    assert_eq!(collation_verdict(Some(0)), 0);
    assert_eq!(collation_verdict(None), 0);
    assert_eq!(collation_text(vec![0x61, 0xff]), "");
    assert_eq!(collation_text(vec![0x61]), "a");
}

#[test]
fn mishaps_of_functions_are_worded() {
    assert_eq!(mishap_text(Mishap::Function, "boom"), "Python function error: boom");
    assert_eq!(
        mishap_text(Mishap::Argument { index: 2 }, "boom"),
        "Error converting argument 2: boom"
    );
    assert_eq!(mishap_text(Mishap::Aggregate, "x"), "Python aggregate error: x");
    assert_eq!(mishap_text(Mishap::Step, "x"), "Python aggregate step error: x");
    assert_eq!(mishap_text(Mishap::Finalize, "x"), "Python aggregate finalize error: x");
}

#[test]
fn an_aggregate_keeps_its_instance_between_steps() {
    let fresh = AggregateState { magic: 0, instance: 99 };
    let mut state = mark_memory(fresh);
    assert_eq!(state.instance, 0);
    state.instance = 5;
    assert!(mark_memory(state) == state);
    let (instance, after) = take_instance(Some(state));
    assert_eq!(instance, Some(5));
    let (instance, _) = take_instance(after);
    assert_eq!(instance, None);
    assert_eq!(take_instance(Some(fresh)).0, None);
    assert_eq!(take_instance(None).0, None);
}

type Reply = InvocationReply<i64>;

fn invocation(invoked: Invoked, arguments: i32, memory: Option<AggregateState>) -> Invocation<i64> {
    Invocation { invoked, registered: true, arguments, memory, objects: PhantomData }
}

fn invoke(invocation: &Invocation<i64>, replies: Vec<Reply>) -> InvocationStep<i64> {
    let mut step = invocation.start();
    for reply in replies {
        step = invocation.resume(step, reply);
    }
    step
}

#[test]
fn a_function_gets_all_its_arguments() {
    let invocation = invocation(Invoked::Function, 2, None);
    let step = invoke(&invocation, vec![Reply::Converted(Ok(10))]);
    assert!(matches!(step, InvocationStep::Convert { index: 1, .. }));
    let step = invocation.resume(step, Reply::Converted(Ok(20)));
    assert!(matches!(
        &step,
        InvocationStep::Call { receiver: Receiver::Function, arguments } if *arguments == vec![10, 20]
    ));
    let step = invocation.resume(step, Reply::Returned(Ok(30)));
    assert!(matches!(step, InvocationStep::HandOver { value: 30 }));
    let step = invocation.resume(step, Reply::Done);
    assert!(matches!(step, InvocationStep::Finished));
    let step = invoke(
        &invocation,
        vec![Reply::Converted(Ok(10)), Reply::Converted(Err("bad".to_string()))],
    );
    match step {
        InvocationStep::Report { mishap, detail } => {
            assert_eq!(mishap_text(mishap, &detail), "Error converting argument 1: bad");
        }
        _ => panic!(),
    }
    let mut nobody = self::invocation(Invoked::Function, 2, None);
    nobody.registered = false;
    assert!(matches!(nobody.start(), InvocationStep::HandOverNull));
}

#[test]
fn a_step_gets_six_arguments_as_it_gets_five() {
    let memory = Some(AggregateState { magic: AGGREGATE_MAGIC, instance: 4 });
    for count in [5, 6] {
        let given: Vec<i64> = (1..=count).collect();
        let replies = given.iter().map(|n| Reply::Converted(Ok(*n))).collect();
        match invoke(&invocation(Invoked::Step, count as i32, memory), replies) {
            InvocationStep::Call { receiver: Receiver::Step { instance: 4 }, arguments } => {
                assert_eq!(arguments, given)
            }
            _ => panic!(),
        }
    }
}

#[test]
fn a_step_creates_its_aggregate_first() {
    let empty = mark_memory(AggregateState { magic: 0, instance: 0 });
    let step_of = |memory| invocation(Invoked::Step, 0, memory);
    let first = step_of(Some(empty));
    let step = first.start();
    assert!(matches!(step, InvocationStep::Create));
    let step = first.resume(step, Reply::Created(Ok(7)));
    assert!(matches!(
        step,
        InvocationStep::Call { receiver: Receiver::Step { instance: 7 }, .. }
    ));
    let step = first.resume(step, Reply::Returned(Err("x".to_string())));
    assert!(matches!(step, InvocationStep::Report { mishap: Mishap::Step, .. }));
    let step = invoke(&first, vec![Reply::Created(Err("x".to_string()))]);
    assert!(matches!(step, InvocationStep::Report { mishap: Mishap::Aggregate, .. }));
    assert!(matches!(step_of(None).start(), InvocationStep::Finished));
}

#[test]
fn a_group_has_one_instance() {
    let empty = AggregateState { magic: 0, instance: 0 };
    let first = invocation(Invoked::Step, 0, Some(mark_memory(empty)));
    assert!(matches!(first.start(), InvocationStep::Create));
    let memory = enter_instance(mark_memory(empty), 7);
    let second = invocation(Invoked::Step, 0, Some(mark_memory(memory)));
    assert!(matches!(
        second.start(),
        InvocationStep::Call { receiver: Receiver::Step { instance: 7 }, .. }
    ));
    let last = |memory| invocation(Invoked::Final, 0, memory);
    let end = last(Some(memory));
    let step = end.start();
    assert!(matches!(
        &step,
        InvocationStep::Call { receiver: Receiver::Finalize { instance: 7 }, arguments }
            if arguments.is_empty()
    ));
    let step = end.resume(step, Reply::Returned(Err("x".to_string())));
    assert!(matches!(step, InvocationStep::Report { mishap: Mishap::Finalize, .. }));
    let (instance, memory) = take_instance(Some(memory));
    assert_eq!(instance, Some(7));
    assert!(matches!(last(memory).start(), InvocationStep::HandOverNull));
    assert!(matches!(last(Some(empty)).start(), InvocationStep::HandOverNull));
    assert!(matches!(last(None).start(), InvocationStep::HandOverNull));
}

#[test]
fn each_row_steps_the_instance_once() {
    let mut memory = AggregateState { magic: 0, instance: 0 };
    let mut created = 0;
    let mut stepped = Vec::new();
    for row in [10i64, 20, 30] {
        memory = mark_memory(memory);
        let run = invocation(Invoked::Step, 1, Some(memory));
        let mut step = run.start();
        while !matches!(step, InvocationStep::Finished) {
            let reply = match &step {
                InvocationStep::Create => {
                    created += 1;
                    memory = enter_instance(memory, 7);
                    Reply::Created(Ok(7))
                }
                InvocationStep::Convert { .. } => Reply::Converted(Ok(row)),
                InvocationStep::Call { receiver, arguments } => {
                    stepped.push((*receiver, arguments.clone()));
                    Reply::Returned(Ok(0))
                }
                _ => panic!(),
            };
            step = run.resume(step, reply);
        }
    }
    assert_eq!(created, 1);
    let instance = Receiver::Step { instance: 7 };
    assert_eq!(stepped, vec![(instance, vec![10]), (instance, vec![20]), (instance, vec![30])]);
}

#[test]
fn a_deterministic_function_stays_so() {
    let mut callbacks = Callbacks::new();
    let registration: Registration<&'static str> = Registration::new(
        CallbackKind::Function,
        "f".to_string(),
        Change::Create { nargs: 2, callback: 5, deterministic: true },
        false,
        &callbacks,
    );
    let step = run(
        &registration,
        &mut callbacks,
        vec![
            RegistrationReply::Found(false),
            RegistrationReply::Ran(Ok(())),
            RegistrationReply::Found(true),
            RegistrationReply::Ran(Ok(())),
            RegistrationReply::Code(0),
        ],
    );
    assert!(matches!(step, RegistrationStep::Finished(Ok(()))));
    let call = callbacks.functions.get(&"f".to_string()).unwrap().rebinding(CallbackKind::Function);
    assert_eq!(call.nargs, 2);
    assert_eq!(call.callback, Some(5));
    assert_eq!(call.encoding, codes::SQLITE_UTF8 + codes::SQLITE_DETERMINISTIC);
}

#[test]
fn extensions_are_noted_once() {
    let mut extensions = Extensions::new();
    extensions.enable(true);
    assert!(extensions.allowed && extensions.required);
    extensions.enable(false);
    assert!(!extensions.allowed && !extensions.required);
    extensions.note("mod_spatialite".to_string());
    extensions.note("mod_spatialite".to_string());
    assert_eq!(extensions.loaded.len(), 1);
    extensions.enable(false);
    assert!(extensions.required);
}

fn load(name: &str, closed: bool, allowed: bool) -> Load<&'static str> {
    Load { name: name.to_string(), closed, allowed, errors: PhantomData }
}

#[test]
fn loading_an_extension_must_be_allowed() {
    match load("x", false, false).start() {
        LoadStep::Finished(Err(LoadError::Refused(error))) => assert_eq!(
            error.message(),
            "Extension loading is not enabled. Call enable_load_extension(true) first."
        ),
        _ => panic!(),
    }
    assert!(matches!(
        load("x", true, true).start(),
        LoadStep::Finished(Err(LoadError::Refused(ConnectionError::Closed)))
    ));
}

#[test]
fn a_failed_load_says_why() {
    let load = load("x", false, true);
    let mut step = load.start();
    for reply in [
        LoadReply::Ran(Ok(())),
        LoadReply::Found(true),
        LoadReply::Ran(Ok(())),
        LoadReply::Loaded { code: 1, message: Some("no such file".to_string()) },
        LoadReply::Done,
    ] {
        step = load.resume(step, reply);
    }
    match step {
        LoadStep::Finished(Err(LoadError::Refused(error))) => {
            assert_eq!(error.message(), "Failed to load extension 'x': no such file")
        }
        _ => panic!(),
    }
    let mut step = load.start();
    for reply in [
        LoadReply::Ran(Ok(())),
        LoadReply::Found(true),
        LoadReply::Ran(Ok(())),
        LoadReply::Loaded { code: 1, message: None },
        LoadReply::Done,
    ] {
        step = load.resume(step, reply);
    }
    match step {
        LoadStep::Finished(Err(LoadError::Refused(error))) => {
            assert_eq!(error.message(), "Failed to load extension 'x': SQLite error code 1")
        }
        _ => panic!(),
    }
}

#[test]
fn an_extension_with_a_nul_byte_is_not_loaded() {
    let load = load("a\0b", false, true);
    let mut step = load.start();
    for reply in [LoadReply::Ran(Ok(())), LoadReply::Found(true), LoadReply::Ran(Ok(()))] {
        step = load.resume(step, reply);
    }
    while let LoadStep::Discard(_) = step {
        step = load.resume(step, LoadReply::Done);
    }
    match step {
        LoadStep::Finished(Err(LoadError::Refused(error))) => assert_eq!(
            error.message(),
            "Invalid extension name: nul byte found in provided data at position: 1"
        ),
        _ => panic!(),
    }
}
