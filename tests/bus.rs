use medi::{complete, Bus, BusBuilder, Envelope, Error, Handler, HandlerError, Keyed};
use std::sync::{Arc, Mutex};

const PING: u64 = 1;
const CREATE_USER: u64 = 2;
const VALIDATE_USER: u64 = 3;
const BASIC_REQUEST: u64 = 4;
const APP_STATE: u64 = 5;
const GREETING: u64 = 6;
const USER_INFO: u64 = 7;
const BASE_EVENT: u64 = 8;
const MSG_QUEUE: u64 = 9;
const CUSTOM_ERROR: u64 = 10;
const USER_CREATED: u64 = 11;

#[derive(Debug, Clone, PartialEq)]
enum CustomError {
    Basic(String),
    Invalid(String),
}

#[derive(Debug, Clone, PartialEq)]
struct UserInfo {
    id: u32,
    name: String,
    age: u32,
}

#[derive(Debug, Clone)]
enum Val {
    Ping(String),
    Pong(String),
    Unit,
    BasicRequest,
    CreateUser(String),
    ValidateUser(String),
    GetGreeting(String),
    Greeting(String),
    GetUserInfo(u32),
    User(UserInfo),
    AppState(Arc<Mutex<Vec<String>>>),
    MsgQueue(Arc<Mutex<Vec<String>>>),
    BaseEvent,
    UserCreated(String),
}

impl Keyed for Val {
    fn key_of(&self) -> u64 {
        match self {
            Val::Ping(_) => PING,
            Val::Pong(_) => 100,
            Val::Unit => 101,
            Val::BasicRequest => BASIC_REQUEST,
            Val::CreateUser(_) => CREATE_USER,
            Val::ValidateUser(_) => VALIDATE_USER,
            Val::GetGreeting(_) => GREETING,
            Val::Greeting(_) => 102,
            Val::GetUserInfo(_) => USER_INFO,
            Val::User(_) => 103,
            Val::AppState(_) => APP_STATE,
            Val::MsgQueue(_) => MSG_QUEUE,
            Val::BaseEvent => BASE_EVENT,
            Val::UserCreated(_) => USER_CREATED,
        }
    }

    fn type_key(&self) -> u64 {
        self.key_of()
    }
}

#[derive(Debug, Clone)]
enum H {
    PingPong,
    RecordPing,
    CreateUser,
    ValidateUser,
    Failing,
    FailingWithState,
    Greeting,
    UserInfo,
    Recorder(&'static str),
}

type TestBus = Bus<Val, CustomError, H>;
type Outcome = Result<Val, HandlerError<CustomError>>;

fn fail(message: &str) -> Outcome {
    Err(HandlerError::new(CUSTOM_ERROR, CustomError::Basic(message.to_string())))
}

fn log_of(v: &Val) -> Arc<Mutex<Vec<String>>> {
    match v {
        Val::AppState(log) | Val::MsgQueue(log) => log.clone(),
        _ => panic!("not a log"),
    }
}

impl Handler<Val, CustomError> for H {
    fn handle(&self, bus: &TestBus, outbox: &mut Vec<Envelope<Val>>, deps: Vec<&Val>, value: Val) -> Outcome {
        match (self, value) {
            (H::PingPong, Val::Ping(s)) => Ok(Val::Pong(format!("Pong: {}", s))),
            (H::RecordPing, Val::Ping(s)) => {
                log_of(deps[0]).lock().unwrap().push(s);
                Ok(Val::Unit)
            }
            (H::CreateUser, Val::CreateUser(name)) => {
                let log = log_of(deps[0]);
                match bus.send(outbox, Val::ValidateUser(name.clone())) {
                    Ok(_) => {
                        log.lock().unwrap().push(name.clone());
                        bus.publish(outbox, Val::UserCreated(name));
                        Ok(Val::Unit)
                    }
                    Err(Error::Handler(he)) => Err(he),
                    Err(_) => fail("validation unavailable"),
                }
            }
            (H::ValidateUser, Val::ValidateUser(name)) => {
                if name.is_empty() {
                    Err(HandlerError::new(CUSTOM_ERROR, CustomError::Invalid("empty name".to_string())))
                } else {
                    Ok(Val::Unit)
                }
            }
            (H::Failing, _) => fail("Error1"),
            (H::FailingWithState, _) => {
                log_of(deps[0]).lock().unwrap().push("test".to_string());
                fail("Error2")
            }
            (H::Greeting, Val::GetGreeting(name)) => Ok(Val::Greeting(format!("Hello, {}!", name))),
            (H::UserInfo, Val::GetUserInfo(id)) => Ok(Val::User(UserInfo { id, name: format!("User {}", id), age: 25 })),
            (H::Recorder(name), Val::BaseEvent) => {
                log_of(deps[0]).lock().unwrap().push(name.to_string());
                Ok(Val::Unit)
            }
            _ => fail("unexpected value"),
        }
    }
}

fn ping_bus() -> TestBus {
    Bus::builder().add_req_handler(PING, vec![], H::PingPong).build().expect("Failed to build bus")
}

fn pong(r: Result<Val, Error<CustomError>>) -> String {
    match r {
        Ok(Val::Pong(s)) => s,
        other => panic!("expected a pong, got {:?}", other),
    }
}

#[test]
fn send_should_return_correct_pong() {
    let bus = ping_bus();
    assert_eq!(pong(bus.send(&mut Vec::new(), Val::Ping("Ping".into()))), "Pong: Ping");
}

#[test]
fn send_should_return_correct_multiple_pong_without_multithreading() {
    let bus = ping_bus();
    assert_eq!(pong(bus.send(&mut Vec::new(), Val::Ping("Ping".into()))), "Pong: Ping");
    assert_eq!(pong(bus.send(&mut Vec::new(), Val::Ping("Ping2".into()))), "Pong: Ping2");
}

#[test]
fn send_should_return_correct_return_values_for_many_requests() {
    let bus = ping_bus();
    let results: Vec<String> = (0..100).map(|i| pong(bus.send(&mut Vec::new(), Val::Ping(format!("Ping{}", i))))).collect();
    for (i, r) in results.iter().enumerate() {
        assert_eq!(r, &format!("Pong: Ping{}", i));
    }
}

#[test]
fn send_should_return_correct_value_from_the_resource() {
    let state = Arc::new(Mutex::new(Vec::new()));
    let bus: TestBus = BusBuilder::new()
        .add_req_handler(PING, vec![APP_STATE], H::RecordPing)
        .append_resources(Val::AppState(state.clone()))
        .build()
        .unwrap();

    bus.send(&mut Vec::new(), Val::Ping("hello".into())).unwrap();
    bus.send(&mut Vec::new(), Val::Ping("world".into())).unwrap();

    let state = state.lock().unwrap();
    assert_eq!(state.len(), 2);
    assert_eq!(state[0], "hello");
    assert_eq!(state[1], "world");
}

#[test]
fn send_should_return_error() {
    let bus: TestBus = Bus::builder().add_req_handler(BASIC_REQUEST, vec![], H::Failing).build().unwrap();

    let res = bus.send(&mut Vec::new(), Val::BasicRequest);

    match res {
        Ok(_) => panic!("Expected error, got {:?}", res),
        Err(err) => {
            let my_error = err.get_handler_error(CUSTOM_ERROR).unwrap();
            match my_error {
                CustomError::Basic(content) => assert_eq!(content, "Error1"),
                _ => panic!("Expected CustomError::Basic, got {:?}", my_error),
            }
        }
    }
}

#[test]
fn send_should_return_error_when_handler_not_found() {
    let bus: TestBus = Bus::builder().build().unwrap();

    let res = bus.send(&mut Vec::new(), Val::BasicRequest);

    match res {
        Ok(_) => panic!("Expected error, got {:?}", res),
        Err(err) => match err {
            Error::HandlerNotFound => (),
            _ => panic!("Expected HandlerNotFound, got {:?}", err),
        },
    }
}

#[test]
fn send_should_return_error_when_no_resource_found() {
    let bus: TestBus = Bus::builder()
        .add_req_handler(BASIC_REQUEST, vec![APP_STATE], H::FailingWithState)
        .append_resources(Val::MsgQueue(Arc::new(Mutex::new(Vec::new()))))
        .build()
        .unwrap();

    let res = bus.send(&mut Vec::new(), Val::BasicRequest);

    match res {
        Ok(_) => panic!("Expected error, got {:?}", res),
        Err(err) => match err {
            Error::ResourceNotFound(key) => assert_eq!(key, APP_STATE),
            _ => panic!("Expected ResourceNotFound, got {:?}", err),
        },
    }
}

#[test]
fn send_call_second_req_test() {
    let users = Arc::new(Mutex::new(Vec::new()));
    let bus: TestBus = Bus::builder()
        .add_req_handler(VALIDATE_USER, vec![], H::ValidateUser)
        .add_req_handler(CREATE_USER, vec![APP_STATE], H::CreateUser)
        .append_resources(Val::AppState(users.clone()))
        .build()
        .unwrap();

    let res = bus.send(&mut Vec::new(), Val::CreateUser("hello".into()));

    assert!(res.is_ok());
    assert_eq!(*users.lock().unwrap(), vec!["hello".to_string()]);
}

#[test]
fn nested_send_failure_fails_the_outer_command() {
    let users = Arc::new(Mutex::new(Vec::new()));
    let bus: TestBus = Bus::builder()
        .add_req_handler(VALIDATE_USER, vec![], H::ValidateUser)
        .add_req_handler(CREATE_USER, vec![APP_STATE], H::CreateUser)
        .append_resources(Val::AppState(users.clone()))
        .build()
        .unwrap();

    let res = bus.send(&mut Vec::new(), Val::CreateUser(String::new()));

    let err = res.unwrap_err();
    assert_eq!(err.get_handler_error(CUSTOM_ERROR), Some(&CustomError::Invalid("empty name".to_string())));
    assert!(users.lock().unwrap().is_empty());
}

#[test]
fn send_should_work_with_dependencyinjection() {
    let users = Arc::new(Mutex::new(Vec::new()));
    let bus: TestBus = BusBuilder::new()
        .add_req_handler(VALIDATE_USER, vec![], H::ValidateUser)
        .add_req_handler(CREATE_USER, vec![APP_STATE], H::CreateUser)
        .append_resources(Val::AppState(users.clone()))
        .build()
        .unwrap();

    bus.send(&mut Vec::new(), Val::CreateUser("John".into())).unwrap();

    let users = users.lock().unwrap();
    assert_eq!(users.len(), 1);
    assert_eq!(users[0], "John");
}

#[test]
fn last_appended_resource_is_the_one_injected() {
    let first = Arc::new(Mutex::new(Vec::new()));
    let second = Arc::new(Mutex::new(Vec::new()));
    let bus: TestBus = BusBuilder::new()
        .add_req_handler(PING, vec![APP_STATE], H::RecordPing)
        .append_resources(Val::AppState(first.clone()))
        .append_resources(Val::AppState(second.clone()))
        .build()
        .unwrap();

    bus.send(&mut Vec::new(), Val::Ping("hello".into())).unwrap();

    assert!(first.lock().unwrap().is_empty());
    assert_eq!(*second.lock().unwrap(), vec!["hello".to_string()]);
}

#[test]
fn test_command_with_unit_return() {
    let users = Arc::new(Mutex::new(Vec::new()));
    let bus: TestBus = BusBuilder::new()
        .add_req_handler(VALIDATE_USER, vec![], H::ValidateUser)
        .add_req_handler(CREATE_USER, vec![APP_STATE], H::CreateUser)
        .append_resources(Val::AppState(users))
        .build()
        .unwrap();

    let result = bus.send(&mut Vec::new(), Val::CreateUser("John".into()));
    assert!(result.is_ok());
}

#[test]
fn test_command_with_string_return() {
    let bus: TestBus = BusBuilder::new().add_req_handler(GREETING, vec![], H::Greeting).build().unwrap();

    let result = bus.send(&mut Vec::new(), Val::GetGreeting("John".into())).unwrap();
    match result {
        Val::Greeting(s) => assert_eq!(s, "Hello, John!"),
        other => panic!("expected a greeting, got {:?}", other),
    }
}

#[test]
fn test_command_with_complex_return() {
    let bus: TestBus = BusBuilder::new().add_req_handler(USER_INFO, vec![], H::UserInfo).build().unwrap();

    let result = bus.send(&mut Vec::new(), Val::GetUserInfo(42)).unwrap();
    match result {
        Val::User(info) => {
            assert_eq!(info.id, 42);
            assert_eq!(info.name, "User 42");
            assert_eq!(info.age, 25);
        }
        other => panic!("expected user info, got {:?}", other),
    }
}

fn event_bus(queue: &Arc<Mutex<Vec<String>>>) -> TestBus {
    Bus::builder()
        .add_event_handler(BASE_EVENT, vec![MSG_QUEUE], H::Recorder("base_event_handler1"))
        .add_event_handler(BASE_EVENT, vec![MSG_QUEUE], H::Recorder("base_event_handler2"))
        .add_event_handler(BASE_EVENT, vec![MSG_QUEUE], H::Recorder("base_event_handler3"))
        .append_resources(Val::MsgQueue(queue.clone()))
        .build()
        .unwrap()
}

#[test]
fn publish_should_process_published_event() {
    let queue = Arc::new(Mutex::new(Vec::new()));
    let bus = event_bus(&queue);

    let mut pending = Vec::new();
    bus.publish(&mut pending, Val::BaseEvent);
    bus.publish(&mut pending, Val::BaseEvent);
    assert!(queue.lock().unwrap().is_empty());
    assert_eq!(pending.len(), 2);
    assert_eq!(pending[0].key(), BASE_EVENT);
    let mut outbox = Vec::new();
    let res1 = bus.deliver(&mut outbox, &pending[0]);
    let res2 = bus.deliver(&mut outbox, &pending[1]);

    assert_eq!(queue.lock().unwrap().len(), 6);
    assert_eq!(res1.len(), 3);
    assert_eq!(res2.len(), 3);
    assert!(res1.iter().chain(res2.iter()).all(|r| r.is_ok()));
}

#[test]
fn event_without_handlers_is_dropped() {
    let queue = Arc::new(Mutex::new(Vec::new()));
    let bus = event_bus(&queue);
    assert_eq!(bus.event_handler_count(PING), 0);
    let res = bus.deliver(&mut Vec::new(), &Envelope::new(Val::Ping("Ping".into())));
    assert!(res.is_empty());
    assert!(queue.lock().unwrap().is_empty());
}

#[test]
fn event_handler_missing_resource_does_not_stop_siblings() {
    let queue = Arc::new(Mutex::new(Vec::new()));
    let bus: TestBus = Bus::builder()
        .add_event_handler(BASE_EVENT, vec![MSG_QUEUE], H::Recorder("first"))
        .add_event_handler(BASE_EVENT, vec![APP_STATE], H::Recorder("second"))
        .add_event_handler(BASE_EVENT, vec![MSG_QUEUE], H::Recorder("third"))
        .append_resources(Val::MsgQueue(queue.clone()))
        .build()
        .unwrap();

    let outs = bus.deliver(&mut Vec::new(), &Envelope::new(Val::BaseEvent));
    assert_eq!(outs.len(), 3);
    assert!(outs[0].is_ok());
    assert!(matches!(outs[1], Err(Error::ResourceNotFound(APP_STATE))));
    assert!(outs[2].is_ok());
    assert_eq!(*queue.lock().unwrap(), vec!["first".to_string(), "third".to_string()]);
    assert!(bus.deliver_to(&mut Vec::new(), Val::BaseEvent, 2).is_ok());
    assert_eq!(queue.lock().unwrap().len(), 3);
}

#[test]
fn builder_reports_registered_commands() {
    let builder: BusBuilder<Val, CustomError, H> = BusBuilder::new();
    assert!(!builder.has_req_handler(PING));
    let builder = builder.add_req_handler(PING, vec![], H::PingPong);
    assert!(builder.has_req_handler(PING));
    let bus = builder.build().unwrap();
    assert!(bus.has_handler(PING));
    assert!(!bus.has_handler(GREETING));
}

#[test]
fn route_finds_the_registered_handler() {
    let bus: TestBus = Bus::builder()
        .add_req_handler(GREETING, vec![APP_STATE, MSG_QUEUE], H::Greeting)
        .build()
        .unwrap();
    let reg = bus.route(GREETING).unwrap();
    assert_eq!(reg.deps(), &vec![APP_STATE, MSG_QUEUE]);
    assert!(matches!(reg.handler(), H::Greeting));
    assert!(matches!(bus.route(PING), Err(Error::HandlerNotFound)));
    let res = bus.invoke(&mut Vec::new(), reg, Val::GetGreeting("John".into()));
    assert!(matches!(res, Err(Error::ResourceNotFound(APP_STATE))));
}

#[test]
fn invoke_rejects_a_value_of_another_type() {
    let bus: TestBus = Bus::builder().add_req_handler(GREETING, vec![], H::Greeting).build().unwrap();
    let reg = bus.route(GREETING).unwrap();
    let res = bus.invoke(&mut Vec::new(), reg, Val::Ping("Ping".into()));
    assert!(matches!(res, Err(Error::CastError(GREETING))));
    let ok = bus.invoke(&mut Vec::new(), reg, Val::GetGreeting("Ann".into()));
    assert!(matches!(ok, Ok(Val::Greeting(ref s)) if s == "Hello, Ann!"));
}

#[test]
fn nested_publish_lands_in_the_outbox() {
    let users = Arc::new(Mutex::new(Vec::new()));
    let bus: TestBus = Bus::builder()
        .add_req_handler(VALIDATE_USER, vec![], H::ValidateUser)
        .add_req_handler(CREATE_USER, vec![APP_STATE], H::CreateUser)
        .append_resources(Val::AppState(users))
        .build()
        .unwrap();

    let mut outbox = Vec::new();
    bus.send(&mut outbox, Val::CreateUser("Ann".into())).unwrap();
    assert_eq!(outbox.len(), 1);
    assert_eq!(outbox[0].key(), USER_CREATED);
    assert!(matches!(outbox[0].event(), Val::UserCreated(ref n) if n == "Ann"));

    let mut failed = Vec::new();
    assert!(bus.send(&mut failed, Val::CreateUser(String::new())).is_err());
    assert!(failed.is_empty());
}

#[test]
fn complete_wraps_domain_errors() {
    let ok: Result<u8, HandlerError<CustomError>> = Ok(3);
    assert_eq!(complete(ok), Ok(3));
    let he = HandlerError::new(CUSTOM_ERROR, CustomError::Basic("x".to_string()));
    let err: Result<u8, HandlerError<CustomError>> = Err(he.clone());
    assert_eq!(complete(err), Err(Error::Handler(he)));
}
