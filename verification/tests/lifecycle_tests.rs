use havokmud::dnslookup::{
    do_dns_lookup_thread, resolve_ip, response_inner, reverse_lookup, DnsEvent, DnsItem, DnsStep,
    LookupEnd,
};
use havokmud::lifecycle::{
    shutdown_parties, shutdown_waits, startup_parties, MainLoop, SignalAction, SignalEvent,
    SignalWatcher,
};
use havokmud::logging::{create_log_message, Level, LogAction, LogEvent, LogThread, Logging};
use havokmud::settings::{DynamoDb, Email, Encryption, Global, Mud, Redis, Settings};
use havokmud::ControlSignal;

fn settings(debug: bool) -> Settings {
    Settings {
        debug,
        global: Global {
            config_dir: String::new(),
            data_dir: String::new(),
            log_file: String::new(),
            run_mode: String::new(),
        },
        mud: Mud {
            hostname: String::new(),
            bind_ip: "0.0.0.0".to_string(),
            port: 4000,
            name: "Havok".to_string(),
            wizlocked: false,
            wizlock_reason: String::new(),
            aws_region: String::new(),
            aws_profile: String::new(),
        },
        dynamodb: DynamoDb { endpoint: String::new(), use_ssl: false },
        redis: Redis { host: String::new(), port: 0 },
        encryption: Encryption { endpoint: String::new(), use_ssl: false },
        email: Email {
            mocked: false,
            domain: String::new(),
            admin: String::new(),
            endpoint: String::new(),
            use_ssl: false,
        },
    }
}

#[test]
fn barrier_sizes() {
    assert_eq!(startup_parties(), 5);
    assert_eq!(shutdown_parties(), 6);
    assert_eq!(shutdown_waits(0), 1);
    assert_eq!(shutdown_waits(2), 3);
}

#[test]
fn main_loop_follows_the_control_bus() {
    let mut main = MainLoop::new(settings(false));
    assert!(!main.shutdown);
    main.on_control(ControlSignal::Reconfigure(settings(true)));
    assert!(!main.shutdown);
    assert!(main.settings.debug);
    main.on_control(ControlSignal::Shutdown);
    assert!(main.shutdown);
    assert!(main.settings.debug);
}

#[test]
fn early_hangup_is_applied_once() {
    let mut watcher = SignalWatcher::new();
    assert_eq!(watcher.step(SignalEvent::Hangup), SignalAction::Ignore);
    assert_eq!(watcher.step(SignalEvent::Hangup), SignalAction::Ignore);
    assert!(watcher.pending_reload);
    assert_eq!(watcher.step(SignalEvent::Started), SignalAction::Reload);
    assert!(!watcher.pending_reload);
    assert!(watcher.started);
    assert_eq!(watcher.step(SignalEvent::Started), SignalAction::Ignore);
}

#[test]
fn start_without_hangup_reloads_nothing() {
    let mut watcher = SignalWatcher::new();
    assert_eq!(watcher.step(SignalEvent::Started), SignalAction::Ignore);
    assert_eq!(watcher.step(SignalEvent::Hangup), SignalAction::Reload);
    assert_eq!(watcher.step(SignalEvent::Hangup), SignalAction::Reload);
}

#[test]
fn second_interrupt_forces_the_exit() {
    let mut watcher = SignalWatcher::new();
    assert_eq!(watcher.step(SignalEvent::Started), SignalAction::Ignore);
    assert_eq!(watcher.step(SignalEvent::Interrupt), SignalAction::BroadcastShutdown);
    assert!(watcher.running());
    assert_eq!(watcher.step(SignalEvent::Shutdown), SignalAction::Ignore);
    assert!(!watcher.running());
    assert_eq!(watcher.step(SignalEvent::Hangup), SignalAction::Ignore);
    assert_eq!(watcher.step(SignalEvent::Interrupt), SignalAction::ForceExit);
    assert_eq!(havokmud::lifecycle::EXIT_FORCED, 1);
    assert_eq!(havokmud::lifecycle::EXIT_CLEAN, 0);
}

#[test]
fn shutdown_discards_a_held_hangup() {
    let mut watcher = SignalWatcher::new();
    watcher.step(SignalEvent::Hangup);
    watcher.step(SignalEvent::Shutdown);
    assert_eq!(watcher.step(SignalEvent::Started), SignalAction::Ignore);
}

#[test]
fn log_levels_are_ranked_by_severity() {
    assert_eq!(Level::Error.rank(), 1);
    assert_eq!(Level::Warn.rank(), 2);
    assert_eq!(Level::Info.rank(), 3);
    assert_eq!(Level::Debug.rank(), 4);
    assert_eq!(Level::Trace.rank(), 5);
}

#[test]
fn logger_filters_by_level() {
    let mut logging = Logging::new();
    assert_eq!(logging.level, Level::Info);
    assert!(logging.accepts(Level::Error));
    assert!(logging.accepts(Level::Warn));
    assert!(logging.accepts(Level::Info));
    assert!(!logging.accepts(Level::Debug));
    assert!(!logging.accepts(Level::Trace));
    logging.set_debug(true);
    assert_eq!(logging.level, Level::Debug);
    assert!(logging.accepts(Level::Debug));
    assert!(!logging.accepts(Level::Trace));
    logging.set_debug(false);
    assert_eq!(logging.level, Level::Info);
}

#[test]
fn logger_makes_its_sinks_once() {
    let mut logging = Logging::new();
    logging.set_debug(true);
    assert!(logging.set_logfile("a.log".to_string()));
    assert!(logging.initialized);
    assert_eq!(logging.level, Level::Info);
    assert_eq!(logging.logfile, Some("a.log".to_string()));
    assert!(!logging.set_logfile("b.log".to_string()));
    assert_eq!(logging.logfile, Some("b.log".to_string()));
}

#[test]
fn log_message_carries_level_and_text() {
    let message = create_log_message(Level::Warn, "careful");
    assert_eq!(message.level, Level::Warn);
    assert_eq!(message.message, "careful");
}

#[test]
fn log_thread_drains_after_shutdown() {
    let logging = Logging::new();
    let mut thread = LogThread::new();
    assert!(thread.running());
    let action = logging.log_thread(&mut thread, LogEvent::Message(create_log_message(Level::Info, "one")));
    match action {
        LogAction::Write(message) => assert_eq!(message.message, "one"),
        other => panic!("unexpected action {:?}", other),
    }
    let action = logging.log_thread(&mut thread, LogEvent::Message(create_log_message(Level::Debug, "two")));
    assert!(matches!(action, LogAction::Skip));
    let action = logging.log_thread(&mut thread, LogEvent::Control(ControlSignal::Reconfigure(settings(true))));
    assert!(matches!(action, LogAction::Skip));
    assert!(thread.running());
    let action = logging.log_thread(&mut thread, LogEvent::Control(ControlSignal::Shutdown));
    assert!(matches!(action, LogAction::CloseIntake));
    assert!(thread.shutdown && thread.draining && !thread.drained);
    assert!(thread.running());
    let action = logging.log_thread(&mut thread, LogEvent::Message(create_log_message(Level::Error, "last")));
    assert!(matches!(action, LogAction::Write(_)));
    assert!(thread.running());
    let action = logging.log_thread(&mut thread, LogEvent::QueueClosed);
    assert!(matches!(action, LogAction::Skip));
    assert!(thread.shutdown && !thread.draining && thread.drained);
    assert!(!thread.running());
}

#[test]
fn log_thread_ends_when_the_queue_closes() {
    let logging = Logging::new();
    let mut thread = LogThread::new();
    logging.log_thread(&mut thread, LogEvent::QueueClosed);
    assert!(!thread.running());
}

#[test]
fn dns_answer_without_names_is_none() {
    let item = reverse_lookup(7, Some(vec!["host.example.org.".to_string()]));
    assert_eq!(item.addr, 7);
    assert_eq!(item.names, Some(vec!["host.example.org.".to_string()]));
    assert_eq!(reverse_lookup(7, Some(Vec::new())).names, None);
    assert_eq!(reverse_lookup(7, None).names, None);
    let request = DnsItem::request(9);
    assert_eq!(request.addr, 9);
    assert!(request.names.is_none());
}

#[test]
fn dns_lookup_takes_its_own_answer() {
    let names = Some(vec!["a.example.".to_string()]);
    let answer = DnsItem { addr: 1, names: names.clone() };
    assert_eq!(response_inner(1, answer), Some(names.clone()));
    let other = DnsItem { addr: 2, names: names.clone() };
    assert_eq!(response_inner(1, other), None);
    let empty = DnsItem { addr: 1, names: None };
    assert_eq!(response_inner(1, empty), Some(None));
}

#[test]
fn dns_lookup_result() {
    let names = Some(vec!["a.example.".to_string()]);
    assert_eq!(resolve_ip(LookupEnd::Answered(names.clone())), names);
    assert_eq!(resolve_ip(LookupEnd::Answered(None)), None);
    assert_eq!(resolve_ip(LookupEnd::TimedOut), None);
    assert_eq!(resolve_ip(LookupEnd::Closed), None);
    assert_eq!(resolve_ip(LookupEnd::NoResolver), None);
    assert_eq!(havokmud::dnslookup::LOOKUP_TIMEOUT_SECS, 3);
}

#[test]
fn dns_task_steps() {
    let request = DnsEvent::Request(DnsItem::request(42));
    assert_eq!(do_dns_lookup_thread(request), DnsStep::Lookup(42));
    assert_eq!(do_dns_lookup_thread(DnsEvent::Control(ControlSignal::Shutdown)), DnsStep::Stop);
    let signal = ControlSignal::Reconfigure(settings(false));
    assert_eq!(do_dns_lookup_thread(DnsEvent::Control(signal)), DnsStep::Wait);
}

#[test]
fn logger_builds_messages_of_each_level() {
    let logging = Logging::new();
    assert_eq!(logging.log_trace("t".to_string()).level, Level::Trace);
    assert_eq!(logging.log_debug("d".to_string()).level, Level::Debug);
    assert_eq!(logging.log_info("i".to_string()).level, Level::Info);
    assert_eq!(logging.log_warn("w".to_string()).level, Level::Warn);
    let message = logging.log_error("e".to_string());
    assert_eq!(message.level, Level::Error);
    assert_eq!(message.message, "e");
}
