use std::cell::RefCell;
use std::rc::Rc;

use passes::{pass_sequence, Config, Executable, Line, Pass, PassSequence, Record, Sink, TraceBuffer};

type Log = Rc<RefCell<Vec<String>>>;

/// A pass that records each call in the shared log.
struct Recorder {
    label: &'static str,
    log: Log,
}

impl Executable<String> for Recorder {
    fn execute(&self, input: &String) {
        self.log.borrow_mut().push(format!("{} saw {}", self.label, input));
    }
}

/// A sink that writes the rendered lines into the same log as the passes.
/// It executes each pass it is handed and notes its position.
struct LogSink {
    log: Log,
    executed: Vec<usize>,
}

impl Sink for LogSink {
    fn emit(&mut self, line: &Line) {
        self.log.borrow_mut().push(line.render());
    }

    fn execute<T>(&mut self, pass: &Pass<T>, index: usize, input: &T) {
        pass.run(input);
        self.executed.push(index);
    }
}

fn log_sink(log: &Log) -> LogSink {
    LogSink { log: log.clone(), executed: Vec::new() }
}

/// The rendered lines and the executed positions held by a buffer.
fn split(buffer: &TraceBuffer) -> (Vec<String>, Vec<usize>) {
    let mut lines = Vec::new();
    let mut executed = Vec::new();
    for record in buffer.records() {
        match record {
            Record::Line(l) => lines.push(l.render()),
            Record::Executed(k) => executed.push(*k),
        }
    }
    (lines, executed)
}

fn recorder(label: &'static str, log: &Log) -> Pass<String> {
    Pass::new(Box::new(Recorder { label, log: log.clone() }), label)
}

fn ip_sequence<'a>(config: &'a Config, log: &Log) -> PassSequence<'a, String> {
    let mut seq = PassSequence::new(config, "ip");
    seq.add_pass(recorder("check_private", log));
    seq.add_pass(recorder("check_loopback", log));
    seq
}

fn calls(log: &Log, label: &str) -> usize {
    let prefix = format!("{} saw", label);
    log.borrow().iter().filter(|l| l.starts_with(&prefix)).count()
}

#[test]
fn ip_scenario_without_ignores() {
    let log: Log = Rc::new(RefCell::new(Vec::new()));
    let config = Config::empty();
    let seq = ip_sequence(&config, &log);
    let mut sink = log_sink(&log);
    let text = seq.run(&String::from("192.168.1.1"), &mut sink);
    assert_eq!(
        *log.borrow(),
        vec![
            "found ip(192.168.1.1)".to_string(),
            "➔ check_private".to_string(),
            "check_private saw 192.168.1.1".to_string(),
            "➔ check_loopback".to_string(),
            "check_loopback saw 192.168.1.1".to_string(),
        ]
    );
    assert_eq!(text, "192.168.1.1");
    assert_eq!(sink.executed, vec![0, 1]);
}

#[test]
fn ip_scenario_with_loopback_ignored() {
    let log: Log = Rc::new(RefCell::new(Vec::new()));
    let config = Config::new(vec!["check_loopback".to_string()]);
    let seq = ip_sequence(&config, &log);
    let mut sink = log_sink(&log);
    seq.run(&String::from("192.168.1.1"), &mut sink);
    assert_eq!(
        *log.borrow(),
        vec![
            "found ip(192.168.1.1)".to_string(),
            "➔ check_private".to_string(),
            "check_private saw 192.168.1.1".to_string(),
            "✘ check_loopback ignored".to_string(),
        ]
    );
    assert_eq!(calls(&log, "check_loopback"), 0);
    assert_eq!(calls(&log, "check_private"), 1);
    assert_eq!(sink.executed, vec![0]);
}

#[test]
fn empty_sequence_emits_only_the_header() {
    let log: Log = Rc::new(RefCell::new(Vec::new()));
    let config = Config::empty();
    let seq: PassSequence<String> = PassSequence::new(&config, "int");
    assert_eq!(seq.len(), 0);
    let mut sink = log_sink(&log);
    let text = seq.run(&String::from("42"), &mut sink);
    assert_eq!(*log.borrow(), vec!["found int(42)".to_string()]);
    assert_eq!(text, "42");
    assert!(sink.executed.is_empty());
}

#[test]
fn each_unignored_pass_runs_once_in_order() {
    let log: Log = Rc::new(RefCell::new(Vec::new()));
    let config = Config::new(vec!["b".to_string(), "d".to_string()]);
    let mut seq = PassSequence::new(&config, "string");
    for label in ["a", "b", "c", "d", "e"] {
        seq.add_pass(recorder(label, &log));
    }
    let mut sink = log_sink(&log);
    seq.run(&String::from("hello"), &mut sink);
    assert_eq!(sink.executed, vec![0, 2, 4]);
    let ran: Vec<String> = log
        .borrow()
        .iter()
        .filter(|l| l.ends_with("saw hello"))
        .cloned()
        .collect();
    assert_eq!(ran, vec!["a saw hello", "c saw hello", "e saw hello"]);
    assert_eq!(calls(&log, "b"), 0);
    assert_eq!(calls(&log, "d"), 0);
}

#[test]
fn trace_has_one_line_per_pass_whatever_is_ignored() {
    for ignored in [vec![], vec!["x".to_string()], vec!["x".to_string(), "y".to_string()]] {
        let log: Log = Rc::new(RefCell::new(Vec::new()));
        let config = Config::new(ignored);
        let mut seq = PassSequence::new(&config, "int");
        seq.add_pass(recorder("x", &log));
        seq.add_pass(recorder("y", &log));
        seq.add_pass(recorder("z", &log));
        let mut buffer = TraceBuffer::new();
        seq.run(&String::from("7"), &mut buffer);
        let (lines, _) = split(&buffer);
        assert_eq!(lines.len(), 4);
    }
}

#[test]
fn running_twice_gives_the_same_trace() {
    let log: Log = Rc::new(RefCell::new(Vec::new()));
    let config = Config::new(vec!["check_private".to_string()]);
    let seq = ip_sequence(&config, &log);
    let mut sink = log_sink(&log);
    let input = String::from("10.0.0.1");
    seq.run(&input, &mut sink);
    let first: Vec<String> = log.borrow().clone();
    log.borrow_mut().clear();
    seq.run(&input, &mut sink);
    let second: Vec<String> = log.borrow().clone();
    assert_eq!(first, second);
    assert_eq!(
        first,
        vec![
            "found ip(10.0.0.1)".to_string(),
            "✘ check_private ignored".to_string(),
            "➔ check_loopback".to_string(),
            "check_loopback saw 10.0.0.1".to_string(),
        ]
    );
}

#[test]
fn toggling_an_ignore_toggles_the_call() {
    let log: Log = Rc::new(RefCell::new(Vec::new()));
    let on = Config::empty();
    let off = Config::new(vec!["check_loopback".to_string()]);
    let mut sink = log_sink(&log);
    let input = String::from("127.0.0.1");
    ip_sequence(&on, &log).run(&input, &mut sink);
    assert_eq!(calls(&log, "check_loopback"), 1);
    ip_sequence(&off, &log).run(&input, &mut sink);
    assert_eq!(calls(&log, "check_loopback"), 1);
    ip_sequence(&on, &log).run(&input, &mut sink);
    assert_eq!(calls(&log, "check_loopback"), 2);
    assert_eq!(calls(&log, "check_private"), 3);
}

#[test]
fn duplicate_names_share_one_ignore_answer() {
    let log: Log = Rc::new(RefCell::new(Vec::new()));
    let config = Config::new(vec!["dup".to_string()]);
    let mut seq = PassSequence::new(&config, "string");
    seq.add_pass(recorder("dup", &log));
    seq.add_pass(recorder("other", &log));
    seq.add_pass(recorder("dup", &log));
    let mut buffer = TraceBuffer::new();
    seq.run(&String::from("s"), &mut buffer);
    let (lines, executed) = split(&buffer);
    assert_eq!(executed, vec![1]);
    assert_eq!(lines, vec!["found string(s)", "✘ dup ignored", "➔ other", "✘ dup ignored"]);
    assert_eq!(calls(&log, "dup"), 0);
    assert_eq!(calls(&log, "other"), 1);
}

#[test]
fn decision_of_a_pass_ignores_its_neighbours() {
    let log: Log = Rc::new(RefCell::new(Vec::new()));
    let config = Config::new(vec!["b".to_string()]);
    let mut short = PassSequence::new(&config, "t");
    short.add_pass(recorder("b", &log));
    let mut long = PassSequence::new(&config, "t");
    long.add_pass(recorder("a", &log));
    long.add_pass(recorder("c", &log));
    long.add_pass(recorder("b", &log));
    let mut first = TraceBuffer::new();
    let mut second = TraceBuffer::new();
    short.run(&String::from("v"), &mut first);
    long.run(&String::from("v"), &mut second);
    let (lines1, executed1) = split(&first);
    let (lines2, executed2) = split(&second);
    assert_eq!(lines1[1], lines2[3]);
    assert_eq!(lines1[1], "✘ b ignored");
    assert!(!executed1.contains(&0) && !executed2.contains(&2));
}

#[test]
fn pass_sequence_keeps_the_given_order() {
    let log: Log = Rc::new(RefCell::new(Vec::new()));
    let config = Config::empty();
    let seq = pass_sequence(
        &config,
        "string",
        vec![recorder("first", &log), recorder("second", &log), recorder("third", &log)],
    );
    assert_eq!(seq.len(), 3);
    let mut sink = log_sink(&log);
    seq.run(&String::from("abc"), &mut sink);
    assert_eq!(
        *log.borrow(),
        vec![
            "found string(abc)".to_string(),
            "➔ first".to_string(),
            "first saw abc".to_string(),
            "➔ second".to_string(),
            "second saw abc".to_string(),
            "➔ third".to_string(),
            "third saw abc".to_string(),
        ]
    );
}

#[test]
fn pass_keeps_its_name_and_runs_its_action() {
    let log: Log = Rc::new(RefCell::new(Vec::new()));
    let pass = recorder("check_private", &log);
    assert_eq!(pass.name(), "check_private");
    pass.run(&String::from("x"));
    assert_eq!(*log.borrow(), vec!["check_private saw x".to_string()]);
}

#[test]
fn trace_buffer_interleaves_lines_and_executions() {
    let log: Log = Rc::new(RefCell::new(Vec::new()));
    let config = Config::new(vec!["b".to_string()]);
    let mut seq = PassSequence::new(&config, "int");
    seq.add_pass(recorder("a", &log));
    seq.add_pass(recorder("b", &log));
    seq.add_pass(recorder("c", &log));
    let mut buffer = TraceBuffer::new();
    seq.run(&String::from("5"), &mut buffer);
    let steps: Vec<String> = buffer
        .records()
        .iter()
        .map(|r| match r {
            Record::Line(l) => l.render(),
            Record::Executed(k) => format!("executed {}", k),
        })
        .collect();
    assert_eq!(
        steps,
        vec!["found int(5)", "➔ a", "executed 0", "✘ b ignored", "➔ c", "executed 2"]
    );
    assert_eq!(*log.borrow(), vec!["a saw 5".to_string(), "c saw 5".to_string()]);
}
