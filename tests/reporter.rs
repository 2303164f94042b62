use kpanic::reporter::{CallFrame, Event, Reporter, SHUTDOWN_CODE};
use kpanic::symbols::{SymbolEntry, Symbolizer};

fn reporter() -> Reporter {
    let table = vec![
        SymbolEntry { code_offset: 0, name_offset: 0 },
        SymbolEntry { code_offset: 0x10, name_offset: 5 },
    ];
    let strings = b"main\0task_run\0".to_vec();
    Reporter::new(Symbolizer::new(0x1000, Some(table), strings))
}

fn frame(pc: usize) -> CallFrame {
    CallFrame { pc, sp: 0x8000, fp: 0x8010 }
}

fn lines(v: Vec<Vec<u8>>) -> Vec<String> {
    v.into_iter().map(|l| String::from_utf8(l).unwrap()).collect()
}

fn panic_at(file: &str, line: u32, message: &str) -> Event {
    Event::Panic {
        location: Some((file.as_bytes().to_vec(), line)),
        message: message.as_bytes().to_vec(),
    }
}

#[test]
fn full_report_with_location() {
    let mut r = reporter();
    let o = r.step(panic_at("kernel.src", 42, "assertion failed"));
    assert!(!o.shutdown);
    assert_eq!(lines(o.lines), vec!["Panicked at kernel.src:42 assertion failed"]);
    let o = r.step(Event::Captured(frame(0x1004)));
    assert!(o.lines.is_empty() && !o.shutdown);
    let o = r.step(Event::Frame(frame(0x1004)));
    assert!(!o.shutdown);
    assert_eq!(lines(o.lines), vec!["(0x00001004) main + 0x4"]);
    let o = r.step(Event::Frame(frame(0x1020)));
    assert!(!o.shutdown);
    assert_eq!(lines(o.lines), vec!["(0x00001020) task_run + 0x10"]);
    let o = r.step(Event::Frame(frame(0x0800)));
    assert_eq!(lines(o.lines), vec!["(0x00000800) ???"]);
    let o = r.step(Event::Finished);
    assert!(o.shutdown);
    assert!(o.lines.is_empty());
    assert_ne!(SHUTDOWN_CODE, 0);
}

#[test]
fn report_without_location() {
    let mut r = reporter();
    let o = r.step(Event::Panic { location: None, message: b"double fault".to_vec() });
    assert_eq!(lines(o.lines), vec!["Panicked: double fault"]);
}

#[test]
fn first_frame_reported_when_unwinder_gives_none() {
    let mut r = reporter();
    r.step(panic_at("a.rs", 1, "m"));
    r.step(Event::Captured(frame(0x1012)));
    let o = r.step(Event::Finished);
    assert!(o.shutdown);
    assert_eq!(lines(o.lines), vec!["(0x00001012) task_run + 0x2"]);
}

#[test]
fn first_frame_put_in_front_of_another() {
    let mut r = reporter();
    r.step(panic_at("a.rs", 1, "m"));
    r.step(Event::Captured(frame(0x1012)));
    let o = r.step(Event::Frame(frame(0x1002)));
    assert_eq!(
        lines(o.lines),
        vec!["(0x00001012) task_run + 0x2", "(0x00001002) main + 0x2"]
    );
    let o = r.step(Event::Frame(frame(0x1003)));
    assert_eq!(lines(o.lines), vec!["(0x00001003) main + 0x3"]);
}

#[test]
fn halted_path_does_nothing_more() {
    let mut r = reporter();
    r.step(panic_at("a.rs", 1, "m"));
    r.step(Event::Captured(frame(0x1004)));
    r.step(Event::Frame(frame(0x1004)));
    assert!(r.step(Event::Finished).shutdown);
    for ev in [
        Event::Frame(frame(0x1004)),
        Event::Finished,
        Event::Captured(frame(1)),
        panic_at("b.rs", 2, "again"),
    ] {
        let o = r.step(ev);
        assert!(o.lines.is_empty());
        assert!(!o.shutdown);
    }
}

#[test]
fn nested_panic_halts() {
    let mut r = reporter();
    r.step(panic_at("a.rs", 1, "m"));
    r.step(Event::Captured(frame(0x1004)));
    let o = r.step(panic_at("b.rs", 2, "again"));
    assert!(o.shutdown);
    assert_eq!(lines(o.lines), vec!["(0x00001004) main + 0x4"]);
}

#[test]
fn out_of_order_events_are_ignored() {
    let mut r = reporter();
    let o = r.step(Event::Frame(frame(0x1004)));
    assert!(o.lines.is_empty() && !o.shutdown);
    let o = r.step(Event::Finished);
    assert!(o.lines.is_empty() && !o.shutdown);
    let o = r.step(panic_at("a.rs", 7, "late"));
    assert_eq!(lines(o.lines), vec!["Panicked at a.rs:7 late"]);
    let o = r.step(Event::Frame(frame(0x1004)));
    assert!(o.lines.is_empty() && !o.shutdown);
    let o = r.step(Event::Finished);
    assert!(o.shutdown && o.lines.is_empty());
}
