use picow::terminal::ansi_in::parse;
use picow::terminal::events::Event;
use picow::terminal::reader::CmdAssembler;

#[test]
fn parse_event() {
    let mut assembler = CmdAssembler::new();
    let done = assembler.push("\x1B[A");
    assert!(done);
    let event = assembler.take();
    assert_eq!(event, "\x1B[A");
}

#[test]
fn bracketed_paste() {
    let mut assembler = CmdAssembler::new();
    assert!(!assembler.push("\x1B[200~"));
    assert!(!assembler.push("Hello, world!"));
    assert!(assembler.push("How are you?\x1B[201~"));
    let event = assembler.take();
    assert_eq!(event, "\x1B[200~Hello, world!How are you?\x1B[201~");
}

#[test]
fn paste_reassembled_across_three_reads() {
    // The three chunks together decode to exactly one paste event.
    let mut assembler = CmdAssembler::new();
    assert!(!assembler.push("\x1B[200~"));
    assert!(!assembler.push("Hello, "));
    assert!(assembler.push("world!\x1B[201~"));
    let buffered = assembler.take();
    assert_eq!(parse(&buffered), Some(Event::Paste("Hello, world!".to_string())));
}
