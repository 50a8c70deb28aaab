use test_fork::lines::LINE_FEED;
use test_fork::relay::decode_lines;
use test_fork::relay::relay;
use test_fork::relay::Drain;
use test_fork::relay::LineAssembler;
use test_fork::relay::ReadOutcome;

fn lines(texts: &[&str]) -> Vec<Vec<u8>> {
    texts.iter().map(|text| text.as_bytes().to_vec()).collect()
}

/// Feed `stream` in chunks of `size` bytes and collect all that comes out.
fn assemble(stream: &[u8], size: usize) -> Vec<Vec<u8>> {
    let mut assembler = LineAssembler::new();
    let mut out = Vec::new();
    for chunk in stream.chunks(size) {
        out.extend(assembler.push(chunk));
    }
    out.extend(assembler.finish());
    out
}

#[test]
fn line_feed_is_the_byte_ten() {
    assert_eq!(LINE_FEED, b'\n');
}

#[test]
fn empty_stream_drains_to_nothing() {
    assert_eq!(relay(b""), Vec::<String>::new());
    let mut assembler = LineAssembler::new();
    assert_eq!(assembler.push(b""), Vec::<Vec<u8>>::new());
    assert_eq!(assembler.finish(), None);
}

#[test]
fn child_output_captured_and_repeated() {
    let output = relay(b"hello from child\n").concat();
    assert!(output.contains("hello from child"));
}

#[test]
fn one_line_is_relayed_with_its_line_feed() {
    assert_eq!(relay(b"hello from child\n"), vec!["hello from child\n"]);
}

#[test]
fn lines_keep_their_order() {
    assert_eq!(
        relay(b"one\ntwo\n\nfour\n"),
        vec!["one\n", "two\n", "\n", "four\n"]
    );
}

#[test]
fn stream_that_ends_mid_line_is_flushed() {
    assert_eq!(relay(b"one\ntwo"), vec!["one\n", "two"]);
    assert_eq!(relay(b"two"), vec!["two"]);
}

#[test]
fn malformed_bytes_are_replaced() {
    assert_eq!(relay(b"a\xffb\n"), vec!["a\u{fffd}b\n"]);
    assert_eq!(relay(b"\xc3\n\xa9"), vec!["\u{fffd}\n", "\u{fffd}"]);
    assert_eq!(relay("\u{e9}t\u{e9}\n".as_bytes()), vec!["\u{e9}t\u{e9}\n"]);
}

#[test]
fn decoding_goes_line_by_line() {
    let decoded = decode_lines(&vec![b"ok\n".to_vec(), b"\xf0\x9f".to_vec(), Vec::new()]);
    assert_eq!(decoded, vec!["ok\n", "\u{fffd}", ""]);
}

#[test]
fn push_hands_back_the_whole_lines_only() {
    let mut assembler = LineAssembler::new();
    assert_eq!(assembler.push(b"hel"), Vec::<Vec<u8>>::new());
    assert_eq!(assembler.push(b"lo\nwor"), lines(&["hello\n"]));
    assert_eq!(assembler.push(b"ld\n\nand"), lines(&["world\n", "\n"]));
    assert_eq!(assembler.push(b""), Vec::<Vec<u8>>::new());
    assert_eq!(assembler.finish(), Some(b"and".to_vec()));
}

#[test]
fn finish_after_a_line_feed_has_nothing_left() {
    let mut assembler = LineAssembler::new();
    assert_eq!(assembler.push(b"done\n"), lines(&["done\n"]));
    assert_eq!(assembler.finish(), None);
}

#[test]
fn chunking_does_not_change_the_lines() {
    let stream = b"alpha\nbeta\n\ngamma delta\nepsilon";
    let whole = assemble(stream, stream.len());
    assert_eq!(whole, lines(&["alpha\n", "beta\n", "\n", "gamma delta\n", "epsilon"]));
    for size in 1..stream.len() {
        assert_eq!(assemble(stream, size), whole);
    }
}

#[test]
fn nothing_is_lost() {
    let stream = b"\n\nx\ny\xfe\nz";
    for size in 1..=stream.len() {
        assert_eq!(assemble(stream, size).concat(), stream.to_vec());
    }
}

#[test]
fn drain_repeats_lines_as_they_become_whole() {
    let mut drain = Drain::new();
    assert!(drain.more());
    assert_eq!(drain.step(ReadOutcome::Bytes(b"hello fr")), Vec::<String>::new());
    assert_eq!(
        drain.step(ReadOutcome::Bytes(b"om child
bye")),
        vec!["hello from child
"]
    );
    assert!(drain.more());
    assert_eq!(drain.step(ReadOutcome::End), vec!["bye"]);
    assert!(!drain.more());
}

#[test]
fn drain_of_an_empty_stream_repeats_nothing() {
    let mut drain = Drain::new();
    assert_eq!(drain.step(ReadOutcome::End), Vec::<String>::new());
    assert!(!drain.more());
}

#[test]
fn failed_read_ends_the_draining() {
    let mut drain = Drain::new();
    assert_eq!(drain.step(ReadOutcome::Bytes(b"one\ntw")), vec!["one\n"]);
    assert_eq!(drain.step(ReadOutcome::Failed), Vec::<String>::new());
    assert!(!drain.more());
    assert_eq!(drain.step(ReadOutcome::Bytes(b"o\n")), Vec::<String>::new());
    assert_eq!(drain.step(ReadOutcome::End), Vec::<String>::new());
    assert!(!drain.more());
}

#[test]
fn ended_drain_stays_ended() {
    let mut drain = Drain::new();
    assert_eq!(drain.step(ReadOutcome::Bytes(b"x")), Vec::<String>::new());
    assert_eq!(drain.step(ReadOutcome::End), vec!["x"]);
    assert_eq!(drain.step(ReadOutcome::End), Vec::<String>::new());
    assert_eq!(drain.step(ReadOutcome::Bytes(b"y\n")), Vec::<String>::new());
    assert!(!drain.more());
}

#[test]
fn drain_replaces_malformed_bytes_line_by_line() {
    let mut drain = Drain::new();
    assert_eq!(
        drain.step(ReadOutcome::Bytes(b"\xffok\n\xfe")),
        vec!["\u{fffd}ok\n"]
    );
    assert_eq!(drain.step(ReadOutcome::End), vec!["\u{fffd}"]);
}

#[test]
fn well_formed_text_reads_as_it_was_written() {
    let written = "na\u{ef}ve caf\u{e9}\n\u{1f980} crab\n\nlast line, no end";
    assert_eq!(relay(written.as_bytes()).concat(), written);
    let mut drain = Drain::new();
    let mut repeated = String::new();
    for chunk in written.as_bytes().chunks(3) {
        repeated.push_str(&drain.step(ReadOutcome::Bytes(chunk)).concat());
    }
    repeated.push_str(&drain.step(ReadOutcome::End).concat());
    assert_eq!(repeated, written);
}
