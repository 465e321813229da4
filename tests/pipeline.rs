use serial_demux::aggregate::{Mode, Sample, Stamp};
use serial_demux::demux::PendingStore;
use serial_demux::frame::{split_lines, strip_nul, DecodeError, FrameDecoder};
use serial_demux::session::{Diagnostic, Phase, Session};

fn read_number(line: &[u8]) -> Option<f64> {
    std::str::from_utf8(line).ok()?.parse::<f64>().ok()
}

fn numbers(lines: &[Vec<u8>]) -> Vec<Option<f64>> {
    lines.iter().map(|l| read_number(l)).collect()
}

fn bytes(s: &str) -> Vec<u8> {
    s.as_bytes().to_vec()
}

fn store_with(values: &[&[f64]]) -> PendingStore<f64> {
    let mut store = PendingStore::new();
    for vs in values {
        let mut lines = Vec::new();
        for v in vs.iter() {
            lines.push(bytes(&v.to_string()));
        }
        lines.push(Vec::new());
        let parsed = numbers(&lines);
        store.absorb_lines(&lines, &parsed);
    }
    store
}

#[test]
fn split_on_crlf_left_to_right() {
    let parts = split_lines(&bytes("a\r\r\nb\r\n\r\nc"));
    assert_eq!(parts, vec![bytes("a\r"), bytes("b"), bytes(""), bytes("c")]);
    assert_eq!(split_lines(&Vec::new()), vec![Vec::<u8>::new()]);
    assert_eq!(split_lines(&bytes("\r\n")), vec![Vec::<u8>::new(), Vec::new()]);
}

#[test]
fn zero_bytes_are_removed() {
    assert_eq!(strip_nul(&vec![0, 49, 0, 50, 0]), vec![49, 50]);
    assert_eq!(strip_nul(&vec![0, 0]), Vec::<u8>::new());
}

#[test]
fn first_pass_only_primes() {
    let mut d = FrameDecoder::new();
    let first = d.feed(&bytes("1.0\r\n2.0\r\n\r\n")).unwrap().unwrap();
    assert!(first.is_empty());
    assert!(d.primed);
    assert_eq!(d.residual, Vec::<u8>::new());
    let second = d.feed(&bytes("3.0\r\n4.0\r\n\r\n")).unwrap().unwrap();
    assert_eq!(second, vec![bytes("3.0"), bytes("4.0"), bytes("")]);
}

#[test]
fn priming_then_two_channel_cycle() {
    let mut d = FrameDecoder::new();
    let mut store: PendingStore<f64> = PendingStore::new();
    d.feed(&bytes("1.0\r\n2.0\r\n\r\n")).unwrap().unwrap();
    let lines = d.feed(&bytes("3.0\r\n4.0\r\n\r\n")).unwrap().unwrap();
    let warnings = store.absorb_lines(&lines, &numbers(&lines));
    assert_eq!(warnings, 0);
    assert_eq!(store.channels, vec![vec![3.0], vec![4.0]]);
    assert_eq!(store.cursor, 0);
}

#[test]
fn partial_line_waits_for_more_input() {
    let mut d = FrameDecoder::new();
    assert_eq!(d.feed(&bytes("1.")), Ok(None));
    assert_eq!(d.feed(&vec![b'5', 0]), Ok(None));
    assert_eq!(d.residual, bytes("1.5"));
    let lines = d.feed(&bytes("\r\n7")).unwrap().unwrap();
    assert!(lines.is_empty());
    assert_eq!(d.residual, bytes("7"));
    let lines = d.feed(&bytes("\r\n")).unwrap().unwrap();
    assert_eq!(lines, vec![bytes("7")]);
}

#[test]
fn invalid_text_is_refused() {
    let mut d = FrameDecoder::new();
    d.feed(&bytes("x")).unwrap();
    assert_eq!(d.feed(&vec![0xff, b'1']), Err(DecodeError::InvalidText));
    assert_eq!(d.residual, bytes("x"));
    assert_eq!(d.feed(&vec![0xc3]), Err(DecodeError::InvalidText));
}

#[test]
fn multibyte_text_is_accepted() {
    let mut d = FrameDecoder::new();
    assert_eq!(d.feed(&bytes("é\r\n")).unwrap().unwrap(), Vec::<Vec<u8>>::new());
    assert_eq!(d.residual, Vec::<u8>::new());
}

#[test]
fn cycle_fills_each_channel_once() {
    let mut store: PendingStore<f64> = PendingStore::new();
    let lines = vec![bytes("1"), bytes("2"), bytes("3"), bytes("")];
    assert_eq!(store.absorb_lines(&lines, &numbers(&lines)), 0);
    assert_eq!(store.channels, vec![vec![1.0], vec![2.0], vec![3.0]]);
    let lines = vec![bytes("4"), bytes("5"), bytes("")];
    store.absorb_lines(&lines, &numbers(&lines));
    assert_eq!(store.channels, vec![vec![1.0, 4.0], vec![2.0, 5.0], vec![3.0]]);
    assert_eq!(store.channel_count(), 3);
}

#[test]
fn malformed_line_gives_one_warning() {
    let mut store: PendingStore<f64> = PendingStore::new();
    let lines = vec![bytes("1"), bytes("abc")];
    assert_eq!(store.absorb_lines(&lines, &numbers(&lines)), 1);
    assert_eq!(store.cursor, 1);
    assert_eq!(store.channels, vec![vec![1.0]]);
    let warned = store.absorb_line(&bytes("abc"), read_number(b"abc"));
    assert!(warned);
    assert_eq!(store.cursor, 1);
    assert_eq!(store.channels, vec![vec![1.0]]);
    let lines = vec![bytes("2"), bytes("")];
    store.absorb_lines(&lines, &numbers(&lines));
    assert_eq!(store.channels, vec![vec![1.0], vec![2.0]]);
}

#[test]
fn blank_line_resets_cursor() {
    let mut store: PendingStore<f64> = PendingStore::new();
    store.absorb_line(&bytes("8"), Some(8.0));
    assert_eq!(store.cursor, 1);
    assert!(!store.absorb_line(&Vec::new(), None));
    assert_eq!(store.cursor, 0);
}

#[test]
fn all_mode_spreads_values_over_window() {
    let mut store = store_with(&[&[1.0, 2.0], &[3.0], &[4.0], &[5.0]]);
    assert_eq!(store.channels, vec![vec![1.0, 3.0, 4.0, 5.0], vec![2.0]]);
    let out = store.flush(Mode::All, 1000, 200);
    assert_eq!(out.len(), 10);
    for j in 0..4 {
        match &out[2 * j] {
            Sample::Time(t) => {
                assert_eq!(*t, Stamp { elapsed_ms: 1000, window_ms: 200, slot: j, slots: 4 })
            }
            other => panic!("expected a time, got {:?}", other),
        }
    }
    let values: Vec<f64> = (0..4)
        .map(|j| match &out[2 * j + 1] {
            Sample::Channel(0, v) => *v,
            other => panic!("expected channel 0, got {:?}", other),
        })
        .collect();
    assert_eq!(values, vec![1.0, 3.0, 4.0, 5.0]);
    assert!(matches!(out[8], Sample::Time(Stamp { elapsed_ms: 1000, window_ms: 200, slot: 0, slots: 1 })));
    assert!(matches!(out[9], Sample::Channel(1, v) if v == 2.0));
    assert_eq!(store.channels, vec![Vec::<f64>::new(), Vec::new()]);
}

#[test]
fn lost_mode_keeps_last_value() {
    let mut store = store_with(&[&[1.0, 9.0], &[2.0], &[3.0]]);
    let out = store.flush(Mode::Lost, 500, 100);
    assert_eq!(out.len(), 3);
    assert!(matches!(out[0], Sample::Time(Stamp { elapsed_ms: 500, window_ms: 0, slot: 0, slots: 1 })));
    assert!(matches!(out[1], Sample::Channel(0, v) if v == 3.0));
    assert!(matches!(out[2], Sample::Channel(1, v) if v == 9.0));
}

#[test]
fn mean_mode_carries_all_values() {
    let mut store = store_with(&[&[1.0], &[2.0], &[6.0]]);
    let out = store.flush(Mode::Mean, 250, 100);
    assert_eq!(out.len(), 2);
    assert!(matches!(out[0], Sample::Time(Stamp { elapsed_ms: 250, window_ms: 0, slot: 0, slots: 1 })));
    match &out[1] {
        Sample::Mean(0, vs) => {
            assert_eq!(vs, &vec![1.0, 2.0, 6.0]);
            let mean = vs.iter().sum::<f64>() / vs.len() as f64;
            assert!((mean - 3.0).abs() < 1e-12);
        }
        other => panic!("expected a mean, got {:?}", other),
    }
}

#[test]
fn flush_empties_channels_and_skips_empty_ones() {
    let mut store = store_with(&[&[1.0, 2.0]]);
    let out = store.flush(Mode::Lost, 10, 100);
    assert_eq!(out.len(), 3);
    assert_eq!(store.channels, vec![Vec::<f64>::new(), Vec::new()]);
    let out = store.flush(Mode::Lost, 20, 100);
    assert_eq!(out.len(), 1);
    let out = store.flush(Mode::All, 20, 100);
    assert!(out.is_empty());
    assert_eq!(store.channel_count(), 2);
}

#[test]
fn nothing_flushed_before_any_channel() {
    let mut store: PendingStore<f64> = PendingStore::new();
    assert!(store.flush(Mode::Mean, 10, 100).is_empty());
    assert_eq!(store.channel_count(), 0);
}

#[test]
fn open_failure_is_fatal() {
    let mut s: Session<f64> = Session::new(Mode::All, 100);
    let d = s.on_open(false);
    assert_eq!(d, Some(Diagnostic::PortOpenFailed));
    assert_eq!(s.phase, Phase::Failed);
    assert!(!s.is_running());
    assert!(Diagnostic::PortOpenFailed.is_fatal());
    assert_eq!(Diagnostic::PortOpenFailed.message(), "Failed to open port");
}

#[test]
fn cancellation_stops_session() {
    let mut s: Session<f64> = Session::new(Mode::Lost, 100);
    assert_eq!(s.on_open(true), None);
    assert!(s.is_running());
    assert!(!s.on_control(&vec![]));
    assert!(!s.on_control(&vec![true, true]));
    assert!(s.is_running());
    assert!(s.on_control(&vec![true, false, true]));
    assert_eq!(s.phase, Phase::Stopped);
    assert!(!s.is_running());
}

#[test]
fn byte_count_failure_is_fatal() {
    let mut s: Session<f64> = Session::new(Mode::Lost, 100);
    s.on_open(true);
    assert_eq!(s.on_byte_count(Some(12)), Ok(12));
    assert_eq!(s.on_byte_count(None), Err(Diagnostic::NoSignal));
    assert_eq!(s.phase, Phase::Failed);
    assert_eq!(Diagnostic::NoSignal.message(), "No signal");
}

#[test]
fn undecodable_chunk_is_fatal() {
    let mut s: Session<f64> = Session::new(Mode::Lost, 100);
    s.on_open(true);
    assert_eq!(s.on_chunk(&vec![0xfe]), Err(Diagnostic::UndecodableData));
    assert_eq!(s.phase, Phase::Failed);
    assert_eq!(Diagnostic::UndecodableData.message(), "Incorrect received data");
}

#[test]
fn warning_is_not_fatal() {
    assert!(!Diagnostic::MalformedLine.is_fatal());
    assert!(Diagnostic::MalformedLine.message().contains("Warning"));
    assert!(!Diagnostic::NoSignal.message().contains("Warning"));
}

#[test]
fn session_passes_end_to_end() {
    let mut s: Session<f64> = Session::new(Mode::Lost, 100);
    s.on_open(true);
    let lines = s.on_chunk(&bytes("0.5\r\n\r\n1.0\r\n")).unwrap().unwrap();
    assert!(lines.is_empty());
    let out = s.on_values(&lines, &numbers(&lines), 100);
    assert_eq!(out.warnings, 0);
    assert!(out.samples.is_empty());
    let lines = s.on_chunk(&bytes("2.0\r\nxyz\r\n\r\n")).unwrap().unwrap();
    assert_eq!(lines, vec![bytes("2.0"), bytes("xyz"), bytes("")]);
    let out = s.on_values(&lines, &numbers(&lines), 350);
    assert_eq!(out.warnings, 1);
    assert_eq!(out.samples.len(), 2);
    assert!(matches!(out.samples[0], Sample::Time(Stamp { elapsed_ms: 350, .. })));
    assert!(matches!(out.samples[1], Sample::Channel(0, v) if v == 2.0));
    assert_eq!(s.store.channels, vec![Vec::<f64>::new()]);
    assert_eq!(s.on_chunk(&bytes("3")), Ok(None));
}
