use std::time::Duration;

use ffmpeg_progress::progress::{Accumulator, ConversionError, Error, Fed, Progress, Status};
use ffmpeg_progress::session::{ReadLoop, Step};

fn run_lines(lines: &[&str]) -> (ReadLoop, Vec<Step>) {
    let mut l = ReadLoop::new();
    let mut out = Vec::new();
    for line in lines {
        match l.on_line(line) {
            Step::Wait | Step::Close => {}
            s => out.push(s),
        }
    }
    (l, out)
}

#[test]
fn scenario_full_report() {
    let input = "frame=100\nfps=29.97\ntotal_size=204800\nout_time_us=3500000\nspeed=1.02x\nprogress=continue\n";
    let lines: Vec<&str> = input.split_inclusive('\n').collect();
    let (l, out) = run_lines(&lines);
    assert_eq!(out.len(), 1);
    match &out[0] {
        Step::Publish(p) => {
            assert_eq!(p.frame, Some(100));
            assert_eq!(p.fps.as_deref().map(|s| s.parse::<f64>().unwrap()), Some(29.97));
            assert_eq!(p.total_size, Some(204800));
            assert_eq!(p.out_time.map(Duration::from_micros), Some(Duration::from_millis(3500)));
            assert_eq!(p.speed.as_deref().map(|s| s.parse::<f64>().unwrap()), Some(1.02));
            assert_eq!(p.dup_frames, None);
            assert_eq!(p.drop_frames, None);
            assert_eq!(p.status, Status::Continue);
        }
        other => panic!("unexpected {:?}", other),
    }
    assert!(!l.is_finished());
}

#[test]
fn scenario_end_without_fields() {
    let mut l = ReadLoop::new();
    match l.on_line("progress=end\n") {
        Step::PublishLast(Ok(p)) => {
            let mut expected = Progress::new();
            expected.status = Status::End;
            assert_eq!(p, expected);
        }
        other => panic!("unexpected {:?}", other),
    }
    assert!(l.is_finished());
    assert!(matches!(l.on_line("frame=1\n"), Step::Close));
    assert!(matches!(l.on_end_of_stream(), Step::Close));
}

#[test]
fn scenario_connection_closes_mid_report() {
    let (mut l, out) = run_lines(&["frame=5\n", "fps=30\n"]);
    assert!(out.is_empty());
    assert!(matches!(l.on_end_of_stream(), Step::Close));
    assert!(l.is_finished());
    assert!(matches!(l.on_line("progress=continue\n"), Step::Close));
}

#[test]
fn consumer_gone_stops_loop() {
    let mut l = ReadLoop::new();
    assert!(matches!(l.on_publish_failed(), Step::Close));
    assert!(l.is_finished());
    assert!(matches!(l.on_line("progress=continue\n"), Step::Close));
}

#[test]
fn bad_integer_is_one_error_then_stop() {
    let (l, out) = run_lines(&["frame=notanumber\n", "progress=continue\n"]);
    assert_eq!(out.len(), 1);
    match &out[0] {
        Step::PublishLast(Err(Error::OtherParseError(ConversionError::InvalidInteger, t))) => {
            assert_eq!(t, "notanumber")
        }
        other => panic!("unexpected {:?}", other),
    }
    assert!(l.is_finished());
}

#[test]
fn bad_float_values_are_errors() {
    let (_, out) = run_lines(&["fps=abc\n"]);
    assert!(matches!(&out[0], Step::PublishLast(Err(Error::OtherParseError(ConversionError::InvalidFloat, t))) if t == "abc"));
    let (_, out) = run_lines(&["speed=fastx\n"]);
    assert!(matches!(&out[0], Step::PublishLast(Err(Error::OtherParseError(ConversionError::InvalidFloat, t))) if t == "fast"));
    let (_, out) = run_lines(&["speed=\n"]);
    assert!(matches!(&out[0], Step::PublishLast(Err(Error::OtherParseError(ConversionError::InvalidFloat, t))) if t.is_empty()));
    let (_, out) = run_lines(&["dup_frames=-3\n"]);
    assert!(matches!(&out[0], Step::PublishLast(Err(Error::OtherParseError(ConversionError::InvalidInteger, t))) if t == "-3"));
}

#[test]
fn unknown_status_is_one_error_then_stop() {
    let (l, out) = run_lines(&["frame=1\n", "progress=unknown\n", "progress=end\n"]);
    assert_eq!(out.len(), 1);
    assert!(matches!(&out[0], Step::PublishLast(Err(Error::UnknownStatusError(v))) if v == "unknown"));
    assert!(l.is_finished());
}

#[test]
fn line_without_separator_is_framing_error() {
    let (l, out) = run_lines(&["noequals\n", "frame=1\n"]);
    assert_eq!(out.len(), 1);
    assert!(matches!(&out[0], Step::PublishLast(Err(Error::KeyValueParseError(t))) if t == "noequals\n"));
    assert!(l.is_finished());
}

#[test]
fn unknown_keys_are_ignored() {
    let mut l = ReadLoop::new();
    assert!(matches!(l.on_line("bitrate=1536.0kbits/s\n"), Step::Wait));
    assert!(matches!(l.on_line("stream_0_0_q=28.0\n"), Step::Wait));
    match l.on_line("progress=continue\n") {
        Step::Publish(p) => assert_eq!(p, Progress::new()),
        other => panic!("unexpected {:?}", other),
    }
}

#[test]
fn next_report_starts_empty() {
    let (_, out) = run_lines(&[
        "frame=10\n",
        "drop_frames=2\n",
        "progress=continue\n",
        "fps=25\n",
        "progress=end\n",
    ]);
    assert_eq!(out.len(), 2);
    match &out[0] {
        Step::Publish(p) => {
            assert_eq!(p.frame, Some(10));
            assert_eq!(p.drop_frames, Some(2));
            assert_eq!(p.fps, None);
        }
        other => panic!("unexpected {:?}", other),
    }
    match &out[1] {
        Step::PublishLast(Ok(p)) => {
            assert_eq!(p.frame, None);
            assert_eq!(p.drop_frames, None);
            assert_eq!(p.fps.as_deref(), Some("25"));
            assert_eq!(p.status, Status::End);
        }
        other => panic!("unexpected {:?}", other),
    }
}

#[test]
fn read_error_is_published_once() {
    let mut l = ReadLoop::new();
    let e = std::io::Error::new(std::io::ErrorKind::ConnectionReset, "reset");
    assert!(matches!(l.on_read_error(e), Step::PublishLast(Err(Error::IoError(_)))));
    let e = std::io::Error::new(std::io::ErrorKind::ConnectionReset, "reset");
    assert!(matches!(l.on_read_error(e), Step::Close));
}

#[test]
fn accumulator_feeds_pairs() {
    let mut a = Accumulator::new();
    assert!(matches!(a.feed("dup_frames", "+4"), Fed::Absorbed));
    assert_eq!(a.current().dup_frames, Some(4));
    assert!(matches!(a.feed("speed", "0.5x"), Fed::Absorbed));
    assert_eq!(a.current().speed.as_deref(), Some("0.5"));
    match a.feed("progress", "continue") {
        Fed::Snapshot(p) => {
            assert_eq!(p.dup_frames, Some(4));
            assert_eq!(p.status, Status::Continue);
        }
        other => panic!("unexpected {:?}", other),
    }
    assert_eq!(a.current(), &Progress::new());
}

#[test]
fn status_defaults_to_continue() {
    assert_eq!(Status::default(), Status::Continue);
}
