use ffmpeg_progress::address::progress_url;
use ffmpeg_progress::opt::{FfmpegBuilder, File, Parameter, StdioMode};

#[test]
fn builder_orders_arguments() {
    let b = FfmpegBuilder::new()
        .option(Parameter::Single("nostdin"))
        .option(Parameter::Single("y"))
        .input(File::new("./input/index.mp4"))
        .output(
            File::new("./output/index.mp4")
                .option(Parameter::KeyValue("vcodec", "libx264"))
                .option(Parameter::KeyValue("crf", "28")),
        )
        .stderr(StdioMode::Piped);
    assert_eq!(b.ffmpeg_command, "ffmpeg");
    assert_eq!(b.stdin, StdioMode::Null);
    assert_eq!(b.stderr, StdioMode::Piped);
    assert_eq!(
        b.args(),
        vec![
            "-nostdin", "-y", "-i", "./input/index.mp4", "-vcodec", "libx264", "-crf", "28",
            "./output/index.mp4"
        ]
    );
}

#[test]
fn empty_builder_has_no_arguments() {
    let b = FfmpegBuilder::new();
    assert!(b.args().is_empty());
    assert_eq!(b.stdout, StdioMode::Null);
}

#[test]
fn file_options_keep_order() {
    let f = File::new("a.mp4").option(Parameter::Single("re")).option(Parameter::KeyValue("ss", "5"));
    assert_eq!(f.url, "a.mp4");
    assert_eq!(f.options.len(), 2);
    let b = FfmpegBuilder::new().input(f).stdout(StdioMode::Inherit).stdin(StdioMode::Piped);
    assert_eq!(b.args(), vec!["-re", "-ss", "5", "-i", "a.mp4"]);
    assert_eq!(b.stdout, StdioMode::Inherit);
    assert_eq!(b.stdin, StdioMode::Piped);
}

#[test]
fn progress_url_names_local_port() {
    assert_eq!(progress_url(8080), "tcp://127.0.0.1:8080");
    assert_eq!(progress_url(0), "tcp://127.0.0.1:0");
    assert_eq!(progress_url(65535), "tcp://127.0.0.1:65535");
    assert_eq!(progress_url(10), "tcp://127.0.0.1:10");
}
