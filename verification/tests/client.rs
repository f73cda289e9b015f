use vistream::camera::CameraConfig;
use vistream::capture::{CameraOp, CaptureState, Control, Frame as CapturedFrame, Inbox, Next};
use vistream::client::{
    accept_frame, accept_stream_frame, reaped, stream_record, Ended, Pull, WorkerState,
};
use vistream::error::Error;
use vistream::frame::{Frame, Luma, OnWire, Pixelate, BGR, BGRA, MJPG, RGB, RGBA, YUYV};
use vistream::jpeg::{
    describe, packed, plan_image, unpacked, unpacked_len, ImagePlan, JpegLayout, JpegPixels,
};
use vistream::protocol::camera::{Frame as CameraRecord, PixelFormat, Status};
use vistream::protocol::stream::Frame as StreamRecord;
use vistream::supervisor::{
    after_check, after_connect_failure, after_status, check_args, decimal, launch_args,
    resolve_args, resolved_id, server_exe,
};
use vistream::server::parser::FourCC;

fn strings(list: &[&str]) -> Vec<String> {
    list.iter().map(|s| s.to_string()).collect()
}

#[test]
fn wire_formats_of_the_markers() {
    assert_eq!(RGB::proto_format(), PixelFormat::RGB);
    assert_eq!(BGR::proto_format(), PixelFormat::BGR);
    assert_eq!(RGBA::proto_format(), PixelFormat::RGBA);
    assert_eq!(BGRA::proto_format(), PixelFormat::BGRA);
    assert_eq!(YUYV::proto_format(), PixelFormat::YUYV);
    assert_eq!(MJPG::proto_format(), PixelFormat::MJPEG);
}

#[test]
fn numbers_in_decimal() {
    assert_eq!(decimal(0), "0");
    assert_eq!(decimal(7), "7");
    assert_eq!(decimal(10), "10");
    assert_eq!(decimal(640), "640");
    assert_eq!(decimal(1_000_000), "1000000");
    assert_eq!(decimal(u32::MAX), "4294967295");
    for n in [1u32, 9, 11, 99, 100, 101, 12345, 4294967, 2147483648] {
        assert_eq!(decimal(n), n.to_string());
    }
}

#[test]
fn the_program_to_run() {
    let mut cfg = CameraConfig::new();
    assert_eq!(server_exe(&cfg), "vistream-camera-server");
    cfg.server_exe("/usr/local/bin/cams");
    assert_eq!(server_exe(&cfg), "/usr/local/bin/cams");
}

#[test]
fn arguments_of_resolve_and_check() {
    assert_eq!(resolve_args("lifecam"), strings(&["resolve", "lifecam"]));
    assert_eq!(check_args("ABC123"), strings(&["check", "ABC123", "--quiet"]));
}

#[test]
fn arguments_of_launch() {
    let mut cfg = CameraConfig::new();
    assert_eq!(
        launch_args(&cfg, PixelFormat::MJPEG, "ABC123"),
        strings(&["launch", "--format", "MJPG", "ABC123"])
    );
    cfg.buffer_count(4).width(640).height(480);
    assert_eq!(
        launch_args(&cfg, PixelFormat::YUYV, "ABC123"),
        strings(&[
            "launch",
            "--format",
            "YUYV",
            "--buffer-count",
            "4",
            "--width",
            "640",
            "--height",
            "480",
            "ABC123"
        ])
    );
    cfg.width(0).buffer_count(0);
    assert_eq!(
        launch_args(&cfg, PixelFormat::RGB, "cam"),
        strings(&["launch", "--format", "RG24", "--height", "480", "cam"])
    );
    assert_eq!(launch_args(&cfg, PixelFormat::BGRA, "cam")[2], "BA24");
}

#[test]
fn a_client_accepts_the_server_it_launched() {
    let codes = [FourCC::RG24, FourCC::BG24, FourCC::RA24, FourCC::BA24, FourCC::YUYV, FourCC::MJPG];
    for format in [
        PixelFormat::RGB,
        PixelFormat::BGR,
        PixelFormat::RGBA,
        PixelFormat::BGRA,
        PixelFormat::YUYV,
        PixelFormat::MJPEG,
    ] {
        let args = launch_args(&CameraConfig::new(), format, "ABC123");
        assert_eq!(args[1], "--format");
        let read: Vec<&FourCC> = codes.iter().filter(|code| code.name() == args[2]).collect();
        assert_eq!(read.len(), 1);
        let status = Status {
            enabled: false,
            healthy: true,
            format: read[0].format(),
            width: 640,
            height: 480,
        };
        assert!(matches!(after_status(&status, format), Ok((640, 480))));
    }
}

#[test]
fn what_resolve_printed() {
    let id = resolved_id(true, Some(" ABC123\n".to_string()), String::new());
    assert_eq!(id.unwrap(), "ABC123");
    let plain = resolved_id(true, Some("\tcam 1 \r\n".to_string()), "warning".to_string());
    assert_eq!(plain.unwrap(), "cam 1");
    match resolved_id(false, Some("ABC123".to_string()), "no such camera".to_string()) {
        Err(Error::Server(said)) => assert_eq!(said, "no such camera"),
        _ => panic!("a failed resolve is a server error"),
    }
    match resolved_id(true, None, "garbled".to_string()) {
        Err(Error::Server(said)) => assert_eq!(said, "garbled"),
        _ => panic!("output that is no text is a server error"),
    }
}

#[test]
fn a_server_is_launched_for_a_free_camera() {
    let mut cfg = CameraConfig::new();
    cfg.buffer_count(2);
    assert_eq!(
        after_check(&cfg, PixelFormat::MJPEG, "ABC123", true),
        Some(strings(&["launch", "--format", "MJPG", "--buffer-count", "2", "ABC123"]))
    );
    assert_eq!(after_check(&cfg, PixelFormat::MJPEG, "ABC123", false), None);
}

#[test]
fn connecting_gives_up_in_time() {
    let mut cfg = CameraConfig::new();
    assert!(matches!(after_connect_failure(&cfg, 0), Ok(())));
    assert!(matches!(after_connect_failure(&cfg, u128::MAX), Ok(())));
    cfg.conn_timeout(1_000);
    assert!(matches!(after_connect_failure(&cfg, 0), Ok(())));
    assert!(matches!(after_connect_failure(&cfg, 999), Ok(())));
    assert!(matches!(after_connect_failure(&cfg, 1_000), Err(Error::Timeout)));
    assert!(matches!(after_connect_failure(&cfg, 1_001), Err(Error::Timeout)));
    cfg.conn_timeout(0);
    assert!(matches!(after_connect_failure(&cfg, 0), Err(Error::Timeout)));
}

#[test]
fn the_status_of_a_server_that_fits() {
    let status = Status {
        enabled: false,
        healthy: true,
        format: PixelFormat::RGB,
        width: 640,
        height: 480,
    };
    assert!(matches!(after_status(&status, RGB::proto_format()), Ok((640, 480))));
    assert!(matches!(after_status(&status, BGR::proto_format()), Err(Error::IncompatibleFormat)));
    assert!(matches!(after_status(&status, PixelFormat::MJPEG), Err(Error::IncompatibleFormat)));
}

#[test]
fn the_first_frame_of_a_stream() {
    let record = CameraRecord {
        format: PixelFormat::RGB,
        width: 640,
        height: 480,
        data: vec![7; 640 * 480 * 3],
    };
    let frame: Frame<RGB> = accept_frame(record, 640, 480).unwrap();
    assert_eq!((frame.width(), frame.height()), (640, 480));
    assert_eq!(frame.bytes().len(), 921600);
    assert!(frame.is_pixelable());
}

#[test]
fn records_of_other_extents_are_refused() {
    let record = |width, height| CameraRecord {
        format: PixelFormat::MJPEG,
        width,
        height,
        data: vec![1, 2, 3],
    };
    let ok: Frame<MJPG> = accept_frame(record(640, 480), 640, 480).unwrap();
    assert_eq!(ok.bytes(), &vec![1, 2, 3]);
    assert!(!ok.is_pixelable());
    assert!(matches!(accept_frame::<MJPG>(record(641, 480), 640, 480), Err(Error::FrameData)));
    assert!(matches!(accept_frame::<MJPG>(record(640, 481), 640, 480), Err(Error::FrameData)));
    assert!(matches!(accept_frame::<MJPG>(record(480, 640), 640, 480), Err(Error::FrameData)));
    assert!(matches!(
        accept_frame::<RGBA>(record(u32::MAX, u32::MAX), u32::MAX as usize, u32::MAX as usize),
        Err(Error::FrameData)
    ));
}

#[test]
fn records_of_a_network_stream() {
    let frame = accept_stream_frame(StreamRecord { width: 4, height: 2, data: vec![9, 8] }).unwrap();
    assert_eq!((frame.width(), frame.height()), (4, 2));
    assert_eq!(frame.bytes(), &vec![9, 8]);
    let back = stream_record(&frame).unwrap();
    assert_eq!((back.width, back.height), (4, 2));
    assert_eq!(back.data, vec![9, 8]);
    let grey: Frame<Luma> = Frame::new(vec![1, 2, 3, 4, 5, 6], 3, 2);
    let record = stream_record(&grey).unwrap();
    assert_eq!((record.width, record.height, record.data.len()), (3, 2, 6));
    let wide: Frame<Luma> = Frame::new(vec![], u32::MAX as usize + 1, 0);
    assert!(matches!(stream_record(&wide), Err(Error::FrameData)));
    let high: Frame<Luma> = Frame::new(vec![], 0, u32::MAX as usize + 1);
    assert!(matches!(stream_record(&high), Err(Error::FrameData)));
}

#[test]
fn a_running_reader_is_read() {
    let worker = WorkerState::spawned();
    assert!(worker.is_joinable());
    assert!(!worker.is_finished(false));
    assert!(worker.is_finished(true));
    assert_eq!(worker.plan_pull(false), Pull::Snapshot);
    assert_eq!(worker.plan_pull(true), Pull::Reap);
}

#[test]
fn the_error_of_a_reader_surfaces_once() {
    let mut worker = WorkerState::spawned();
    assert_eq!(worker.plan_pull(true), Pull::Reap);
    let surfaced = worker.join(Ended::Failed(Error::FrameData));
    assert!(matches!(surfaced, Some(Error::FrameData)));
    assert!(matches!(reaped::<RGB>(surfaced), Err(Error::FrameData)));
    assert!(!worker.is_joinable());
    assert!(worker.is_finished(false));
    assert_eq!(worker.plan_pull(true), Pull::Absent);
    assert_eq!(worker.plan_pull(false), Pull::Absent);
    assert!(worker.join(Ended::Failed(Error::Unknown)).is_none());
    assert!(matches!(reaped::<RGB>(None), Ok(None)));
}

#[test]
fn a_reader_that_ended_well_or_panicked_surfaces_nothing() {
    let mut clean = WorkerState::spawned();
    assert!(clean.join(Ended::Clean).is_none());
    assert_eq!(clean.plan_pull(true), Pull::Absent);
    let mut panicked = WorkerState::spawned();
    panicked.kill();
    assert!(panicked.is_joinable());
    assert!(panicked.join(Ended::Panicked).is_none());
    assert!(!panicked.is_joinable());
    panicked.kill();
    assert_eq!(panicked.plan_pull(false), Pull::Absent);
}

#[test]
fn error_messages() {
    assert_eq!(Error::NoFrameData.message(), "camera has no most-recent framedata");
    assert_eq!(Error::NotStarted.message(), "camera is stopped");
    assert_eq!(Error::IncompatibleFormat.message(), "existing camera's format is incompatible");
    assert_eq!(Error::FrameData.message(), "invalid frame data recieved");
    assert_eq!(Error::Unknown.message(), "unknown error occurred");
    assert_eq!(Error::CorruptSource.message(), "source was corrupted");
    assert_eq!(Error::Timeout.message(), "camera connection timeout");
    assert_eq!(Error::Server("no".to_string()).message(), "server error: no");
    assert_eq!(Error::InEncoding("bad marker".to_string()).message(), "bad marker");
    assert_eq!(Error::WebSocket("closed".to_string()).message(), "closed");
    assert_eq!(
        Error::Handshake.message(),
        "something went wrong with the WebSocket handshake"
    );
    let io = std::io::Error::new(std::io::ErrorKind::Other, "pipe broke");
    assert_eq!(Error::IO(io).message(), "pipe broke");
}

#[test]
fn images_as_the_codec_wants_them() {
    assert_eq!(RGB::layout(), JpegLayout::RGB);
    assert_eq!(BGR::layout(), JpegLayout::BGR);
    assert_eq!(RGBA::layout(), JpegLayout::RGBA);
    assert_eq!(BGRA::layout(), JpegLayout::BGRA);
    assert_eq!(Luma::layout(), JpegLayout::GRAY);
    assert_eq!(
        plan_image::<RGB>(640, 480),
        Some(ImagePlan { width: 640, height: 480, pitch: 1920, layout: JpegLayout::RGB })
    );
    assert_eq!(
        plan_image::<Luma>(3, 0),
        Some(ImagePlan { width: 3, height: 0, pitch: 3, layout: JpegLayout::GRAY })
    );
    assert_eq!(plan_image::<BGRA>(usize::MAX, 1), None);
    let f: Frame<RGBA> = Frame::new(vec![0; 32], 4, 2);
    let plan = describe(&f).unwrap();
    assert_eq!(plan, ImagePlan { width: 4, height: 2, pitch: 16, layout: JpegLayout::RGBA });
    let bad: Frame<RGBA> = Frame::new(vec![0; 31], 4, 2);
    assert!(matches!(describe(&bad), Err(Error::FrameData)));
}

#[test]
fn what_the_codec_wrote() {
    let buf = vec![1, 2, 3, 4, 5, 6, 7, 8];
    let frame = packed(&buf, Some(3), 640, 480).unwrap();
    assert_eq!((frame.width(), frame.height()), (640, 480));
    assert_eq!(frame.bytes(), &vec![1, 2, 3]);
    assert_eq!(packed(&buf, Some(8), 1, 1).unwrap().bytes(), &buf);
    assert_eq!(packed(&buf, Some(0), 1, 1).unwrap().bytes(), &Vec::<u8>::new());
    assert!(matches!(packed(&buf, None, 640, 480), Err(Error::Unknown)));
    assert!(matches!(packed(&buf, Some(9), 640, 480), Err(Error::Unknown)));
    assert!(matches!(packed(&buf, Some(1), usize::MAX, 2), Err(Error::Unknown)));
}

#[test]
fn what_the_codec_decompressed() {
    assert_eq!(unpacked_len::<RGB>(640, 480), Some(921600));
    assert_eq!(unpacked_len::<Luma>(640, 480), Some(307200));
    assert_eq!(unpacked_len::<BGRA>(usize::MAX, 2), None);
    let frame: Frame<RGB> = unpacked(vec![5; 12], true, 2, 2).unwrap();
    assert_eq!((frame.width(), frame.height()), (2, 2));
    assert_eq!(frame.bytes(), &vec![5; 12]);
    assert!(frame.is_pixelable());
    assert!(matches!(unpacked::<RGB>(vec![5; 12], false, 2, 2), Err(Error::FrameData)));
    assert!(matches!(unpacked::<RGB>(vec![], true, usize::MAX, 2), Err(Error::FrameData)));
}

#[test]
fn the_capture_loop() {
    let mut state = CaptureState::new();
    assert_eq!(state.turn(Inbox::Empty), (CameraOp::Keep, Next::Rest));
    assert_eq!(state.turn(Inbox::Message(Control::Shutdown)), (CameraOp::Keep, Next::Rest));
    assert_eq!(state, CaptureState { running: false, term_flag: false });
    assert_eq!(state.turn(Inbox::Message(Control::Start)), (CameraOp::Start, Next::Poll));
    assert_eq!(state.turn(Inbox::Empty), (CameraOp::Keep, Next::Poll));
    assert_eq!(state.turn(Inbox::Message(Control::Stop)), (CameraOp::Stop, Next::Rest));
    assert_eq!(state.turn(Inbox::Message(Control::Start)), (CameraOp::Start, Next::Poll));
    assert_eq!(state.turn(Inbox::Message(Control::Shutdown)), (CameraOp::Stop, Next::Exit));
    assert_eq!(state, CaptureState { running: false, term_flag: true });
    let mut cut = CaptureState { running: true, term_flag: false };
    assert_eq!(cut.turn(Inbox::Disconnected), (CameraOp::Keep, Next::Exit));
    assert_eq!(cut, CaptureState { running: true, term_flag: false });
}

#[test]
fn frames_of_the_capture_loop() {
    let frame = CapturedFrame::new(4, 2, &[1, 2, 3]);
    assert_eq!((frame.width, frame.height), (4, 2));
    assert_eq!(frame.data, vec![1, 2, 3]);
    assert!(!frame.is_valid());
    let blank = CapturedFrame::blank(3, 2);
    assert_eq!((blank.width, blank.height), (3, 2));
    assert_eq!(blank.data, vec![0; 6]);
    assert!(!blank.is_valid());
    let none = CapturedFrame::blank(0, 7);
    assert_eq!(none.data.len(), 0);
    assert!(none.is_valid());
    assert!(CapturedFrame::new(1, 1, &[]).is_valid());
}
