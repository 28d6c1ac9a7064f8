use hal1210::daemoncomm::{KinectCommand, KinectStatus};
use hal1210::kinect::{
    callback_len, check_rgb_frame, device_event, headers_need_copy, kinect_present,
    summarize_rgb_frame, DeviceRuntime,
    EventType, KinectAction, KinectManager, RgbEvent, RgbFrameError, RgbMonitor, RgbReport,
    RgbStep, UdevEvent, UsbIds, VideoFrame, RGB_HEIGHT, RGB_MONITOR_INTERVAL_NS, RGB_WIDTH,
};

fn ids(vendor: &str, product: &str) -> UsbIds {
    UsbIds { vendor: Some(vendor.to_string()), product: Some(product.to_string()) }
}

fn published(action: KinectAction) -> KinectStatus {
    match action {
        KinectAction::Publish(status) => status,
        other => panic!("unexpected action: {other:?}"),
    }
}

#[test]
fn camera_parts_are_recognised() {
    for product in ["02ae", "02ad", "02b0"] {
        assert!(ids("045e", product).matches_kinect());
    }
    assert!(!ids("045e", "028e").matches_kinect());
    assert!(!ids("046d", "02ae").matches_kinect());
    assert!(!UsbIds { vendor: None, product: Some("02ae".to_string()) }.matches_kinect());
    assert!(!UsbIds { vendor: Some("045e".to_string()), product: None }.matches_kinect());
    assert!(kinect_present(None));
    assert!(!kinect_present(Some(vec![ids("1d6b", "0002")])));
    assert!(kinect_present(Some(vec![ids("1d6b", "0002"), ids("045e", "02ae")])));
}

#[test]
fn device_changes_are_understood() {
    let camera = ids("045e", "02ae");
    assert_eq!(device_event(&camera, EventType::Add), Some(UdevEvent::DeviceAdded));
    assert_eq!(device_event(&camera, EventType::Bind), Some(UdevEvent::DeviceAdded));
    assert_eq!(device_event(&camera, EventType::Remove), Some(UdevEvent::DeviceRemoved));
    assert_eq!(device_event(&camera, EventType::Unbind), Some(UdevEvent::DeviceRemoved));
    assert_eq!(device_event(&camera, EventType::Other), None);
    assert_eq!(device_event(&ids("1d6b", "0002"), EventType::Add), None);
}

#[test]
fn camera_comes_and_goes() {
    let mut manager = KinectManager::init();
    assert_eq!(published(manager.handle_command(KinectCommand::RequestStatus)).status, "disconnected");
    let status = published(manager.try_connect_device(false));
    assert_eq!(status.status, "not connected");
    assert!(!status.connected);
    assert!(matches!(
        manager.on_udev_event(UdevEvent::DeviceAdded),
        KinectAction::SettleAndConnect
    ));
    assert!(matches!(manager.try_connect_device(true), KinectAction::Open));
    let status = published(manager.device_opened(Ok(true)));
    assert_eq!(status.status, "rgb streaming 1280x1024");
    assert!(status.connected && status.rgb_active && !status.depth_active);
    assert!(matches!(manager.on_udev_event(UdevEvent::DeviceAdded), KinectAction::Nothing));
    let status = published(manager.on_udev_event(UdevEvent::DeviceRemoved));
    assert_eq!(status.status, "removed");
    assert!(!status.connected && !status.rgb_active);
    assert!(matches!(manager.on_udev_event(UdevEvent::DeviceRemoved), KinectAction::Nothing));
}

#[test]
fn camera_may_lack_video_or_fail() {
    let mut manager = KinectManager::init();
    let status = published(manager.device_opened(Err("no permission".to_string())));
    assert_eq!(status.status, "no permission");
    assert!(!status.connected);
    let status = published(manager.device_opened(Ok(false)));
    assert_eq!(status.status, "connected (rgb unavailable)");
    assert!(status.connected && !status.rgb_active);
    assert!(manager.status_snapshot().connected);
}

#[test]
fn stopping_ends_running_video() {
    let mut runtime = DeviceRuntime::new();
    assert!(!runtime.stop());
    assert!(runtime.start_rgb_stream(true));
    assert!(runtime.stop());
    assert!(!runtime.rgb_active);
}

#[test]
fn video_is_reported_every_two_seconds() {
    let mut monitor = RgbMonitor::new(0);
    let quick = RgbEvent::Frame { summarized: false };
    assert_eq!(monitor.step(quick, 1), RgbStep::Continue);
    let clear = RgbEvent::Frame { summarized: true };
    assert_eq!(monitor.step(clear, RGB_MONITOR_INTERVAL_NS - 1), RgbStep::Continue);
    assert_eq!(
        monitor.step(quick, RGB_MONITOR_INTERVAL_NS + 5),
        RgbStep::Report(RgbReport {
            frames: 3,
            elapsed_ns: RGB_MONITOR_INTERVAL_NS + 5,
            has_mean: true
        })
    );
    assert_eq!(monitor.total_frames, 3);
    assert_eq!(monitor.window_frames, 0);
    assert!(!monitor.has_mean);
    assert_eq!(monitor.step(RgbEvent::Closed, RGB_MONITOR_INTERVAL_NS + 6), RgbStep::Stop);
    assert_eq!(monitor.step(RgbEvent::Cancelled, RGB_MONITOR_INTERVAL_NS + 6), RgbStep::Stop);
}

#[test]
fn video_frames_have_three_bytes_per_pixel() {
    assert_eq!(check_rgb_frame(3_932_160, RGB_WIDTH, RGB_HEIGHT), Ok(3_932_160));
    let err = check_rgb_frame(100, RGB_WIDTH, RGB_HEIGHT).unwrap_err();
    assert_eq!(err, RgbFrameError::InvalidSize { expected: 3_932_160, actual: 100 });
    assert_eq!(
        err.message(""),
        "unexpected RGB buffer size: expected 3932160 bytes, got 100"
    );
    assert_eq!(RgbFrameError::OpenCv.message("bad matrix"), "bad matrix");
    assert_eq!(callback_len(7), Some(7));
    assert_eq!(callback_len(0), None);
    assert_eq!(callback_len(-1), None);
}

#[test]
fn headers_are_copied_when_patches_change() {
    assert!(headers_need_copy(false, None, None));
    assert!(!headers_need_copy(true, None, None));
    assert!(headers_need_copy(true, Some("a"), None));
    assert!(headers_need_copy(true, Some("a"), Some("b")));
    assert!(!headers_need_copy(true, Some("a"), Some("a")));
    assert!(!headers_need_copy(true, None, Some("a")));
}

#[test]
fn frames_are_summed_up() {
    let frame = VideoFrame { data: vec![255, 1, 2, 255, 10, 20], timestamp: 9 };
    let summary = summarize_rgb_frame(&frame, 2, 1).unwrap();
    assert_eq!(summary.timestamp, 9);
    assert_eq!(summary.sum_rgb, [510, 11, 22]);
    assert_eq!(summary.frame_bytes, 6);
    assert_eq!(
        summarize_rgb_frame(&frame, 2, 2),
        Err(RgbFrameError::InvalidSize { expected: 12, actual: 6 })
    );
}
