//! The depth camera: finds it among the USB devices, opens it and watches its video.

use vstd::prelude::*;

use crate::daemoncomm::{KinectCommand, KinectStatus, KinectStatusModel};
use crate::text;
use crate::text::{push_decimal, same};

verus! {

pub const RGB_WIDTH: i32 = 1280;

pub const RGB_HEIGHT: i32 = 1024;

/// Nanoseconds between two reports on the video.
pub const RGB_MONITOR_INTERVAL_NS: u64 = 2_000_000_000;

/// Milliseconds that a new device gets before it is opened.
pub const SETTLE_MS: u64 = 500;

#[derive(Debug, Clone, Copy, PartialEq, Eq, Structural)]
pub enum UdevEvent {
    DeviceAdded,
    DeviceRemoved,
}

/// What the system says happened to a device.
#[derive(Debug, Clone, Copy, PartialEq, Eq, Structural)]
pub enum EventType {
    Add,
    Bind,
    Remove,
    Unbind,
    Other,
}

/// The vendor and product of a USB device, as far as they are known.
#[derive(Debug)]
pub struct UsbIds {
    pub vendor: Option<String>,
    pub product: Option<String>,
}

impl UsbIds {
    /// Whether these are the camera, its microphones or its motor.
    pub open spec fn is_kinect(&self) -> bool {
        &&& self.vendor matches Some(vendor) && vendor@ == "045e"@
        &&& self.product matches Some(product) && (product@ == "02ae"@ || product@ == "02ad"@
            || product@ == "02b0"@)
    }

    pub fn matches_kinect(&self) -> (found: bool)
        ensures
            found == self.is_kinect(),
    {
        match (&self.vendor, &self.product) {
            (Some(vendor), Some(product)) => same(vendor.as_str(), "045e") && (same(
                product.as_str(),
                "02ae",
            ) || same(product.as_str(), "02ad") || same(product.as_str(), "02b0")),
            _ => false,
        }
    }
}

/// What a change of the USB devices means for the camera, if anything.
pub open spec fn meaning_of(ids: UsbIds, event: EventType) -> Option<UdevEvent> {
    if !ids.is_kinect() {
        None
    } else {
        match event {
            EventType::Add | EventType::Bind => Some(UdevEvent::DeviceAdded),
            EventType::Remove | EventType::Unbind => Some(UdevEvent::DeviceRemoved),
            EventType::Other => None,
        }
    }
}

/// What a change of the USB devices means for the camera, if anything.
pub fn device_event(ids: &UsbIds, event: EventType) -> (meaning: Option<UdevEvent>)
    ensures
        meaning == meaning_of(*ids, event),
{
    if !ids.matches_kinect() {
        return None;
    }
    match event {
        EventType::Add | EventType::Bind => Some(UdevEvent::DeviceAdded),
        EventType::Remove | EventType::Unbind => Some(UdevEvent::DeviceRemoved),
        EventType::Other => None,
    }
}

/// Whether one of the devices is the camera.
pub open spec fn any_kinect(devices: Seq<UsbIds>) -> bool {
    exists|i: int| 0 <= i < devices.len() && (#[trigger] devices[i]).is_kinect()
}

/// Whether a camera is connected, going by a scan of the devices. Where the scan
/// failed one may be.
pub fn kinect_present(devices: Option<Vec<UsbIds>>) -> (present: bool)
    ensures
        present == match devices {
            None => true,
            Some(found) => any_kinect(found@),
        },
{
    match devices {
        None => true,
        Some(found) => find_kinect(&found),
    }
}

fn find_kinect(devices: &Vec<UsbIds>) -> (found: bool)
    ensures
        found == any_kinect(devices@),
{
    let mut i: usize = 0;
    while i < devices.len()
        invariant
            i <= devices@.len(),
            forall|j: int| 0 <= j < i ==> !(#[trigger] devices@[j]).is_kinect(),
        decreases devices.len() - i,
    {
        if devices[i].matches_kinect() {
            assert(devices@[i as int].is_kinect());
            return true;
        }
        i += 1;
    }
    false
}

/// An open camera.
#[derive(Debug, Clone, Copy, PartialEq, Eq, Structural)]
pub struct DeviceRuntime {
    pub depth_active: bool,
    pub rgb_active: bool,
}

impl DeviceRuntime {
    pub fn new() -> (runtime: Self)
        ensures
            runtime == (DeviceRuntime { depth_active: false, rgb_active: false }),
    {
        DeviceRuntime { depth_active: false, rgb_active: false }
    }

    /// Marks the video as running, if it is or its stream is still there to be
    /// taken; whether it runs.
    pub fn start_rgb_stream(&mut self, stream_available: bool) -> (running: bool)
        ensures
            running == (old(self).rgb_active || stream_available),
            *final(self) == (DeviceRuntime { rgb_active: running, ..*old(self) }),
    {
        if self.rgb_active {
            return true;
        }
        if !stream_available {
            return false;
        }
        self.rgb_active = true;
        true
    }

    /// Whether the video has to be stopped when the camera is let go.
    pub fn stop(&mut self) -> (stop_video: bool)
        ensures
            stop_video == old(self).rgb_active,
            *final(self) == (DeviceRuntime { rgb_active: false, ..*old(self) }),
    {
        let running = self.rgb_active;
        self.rgb_active = false;
        running
    }
}

/// What the manager asks for.
#[derive(Debug)]
pub enum KinectAction {
    /// Nothing.
    Nothing,
    /// Wait for the device to settle, then look for it.
    SettleAndConnect,
    /// Open the device.
    Open,
    /// Tell everybody.
    Publish(KinectStatus),
}

/// The model of [`KinectAction`].
pub enum Wish {
    Nothing,
    SettleAndConnect,
    Open,
    Publish(KinectStatusModel),
}

impl View for KinectAction {
    type V = Wish;

    open spec fn view(&self) -> Wish {
        match self {
            KinectAction::Nothing => Wish::Nothing,
            KinectAction::SettleAndConnect => Wish::SettleAndConnect,
            KinectAction::Open => Wish::Open,
            KinectAction::Publish(status) => Wish::Publish(status@),
        }
    }
}

/// The manager of the camera.
#[derive(Debug)]
pub struct KinectManager {
    status: String,
    runtime: Option<DeviceRuntime>,
}

/// The model of [`KinectManager`].
pub struct Camera {
    pub status: Seq<char>,
    pub runtime: Option<DeviceRuntime>,
}

impl Camera {
    pub open spec fn snapshot(self) -> KinectStatusModel {
        KinectStatusModel {
            connected: self.runtime is Some,
            status: self.status,
            device_serial: None,
            firmware_version: None,
            depth_active: self.runtime matches Some(runtime) && runtime.depth_active,
            rgb_active: self.runtime matches Some(runtime) && runtime.rgb_active,
        }
    }

    /// After the USB devices changed, and what is to be done then.
    pub open spec fn devices_changed(self, event: UdevEvent) -> (Camera, Wish) {
        let removed = Camera { status: "removed"@, runtime: None };
        match (event, self.runtime) {
            (UdevEvent::DeviceAdded, None) => (self, Wish::SettleAndConnect),
            (UdevEvent::DeviceRemoved, Some(_)) => (removed, Wish::Publish(removed.snapshot())),
            _ => (self, Wish::Nothing),
        }
    }

    /// After looking for the camera.
    pub open spec fn looked(self, present: bool) -> (Camera, Wish) {
        let missing = Camera { status: "not connected"@, ..self };
        if present {
            (self, Wish::Open)
        } else {
            (missing, Wish::Publish(missing.snapshot()))
        }
    }

    /// After opening the camera, which went well or failed for a reason.
    pub open spec fn opened(self, result: Result<bool, Seq<char>>) -> (Camera, Wish) {
        let after = match result {
            Ok(stream_available) => Camera {
                status: Camera::open_status(stream_available),
                runtime: Some(
                    DeviceRuntime { depth_active: false, rgb_active: stream_available },
                ),
            },
            Err(reason) => Camera { status: reason, ..self },
        };
        (after, Wish::Publish(after.snapshot()))
    }

    /// The status of an open camera.
    pub open spec fn open_status(rgb: bool) -> Seq<char> {
        if rgb {
            "rgb streaming "@ + text::decimal(1280) + "x"@ + text::decimal(1024)
        } else {
            "connected (rgb unavailable)"@
        }
    }
}

impl View for KinectManager {
    type V = Camera;

    closed spec fn view(&self) -> Camera {
        Camera { status: self.status@, runtime: self.runtime }
    }
}

/// Whether the action tells everybody this status.
pub open spec fn publishes(action: KinectAction, camera: Camera) -> bool {
    action matches KinectAction::Publish(status) && status@ == camera.snapshot()
}

impl KinectManager {
    /// A manager that has not looked for the camera yet.
    pub fn init() -> (manager: Self)
        ensures
            manager@ == (Camera { status: "disconnected"@, runtime: None }),
    {
        KinectManager { status: String::from_str("disconnected"), runtime: None }
    }

    /// A camera that appears is opened, and one that disappears forgotten.
    pub fn on_udev_event(&mut self, event: UdevEvent) -> (action: KinectAction)
        ensures
            (final(self)@, action@) == old(self)@.devices_changed(event),
            action is Nothing || action is SettleAndConnect ==> *final(self) == *old(self),
    {
        match event {
            UdevEvent::DeviceAdded => {
                if self.runtime.is_none() {
                    KinectAction::SettleAndConnect
                } else {
                    KinectAction::Nothing
                }
            },
            UdevEvent::DeviceRemoved => {
                if self.runtime.is_some() {
                    self.runtime = None;
                    self.status = String::from_str("removed");
                    self.publish_status()
                } else {
                    KinectAction::Nothing
                }
            },
        }
    }

    /// Opens the camera if there is one.
    pub fn try_connect_device(&mut self, present: bool) -> (action: KinectAction)
        ensures
            present ==> *final(self) == *old(self),
            (final(self)@, action@) == old(self)@.looked(present),
    {
        if !present {
            self.status = String::from_str("not connected");
            return self.publish_status();
        }
        KinectAction::Open
    }

    /// How opening the camera went: whether its video could be taken, or why it
    /// failed.
    pub fn device_opened(&mut self, result: Result<bool, String>) -> (action: KinectAction)
        ensures
            (final(self)@, action@) == old(self)@.opened(
                match result {
                    Ok(stream_available) => Ok(stream_available),
                    Err(err) => Err(err@),
                },
            ),
    {
        match result {
            Ok(stream_available) => {
                let mut runtime = DeviceRuntime::new();
                if runtime.start_rgb_stream(stream_available) {
                    let mut status = String::from_str("rgb streaming ");
                    push_decimal(&mut status, RGB_WIDTH as u64);
                    status.append("x");
                    push_decimal(&mut status, RGB_HEIGHT as u64);
                    self.status = status;
                } else {
                    self.status = String::from_str("connected (rgb unavailable)");
                }
                self.runtime = Some(runtime);
            },
            Err(err) => {
                self.status = err;
            },
        }
        self.publish_status()
    }

    pub fn handle_command(&self, command: KinectCommand) -> (action: KinectAction)
        ensures
            publishes(action, self@),
    {
        match command {
            KinectCommand::RequestStatus => self.publish_status(),
        }
    }

    pub fn status_snapshot(&self) -> (status: KinectStatus)
        ensures
            status@ == self@.snapshot(),
    {
        match self.runtime {
            Some(runtime) => KinectStatus {
                connected: true,
                status: self.status.clone(),
                device_serial: None,
                firmware_version: None,
                depth_active: runtime.depth_active,
                rgb_active: runtime.rgb_active,
            },
            None => KinectStatus {
                connected: false,
                status: self.status.clone(),
                device_serial: None,
                firmware_version: None,
                depth_active: false,
                rgb_active: false,
            },
        }
    }

    fn publish_status(&self) -> (action: KinectAction)
        ensures
            publishes(action, self@),
    {
        KinectAction::Publish(self.status_snapshot())
    }
}

/// What the task that watches the video met.
#[derive(Debug, Clone, Copy, PartialEq, Eq, Structural)]
pub enum RgbEvent {
    /// A frame came; whether it could be summarised.
    Frame { summarized: bool },
    Closed,
    Cancelled,
}

/// A report on the video since the last one.
#[derive(Debug, Clone, Copy, PartialEq, Eq, Structural)]
pub struct RgbReport {
    pub frames: u64,
    pub elapsed_ns: u64,
    /// Whether a frame was summarised in that time.
    pub has_mean: bool,
}

/// What the task does next.
#[derive(Debug, Clone, Copy, PartialEq, Eq, Structural)]
pub enum RgbStep {
    Continue,
    Report(RgbReport),
    Stop,
}

/// The counts of the task that watches the video.
#[derive(Debug, Clone, Copy, PartialEq, Eq, Structural)]
pub struct RgbMonitor {
    pub total_frames: u64,
    pub window_frames: u64,
    pub last_report: u64,
    pub has_mean: bool,
}

impl RgbMonitor {
    pub fn new(now: u64) -> (monitor: Self)
        ensures
            monitor == (RgbMonitor {
                total_frames: 0,
                window_frames: 0,
                last_report: now,
                has_mean: false,
            }),
    {
        RgbMonitor { total_frames: 0, window_frames: 0, last_report: now, has_mean: false }
    }

    /// The counts with one more frame.
    pub open spec fn counted(self, summarized: bool) -> RgbMonitor {
        RgbMonitor {
            total_frames: (self.total_frames + 1) as u64,
            window_frames: (self.window_frames + 1) as u64,
            has_mean: self.has_mean || summarized,
            ..self
        }
    }

    /// The counts after an event, and what the task does next.
    pub open spec fn after(self, event: RgbEvent, now: u64) -> (RgbMonitor, RgbStep) {
        match event {
            RgbEvent::Frame { summarized } => {
                let counted = self.counted(summarized);
                if now - self.last_report >= RGB_MONITOR_INTERVAL_NS {
                    (
                        RgbMonitor {
                            window_frames: 0,
                            last_report: now,
                            has_mean: false,
                            ..counted
                        },
                        RgbStep::Report(
                            RgbReport {
                                frames: counted.window_frames,
                                elapsed_ns: (now - self.last_report) as u64,
                                has_mean: counted.has_mean,
                            },
                        ),
                    )
                } else {
                    (counted, RgbStep::Continue)
                }
            },
            _ => (self, RgbStep::Stop),
        }
    }

    /// Counts a frame, and reports when the last report is long enough ago.
    pub fn step(&mut self, event: RgbEvent, now: u64) -> (step: RgbStep)
        requires
            old(self).total_frames < u64::MAX,
            old(self).window_frames < u64::MAX,
            old(self).last_report <= now,
        ensures
            (*final(self), step) == old(self).after(event, now),
    {
        match event {
            RgbEvent::Frame { summarized } => {
                self.total_frames = self.total_frames + 1;
                self.window_frames = self.window_frames + 1;
                if summarized {
                    self.has_mean = true;
                }
                let elapsed_ns: u64 = now - self.last_report;
                if elapsed_ns >= RGB_MONITOR_INTERVAL_NS {
                    let report = RgbReport {
                        frames: self.window_frames,
                        elapsed_ns,
                        has_mean: self.has_mean,
                    };
                    self.has_mean = false;
                    self.window_frames = 0;
                    self.last_report = now;
                    RgbStep::Report(report)
                } else {
                    RgbStep::Continue
                }
            },
            _ => RgbStep::Stop,
        }
    }
}

/// What is wrong with a video frame.
#[derive(Debug, Clone, Copy, PartialEq, Eq, Structural)]
pub enum RgbFrameError {
    InvalidSize { expected: usize, actual: usize },
    /// The image could not be worked on.
    OpenCv,
}

impl RgbFrameError {
    /// The error as text. Where another error lies beneath, `cause` is its text.
    pub open spec fn text(self, cause: Seq<char>) -> Seq<char> {
        match self {
            RgbFrameError::InvalidSize { expected, actual } => {
                "unexpected RGB buffer size: expected "@ + text::decimal(expected as nat)
                    + " bytes, got "@ + text::decimal(actual as nat)
            },
            RgbFrameError::OpenCv => cause,
        }
    }

    /// The error as text. Where another error lies beneath, `cause` is its text.
    pub fn message(self, cause: &str) -> (message: String)
        ensures
            message@ == self.text(cause@),
    {
        match self {
            RgbFrameError::InvalidSize { expected, actual } => {
                let mut message = String::from_str("unexpected RGB buffer size: expected ");
                push_decimal(&mut message, expected as u64);
                message.append(" bytes, got ");
                push_decimal(&mut message, actual as u64);
                message
            },
            RgbFrameError::OpenCv => String::from_str(cause),
        }
    }
}

/// Checks that a video frame has three bytes for each pixel; how many that is.
pub fn check_rgb_frame(len: usize, width: i32, height: i32) -> (result: Result<
    usize,
    RgbFrameError,
>)
    requires
        0 <= width,
        0 <= height,
        width * height * 3 <= usize::MAX,
    ensures
        len == width * height * 3 ==> result == Ok::<usize, RgbFrameError>(len),
        len != width * height * 3 ==> result == Err::<usize, RgbFrameError>(
            RgbFrameError::InvalidSize { expected: (width * height * 3) as usize, actual: len },
        ),
{
    assert(0 <= width * height <= width * height * 3) by (nonlinear_arith)
        requires
            0 <= width,
            0 <= height,
    ;
    let expected: usize = (width as usize) * (height as usize) * 3;
    if len != expected {
        Err(RgbFrameError::InvalidSize { expected, actual: len })
    } else {
        Ok(expected)
    }
}

/// A video frame: red, green and blue of each pixel.
#[derive(Debug)]
pub struct VideoFrame {
    pub data: Vec<u8>,
    pub timestamp: u32,
}

/// What is known of a video frame as a whole. The mean of a channel is its sum, divided by
/// the number of pixels.
#[derive(Debug, Clone, Copy, PartialEq, Eq)]
pub struct RgbSummary {
    pub timestamp: u32,
    pub sum_rgb: [u128; 3],
    pub frame_bytes: usize,
}

/// The sum of a channel over the first `pixels` pixels.
pub open spec fn channel_sum(data: Seq<u8>, channel: int, pixels: int) -> nat
    decreases pixels,
{
    if pixels <= 0 {
        0
    } else {
        channel_sum(data, channel, pixels - 1) + data[3 * (pixels - 1) + channel] as nat
    }
}

/// Sums up a frame of this width and height.
pub fn summarize_rgb_frame(frame: &VideoFrame, width: i32, height: i32) -> (summary: Result<
    RgbSummary,
    RgbFrameError,
>)
    requires
        0 <= width,
        0 <= height,
        width * height * 3 <= usize::MAX,
    ensures
        match summary {
            Ok(summary) => {
                &&& frame.data@.len() == width * height * 3
                &&& summary.timestamp == frame.timestamp
                &&& summary.frame_bytes == width * height * 3
                &&& forall|c: int|
                    0 <= c < 3 ==> #[trigger] summary.sum_rgb@[c] == channel_sum(
                        frame.data@,
                        c,
                        width * height,
                    )
            },
            Err(error) => {
                &&& frame.data@.len() != width * height * 3
                &&& error == (RgbFrameError::InvalidSize {
                    expected: (width * height * 3) as usize,
                    actual: frame.data@.len() as usize,
                })
            },
        },
{
    let frame_bytes: usize = match check_rgb_frame(frame.data.len(), width, height) {
        Ok(len) => len,
        Err(error) => {
            return Err(error);
        },
    };
    let pixels: usize = frame_bytes / 3;
    assert(pixels == width * height);
    let mut sums: [u128; 3] = [0; 3];
    let mut i: usize = 0;
    while i < pixels
        invariant
            i <= pixels,
            3 * pixels == frame.data@.len(),
            frame.data@.len() <= usize::MAX,
            forall|c: int|
                0 <= c < 3 ==> #[trigger] sums@[c] == channel_sum(frame.data@, c, i as int)
                    && sums@[c] <= 255 * i,
        decreases pixels - i,
    {
        let mut next: [u128; 3] = sums;
        let mut c: usize = 0;
        while c < 3
            invariant
                c <= 3,
                i < pixels,
                3 * pixels == frame.data@.len(),
                frame.data@.len() <= usize::MAX,
                forall|d: int|
                    0 <= d < 3 ==> #[trigger] sums@[d] == channel_sum(frame.data@, d, i as int)
                        && sums@[d] <= 255 * i,
                forall|d: int|
                    0 <= d < c ==> #[trigger] next@[d] == channel_sum(frame.data@, d, i + 1)
                        && next@[d] <= 255 * (i + 1),
            decreases 3 - c,
        {
            assert(sums@[c as int] <= 255 * i);
            next[c] = sums[c] + frame.data[3 * i + c] as u128;
            c += 1;
        }
        sums = next;
        i += 1;
    }
    Ok(RgbSummary { timestamp: frame.timestamp, sum_rgb: sums, frame_bytes })
}

/// How many bytes of a driver's buffer make a frame, if any do.
pub fn callback_len(size: i32) -> (len: Option<usize>)
    ensures
        size > 0 ==> len == Some(size as usize),
        size <= 0 ==> len is None,
{
    if size > 0 {
        Some(size as usize)
    } else {
        None
    }
}

/// A camera is connected exactly as long as it is open: removing it ends that, and
/// only opening it starts it.
pub proof fn snapshot_is_connected_while_open(camera: Camera)
    ensures
        camera.snapshot().connected == (camera.runtime is Some),
        camera.snapshot().rgb_active ==> camera.snapshot().connected,
        camera.snapshot().depth_active ==> camera.snapshot().connected,
{
}

/// Whether the driver's headers are to be copied and patched anew: where there is no
/// copy, or where it was made with other patches than there are now.
pub fn headers_need_copy(copied: bool, patches: Option<&str>, applied: Option<&str>) -> (needed:
    bool)
    ensures
        needed == (!copied || (patches is Some && (applied is None || applied->Some_0@
            != patches->Some_0@))),
{
    if !copied {
        return true;
    }
    match (patches, applied) {
        (Some(patches), Some(applied)) => !same(applied, patches),
        (Some(_), None) => true,
        (None, _) => false,
    }
}

/// A camera that is plugged in is given time and then looked for, opened where it is found,
/// and reported as connected once it is open; pulled out, it is reported as gone, and can be
/// plugged in again.
pub proof fn camera_comes_and_goes(camera: Camera, video: bool)
    requires
        camera.runtime is None,
    ensures
        ({
            let (added, settle) = camera.devices_changed(UdevEvent::DeviceAdded);
            let (found, open) = added.looked(true);
            let (opened, report) = found.opened(Ok(video));
            let (gone, farewell) = opened.devices_changed(UdevEvent::DeviceRemoved);
            &&& settle == Wish::SettleAndConnect
            &&& open == Wish::Open
            &&& report matches Wish::Publish(status) && status.connected && status.rgb_active
                == video && !status.depth_active && status.device_serial is None
                && status.firmware_version is None && status.status == opened.status
            &&& opened.runtime is Some
            &&& farewell matches Wish::Publish(status) && !status.connected && !status.rgb_active
                && !status.depth_active && status.status == "removed"@
            &&& gone.runtime is None
            &&& gone.devices_changed(UdevEvent::DeviceAdded).1 == Wish::SettleAndConnect
        }),
{
}

/// An open camera is not opened again, and one that is not open cannot go: neither changes
/// anything or is reported.
pub proof fn camera_changes_are_taken_once(camera: Camera)
    ensures
        camera.runtime is Some ==> camera.devices_changed(UdevEvent::DeviceAdded) == (
            camera,
            Wish::Nothing,
        ),
        camera.runtime is None ==> camera.devices_changed(UdevEvent::DeviceRemoved) == (
            camera,
            Wish::Nothing,
        ),
{
}

/// A camera that is not found, or cannot be opened, is reported with the reason, and what is
/// open stays so.
pub proof fn missing_camera_is_reported(camera: Camera, reason: Seq<char>)
    ensures
        camera.looked(false).0.runtime == camera.runtime,
        camera.looked(false).1 matches Wish::Publish(status) && status.status == "not connected"@
            && status.connected == (camera.runtime is Some),
        camera.opened(Err(reason)).0.runtime == camera.runtime,
        camera.opened(Err(reason)).1 matches Wish::Publish(status) && status.status == reason
            && status.connected == (camera.runtime is Some),
        camera.looked(true).0 == camera,
{
}

/// Only the camera's own parts matter, by their numbers, and only their coming and going.
pub proof fn other_devices_do_not_matter(ids: UsbIds, event: EventType)
    ensures
        meaning_of(ids, event) is Some ==> event != EventType::Other && ids.vendor is Some
            && ids.vendor->Some_0@ == "045e"@ && ids.product is Some && (ids.product->Some_0@
            == "02ae"@ || ids.product->Some_0@ == "02ad"@ || ids.product->Some_0@ == "02b0"@),
        meaning_of(ids, event) == Some(UdevEvent::DeviceAdded) ==> event == EventType::Add
            || event == EventType::Bind,
        meaning_of(ids, event) == Some(UdevEvent::DeviceRemoved) ==> event == EventType::Remove
            || event == EventType::Unbind,
        ids.is_kinect() && event != EventType::Other ==> meaning_of(ids, event) is Some,
{
}

/// Every frame is counted once: in all, and in the report that comes next. Reports are at
/// least two seconds apart, tell how long that was, and start the count anew.
pub proof fn frames_are_counted_once(monitor: RgbMonitor, summarized: bool, now: u64)
    requires
        monitor.total_frames < u64::MAX,
        monitor.window_frames < u64::MAX,
        monitor.last_report <= now,
    ensures
        ({
            let (after, step) = monitor.after(RgbEvent::Frame { summarized }, now);
            &&& after.total_frames == monitor.total_frames + 1
            &&& step is Report <==> now - monitor.last_report >= 2_000_000_000
            &&& step matches RgbStep::Report(report) ==> report.frames == monitor.window_frames + 1
                && report.elapsed_ns == now - monitor.last_report && report.has_mean == (
            monitor.has_mean || summarized) && after.window_frames == 0 && after.last_report == now
                && !after.has_mean
            &&& !(step is Report) ==> step is Continue && after.window_frames
                == monitor.window_frames + 1 && after.last_report == monitor.last_report
                && after.has_mean == (monitor.has_mean || summarized)
            &&& monitor.after(RgbEvent::Closed, now) == (monitor, RgbStep::Stop)
            &&& monitor.after(RgbEvent::Cancelled, now) == (monitor, RgbStep::Stop)
        }),
{
}

/// The sum of a channel takes in each pixel's own byte: a channel that is the same
/// everywhere sums up to that many times its value, and no sum is more than full brightness.
pub proof fn channel_sum_of_one_value(data: Seq<u8>, channel: int, pixels: int, value: u8)
    requires
        0 <= channel < 3,
        0 <= pixels,
        3 * pixels <= data.len(),
    ensures
        (forall|i: int| 0 <= i < pixels ==> #[trigger] data[3 * i + channel] == value)
            ==> channel_sum(data, channel, pixels) == pixels * value,
        channel_sum(data, channel, pixels) <= 255 * pixels,
    decreases pixels,
{
    if pixels > 0 {
        channel_sum_of_one_value(data, channel, pixels - 1, value);
        if forall|i: int| 0 <= i < pixels ==> #[trigger] data[3 * i + channel] == value {
            assert(data[3 * (pixels - 1) + channel] == value);
            assert((pixels - 1) * value + value == pixels * value) by (nonlinear_arith);
        }
    } else {
        assert(0 * value == 0) by (nonlinear_arith);
    }
}

} // verus!
