use hal1210::wayland::idle::{idle_event, IdleEvent, Notification};
use hal1210::wayland::once::{describe_plain_buffer, OnceSession};
use hal1210::wayland::screencopy::{describe_buffer, BufferObject, DmabufPlane};
use hal1210::wayland::{Command, FrameAction, FrameEvent, Interface, Request, Wayland};

const SIZE: FrameEvent = FrameEvent::LinuxDmabuf { format: 875_713_112, width: 64, height: 32 };

fn ready() -> Wayland {
    let mut wayland = Wayland::new();
    wayland.global_bound(Interface::Seat, 1, 11);
    wayland.global_bound(Interface::Output, 2, 12);
    wayland.global_bound(Interface::Dmabuf, 3, 13);
    wayland.global_bound(Interface::Screencopy, 4, 14);
    wayland.global_bound(Interface::IdleNotifier, 5, 15);
    wayland.device_opened();
    wayland
}

#[test]
fn interfaces_are_known_by_name() {
    assert_eq!(Interface::from_name("wl_seat"), Some(Interface::Seat));
    assert_eq!(Interface::from_name("wl_output"), Some(Interface::Output));
    assert_eq!(Interface::from_name("zwp_linux_dmabuf_v1"), Some(Interface::Dmabuf));
    assert_eq!(Interface::from_name("zwlr_screencopy_manager_v1"), Some(Interface::Screencopy));
    assert_eq!(Interface::from_name("ext_idle_notifier_v1"), Some(Interface::IdleNotifier));
    assert_eq!(Interface::from_name("wl_shm"), None);
}

#[test]
fn globals_are_bound_once_while_alive() {
    let mut wayland = Wayland::new();
    assert_eq!(wayland.wants_global("wl_seat", true), Some(Interface::Seat));
    wayland.global_bound(Interface::Seat, 1, 11);
    assert_eq!(wayland.wants_global("wl_seat", true), None);
    assert_eq!(wayland.wants_global("wl_seat", false), Some(Interface::Seat));
    assert_eq!(wayland.wants_global("wl_shm", false), None);
}

#[test]
fn capture_starts_with_output_and_manager() {
    let mut wayland = Wayland::new();
    assert_eq!(wayland.handle_command(Command::ComputeDone), Request::Nothing);
    assert_eq!(wayland.global_bound(Interface::Output, 2, 12), Request::Nothing);
    let capture = Request::CaptureOutput { manager: 14, output: 12 };
    assert_eq!(wayland.global_bound(Interface::Screencopy, 4, 14), capture);
    assert!(wayland.frame);
    assert_eq!(wayland.handle_frame_event(FrameEvent::Ready), FrameAction::FrameReady);
    assert!(!wayland.frame);
    assert_eq!(wayland.handle_command(Command::ComputeDone), capture);
}

#[test]
fn idle_notifier_needs_a_seat() {
    let mut wayland = Wayland::new();
    assert_eq!(wayland.global_bound(Interface::IdleNotifier, 5, 15), Request::Nothing);
    assert!(wayland.idle.is_none());
    wayland.global_bound(Interface::Seat, 1, 11);
    assert_eq!(
        wayland.global_bound(Interface::IdleNotifier, 5, 15),
        Request::IdleNotification { timeout_ms: 300_000, seat: 11 }
    );
    assert!(wayland.idle.is_some());
}

#[test]
fn removed_globals_take_what_hangs_on_them() {
    let mut wayland = ready();
    wayland.buffer_made();
    wayland.handle_global_remove(4);
    assert!(wayland.screencopy.is_none() && !wayland.frame);
    assert!(wayland.buffer && wayland.gbm_device);
    wayland.handle_global_remove(3);
    assert!(!wayland.buffer && !wayland.gbm_device);
    wayland.handle_global_remove(1);
    assert!(wayland.seat.is_none() && wayland.idle.is_none());
    let before = wayland;
    wayland.handle_global_remove(1);
    assert_eq!(wayland, before);
    wayland.handle_global_remove(2);
    assert!(wayland.output.is_none());
}

#[test]
fn frame_is_copied_into_one_buffer() {
    let mut wayland = ready();
    assert_eq!(
        wayland.handle_frame_event(SIZE),
        FrameAction::CreateBufferObject { format: 875_713_112, width: 64, height: 32 }
    );
    assert_eq!(wayland.handle_frame_event(FrameEvent::BufferDone), FrameAction::Nothing);
    assert_eq!(wayland.buffer_made(), (true, true));
    assert_eq!(wayland.buffer_made(), (false, false));
    assert_eq!(wayland.handle_frame_event(SIZE), FrameAction::Nothing);
    assert_eq!(wayland.handle_frame_event(FrameEvent::BufferDone), FrameAction::CopyWithDamage);
    assert_eq!(wayland.handle_frame_event(FrameEvent::Other), FrameAction::Nothing);
    assert!(!wayland.device_opened());
}

#[test]
fn buffer_planes_are_described() {
    let planes = vec![
        DmabufPlane { stride: 256, offset: 0 },
        DmabufPlane { stride: 128, offset: 8192 },
    ];
    let object =
        BufferObject { modifier: 0x0123_4567_89ab_cdef, stride: 256, plane_count: 2, planes };
    let request = describe_buffer(7, 64, 32, &object).unwrap();
    assert_eq!((request.width, request.height), (64, 32));
    assert_eq!(request.dmabuf.num_planes, 2);
    assert_eq!(request.dmabuf.planes[1], DmabufPlane { stride: 128, offset: 8192 });
    assert_eq!(request.dmabuf.planes[2], DmabufPlane::default());
    assert_eq!(request.params.len(), 2);
    assert_eq!(request.params[1].index, 1);
    assert_eq!(request.params[1].modifier_hi, 0x0123_4567);
    assert_eq!(request.params[1].modifier_lo, 0x89ab_cdef);
    let many = BufferObject {
        modifier: 0,
        stride: 1,
        plane_count: 9,
        planes: vec![DmabufPlane { stride: 1, offset: 1 }; 9],
    };
    assert_eq!(describe_buffer(7, 1, 1, &many).unwrap().params.len(), 4);
    let none = BufferObject { modifier: 0, stride: 0, plane_count: 0, planes: vec![] };
    assert!(describe_buffer(7, 1, 1, &none).is_none());
    assert!(ready().request_create_dmabuf_buffer(7, 64, 32, &object).is_some());
}

#[test]
fn first_objects_are_kept() {
    let mut session = OnceSession::new();
    assert_eq!(session.wants_global("ext_idle_notifier_v1", false), None);
    assert_eq!(session.wants_global("wl_output", false), Some(Interface::Output));
    assert_eq!(session.global_bound(Interface::Output, 1), Request::Nothing);
    assert_eq!(
        session.global_bound(Interface::Screencopy, 2),
        Request::CaptureOutput { manager: 2, output: 1 }
    );
    session.global_bound(Interface::Output, 3);
    assert_eq!(
        session.handle_command(Command::ComputeDone),
        Request::CaptureOutput { manager: 2, output: 1 }
    );
    assert_eq!(
        session.global_bound(Interface::Dmabuf, 4),
        Request::DefaultFeedback { dmabuf: 4 }
    );
    assert_eq!(session.handle_frame_event(SIZE), FrameAction::Nothing);
    session.device_opened(true);
    assert!(matches!(session.handle_frame_event(SIZE), FrameAction::CreateBufferObject { .. }));
    assert!(session.buffer_created());
    assert!(!session.buffer_created());
    assert_eq!(session.handle_frame_event(FrameEvent::BufferDone), FrameAction::CopyWithDamage);
}

#[test]
fn plain_buffer_has_one_plane() {
    let request = describe_plain_buffer(7, 64, 32, 256, 1 << 40).unwrap();
    assert_eq!(request.params.len(), 1);
    assert_eq!(request.params[0].stride, 256);
    assert_eq!(request.params[0].offset, 0);
    assert_eq!(request.params[0].modifier_hi, 256);
    assert_eq!(request.params[0].modifier_lo, 0);
}

#[test]
fn notifications_tell_idleness() {
    assert_eq!(idle_event(Notification::Idled), Some(IdleEvent::Idle));
    assert_eq!(idle_event(Notification::Resumed), Some(IdleEvent::Active));
    assert_eq!(idle_event(Notification::Other), None);
}
