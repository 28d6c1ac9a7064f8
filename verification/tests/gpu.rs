use hal1210::gpu::compute::Compute;
use hal1210::gpu::drm::{device_id, opened, DrmError};
use hal1210::gpu::import::{
    begin_image, check_image_fits, image_info, lay_out_image, plan_buffer,
};
use hal1210::gpu::memory::{
    find_memory_type, select_queue_family, MEMORY_DEVICE_LOCAL, MEMORY_HOST_READABLE,
};
use hal1210::gpu::pixels::{
    format_bytes_per_pixel, fourcc, fourcc_string, vk_format_from_drm, ImageFormat,
    DRM_FORMAT_ABGR8888, DRM_FORMAT_ARGB8888, DRM_FORMAT_XBGR8888, DRM_FORMAT_XRGB8888,
};
use hal1210::gpu::plans::{
    buffer_import_plan, command_plan, compute_plan, device_extensions, device_plan,
    image_import_plan, shader_plan, teardown,
};
use hal1210::gpu::setup::{Answer, Outcome, Resource, Setup, Step, Undo};
use hal1210::gpu::shader::border_colors::ReturnBuffer;
use hal1210::gpu::shader::{ImageInfo, ShaderKind};
use hal1210::gpu::ComputeError;
use hal1210::wayland::screencopy::{Dmabuf, DmabufPlane};

fn dmabuf(format: u32, num_planes: u32, planes: [(u32, u32); 4]) -> Dmabuf {
    let plane = |i: usize| DmabufPlane { stride: planes[i].0, offset: planes[i].1 };
    Dmabuf {
        width: 4,
        height: 10,
        stride: 16,
        format,
        modifier: 0,
        num_planes,
        planes: [plane(0), plane(1), plane(2), plane(3)],
    }
}

#[test]
fn format_codes_are_four_characters() {
    assert_eq!(fourcc(b'A', b'R', b'2', b'4'), DRM_FORMAT_ARGB8888);
    assert_eq!(fourcc(b'X', b'R', b'2', b'4'), DRM_FORMAT_XRGB8888);
    assert_eq!(fourcc(b'A', b'B', b'2', b'4'), DRM_FORMAT_ABGR8888);
    assert_eq!(fourcc(b'X', b'B', b'2', b'4'), DRM_FORMAT_XBGR8888);
    assert_eq!(fourcc_string(DRM_FORMAT_XRGB8888), "XR24");
    assert_eq!(fourcc_string(fourcc(b'N', b'V', b'1', b'2')), "NV12");
    assert_eq!(fourcc_string(0xff41_4141), "AAA\u{fffd}");
}

#[test]
fn only_four_formats_are_known() {
    assert_eq!(format_bytes_per_pixel(DRM_FORMAT_ABGR8888), (4, true));
    assert_eq!(format_bytes_per_pixel(fourcc(b'N', b'V', b'1', b'2')), (4, false));
    assert_eq!(vk_format_from_drm(DRM_FORMAT_ARGB8888), Some(ImageFormat::B8G8R8A8));
    assert_eq!(vk_format_from_drm(DRM_FORMAT_XRGB8888), Some(ImageFormat::B8G8R8A8));
    assert_eq!(vk_format_from_drm(DRM_FORMAT_ABGR8888), Some(ImageFormat::R8G8B8A8));
    assert_eq!(vk_format_from_drm(DRM_FORMAT_XBGR8888), Some(ImageFormat::R8G8B8A8));
    assert_eq!(vk_format_from_drm(0), None);
}

#[test]
fn first_suitable_memory_is_taken() {
    let kinds = [0, 2, 6, 7, 1];
    assert_eq!(find_memory_type(&kinds, 0b11111, MEMORY_HOST_READABLE), Some(2));
    assert_eq!(find_memory_type(&kinds, 0b11000, MEMORY_HOST_READABLE), Some(3));
    assert_eq!(find_memory_type(&kinds, 0b10000, MEMORY_HOST_READABLE), None);
    assert_eq!(find_memory_type(&kinds, 0b11111, MEMORY_DEVICE_LOCAL), Some(3));
    assert_eq!(find_memory_type(&kinds, 0, 0), None);
    assert_eq!(find_memory_type(&[], u32::MAX, 0), None);
    assert_eq!(find_memory_type(&[0; 32], 1 << 31, 0), Some(31));
}

#[test]
fn first_queue_that_computes_is_taken() {
    assert!(matches!(select_queue_family(true, &[1, 4, 3, 2]), Ok(2)));
    assert!(matches!(select_queue_family(true, &[1, 4]), Err(ComputeError::NoComputeQueue)));
    assert!(matches!(select_queue_family(false, &[2]), Err(ComputeError::NoPhysicalDevice)));
}

#[test]
fn buffer_import_needs_bytes() {
    let import = plan_buffer(&dmabuf(DRM_FORMAT_XRGB8888, 1, [(16, 0); 4])).unwrap();
    assert_eq!(import.size, 160);
    assert!(import.known_format);
    assert_eq!(
        import.info,
        ImageInfo { width: 4, height: 10, stride: 16, bytes_per_pixel: 4 }
    );
    let mut flat = dmabuf(0, 1, [(16, 0); 4]);
    assert!(!plan_buffer(&flat).unwrap().known_format);
    flat.height = 0;
    assert!(matches!(plan_buffer(&flat), Err(ComputeError::EmptyDmabuf)));
    flat.height = u32::MAX;
    flat.stride = u32::MAX;
    assert_eq!(plan_buffer(&flat).unwrap().size, 0xffff_fffe_0000_0001);
}

#[test]
fn image_import_checks_format_and_planes() {
    let (format, planes) = begin_image(&dmabuf(DRM_FORMAT_ABGR8888, 9, [(16, 0); 4])).unwrap();
    assert_eq!((format, planes), (ImageFormat::R8G8B8A8, 4));
    match begin_image(&dmabuf(fourcc(b'N', b'V', b'1', b'2'), 1, [(16, 0); 4])) {
        Err(error @ ComputeError::UnsupportedFormat(_)) => {
            assert_eq!(error.message(""), "unsupported DRM format: NV12")
        }
        other => panic!("{other:?}"),
    }
    assert!(matches!(
        begin_image(&dmabuf(DRM_FORMAT_ABGR8888, 0, [(16, 0); 4])),
        Err(ComputeError::MissingPlaneMetadata)
    ));
}

#[test]
fn planes_are_laid_out() {
    let buffer = dmabuf(DRM_FORMAT_XRGB8888, 4, [(16, 0), (0, 7), (8, 160), (1, 1)]);
    let layout = lay_out_image(&buffer, 3, 240).unwrap();
    assert_eq!(layout.planes.len(), 2);
    assert_eq!((layout.planes[0].offset, layout.planes[0].size), (0, 160));
    assert_eq!((layout.planes[1].offset, layout.planes[1].row_pitch), (160, 8));
    assert!(!layout.exceeds);
    assert!(lay_out_image(&buffer, 3, 239).unwrap().exceeds);
    assert!(matches!(lay_out_image(&buffer, 3, -1), Err(ComputeError::DmabufSize)));
    assert!(matches!(lay_out_image(&buffer, 3, 0), Err(ComputeError::EmptyDmabuf)));
    let empty = dmabuf(DRM_FORMAT_XRGB8888, 1, [(0, 0); 4]);
    assert!(matches!(lay_out_image(&empty, 1, 100), Err(ComputeError::EmptyDmabuf)));
    assert!(check_image_fits(100, 100).is_ok());
    match check_image_fits(101, 100) {
        Err(error) => assert_eq!(
            error.message(""),
            "DMA-BUF smaller than image requirements (need 101 bytes, have 100 bytes)"
        ),
        Ok(()) => panic!("too small"),
    }
}

#[test]
fn complete_plan_is_torn_down_whole() {
    let mut setup = Setup::new(compute_plan());
    let mut handle = 0;
    let mut destroyed = Vec::new();
    while setup.step().is_some() {
        handle += 1;
        destroyed.extend(setup.advance(Answer::Made(handle)).destroy);
    }
    assert_eq!(handle, 20);
    assert_eq!(destroyed, vec![Resource::ShaderModule(7)]);
    assert_eq!(
        teardown(setup.live()),
        vec![
            Resource::Mapping(20),
            Resource::Buffer(16),
            Resource::Memory(18),
            Resource::Fence(15),
            Resource::CommandBuffer(14),
            Resource::CommandPool(13),
            Resource::DescriptorPool(11),
            Resource::Pipeline(10),
            Resource::PipelineLayout(9),
            Resource::SetLayout(8),
            Resource::Device(5),
            Resource::Instance(2),
        ]
    );
}

#[test]
fn failed_plan_names_its_error() {
    let mut setup = Setup::new(compute_plan());
    let advance = setup.advance(Answer::Failed(0));
    assert!(matches!(advance.outcome, Outcome::Failed(ComputeError::VkLibrary)));
    assert!(setup.step().is_none());

    let mut setup = Setup::new(device_plan());
    for _ in 0..2 {
        assert!(matches!(setup.advance(Answer::Made(1)).outcome, Outcome::Next));
    }
    assert_eq!(setup.step(), Some(Step::PhysicalDevice));
    let advance = setup.advance(Answer::Absent);
    assert!(matches!(advance.outcome, Outcome::Failed(ComputeError::NoPhysicalDevice)));
    assert!(advance.destroy.is_empty());
    assert_eq!(setup.live(), &vec![Resource::Instance(1)]);

    let mut setup = Setup::new(device_plan());
    for _ in 0..4 {
        setup.advance(Answer::Made(1));
    }
    match setup.advance(Answer::Absent).outcome {
        Outcome::Failed(error) => assert_eq!(
            error.message(""),
            "required device feature not supported: shaderStorageImageReadWithoutFormat"
        ),
        other => panic!("{other:?}"),
    }
}

#[test]
fn failed_kernel_cleans_up() {
    let mut setup = Setup::new(shader_plan());
    for handle in 1..=4 {
        setup.advance(Answer::Made(handle));
    }
    let advance = setup.advance(Answer::Failed(-3));
    assert!(matches!(advance.outcome, Outcome::Failed(ComputeError::VkResult(-3))));
    assert_eq!(
        advance.destroy,
        vec![Resource::ShaderModule(4), Resource::PipelineLayout(2), Resource::SetLayout(1)]
    );
    assert!(setup.live().is_empty());

    let mut setup = Setup::new(shader_plan());
    for handle in 1..=8 {
        setup.advance(Answer::Made(handle));
    }
    assert_eq!(setup.step(), Some(Step::HostMemoryType));
    let advance = setup.advance(Answer::Absent);
    assert!(matches!(advance.outcome, Outcome::Failed(ComputeError::NoHostVisibleMemory)));
    assert_eq!(
        advance.destroy,
        vec![
            Resource::DescriptorPool(6),
            Resource::Pipeline(5),
            Resource::PipelineLayout(2),
            Resource::SetLayout(1),
        ]
    );
    assert_eq!(setup.live(), &vec![Resource::Buffer(8)]);
}

#[test]
fn failed_imports_clean_up() {
    let mut setup = Setup::new(buffer_import_plan());
    setup.advance(Answer::Made(1));
    let advance = setup.advance(Answer::Absent);
    assert!(matches!(advance.outcome, Outcome::Failed(ComputeError::NoSuitableMemory)));
    assert!(advance.destroy.is_empty());

    let mut setup = Setup::new(buffer_import_plan());
    setup.advance(Answer::Made(1));
    setup.advance(Answer::Made(0));
    assert_eq!(setup.advance(Answer::Failed(-1)).destroy, vec![Resource::Buffer(1)]);

    let mut setup = Setup::new(image_import_plan());
    setup.advance(Answer::Made(1));
    assert_eq!(setup.give_up(Undo::NewestFirst), vec![Resource::Image(1)]);

    let mut setup = Setup::new(image_import_plan());
    for handle in 1..=3 {
        setup.advance(Answer::Made(handle));
    }
    assert_eq!(
        setup.advance(Answer::Failed(-1)).destroy,
        vec![Resource::Image(1), Resource::Memory(3)]
    );
    assert_eq!(command_plan().len(), 3);
}

#[test]
fn extensions_depend_on_images() {
    assert_eq!(
        device_extensions(false),
        vec!["VK_KHR_external_memory", "VK_KHR_external_memory_fd"]
    );
    assert_eq!(device_extensions(true).len(), 6);
    assert_eq!(device_extensions(true)[5], "VK_KHR_dedicated_allocation");
}

#[test]
fn kernels_run_one_at_a_time() {
    let mut compute = Compute::new();
    assert!(matches!(compute.dispatch(), Err(ComputeError::NoDmabuf)));
    assert!(matches!(compute.copy_size(), Err(ComputeError::NoDmabuf)));
    let info = image_info(&dmabuf(DRM_FORMAT_XRGB8888, 1, [(16, 0); 4]));
    compute.imported(info, vec![Resource::Buffer(1), Resource::Memory(2)]);
    assert_eq!(compute.copy_size().unwrap(), 160);
    assert_eq!(compute.dispatch().unwrap(), [4, 10, 16, 4]);
    assert!(compute.wait_for_idle());
    assert!(matches!(compute.dispatch(), Err(ComputeError::DispatchInFlight)));
    assert!(compute.recorded(Ok(())).is_ok());
    assert!(compute.submitted(Ok(())).is_ok());
    let left = ReturnBuffer { sum_r: 4, sum_g: 8, sum_b: 12, pixel_count: 4, padding: 0 };
    let result = compute.ended(ShaderKind::BorderColors, Some(left));
    assert_eq!(result.average_rgb_u8(), Some([1, 2, 3]));
    assert!(!compute.wait_for_idle());
    assert!(compute.dispatch_with(ShaderKind::BorderColors).is_ok());
    assert_eq!(compute.ended(ShaderKind::BorderColors, None).average_rgb_u8(), None);
}

#[test]
fn refused_submission_frees_the_device_and_failed_recording_does_not() {
    let mut compute = Compute::new();
    let info = ImageInfo { width: 1, height: 1, stride: 4, bytes_per_pixel: 4 };
    compute.imported(info, vec![]);
    compute.dispatch().unwrap();
    assert!(matches!(compute.submitted(Err(-4)), Err(ComputeError::VkResult(-4))));
    assert!(compute.dispatch().is_ok());
    assert!(matches!(compute.recorded(Err(-4)), Err(ComputeError::VkResult(-4))));
    assert!(matches!(compute.dispatch(), Err(ComputeError::DispatchInFlight)));
}

#[test]
fn old_buffer_is_given_back() {
    let info = ImageInfo { width: 1, height: 1, stride: 0, bytes_per_pixel: 4 };
    let mut compute = Compute::new();
    assert!(compute.set_dmabuf().is_empty());
    compute.imported(info, vec![Resource::Buffer(1), Resource::Memory(2)]);
    assert!(matches!(compute.copy_size(), Err(ComputeError::EmptyDmabuf)));
    assert_eq!(compute.set_dmabuf(), vec![Resource::Buffer(1), Resource::Memory(2)]);
    compute.imported(info, vec![Resource::Image(1), Resource::Memory(2), Resource::ImageView(3)]);
    assert_eq!(
        compute.set_screen_dmabuf(),
        vec![Resource::ImageView(3), Resource::Image(1), Resource::Memory(2)]
    );
    assert!(matches!(compute.dispatch(), Err(ComputeError::NoDmabuf)));
}

#[test]
fn device_ids_have_eight_bytes() {
    assert_eq!(device_id(&[1, 2, 3, 4, 5, 6, 7, 8]), Ok([1, 2, 3, 4, 5, 6, 7, 8]));
    assert_eq!(device_id(&[1, 2, 3]), Err(DrmError::InvalidDeviceId));
    assert_eq!(opened(false, true, true), Err(DrmError::Node));
    assert_eq!(opened(true, false, true), Err(DrmError::MissingDevicePath));
    assert_eq!(opened(true, true, false), Err(DrmError::Open));
    assert_eq!(opened(true, true, true), Ok(()));
    assert_eq!(DrmError::Open.message("denied"), "failed to open DRM device: denied");
    assert_eq!(DrmError::Node.message("x"), "drm error: x");
    assert_eq!(DrmError::InvalidDeviceId.message(""), "invalid device id");
    assert_eq!(DrmError::MissingDevicePath.message(""), "could not find device path");
}

#[test]
fn compute_errors_have_texts() {
    assert_eq!(ComputeError::VkLibrary.message("gone"), "failed to load Vulkan library: gone");
    assert_eq!(ComputeError::VkResult(-1).message("lost"), "Vulkan error: lost");
    assert_eq!(ComputeError::ShaderRead.message("eof"), "failed to read shader module: eof");
    assert_eq!(ComputeError::PipelineCreation.message(""), "failed to create compute pipeline");
    assert_eq!(ComputeError::DescriptorAllocation.message(""), "failed to allocate descriptor set");
    assert_eq!(ComputeError::NoPhysicalDevice.message(""), "no Vulkan physical device available");
    assert_eq!(ComputeError::NoComputeQueue.message(""), "no compute-capable queue family found");
    assert_eq!(ComputeError::NoHostVisibleMemory.message(""), "no host-visible memory type available");
    assert_eq!(ComputeError::NoSuitableMemory.message(""), "no device-local memory type available");
    assert_eq!(ComputeError::NoDmabuf.message(""), "no DMA-BUF available");
    assert_eq!(ComputeError::EmptyDmabuf.message(""), "DMA-BUF has zero size");
    assert_eq!(ComputeError::DmabufSize.message("io"), "failed to query DMA-BUF size: io");
    assert_eq!(ComputeError::MissingPlaneMetadata.message(""), "missing DMA-BUF plane metadata");
    assert_eq!(ComputeError::DispatchInFlight.message(""), "command buffer already in flight");
}
