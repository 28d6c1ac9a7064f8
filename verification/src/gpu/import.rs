//! Taking over the screen's buffer: as a storage buffer or as an image.

use vstd::prelude::*;

use super::pixels;
use super::shader::border_colors;
use super::pixels::{format_bytes_per_pixel, fourcc_string, vk_format_from_drm, ImageFormat};
use super::shader::ImageInfo;
use super::ComputeError;
use crate::wayland::screencopy::{Dmabuf, DmabufPlane, MAX_DMABUF_PLANES};

verus! {

/// A shared buffer as a storage buffer.
#[derive(Debug, Clone, Copy, PartialEq, Eq, Structural)]
pub struct BufferImport {
    /// The size in bytes.
    pub size: u64,
    pub info: ImageInfo,
    /// Whether the format is one of those that are known.
    pub known_format: bool,
}

/// Where a plane lies in the memory of an image.
#[derive(Debug, Clone, Copy, PartialEq, Eq, Structural)]
pub struct PlaneLayout {
    pub offset: u64,
    pub size: u64,
    pub row_pitch: u64,
}

/// The planes of an image.
#[derive(Debug)]
pub struct ImageLayout {
    pub planes: Vec<PlaneLayout>,
    /// Whether a plane reaches past the end of the buffer.
    pub exceeds: bool,
}

/// What a kernel is told of the buffer.
pub open spec fn info_of(dmabuf: Dmabuf) -> ImageInfo {
    ImageInfo {
        width: dmabuf.width,
        height: dmabuf.height,
        stride: dmabuf.stride,
        bytes_per_pixel: 4,
    }
}

/// What a kernel is told of the buffer.
pub fn image_info(dmabuf: &Dmabuf) -> (info: ImageInfo)
    ensures
        info == info_of(*dmabuf),
{
    let (bytes_per_pixel, _) = format_bytes_per_pixel(dmabuf.format);
    ImageInfo {
        width: dmabuf.width,
        height: dmabuf.height,
        stride: dmabuf.stride,
        bytes_per_pixel,
    }
}

/// The storage buffer for a shared buffer, unless that is empty.
pub fn plan_buffer(dmabuf: &Dmabuf) -> (import: Result<BufferImport, ComputeError>)
    ensures
        match import {
            Ok(import) => {
                &&& import.size == dmabuf.stride * dmabuf.height
                &&& import.size > 0
                &&& import.info == info_of(*dmabuf)
                &&& import.known_format == pixels::is_known_format(dmabuf.format)
            },
            Err(error) => {
                &&& error == ComputeError::EmptyDmabuf
                &&& dmabuf.stride == 0 || dmabuf.height == 0
            },
        },
{
    let (_, known_format) = format_bytes_per_pixel(dmabuf.format);
    let (stride, height) = (dmabuf.stride as u64, dmabuf.height as u64);
    assert(stride * height <= u64::MAX && (stride * height == 0 <==> stride == 0 || height == 0))
        by (nonlinear_arith)
        requires
            0 <= stride <= u32::MAX,
            0 <= height <= u32::MAX,
    ;
    let size: u64 = stride * height;
    if size == 0 {
        return Err(ComputeError::EmptyDmabuf);
    }
    Ok(BufferImport { size, info: image_info(dmabuf), known_format })
}

/// The number of planes that are looked at.
pub open spec fn plane_count(dmabuf: Dmabuf) -> int {
    if dmabuf.num_planes <= MAX_DMABUF_PLANES {
        dmabuf.num_planes as int
    } else {
        MAX_DMABUF_PLANES as int
    }
}

/// The first things to settle about an image: its format, and how many planes it has.
pub fn begin_image(dmabuf: &Dmabuf) -> (begun: Result<(ImageFormat, usize), ComputeError>)
    ensures
        match begun {
            Ok((image_format, planes)) => {
                &&& planes == plane_count(*dmabuf)
                &&& planes > 0
                &&& pixels::is_known_format(dmabuf.format)
                &&& Some(image_format) == pixels::image_format(dmabuf.format)
                &&& image_format == ImageFormat::B8G8R8A8 <==> (dmabuf.format
                    == pixels::DRM_FORMAT_ARGB8888 || dmabuf.format == pixels::DRM_FORMAT_XRGB8888)
            },
            Err(ComputeError::UnsupportedFormat(text)) => {
                &&& !pixels::is_known_format(dmabuf.format)
                &&& text@ == pixels::lossy_text(pixels::fourcc_bytes(dmabuf.format))
            },
            Err(error) => {
                &&& error == ComputeError::MissingPlaneMetadata
                &&& pixels::is_known_format(dmabuf.format)
                &&& dmabuf.num_planes == 0
            },
        },
{
    let image_format = match vk_format_from_drm(dmabuf.format) {
        Some(image_format) => image_format,
        None => {
            return Err(ComputeError::UnsupportedFormat(fourcc_string(dmabuf.format)));
        },
    };
    let planes: usize = if dmabuf.num_planes <= 4 {
        dmabuf.num_planes as usize
    } else {
        MAX_DMABUF_PLANES
    };
    if planes == 0 {
        return Err(ComputeError::MissingPlaneMetadata);
    }
    Ok((image_format, planes))
}

/// Where a plane lies.
pub open spec fn layout_of(plane: DmabufPlane, height: u32) -> PlaneLayout {
    PlaneLayout {
        offset: plane.offset as u64,
        size: (plane.stride * height) as u64,
        row_pitch: plane.stride as u64,
    }
}

/// Where the planes lie. One without rows is left out.
pub open spec fn layouts_of(planes: Seq<DmabufPlane>, height: u32) -> Seq<PlaneLayout>
    decreases planes.len(),
{
    if planes.len() == 0 {
        Seq::empty()
    } else if planes.last().stride == 0 {
        layouts_of(planes.drop_last(), height)
    } else {
        layouts_of(planes.drop_last(), height).push(layout_of(planes.last(), height))
    }
}

/// Whether a plane reaches past the first `available` bytes.
pub open spec fn reaches_past(plane: DmabufPlane, height: u32, available: int) -> bool {
    plane.stride != 0 && plane.offset + plane.stride * height > available
}

/// Lays out the planes of an image in a buffer of which `len` is the length, or a number
/// below zero where that could not be found out. A plane that reaches past the end is
/// reported and laid out all the same.
pub fn lay_out_image(dmabuf: &Dmabuf, planes: usize, len: i64) -> (layout: Result<
    ImageLayout,
    ComputeError,
>)
    requires
        planes <= MAX_DMABUF_PLANES,
    ensures
        match layout {
            Ok(layout) => {
                &&& len > 0
                &&& layout.planes@.len() > 0
                &&& layout.planes@ == layouts_of(dmabuf.planes@.take(planes as int), dmabuf.height)
                &&& layout.exceeds == exists|i: int|
                    0 <= i < planes && reaches_past(
                        #[trigger] dmabuf.planes@[i],
                        dmabuf.height,
                        len as int,
                    )
            },
            Err(error) => if len < 0 {
                error == ComputeError::DmabufSize
            } else {
                &&& error == ComputeError::EmptyDmabuf
                &&& len == 0 || layouts_of(
                    dmabuf.planes@.take(planes as int),
                    dmabuf.height,
                ).len() == 0
            },
        },
{
    if len < 0 {
        return Err(ComputeError::DmabufSize);
    }
    let available: u64 = len as u64;
    if available == 0 {
        return Err(ComputeError::EmptyDmabuf);
    }
    let mut layouts: Vec<PlaneLayout> = Vec::new();
    let mut max_plane_end: u64 = 0;
    let mut i: usize = 0;
    while i < planes
        invariant
            i <= planes <= MAX_DMABUF_PLANES,
            available == len > 0,
            layouts@ == layouts_of(dmabuf.planes@.take(i as int), dmabuf.height),
            (max_plane_end > available) == exists|j: int|
                0 <= j < i && reaches_past(
                    #[trigger] dmabuf.planes@[j],
                    dmabuf.height,
                    len as int,
                ),
        decreases planes - i,
    {
        let plane = dmabuf.planes[i];
        assert(dmabuf.planes@.take(i + 1).drop_last() =~= dmabuf.planes@.take(i as int));
        assert(dmabuf.planes@.take(i + 1).last() == plane);
        if plane.stride != 0 {
            let (row_pitch, height) = (plane.stride as u64, dmabuf.height as u64);
            assert(row_pitch * height <= u64::MAX - u32::MAX) by (nonlinear_arith)
                requires
                    0 <= row_pitch <= u32::MAX,
                    0 <= height <= u32::MAX,
            ;
            let size: u64 = row_pitch * height;
            let offset: u64 = plane.offset as u64;
            layouts.push(PlaneLayout { offset, size, row_pitch });
            let plane_end: u64 = offset + size;
            let ghost before = max_plane_end;
            if plane_end > max_plane_end {
                max_plane_end = plane_end;
            }
            proof {
                if plane_end > available {
                    assert(reaches_past(dmabuf.planes@[i as int], dmabuf.height, len as int));
                }
                assert((max_plane_end > available) == (before > available || plane_end
                    > available));
            }
        }
        i += 1;
    }
    if layouts.len() == 0 {
        return Err(ComputeError::EmptyDmabuf);
    }
    Ok(ImageLayout { planes: layouts, exceeds: max_plane_end > available })
}

/// Whether an image that needs `required` bytes fits into the buffer.
pub fn check_image_fits(required: u64, available: u64) -> (fits: Result<(), ComputeError>)
    ensures
        fits is Ok == (required <= available),
        fits is Err ==> fits->Err_0 == (ComputeError::DmabufTooSmall { required, available }),
{
    if required > available {
        Err(ComputeError::DmabufTooSmall { required, available })
    } else {
        Ok(())
    }
}

/// An image has at least one plane layout just if one of its planes has rows.
pub proof fn image_needs_a_plane_with_rows(planes: Seq<DmabufPlane>, height: u32)
    ensures
        layouts_of(planes, height).len() <= planes.len(),
        layouts_of(planes, height).len() > 0 <==> exists|i: int|
            0 <= i < planes.len() && (#[trigger] planes[i]).stride != 0,
    decreases planes.len(),
{
    if planes.len() > 0 {
        let rest = planes.drop_last();
        image_needs_a_plane_with_rows(rest, height);
        if planes.last().stride != 0 {
            assert(planes[planes.len() - 1].stride != 0);
        } else if layouts_of(rest, height).len() > 0 {
            let i = choose|i: int| 0 <= i < rest.len() && (#[trigger] rest[i]).stride != 0;
            assert(planes[i].stride != 0);
        } else {
            assert forall|i: int| 0 <= i < planes.len() implies (#[trigger] planes[i]).stride
                == 0 by {
                if i < rest.len() {
                    assert(rest[i].stride == 0);
                }
            }
        }
    }
}

/// A kernel is told the size of the screen's buffer: its width, its height, the bytes of a
/// row and the bytes of a pixel, in this order.
pub proof fn kernel_is_told_of_the_buffer(dmabuf: Dmabuf)
    ensures
        ({
            let words = border_colors::param_words(border_colors::params_of(info_of(dmabuf)));
            &&& words.len() == 4
            &&& words[0] == dmabuf.width
            &&& words[1] == dmabuf.height
            &&& words[2] == dmabuf.stride
            &&& words[3] == 4
        }),
{
}

/// As many planes are looked at as the buffer has, and four at most.
pub proof fn planes_are_counted(dmabuf: Dmabuf)
    ensures
        plane_count(dmabuf) <= 4,
        plane_count(dmabuf) <= dmabuf.num_planes,
        plane_count(dmabuf) == 4 || plane_count(dmabuf) == dmabuf.num_planes,
{
}

/// Planes that all have rows are laid out one for one and in order, each with all rows of
/// the image.
pub proof fn planes_are_laid_out_in_order(planes: Seq<DmabufPlane>, height: u32)
    requires
        forall|i: int| 0 <= i < planes.len() ==> (#[trigger] planes[i]).stride != 0,
    ensures
        layouts_of(planes, height).len() == planes.len(),
        forall|i: int|
            0 <= i < planes.len() ==> {
                let layout = #[trigger] layouts_of(planes, height)[i];
                &&& layout.offset == planes[i].offset
                &&& layout.row_pitch == planes[i].stride
                &&& layout.size == planes[i].stride * height
            },
    decreases planes.len(),
{
    if planes.len() > 0 {
        let rest = planes.drop_last();
        assert forall|i: int| 0 <= i < rest.len() implies (#[trigger] rest[i]).stride != 0 by {
            assert(rest[i] == planes[i]);
        }
        planes_are_laid_out_in_order(rest, height);
        let last = planes[planes.len() - 1];
        assert(last.stride != 0);
        let (stride, rows) = (last.stride as int, height as int);
        assert(0 <= stride * rows <= u64::MAX) by (nonlinear_arith)
            requires
                0 <= stride <= u32::MAX,
                0 <= rows <= u32::MAX,
        ;
        assert forall|i: int| 0 <= i < planes.len() implies ({
            let layout = #[trigger] layouts_of(planes, height)[i];
            &&& layout.offset == planes[i].offset
            &&& layout.row_pitch == planes[i].stride
            &&& layout.size == planes[i].stride * height
        }) by {
            if i < rest.len() {
                assert(layouts_of(planes, height)[i] == layouts_of(rest, height)[i]);
                assert(rest[i] == planes[i]);
            }
        }
    }
}

/// A plane without rows takes no room: leaving it out changes no layout.
pub proof fn plane_without_rows_takes_no_room(
    planes: Seq<DmabufPlane>,
    more: Seq<DmabufPlane>,
    empty: DmabufPlane,
    height: u32,
)
    requires
        empty.stride == 0,
    ensures
        layouts_of(planes + seq![empty] + more, height) == layouts_of(planes + more, height),
        !reaches_past(empty, height, 0),
    decreases more.len(),
{
    if more.len() == 0 {
        assert((planes + seq![empty] + more).drop_last() =~= planes);
        assert((planes + seq![empty] + more).last() == empty);
        assert(planes + more =~= planes);
    } else {
        let rest = more.drop_last();
        plane_without_rows_takes_no_room(planes, rest, empty, height);
        assert((planes + seq![empty] + more).drop_last() =~= planes + seq![empty] + rest);
        assert((planes + more).drop_last() =~= planes + rest);
        assert((planes + seq![empty] + more).last() == more.last());
        assert((planes + more).last() == more.last());
    }
}

/// A plane reaches past the end just where its last byte lies behind it.
pub proof fn plane_ends_with_its_last_row(plane: DmabufPlane, height: u32, available: int)
    requires
        plane.stride != 0,
    ensures
        reaches_past(plane, height, available) <==> layout_of(plane, height).offset + layout_of(
            plane,
            height,
        ).row_pitch * height > available,
{
}

} // verus!
