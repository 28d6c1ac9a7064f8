//! The buffer that the screen is copied into.

use vstd::prelude::*;

verus! {

pub const MAX_DMABUF_PLANES: usize = 4;

#[derive(Debug, Clone, Copy, PartialEq, Eq, Structural)]
pub struct DmabufPlane {
    pub stride: u32,
    pub offset: u32,
}

impl Default for DmabufPlane {
    fn default() -> (plane: Self)
        ensures
            plane == (DmabufPlane { stride: 0, offset: 0 }),
    {
        DmabufPlane { stride: 0, offset: 0 }
    }
}

/// A buffer that other processes can share, without its file descriptor.
#[derive(Debug, Clone, Copy)]
pub struct Dmabuf {
    pub width: u32,
    pub height: u32,
    pub stride: u32,
    pub format: u32,
    pub modifier: u64,
    pub num_planes: u32,
    pub planes: [DmabufPlane; MAX_DMABUF_PLANES],
}

/// What is known of a buffer object.
#[derive(Debug)]
pub struct BufferObject {
    pub modifier: u64,
    pub stride: u32,
    pub plane_count: u32,
    /// The planes from the first on, as many as a shared buffer can have.
    pub planes: Vec<DmabufPlane>,
}

/// One plane of a buffer as it is described to the compositor.
#[derive(Debug, Clone, Copy, PartialEq, Eq, Structural)]
pub struct PlaneParams {
    pub index: u32,
    pub offset: u32,
    pub stride: u32,
    pub modifier_hi: u32,
    pub modifier_lo: u32,
}

/// A new buffer: what to tell the daemon and what to ask of the compositor.
#[derive(Debug)]
pub struct DmabufRequest {
    pub dmabuf: Dmabuf,
    pub params: Vec<PlaneParams>,
    pub width: i32,
    pub height: i32,
}

impl BufferObject {
    /// The number of planes that are used.
    pub open spec fn used_planes(&self) -> int {
        if self.plane_count <= 4 {
            self.plane_count as int
        } else {
            4
        }
    }

    pub open spec fn wf(&self) -> bool {
        self.planes@.len() >= self.used_planes()
    }
}

/// The plane as it is described to the compositor.
pub open spec fn plane_params(index: int, plane: DmabufPlane, modifier: u64) -> PlaneParams {
    PlaneParams {
        index: index as u32,
        offset: plane.offset,
        stride: plane.stride,
        modifier_hi: (modifier / 0x1_0000_0000) as u32,
        modifier_lo: (modifier % 0x1_0000_0000) as u32,
    }
}

impl DmabufRequest {
    /// Whether this is the request for a buffer object of this format and size.
    pub open spec fn describes(
        &self,
        format: u32,
        width: u32,
        height: u32,
        object: BufferObject,
    ) -> bool {
        &&& self.width == width as i32
        &&& self.height == height as i32
        &&& self.dmabuf.width == width
        &&& self.dmabuf.height == height
        &&& self.dmabuf.stride == object.stride
        &&& self.dmabuf.format == format
        &&& self.dmabuf.modifier == object.modifier
        &&& self.dmabuf.num_planes == object.used_planes()
        &&& forall|i: int|
            0 <= i < 4 ==> #[trigger] self.dmabuf.planes@[i] == (if i < object.used_planes() {
                object.planes@[i]
            } else {
                DmabufPlane { stride: 0, offset: 0 }
            })
        &&& self.params@.len() == object.used_planes()
        &&& forall|i: int|
            0 <= i < object.used_planes() ==> #[trigger] self.params@[i] == plane_params(
                i,
                object.planes@[i],
                object.modifier,
            )
    }
}

/// Describes a buffer object, with at most as many planes as a shared buffer can have.
/// One without planes is of no use.
pub fn describe_buffer(format: u32, width: u32, height: u32, object: &BufferObject) -> (request:
    Option<DmabufRequest>)
    requires
        object.wf(),
    ensures
        object.plane_count == 0 ==> request is None,
        object.plane_count > 0 ==> request is Some && request->Some_0.describes(
            format,
            width,
            height,
            *object,
        ),
{
    let plane_count: u32 = if object.plane_count < 4 {
        object.plane_count
    } else {
        4
    };
    if plane_count == 0 {
        return None;
    }
    let modifier: u64 = object.modifier;
    assert(modifier >> 32 == modifier / 0x1_0000_0000) by (bit_vector);
    assert(modifier & 0xffff_ffff == modifier % 0x1_0000_0000) by (bit_vector);
    let modifier_hi: u32 = (modifier >> 32) as u32;
    let modifier_lo: u32 = (modifier & 0xffff_ffff) as u32;
    let mut planes: [DmabufPlane; MAX_DMABUF_PLANES] = [
        DmabufPlane { stride: 0, offset: 0 },
        DmabufPlane { stride: 0, offset: 0 },
        DmabufPlane { stride: 0, offset: 0 },
        DmabufPlane { stride: 0, offset: 0 },
    ];
    let mut params: Vec<PlaneParams> = Vec::new();
    let mut i: usize = 0;
    while i < plane_count as usize
        invariant
            i <= plane_count <= 4,
            plane_count == object.used_planes(),
            object.wf(),
            modifier == object.modifier,
            modifier_hi == modifier / 0x1_0000_0000,
            modifier_lo == modifier % 0x1_0000_0000,
            forall|j: int|
                0 <= j < 4 ==> #[trigger] planes@[j] == (if j < i {
                    object.planes@[j]
                } else {
                    DmabufPlane { stride: 0, offset: 0 }
                }),
            params@.len() == i,
            forall|j: int|
                0 <= j < i ==> #[trigger] params@[j] == plane_params(
                    j,
                    object.planes@[j],
                    object.modifier,
                ),
        decreases plane_count - i,
    {
        let plane = object.planes[i];
        planes[i] = plane;
        params.push(
            PlaneParams {
                index: i as u32,
                offset: plane.offset,
                stride: plane.stride,
                modifier_hi,
                modifier_lo,
            },
        );
        i += 1;
    }
    Some(
        DmabufRequest {
            dmabuf: Dmabuf {
                width,
                height,
                stride: object.stride,
                format,
                modifier,
                num_planes: plane_count,
                planes,
            },
            params,
            width: width as i32,
            height: height as i32,
        },
    )
}

/// A modifier is sent in two halves, from which it can be put together again.
pub proof fn modifier_halves_make_modifier(index: int, plane: DmabufPlane, modifier: u64)
    ensures
        plane_params(index, plane, modifier).modifier_hi * 0x1_0000_0000 + plane_params(
            index,
            plane,
            modifier,
        ).modifier_lo == modifier,
{
}

} // verus!
