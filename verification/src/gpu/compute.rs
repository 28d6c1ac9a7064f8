//! Running a kernel on the screen: one run at a time, on the buffer that was taken over
//! last.

use vstd::prelude::*;

use super::setup::Resource;
use super::shader::border_colors;
use super::shader::border_colors::ReturnBuffer;
use super::shader::{prepare, DispatchScratch, ImageInfo, ShaderKind, ShaderResult};
use super::ComputeError;

verus! {

/// A buffer that was taken over, as a value.
#[verifier::ext_equal]
pub struct InputModel {
    pub info: ImageInfo,
    pub held: Seq<Resource>,
}

/// What a compute device is doing, as a value.
#[verifier::ext_equal]
pub struct ComputeModel {
    /// Whether a run has been started and has not come to its end.
    pub in_flight: bool,
    /// The buffer that kernels read.
    pub input: Option<InputModel>,
}

#[derive(Debug)]
struct Input {
    info: ImageInfo,
    held: Vec<Resource>,
}

#[derive(Debug)]
pub struct Compute {
    in_flight: bool,
    input: Option<Input>,
}

impl View for Compute {
    type V = ComputeModel;

    closed spec fn view(&self) -> ComputeModel {
        ComputeModel {
            in_flight: self.in_flight,
            input: match self.input {
                Some(input) => Some(InputModel { info: input.info, held: input.held@ }),
                None => None,
            },
        }
    }
}

/// The order in which a buffer's objects are given back: a view of an image first, then
/// the others as they were made.
pub open spec fn release_order(held: Seq<Resource>) -> Seq<Resource> {
    if held.len() > 0 && held.last() is ImageView {
        seq![held.last()] + held.drop_last()
    } else {
        held
    }
}

fn in_release_order(held: Vec<Resource>) -> (order: Vec<Resource>)
    ensures
        order@ == release_order(held@),
{
    let n: usize = held.len();
    let viewed = n > 0 && matches!(held[n - 1], Resource::ImageView(_));
    if !viewed {
        return held;
    }
    let mut order: Vec<Resource> = Vec::new();
    order.push(held[n - 1]);
    let mut i: usize = 0;
    while i < n - 1
        invariant
            i <= n - 1,
            n == held@.len(),
            n > 0,
            order@ == seq![held@.last()] + held@.take(i as int),
        decreases n - i,
    {
        order.push(held[i]);
        i += 1;
        assert(order@ =~= seq![held@.last()] + held@.take(i as int));
    }
    assert(held@.take(i as int) =~= held@.drop_last());
    order
}

impl ComputeModel {
    /// What a request to run a kernel is answered.
    pub open spec fn refusal(self) -> Option<ComputeError> {
        if self.in_flight {
            Some(ComputeError::DispatchInFlight)
        } else if self.input is None {
            Some(ComputeError::NoDmabuf)
        } else {
            None
        }
    }

    /// The state after a request to run a kernel.
    pub open spec fn dispatched(self) -> ComputeModel {
        ComputeModel { in_flight: self.in_flight || self.input is Some, input: self.input }
    }

    /// The state without a buffer, and the objects that are given back, in this order.
    pub open spec fn released(self) -> (ComputeModel, Seq<Resource>) {
        (
            ComputeModel { in_flight: self.in_flight, input: None },
            match self.input {
                Some(input) => release_order(input.held),
                None => Seq::empty(),
            },
        )
    }

    /// The state after a buffer was taken over.
    pub open spec fn imported(self, info: ImageInfo, held: Seq<Resource>) -> ComputeModel {
        ComputeModel { in_flight: self.in_flight, input: Some(InputModel { info, held }) }
    }

    /// The size of a copy of the screen, in bytes.
    pub open spec fn copy_size(self) -> Result<int, ComputeError> {
        match self.input {
            None => Err(ComputeError::NoDmabuf),
            Some(input) => if input.info.stride == 0 || input.info.height == 0 {
                Err(ComputeError::EmptyDmabuf)
            } else {
                Ok(input.info.stride * input.info.height)
            },
        }
    }

    /// The state after the commands were handed to the device or refused by it.
    pub open spec fn submitted(self, accepted: bool) -> ComputeModel {
        ComputeModel { in_flight: self.in_flight && accepted, input: self.input }
    }

    /// The state after a run came to its end.
    pub open spec fn ended(self) -> ComputeModel {
        ComputeModel { in_flight: false, input: self.input }
    }
}

/// The result of a run: what the kernel left in its buffer, or all zeros.
pub open spec fn result_of(left: Option<ReturnBuffer>) -> ShaderResult {
    match left {
        Some(buffer) => ShaderResult::BorderColors(buffer.output()),
        None => ShaderResult::BorderColors(
            (border_colors::Output { sum_r: 0, sum_g: 0, sum_b: 0, pixel_count: 0 }),
        ),
    }
}

impl Compute {
    /// A device that has no buffer yet.
    pub fn new() -> (compute: Self)
        ensures
            compute@ == (ComputeModel { in_flight: false, input: None }),
    {
        Compute { in_flight: false, input: None }
    }

    /// Whether there is a run to wait for.
    pub fn wait_for_idle(&self) -> (wait: bool)
        ensures
            wait == self@.in_flight,
    {
        self.in_flight
    }

    fn release(&mut self) -> (destroy: Vec<Resource>)
        ensures
            (final(self)@, destroy@) == old(self)@.released(),
    {
        match self.input.take() {
            Some(input) => in_release_order(input.held),
            None => Vec::new(),
        }
    }

    /// Lets go of the buffer, in favour of another one that is about to be taken over.
    /// Its objects come out in the order in which they are to be given back. A run that
    /// is in flight is not waited for.
    pub fn set_dmabuf(&mut self) -> (destroy: Vec<Resource>)
        ensures
            (final(self)@, destroy@) == old(self)@.released(),
    {
        self.release()
    }

    /// Lets go of the screen's image, as soon as no run is in flight.
    pub fn set_screen_dmabuf(&mut self) -> (destroy: Vec<Resource>)
        requires
            !old(self)@.in_flight,
        ensures
            (final(self)@, destroy@) == old(self)@.released(),
    {
        self.release()
    }

    /// A buffer was taken over.
    pub fn imported(&mut self, info: ImageInfo, held: Vec<Resource>)
        ensures
            final(self)@ == old(self)@.imported(info, held@),
    {
        self.input = Some(Input { info, held });
    }

    /// The size of a copy of the screen, in bytes.
    pub fn copy_size(&self) -> (size: Result<u64, ComputeError>)
        ensures
            match (self@.copy_size(), size) {
                (Err(model), Err(error)) => error == model,
                (Ok(model), Ok(size)) => size == model && size > 0,
                _ => false,
            },
    {
        let info = match &self.input {
            Some(input) => input.info,
            None => {
                return Err(ComputeError::NoDmabuf);
            },
        };
        let (stride, height) = (info.stride as u64, info.height as u64);
        assert(stride * height <= u64::MAX && (stride * height == 0 <==> stride == 0 || height
            == 0)) by (nonlinear_arith)
            requires
                0 <= stride <= u32::MAX,
                0 <= height <= u32::MAX,
        ;
        let size: u64 = stride * height;
        if size == 0 {
            Err(ComputeError::EmptyDmabuf)
        } else {
            Ok(size)
        }
    }

    /// Starts a run of the border kernel.
    pub fn dispatch(&mut self) -> (started: Result<[u32; 4], ComputeError>)
        ensures
            final(self)@ == old(self)@.dispatched(),
            match started {
                Ok(words) => {
                    &&& old(self)@.refusal() is None
                    &&& words@ == border_colors::param_words(
                        border_colors::params_of(old(self)@.input->Some_0.info),
                    )
                },
                Err(error) => Some(error) == old(self)@.refusal(),
            },
    {
        self.dispatch_with(ShaderKind::BorderColors)
    }

    /// Starts a run of a kernel: its parameters come out. There is one run at a time, and
    /// none without a buffer.
    pub fn dispatch_with(&mut self, shader: ShaderKind) -> (started: Result<[u32; 4], ComputeError>)
        ensures
            final(self)@ == old(self)@.dispatched(),
            match started {
                Ok(words) => {
                    &&& old(self)@.refusal() is None
                    &&& words@ == border_colors::param_words(
                        border_colors::params_of(old(self)@.input->Some_0.info),
                    )
                },
                Err(error) => Some(error) == old(self)@.refusal(),
            },
    {
        if self.in_flight {
            return Err(ComputeError::DispatchInFlight);
        }
        let info = match &self.input {
            Some(input) => input.info,
            None => {
                return Err(ComputeError::NoDmabuf);
            },
        };
        self.in_flight = true;
        let mut scratch = DispatchScratch::default();
        Ok(prepare(shader, &mut scratch, info))
    }

    /// The commands of the run were recorded, or recording them failed with a code. After
    /// a failure the run still counts as in flight.
    pub fn recorded(&mut self, recorded: Result<(), i32>) -> (outcome: Result<(), ComputeError>)
        ensures
            final(self)@ == old(self)@,
            match recorded {
                Ok(_) => outcome is Ok,
                Err(code) => outcome == Err::<(), ComputeError>(ComputeError::VkResult(code)),
            },
    {
        match recorded {
            Ok(_) => Ok(()),
            Err(code) => Err(ComputeError::VkResult(code)),
        }
    }

    /// The commands of the run were handed to the device, or refused by it with a code.
    pub fn submitted(&mut self, submitted: Result<(), i32>) -> (outcome: Result<(), ComputeError>)
        ensures
            final(self)@ == old(self)@.submitted(submitted is Ok),
            match submitted {
                Ok(_) => outcome is Ok,
                Err(code) => outcome == Err::<(), ComputeError>(ComputeError::VkResult(code)),
            },
    {
        match submitted {
            Ok(_) => Ok(()),
            Err(code) => {
                self.in_flight = false;
                Err(ComputeError::VkResult(code))
            },
        }
    }

    /// The run came to its end. Its result is what the kernel left in its buffer, or all
    /// zeros where waiting for it failed.
    pub fn ended(&mut self, shader: ShaderKind, left: Option<ReturnBuffer>) -> (result: ShaderResult)
        ensures
            final(self)@ == old(self)@.ended(),
            result == result_of(left),
    {
        self.in_flight = false;
        match left {
            Some(buffer) => ShaderResult::readback(shader, buffer),
            None => ShaderResult::default(),
        }
    }
}

/// While a run is in flight no other one starts; once it has ended, the next one can.
pub proof fn one_run_at_a_time(compute: ComputeModel)
    requires
        compute.refusal() is None,
    ensures
        compute.dispatched().refusal() == Some(ComputeError::DispatchInFlight),
        compute.dispatched().submitted(true).refusal() == Some(ComputeError::DispatchInFlight),
        compute.dispatched().submitted(true).ended() == compute,
        compute.dispatched().submitted(false) == compute,
{
}

/// A request that is refused changes nothing.
pub proof fn refused_run_changes_nothing(compute: ComputeModel)
    requires
        compute.refusal() is Some,
    ensures
        compute.dispatched() == compute,
{
}

/// Giving a buffer back gives back all of its objects, and each once.
pub proof fn release_gives_everything_back(held: Seq<Resource>)
    ensures
        release_order(held).to_multiset() == held.to_multiset(),
{
    if held.len() > 0 && held.last() is ImageView {
        let (rest, view) = (held.drop_last(), seq![held.last()]);
        vstd::seq_lib::lemma_multiset_commutative(rest, view);
        vstd::seq_lib::lemma_multiset_commutative(view, rest);
        assert(held =~= rest + view);
        vstd::seq_lib::lemma_seq_union_to_multiset_commutative(rest, view);
    }
}

/// A view of an image is given back before the image that it shows; all else is given
/// back in the order in which it was made.
pub proof fn view_is_given_back_first(held: Seq<Resource>, i: int, j: int)
    requires
        0 <= i < j < held.len(),
    ensures
        ({
            let order = release_order(held);
            let viewed = held.last() is ImageView;
            &&& order.len() == held.len()
            &&& viewed ==> order[0] == held[held.len() - 1] && order[i + 1] == held[i]
            &&& !viewed ==> order[i] == held[i] && order[j] == held[j]
        }),
{
}

/// A buffer that is let go of is not run on any more, and one that is taken over is what
/// the next run reads. Neither touches a run that is in flight.
pub proof fn runs_read_the_buffer_taken_over_last(
    compute: ComputeModel,
    info: ImageInfo,
    held: Seq<Resource>,
)
    ensures
        compute.released().0.in_flight == compute.in_flight,
        compute.imported(info, held).in_flight == compute.in_flight,
        compute.in_flight ==> compute.released().0.refusal() == Some(
            ComputeError::DispatchInFlight,
        ),
        !compute.in_flight ==> compute.released().0.refusal() == Some(ComputeError::NoDmabuf),
        !compute.in_flight ==> compute.imported(info, held).refusal() is None,
        compute.imported(info, held).dispatched().input == Some(InputModel { info, held }),
        compute.imported(info, held).released().1.to_multiset() == held.to_multiset(),
        compute.released().0.released() == (compute.released().0, Seq::<Resource>::empty()),
{
    release_gives_everything_back(held);
}

/// A copy of the screen has room for every pixel of it, and ends with the last row.
pub proof fn copy_holds_every_pixel(compute: ComputeModel, x: int, y: int)
    requires
        compute.input is Some,
        0 <= x < compute.input->Some_0.info.width,
        0 <= y < compute.input->Some_0.info.height,
        4 * compute.input->Some_0.info.width <= compute.input->Some_0.info.stride,
    ensures
        compute.copy_size() is Ok,
        y * compute.input->Some_0.info.stride + 4 * x + 4 <= compute.copy_size()->Ok_0,
        y == compute.input->Some_0.info.height - 1 ==> compute.copy_size()->Ok_0 == (y + 1)
            * compute.input->Some_0.info.stride,
{
    let info = compute.input->Some_0.info;
    let (stride, height) = (info.stride as int, info.height as int);
    assert(y * stride + stride <= stride * height) by (nonlinear_arith)
        requires
            0 <= y < height,
            0 <= stride,
    ;
    assert((y + 1) * stride == stride * (y + 1)) by (nonlinear_arith);
}

/// There is nothing to copy without a buffer or without rows.
pub proof fn nothing_to_copy_is_told(compute: ComputeModel)
    ensures
        compute.input is None ==> compute.copy_size() == Err::<int, ComputeError>(
            ComputeError::NoDmabuf,
        ),
        compute.input is Some && compute.input->Some_0.info.height == 0 ==> compute.copy_size()
            == Err::<int, ComputeError>(ComputeError::EmptyDmabuf),
        compute.input is Some && compute.input->Some_0.info.stride == 0 ==> compute.copy_size()
            == Err::<int, ComputeError>(ComputeError::EmptyDmabuf),
{
}

/// A run whose end was not seen has no pixels; any other has the sums that the kernel
/// left.
pub proof fn run_gives_what_kernel_left(buffer: ReturnBuffer)
    ensures
        result_of(None)->BorderColors_0.pixel_count == 0,
        result_of(Some(buffer))->BorderColors_0.sum_r == buffer.sum_r,
        result_of(Some(buffer))->BorderColors_0.sum_g == buffer.sum_g,
        result_of(Some(buffer))->BorderColors_0.sum_b == buffer.sum_b,
        result_of(Some(buffer))->BorderColors_0.pixel_count == buffer.pixel_count,
{
}

} // verus!
