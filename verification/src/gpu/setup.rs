//! Making device objects step by step. A plan lists the steps; the caller performs one
//! after the other and reports what came of it. What a failed step takes down with it
//! is part of the plan.

use vstd::prelude::*;

use super::ComputeError;

verus! {

/// One step on the way to a set of device objects.
#[derive(Debug, Clone, Copy, PartialEq, Eq, Structural)]
pub enum Step {
    Library,
    Instance,
    PhysicalDevice,
    QueueFamily,
    ReadWithoutFormat,
    Device,
    ShaderCode,
    ShaderModule,
    SetLayout,
    PipelineLayout,
    Pipeline,
    DescriptorPool,
    DescriptorSet,
    CommandPool,
    CommandBuffer,
    Fence,
    Buffer,
    HostMemoryType,
    DeviceMemoryType,
    Memory,
    Bind,
    MapMemory,
    Image,
    PrepareImage,
    ImageView,
}

/// Something that has to be given back.
#[derive(Debug, Clone, Copy, PartialEq, Eq, Structural)]
pub enum Resource {
    Instance(u64),
    Device(u64),
    ShaderModule(u64),
    SetLayout(u64),
    PipelineLayout(u64),
    Pipeline(u64),
    DescriptorPool(u64),
    CommandPool(u64),
    CommandBuffer(u64),
    Fence(u64),
    Buffer(u64),
    Memory(u64),
    Mapping(u64),
    Image(u64),
    ImageView(u64),
}

/// What came of a step.
#[derive(Debug, Clone, Copy, PartialEq, Eq, Structural)]
pub enum Answer {
    /// It was done. The number is the handle of what was made, if anything was.
    Made(u64),
    /// There is none of what was looked for.
    Absent,
    /// The call failed with this code.
    Failed(i32),
}

/// Which of the objects a failed step takes down.
#[derive(Debug, Clone, Copy, PartialEq, Eq, Structural)]
pub enum Undo {
    Nothing,
    /// All of them, the newest first.
    NewestFirst,
    /// All of them, the oldest first.
    OldestFirst,
    /// All but the newest, the newest of those first.
    AllButNewest,
}

#[derive(Debug, Clone, Copy, PartialEq, Eq, Structural)]
pub struct PlannedStep {
    pub step: Step,
    /// What is taken down where the call fails.
    pub on_failed: Undo,
    /// What is taken down where nothing was found.
    pub on_absent: Undo,
}

/// How the plan goes on.
#[derive(Debug)]
pub enum Outcome {
    /// The next step is to be done.
    Next,
    /// All steps are done.
    Ready,
    /// The plan is given up.
    Failed(ComputeError),
}

#[derive(Debug)]
pub struct Advance {
    pub outcome: Outcome,
    /// What is to be given back now, in this order.
    pub destroy: Vec<Resource>,
}

impl Step {
    /// What the step makes, if it makes anything that has to be given back.
    pub open spec fn resource(self, handle: u64) -> Option<Resource> {
        match self {
            Step::Instance => Some(Resource::Instance(handle)),
            Step::Device => Some(Resource::Device(handle)),
            Step::ShaderModule => Some(Resource::ShaderModule(handle)),
            Step::SetLayout => Some(Resource::SetLayout(handle)),
            Step::PipelineLayout => Some(Resource::PipelineLayout(handle)),
            Step::Pipeline => Some(Resource::Pipeline(handle)),
            Step::DescriptorPool => Some(Resource::DescriptorPool(handle)),
            Step::CommandPool => Some(Resource::CommandPool(handle)),
            Step::CommandBuffer => Some(Resource::CommandBuffer(handle)),
            Step::Fence => Some(Resource::Fence(handle)),
            Step::Buffer => Some(Resource::Buffer(handle)),
            Step::Memory => Some(Resource::Memory(handle)),
            Step::MapMemory => Some(Resource::Mapping(handle)),
            Step::Image => Some(Resource::Image(handle)),
            Step::ImageView => Some(Resource::ImageView(handle)),
            _ => None,
        }
    }

    /// The error for a step that found nothing, if that can happen to it.
    pub open spec fn absence(self) -> Option<ComputeError> {
        match self {
            Step::PhysicalDevice => Some(ComputeError::NoPhysicalDevice),
            Step::QueueFamily => Some(ComputeError::NoComputeQueue),
            Step::ReadWithoutFormat => Some(ComputeError::MissingFeature),
            Step::Pipeline => Some(ComputeError::PipelineCreation),
            Step::DescriptorSet => Some(ComputeError::DescriptorAllocation),
            Step::HostMemoryType => Some(ComputeError::NoHostVisibleMemory),
            Step::DeviceMemoryType => Some(ComputeError::NoSuitableMemory),
            _ => None,
        }
    }

    /// The error for a call that failed.
    pub open spec fn failure(self, code: i32) -> ComputeError {
        match self {
            Step::Library => ComputeError::VkLibrary,
            Step::ShaderCode => ComputeError::ShaderRead,
            _ => ComputeError::VkResult(code),
        }
    }

    /// Whether the step can have this answer.
    pub open spec fn allows(self, answer: Answer) -> bool {
        answer is Absent ==> self.absence() is Some
    }

    fn make(self, handle: u64) -> (made: Option<Resource>)
        ensures
            made == self.resource(handle),
    {
        match self {
            Step::Instance => Some(Resource::Instance(handle)),
            Step::Device => Some(Resource::Device(handle)),
            Step::ShaderModule => Some(Resource::ShaderModule(handle)),
            Step::SetLayout => Some(Resource::SetLayout(handle)),
            Step::PipelineLayout => Some(Resource::PipelineLayout(handle)),
            Step::Pipeline => Some(Resource::Pipeline(handle)),
            Step::DescriptorPool => Some(Resource::DescriptorPool(handle)),
            Step::CommandPool => Some(Resource::CommandPool(handle)),
            Step::CommandBuffer => Some(Resource::CommandBuffer(handle)),
            Step::Fence => Some(Resource::Fence(handle)),
            Step::Buffer => Some(Resource::Buffer(handle)),
            Step::Memory => Some(Resource::Memory(handle)),
            Step::MapMemory => Some(Resource::Mapping(handle)),
            Step::Image => Some(Resource::Image(handle)),
            Step::ImageView => Some(Resource::ImageView(handle)),
            _ => None,
        }
    }

    fn absent(self) -> (error: ComputeError)
        requires
            self.absence() is Some,
        ensures
            Some(error) == self.absence(),
    {
        match self {
            Step::PhysicalDevice => ComputeError::NoPhysicalDevice,
            Step::QueueFamily => ComputeError::NoComputeQueue,
            Step::ReadWithoutFormat => ComputeError::MissingFeature,
            Step::Pipeline => ComputeError::PipelineCreation,
            Step::DescriptorSet => ComputeError::DescriptorAllocation,
            Step::HostMemoryType => ComputeError::NoHostVisibleMemory,
            _ => ComputeError::NoSuitableMemory,
        }
    }

    fn failed(self, code: i32) -> (error: ComputeError)
        ensures
            error == self.failure(code),
    {
        match self {
            Step::Library => ComputeError::VkLibrary,
            Step::ShaderCode => ComputeError::ShaderRead,
            _ => ComputeError::VkResult(code),
        }
    }
}

/// The objects that are taken down, in this order.
pub open spec fn undone(undo: Undo, live: Seq<Resource>) -> Seq<Resource> {
    match undo {
        Undo::Nothing => Seq::empty(),
        Undo::NewestFirst => live.reverse(),
        Undo::OldestFirst => live,
        Undo::AllButNewest => if live.len() == 0 {
            Seq::empty()
        } else {
            live.drop_last().reverse()
        },
    }
}

/// The objects that stay behind.
pub open spec fn left_over(undo: Undo, live: Seq<Resource>) -> Seq<Resource> {
    match undo {
        Undo::Nothing => live,
        Undo::NewestFirst => Seq::empty(),
        Undo::OldestFirst => Seq::empty(),
        Undo::AllButNewest => if live.len() == 0 {
            Seq::empty()
        } else {
            seq![live.last()]
        },
    }
}

/// The objects other than shader modules.
pub open spec fn without_modules(live: Seq<Resource>) -> Seq<Resource>
    decreases live.len(),
{
    if live.len() == 0 {
        Seq::empty()
    } else if live.last() is ShaderModule {
        without_modules(live.drop_last())
    } else {
        without_modules(live.drop_last()).push(live.last())
    }
}

/// The shader modules among the objects.
pub open spec fn modules(live: Seq<Resource>) -> Seq<Resource>
    decreases live.len(),
{
    if live.len() == 0 {
        Seq::empty()
    } else if live.last() is ShaderModule {
        modules(live.drop_last()).push(live.last())
    } else {
        modules(live.drop_last())
    }
}

/// Where a plan stands, as a value.
#[verifier::ext_equal]
pub struct SetupModel {
    /// The steps that are left, the current one first.
    pub left: Seq<PlannedStep>,
    /// What there is to give back, the oldest first.
    pub live: Seq<Resource>,
}

impl SetupModel {
    /// What there is after the current step was done. Once there is a pipeline, the
    /// shader module is of no more use.
    pub open spec fn live_after(self, handle: u64) -> Seq<Resource> {
        let step = self.left[0].step;
        let kept = if step is Pipeline {
            without_modules(self.live)
        } else {
            self.live
        };
        match step.resource(handle) {
            Some(resource) => kept.push(resource),
            None => kept,
        }
    }

    /// The state after the answer to the current step.
    pub open spec fn after(self, answer: Answer) -> SetupModel {
        match answer {
            Answer::Made(handle) => SetupModel {
                left: self.left.drop_first(),
                live: self.live_after(handle),
            },
            Answer::Absent => SetupModel {
                left: Seq::empty(),
                live: left_over(self.left[0].on_absent, self.live),
            },
            Answer::Failed(_) => SetupModel {
                left: Seq::empty(),
                live: left_over(self.left[0].on_failed, self.live),
            },
        }
    }

    /// What is given back on this answer, in this order.
    pub open spec fn destroyed(self, answer: Answer) -> Seq<Resource> {
        match answer {
            Answer::Made(_) => if self.left[0].step is Pipeline {
                modules(self.live)
            } else {
                Seq::empty()
            },
            Answer::Absent => undone(self.left[0].on_absent, self.live),
            Answer::Failed(_) => undone(self.left[0].on_failed, self.live),
        }
    }

    /// How the plan goes on.
    pub open spec fn outcome(self, answer: Answer) -> Outcome {
        match answer {
            Answer::Made(_) => if self.left.len() == 1 {
                Outcome::Ready
            } else {
                Outcome::Next
            },
            Answer::Absent => Outcome::Failed(self.left[0].step.absence()->Some_0),
            Answer::Failed(code) => Outcome::Failed(self.left[0].step.failure(code)),
        }
    }

    /// The state after all these answers.
    pub open spec fn run(self, answers: Seq<Answer>) -> SetupModel
        decreases answers.len(),
    {
        if answers.len() == 0 {
            self
        } else {
            self.run(answers.drop_last()).after(answers.last())
        }
    }
}

/// A plan that is being carried out.
#[derive(Debug)]
pub struct Setup {
    plan: Vec<PlannedStep>,
    next: usize,
    live: Vec<Resource>,
}

impl View for Setup {
    type V = SetupModel;

    closed spec fn view(&self) -> SetupModel {
        let left = if self.next <= self.plan@.len() {
            self.plan@.skip(self.next as int)
        } else {
            Seq::empty()
        };
        SetupModel { left, live: self.live@ }
    }
}

fn take_modules(live: &Vec<Resource>) -> (parts: (Vec<Resource>, Vec<Resource>))
    ensures
        parts.0@ == without_modules(live@),
        parts.1@ == modules(live@),
{
    let mut kept: Vec<Resource> = Vec::new();
    let mut taken: Vec<Resource> = Vec::new();
    let mut i: usize = 0;
    while i < live.len()
        invariant
            i <= live@.len(),
            kept@ == without_modules(live@.take(i as int)),
            taken@ == modules(live@.take(i as int)),
        decreases live@.len() - i,
    {
        assert(live@.take(i + 1).drop_last() =~= live@.take(i as int));
        let resource = live[i];
        match resource {
            Resource::ShaderModule(_) => taken.push(resource),
            _ => kept.push(resource),
        }
        i += 1;
    }
    assert(live@.take(i as int) =~= live@);
    (kept, taken)
}

fn undo_list(undo: Undo, live: &Vec<Resource>) -> (destroy: Vec<Resource>)
    ensures
        destroy@ == undone(undo, live@),
{
    let mut destroy: Vec<Resource> = Vec::new();
    match undo {
        Undo::Nothing => {},
        Undo::OldestFirst => {
            let mut i: usize = 0;
            while i < live.len()
                invariant
                    i <= live@.len(),
                    destroy@ == live@.take(i as int),
                decreases live@.len() - i,
            {
                destroy.push(live[i]);
                i += 1;
                assert(live@.take(i as int) =~= live@.take(i - 1).push(live@[i - 1]));
            }
            assert(live@.take(i as int) =~= live@);
        },
        _ => {
            let end: usize = if undo == Undo::AllButNewest && live.len() > 0 {
                live.len() - 1
            } else {
                live.len()
            };
            let mut i: usize = end;
            while i > 0
                invariant
                    i <= end <= live@.len(),
                    destroy@.len() == end - i,
                    forall|j: int| 0 <= j < end - i ==> destroy@[j] == live@[end - 1 - j],
                decreases i,
            {
                i -= 1;
                destroy.push(live[i]);
            }
            assert(destroy@ =~= undone(undo, live@));
        },
    }
    destroy
}

impl Setup {
    /// Starts a plan.
    pub fn new(plan: Vec<PlannedStep>) -> (setup: Self)
        ensures
            setup@ == (SetupModel { left: plan@, live: Seq::empty() }),
    {
        let setup = Setup { plan, next: 0, live: Vec::new() };
        assert(setup@.left =~= plan@);
        setup
    }

    /// The step that is to be done now.
    pub fn step(&self) -> (step: Option<Step>)
        ensures
            step == (if self@.left.len() == 0 {
                None
            } else {
                Some(self@.left[0].step)
            }),
    {
        if self.next < self.plan.len() {
            Some(self.plan[self.next].step)
        } else {
            None
        }
    }

    /// What has been made and is there, the oldest first.
    pub fn live(&self) -> (live: &Vec<Resource>)
        ensures
            live@ == self@.live,
    {
        &self.live
    }

    /// Ends the plan here. What is given back comes out, in this order.
    pub fn give_up(&mut self, undo: Undo) -> (destroy: Vec<Resource>)
        ensures
            final(self)@ == (SetupModel {
                left: Seq::empty(),
                live: left_over(undo, old(self)@.live),
            }),
            destroy@ == undone(undo, old(self)@.live),
    {
        let destroy = undo_list(undo, &self.live);
        match undo {
            Undo::Nothing => {},
            Undo::AllButNewest => {
                let mut kept: Vec<Resource> = Vec::new();
                if self.live.len() > 0 {
                    kept.push(self.live[self.live.len() - 1]);
                }
                self.live = kept;
            },
            _ => {
                self.live = Vec::new();
            },
        }
        self.next = self.plan.len();
        assert(self@.left =~= Seq::empty());
        assert(self@.live =~= left_over(undo, old(self)@.live));
        destroy
    }

    /// Takes the answer to the current step.
    pub fn advance(&mut self, answer: Answer) -> (advance: Advance)
        requires
            old(self)@.left.len() > 0,
            old(self)@.left[0].step.allows(answer),
        ensures
            final(self)@ == old(self)@.after(answer),
            advance.outcome == old(self)@.outcome(answer),
            advance.destroy@ == old(self)@.destroyed(answer),
    {
        let count: usize = self.plan.len();
        let planned = self.plan[self.next];
        assert(self@.left[0] == planned);
        assert(self.next < count);
        match answer {
            Answer::Made(handle) => {
                let mut destroy: Vec<Resource> = Vec::new();
                if planned.step == Step::Pipeline {
                    let (kept, taken) = take_modules(&self.live);
                    self.live = kept;
                    destroy = taken;
                }
                if let Some(resource) = planned.step.make(handle) {
                    self.live.push(resource);
                }
                self.next += 1;
                assert(self@.left =~= old(self)@.left.drop_first());
                let outcome = if self.next < self.plan.len() {
                    Outcome::Next
                } else {
                    Outcome::Ready
                };
                Advance { outcome, destroy }
            },
            Answer::Absent => {
                let destroy = self.give_up(planned.on_absent);
                Advance { outcome: Outcome::Failed(planned.step.absent()), destroy }
            },
            Answer::Failed(code) => {
                let destroy = self.give_up(planned.on_failed);
                Advance { outcome: Outcome::Failed(planned.step.failed(code)), destroy }
            },
        }
    }
}

proof fn parts_make_whole(live: Seq<Resource>)
    ensures
        without_modules(live).to_multiset().add(modules(live).to_multiset())
            =~= live.to_multiset(),
    decreases live.len(),
{
    broadcast use vstd::seq_lib::group_to_multiset_ensures;

    if live.len() > 0 {
        parts_make_whole(live.drop_last());
        assert(live =~= live.drop_last().push(live.last()));
    } else {
        assert(without_modules(live) =~= live);
        assert(modules(live) =~= live);
    }
}

proof fn undo_parts_make_whole(undo: Undo, live: Seq<Resource>)
    ensures
        undone(undo, live).to_multiset().add(left_over(undo, live).to_multiset())
            =~= live.to_multiset(),
{
    broadcast use vstd::seq_lib::group_to_multiset_ensures;

    let none = Seq::<Resource>::empty();
    assert(none.to_multiset() =~= vstd::multiset::Multiset::empty());
    live.lemma_reverse_to_multiset();
    if undo is AllButNewest && live.len() > 0 {
        live.drop_last().lemma_reverse_to_multiset();
        assert(live =~= live.drop_last().push(live.last()));
        assert(seq![live.last()] =~= none.push(live.last()));
    }
}

/// Nothing gets lost and nothing is given back twice: what there was before a step,
/// with what the step made, is what is given back and what is there after it.
pub proof fn every_object_is_accounted_for(setup: SetupModel, answer: Answer)
    requires
        setup.left.len() > 0,
    ensures
        setup.destroyed(answer).to_multiset().add(setup.after(answer).live.to_multiset()) == (
        match answer {
            Answer::Made(handle) => match setup.left[0].step.resource(handle) {
                Some(resource) => setup.live.to_multiset().insert(resource),
                None => setup.live.to_multiset(),
            },
            _ => setup.live.to_multiset(),
        }),
{
    broadcast use vstd::seq_lib::group_to_multiset_ensures;

    let none = Seq::<Resource>::empty();
    assert(none.to_multiset() =~= vstd::multiset::Multiset::empty());
    parts_make_whole(setup.live);
    undo_parts_make_whole(setup.left[0].on_absent, setup.live);
    undo_parts_make_whole(setup.left[0].on_failed, setup.live);
    match answer {
        Answer::Made(handle) => {
            let kept = if setup.left[0].step is Pipeline {
                without_modules(setup.live)
            } else {
                setup.live
            };
            assert(setup.destroyed(answer).to_multiset().add(kept.to_multiset())
                =~= setup.live.to_multiset());
            match setup.left[0].step.resource(handle) {
                Some(resource) => {
                    assert(setup.destroyed(answer).to_multiset().add(
                        setup.after(answer).live.to_multiset(),
                    ) =~= setup.live.to_multiset().insert(resource));
                },
                None => {},
            }
        },
        _ => {},
    }
}

/// A plan is through when all its steps were done, and not before.
pub proof fn plan_takes_all_its_steps(plan: Seq<PlannedStep>, answers: Seq<Answer>)
    requires
        answers.len() <= plan.len(),
        forall|i: int| 0 <= i < answers.len() ==> #[trigger] answers[i] is Made,
    ensures
        (SetupModel { left: plan, live: Seq::empty() }).run(answers).left == plan.skip(
            answers.len() as int,
        ),
    decreases answers.len(),
{
    if answers.len() == 0 {
        assert(plan.skip(0) =~= plan);
    } else {
        plan_takes_all_its_steps(plan, answers.drop_last());
        let before = plan.skip(answers.len() - 1);
        assert(answers.last() is Made);
        assert(before.drop_first() =~= plan.skip(answers.len() as int));
    }
}

/// The first step that is not done ends the plan.
pub proof fn first_failure_ends_plan(setup: SetupModel, answer: Answer)
    requires
        setup.left.len() > 0,
        !(answer is Made),
    ensures
        setup.after(answer).left.len() == 0,
        setup.outcome(answer) is Failed,
{
}

proof fn modules_are_parted(live: Seq<Resource>)
    ensures
        forall|i: int|
            0 <= i < without_modules(live).len() ==> !(
            #[trigger] without_modules(live)[i] is ShaderModule),
        forall|i: int| 0 <= i < modules(live).len() ==> #[trigger] modules(live)[i] is ShaderModule,
    decreases live.len(),
{
    if live.len() > 0 {
        modules_are_parted(live.drop_last());
    }
}

/// A pipeline takes the place of the shader modules: they are given back, and they alone.
/// No other step that is done gives anything back.
pub proof fn pipeline_replaces_shader_modules(setup: SetupModel, handle: u64)
    requires
        setup.left.len() > 0,
    ensures
        ({
            let answer = Answer::Made(handle);
            let (given, live) = (setup.destroyed(answer), setup.after(answer).live);
            &&& setup.left[0].step is Pipeline ==> {
                &&& live.last() == Resource::Pipeline(handle)
                &&& forall|i: int| 0 <= i < live.len() ==> !(#[trigger] live[i] is ShaderModule)
                &&& forall|i: int| 0 <= i < given.len() ==> #[trigger] given[i] is ShaderModule
            }
            &&& !(setup.left[0].step is Pipeline) ==> given.len() == 0 && setup.live.is_prefix_of(
                live,
            )
        }),
{
    modules_are_parted(setup.live);
    let live = setup.after(Answer::Made(handle)).live;
    if setup.left[0].step is Pipeline {
        let kept = without_modules(setup.live);
        assert forall|i: int| 0 <= i < live.len() implies !(#[trigger] live[i] is ShaderModule) by {
            if i < kept.len() {
                assert(live[i] == kept[i]);
            }
        }
    }
}

/// Objects made by different steps, or under different handles, are told apart.
pub proof fn made_objects_are_told_apart(a: Step, b: Step, handle: u64, other: u64)
    requires
        a.resource(handle) is Some,
        a.resource(handle) == b.resource(other),
    ensures
        a == b,
        handle == other,
{
}

/// A call that failed is reported with its code, unless it was the library or the shader's
/// code that could not be read.
pub proof fn failed_call_is_reported_with_its_code(setup: SetupModel, code: i32)
    requires
        setup.left.len() > 0,
    ensures
        setup.left[0].step is Library ==> setup.outcome(Answer::Failed(code)) == Outcome::Failed(
            ComputeError::VkLibrary,
        ),
        setup.left[0].step is ShaderCode ==> setup.outcome(Answer::Failed(code))
            == Outcome::Failed(ComputeError::ShaderRead),
        !(setup.left[0].step is Library) && !(setup.left[0].step is ShaderCode) ==> setup.outcome(
            Answer::Failed(code),
        ) == Outcome::Failed(ComputeError::VkResult(code)),
{
}

/// What could not be found is named in the report.
pub proof fn missing_thing_is_named(setup: SetupModel)
    requires
        setup.left.len() > 0,
        setup.left[0].step.allows(Answer::Absent),
    ensures
        ({
            let error = setup.outcome(Answer::Absent)->Failed_0;
            match setup.left[0].step {
                Step::PhysicalDevice => error is NoPhysicalDevice,
                Step::QueueFamily => error is NoComputeQueue,
                Step::ReadWithoutFormat => error is MissingFeature,
                Step::Pipeline => error is PipelineCreation,
                Step::DescriptorSet => error is DescriptorAllocation,
                Step::HostMemoryType => error is NoHostVisibleMemory,
                step => step is DeviceMemoryType && error is NoSuitableMemory,
            }
        }),
{
}

/// The order in which objects are taken down: each before those that are older, or after
/// them, or not at all, as the plan says.
pub proof fn objects_are_undone_as_planned(live: Seq<Resource>, i: int)
    requires
        0 <= i < live.len(),
    ensures
        undone(Undo::NewestFirst, live).len() == live.len(),
        undone(Undo::NewestFirst, live)[i] == live[live.len() - 1 - i],
        left_over(Undo::NewestFirst, live).len() == 0,
        undone(Undo::OldestFirst, live) == live,
        left_over(Undo::OldestFirst, live).len() == 0,
        undone(Undo::Nothing, live).len() == 0,
        left_over(Undo::Nothing, live) == live,
        undone(Undo::AllButNewest, live).len() == live.len() - 1,
        i > 0 ==> undone(Undo::AllButNewest, live)[i - 1] == live[live.len() - 1 - i],
        left_over(Undo::AllButNewest, live) == seq![live[live.len() - 1]],
{
}

} // verus!
