//! The plans by which the device objects are made, and the order in which they are
//! taken down.

use vstd::prelude::*;

use super::setup;
use super::setup::{PlannedStep, Resource, Step, Undo};

verus! {

/// The size of the buffer that a kernel writes its sums to, in bytes.
pub const OUTPUT_SIZE: u64 = 48;

/// The size of the parameters that a kernel is given, in bytes.
pub const PARAMS_SIZE: u32 = 16;

/// The binding that a kernel reads the screen from.
pub const INPUT_BINDING: u32 = 0;

/// The binding that a kernel writes its sums to.
pub const OUTPUT_BINDING: u32 = 1;

/// A step whose failure takes nothing down.
pub open spec fn bare(step: Step) -> PlannedStep {
    PlannedStep { step, on_failed: Undo::Nothing, on_absent: Undo::Nothing }
}

/// A step whose failed call takes everything down.
pub open spec fn clean(step: Step) -> PlannedStep {
    PlannedStep { step, on_failed: Undo::NewestFirst, on_absent: Undo::Nothing }
}

/// A device with one kernel on buffers, in one go. A failure leaves all behind.
pub open spec fn compute_steps() -> Seq<PlannedStep> {
    seq![
        bare(Step::Library),
        bare(Step::Instance),
        bare(Step::PhysicalDevice),
        bare(Step::QueueFamily),
        bare(Step::Device),
        bare(Step::ShaderCode),
        bare(Step::ShaderModule),
        bare(Step::SetLayout),
        bare(Step::PipelineLayout),
        bare(Step::Pipeline),
        bare(Step::DescriptorPool),
        bare(Step::DescriptorSet),
        bare(Step::CommandPool),
        bare(Step::CommandBuffer),
        bare(Step::Fence),
        bare(Step::Buffer),
        bare(Step::HostMemoryType),
        bare(Step::Memory),
        bare(Step::Bind),
        bare(Step::MapMemory),
    ]
}

/// A device that can read images of any format.
pub open spec fn device_steps() -> Seq<PlannedStep> {
    seq![
        bare(Step::Library),
        bare(Step::Instance),
        bare(Step::PhysicalDevice),
        bare(Step::QueueFamily),
        bare(Step::ReadWithoutFormat),
        bare(Step::Device),
    ]
}

/// A kernel and the buffer for its sums.
pub open spec fn shader_steps() -> Seq<PlannedStep> {
    seq![
        bare(Step::SetLayout),
        bare(Step::PipelineLayout),
        bare(Step::ShaderCode),
        bare(Step::ShaderModule),
        clean(Step::Pipeline),
        bare(Step::DescriptorPool),
        clean(Step::DescriptorSet),
        clean(Step::Buffer),
        PlannedStep {
            step: Step::HostMemoryType,
            on_failed: Undo::Nothing,
            on_absent: Undo::AllButNewest,
        },
        clean(Step::Memory),
        clean(Step::Bind),
        clean(Step::MapMemory),
    ]
}

/// What commands are recorded and waited for with.
pub open spec fn command_steps() -> Seq<PlannedStep> {
    seq![bare(Step::CommandPool), bare(Step::CommandBuffer), bare(Step::Fence)]
}

/// A shared buffer as a storage buffer.
pub open spec fn buffer_import_steps() -> Seq<PlannedStep> {
    seq![
        bare(Step::Buffer),
        bare(Step::DeviceMemoryType),
        clean(Step::Memory),
        bare(Step::Bind),
    ]
}

/// A step whose failed call takes everything down, the oldest first.
pub open spec fn swept(step: Step) -> PlannedStep {
    PlannedStep { step, on_failed: Undo::OldestFirst, on_absent: Undo::Nothing }
}

/// A shared buffer as an image.
pub open spec fn image_import_steps() -> Seq<PlannedStep> {
    seq![
        bare(Step::Image),
        bare(Step::DeviceMemoryType),
        clean(Step::Memory),
        swept(Step::Bind),
        swept(Step::PrepareImage),
        swept(Step::ImageView),
    ]
}

fn plain(step: Step) -> (planned: PlannedStep)
    ensures
        planned == bare(step),
{
    PlannedStep { step, on_failed: Undo::Nothing, on_absent: Undo::Nothing }
}

fn cleaning(step: Step) -> (planned: PlannedStep)
    ensures
        planned == clean(step),
{
    PlannedStep { step, on_failed: Undo::NewestFirst, on_absent: Undo::Nothing }
}

fn sweeping(step: Step) -> (planned: PlannedStep)
    ensures
        planned == swept(step),
{
    PlannedStep { step, on_failed: Undo::OldestFirst, on_absent: Undo::Nothing }
}

/// The plan for a device with one kernel on buffers.
pub fn compute_plan() -> (plan: Vec<PlannedStep>)
    ensures
        plan@ == compute_steps(),
{
    let plan = vec![
        plain(Step::Library),
        plain(Step::Instance),
        plain(Step::PhysicalDevice),
        plain(Step::QueueFamily),
        plain(Step::Device),
        plain(Step::ShaderCode),
        plain(Step::ShaderModule),
        plain(Step::SetLayout),
        plain(Step::PipelineLayout),
        plain(Step::Pipeline),
        plain(Step::DescriptorPool),
        plain(Step::DescriptorSet),
        plain(Step::CommandPool),
        plain(Step::CommandBuffer),
        plain(Step::Fence),
        plain(Step::Buffer),
        plain(Step::HostMemoryType),
        plain(Step::Memory),
        plain(Step::Bind),
        plain(Step::MapMemory),
    ];
    assert(plan@ =~= compute_steps());
    plan
}

/// The plan for a device that reads images.
pub fn device_plan() -> (plan: Vec<PlannedStep>)
    ensures
        plan@ == device_steps(),
{
    let plan = vec![
        plain(Step::Library),
        plain(Step::Instance),
        plain(Step::PhysicalDevice),
        plain(Step::QueueFamily),
        plain(Step::ReadWithoutFormat),
        plain(Step::Device),
    ];
    assert(plan@ =~= device_steps());
    plan
}

/// The plan for a kernel and the buffer for its sums.
pub fn shader_plan() -> (plan: Vec<PlannedStep>)
    ensures
        plan@ == shader_steps(),
{
    let plan = vec![
        plain(Step::SetLayout),
        plain(Step::PipelineLayout),
        plain(Step::ShaderCode),
        plain(Step::ShaderModule),
        cleaning(Step::Pipeline),
        plain(Step::DescriptorPool),
        cleaning(Step::DescriptorSet),
        cleaning(Step::Buffer),
        PlannedStep {
            step: Step::HostMemoryType,
            on_failed: Undo::Nothing,
            on_absent: Undo::AllButNewest,
        },
        cleaning(Step::Memory),
        cleaning(Step::Bind),
        cleaning(Step::MapMemory),
    ];
    assert(plan@ =~= shader_steps());
    plan
}

/// The plan for what commands are recorded and waited for with.
pub fn command_plan() -> (plan: Vec<PlannedStep>)
    ensures
        plan@ == command_steps(),
{
    let plan = vec![plain(Step::CommandPool), plain(Step::CommandBuffer), plain(Step::Fence)];
    assert(plan@ =~= command_steps());
    plan
}

/// The plan for a shared buffer as a storage buffer.
pub fn buffer_import_plan() -> (plan: Vec<PlannedStep>)
    ensures
        plan@ == buffer_import_steps(),
{
    let plan = vec![
        plain(Step::Buffer),
        plain(Step::DeviceMemoryType),
        cleaning(Step::Memory),
        plain(Step::Bind),
    ];
    assert(plan@ =~= buffer_import_steps());
    plan
}

/// The plan for a shared buffer as an image.
pub fn image_import_plan() -> (plan: Vec<PlannedStep>)
    ensures
        plan@ == image_import_steps(),
{
    let plan = vec![
        plain(Step::Image),
        plain(Step::DeviceMemoryType),
        cleaning(Step::Memory),
        sweeping(Step::Bind),
        sweeping(Step::PrepareImage),
        sweeping(Step::ImageView),
    ];
    assert(plan@ =~= image_import_steps());
    plan
}

/// The extensions that the device is made with: two for buffers, four more for images.
pub open spec fn extension_names(images: bool) -> Seq<Seq<char>> {
    let buffers = seq!["VK_KHR_external_memory"@, "VK_KHR_external_memory_fd"@];
    if images {
        buffers + seq![
            "VK_KHR_bind_memory2"@,
            "VK_EXT_image_drm_format_modifier"@,
            "VK_EXT_external_memory_dma_buf"@,
            "VK_KHR_dedicated_allocation"@,
        ]
    } else {
        buffers
    }
}

/// The extensions that the device is made with.
pub fn device_extensions(images: bool) -> (names: Vec<&'static str>)
    ensures
        names@.len() == extension_names(images).len(),
        forall|i: int| 0 <= i < names@.len() ==> (#[trigger] names@[i])@ == extension_names(images)[i],
{
    if images {
        vec![
            "VK_KHR_external_memory",
            "VK_KHR_external_memory_fd",
            "VK_KHR_bind_memory2",
            "VK_EXT_image_drm_format_modifier",
            "VK_EXT_external_memory_dma_buf",
            "VK_KHR_dedicated_allocation",
        ]
    } else {
        vec!["VK_KHR_external_memory", "VK_KHR_external_memory_fd"]
    }
}

/// The order in which the objects are taken down: the newest first, but a buffer before
/// the memory that is bound to it, and a mapping before both.
pub open spec fn teardown_order(live: Seq<Resource>) -> Seq<Resource> {
    let n = live.len() as int;
    if n >= 3 && live[n - 1] is Mapping {
        seq![live[n - 1], live[n - 3], live[n - 2]] + live.take(n - 3).reverse()
    } else {
        live.reverse()
    }
}

/// The objects in the order in which they are taken down.
pub fn teardown(live: &[Resource]) -> (order: Vec<Resource>)
    ensures
        order@ == teardown_order(live@),
{
    let n: usize = live.len();
    let mut order: Vec<Resource> = Vec::new();
    let mut end: usize = n;
    let mapped = n >= 3 && matches!(live[n - 1], Resource::Mapping(_));
    if mapped {
        order.push(live[n - 1]);
        order.push(live[n - 3]);
        order.push(live[n - 2]);
        end = n - 3;
    }
    let ghost head = order@;
    let mut i: usize = end;
    while i > 0
        invariant
            i <= end <= n == live@.len(),
            order@.len() == head.len() + (end - i),
            forall|j: int| 0 <= j < head.len() ==> order@[j] == head[j],
            forall|j: int|
                0 <= j < end - i ==> #[trigger] order@[head.len() + j] == live@[end - 1 - j],
        decreases i,
    {
        i -= 1;
        order.push(live[i]);
        assert(order@[head.len() + (end - i - 1)] == live@[i as int]);
    }
    proof {
        let rest = live@.take(end as int).reverse();
        assert(order@.len() == head.len() + rest.len());
        assert forall|j: int| 0 <= j < rest.len() implies order@[head.len() + j] == rest[j] by {
            assert(rest[j] == live@[end - 1 - j]);
        }
        assert(order@ =~= head + rest);
        if mapped {
            assert(head =~= seq![live@[n - 1], live@[n - 3], live@[n - 2]]);
        } else {
            assert(live@.take(end as int) =~= live@);
            assert(head =~= Seq::empty());
            assert(order@ =~= live@.reverse());
        }
    }
    order
}

/// Taking down gives everything back, and everything once.
pub proof fn teardown_gives_everything_back(live: Seq<Resource>)
    ensures
        teardown_order(live).to_multiset() == live.to_multiset(),
{
    broadcast use vstd::seq_lib::group_to_multiset_ensures;

    let n = live.len() as int;
    live.lemma_reverse_to_multiset();
    if n >= 3 && live[n - 1] is Mapping {
        let rest = live.take(n - 3);
        rest.lemma_reverse_to_multiset();
        let ends = seq![live[n - 1], live[n - 3], live[n - 2]];
        vstd::seq_lib::lemma_multiset_commutative(ends, rest.reverse());
        let tail = seq![live[n - 3], live[n - 2], live[n - 1]];
        assert(live =~= rest + tail);
        vstd::seq_lib::lemma_multiset_commutative(rest, tail);
        let none = Seq::<Resource>::empty();
        assert(ends =~= none.push(live[n - 1]).push(live[n - 3]).push(live[n - 2]));
        assert(tail =~= none.push(live[n - 3]).push(live[n - 2]).push(live[n - 1]));
        assert(ends.to_multiset() =~= tail.to_multiset());
        assert(teardown_order(live).to_multiset() =~= live.to_multiset());
    }
}

/// What a device with one kernel holds once its plan is through.
pub proof fn completed_compute_holds(handles: Seq<u64>)
    requires
        handles.len() == compute_steps().len(),
    ensures
        (setup::SetupModel { left: compute_steps(), live: Seq::empty() }).run(
            handles.map_values(|handle: u64| setup::Answer::Made(handle)),
        ).live == seq![
            Resource::Instance(handles[1]),
            Resource::Device(handles[4]),
            Resource::SetLayout(handles[7]),
            Resource::PipelineLayout(handles[8]),
            Resource::Pipeline(handles[9]),
            Resource::DescriptorPool(handles[10]),
            Resource::CommandPool(handles[12]),
            Resource::CommandBuffer(handles[13]),
            Resource::Fence(handles[14]),
            Resource::Buffer(handles[15]),
            Resource::Memory(handles[17]),
            Resource::Mapping(handles[19]),
        ],
{
    let start = setup::SetupModel { left: compute_steps(), live: Seq::empty() };
    let answers = handles.map_values(|handle: u64| setup::Answer::Made(handle));
    let a = Seq::new(21, |k: int| start.run(answers.take(k)));
    assert forall|k: int| 0 < k <= 20 implies #[trigger] a[k] == a[k - 1].after(
        answers[k - 1],
    ) by {
        assert(answers.take(k).drop_last() =~= answers.take(k - 1));
        assert(answers.take(k).last() == answers[k - 1]);
    }
    assert forall|k: int| 0 <= k <= 20 implies #[trigger] a[k].left == compute_steps().skip(k) by {
        setup::plan_takes_all_its_steps(compute_steps(), answers.take(k));
    }
    assert(answers.take(0) =~= Seq::empty());
    assert(a[0] == start);
    assert(a[1].live =~= Seq::empty());
    assert(a[2].live =~= seq![Resource::Instance(handles[1])]);
    assert(a[3].live =~= a[2].live);
    assert(a[4].live =~= a[2].live);
    assert(a[5].live =~= seq![Resource::Instance(handles[1]), Resource::Device(handles[4])]);
    assert(a[6].live =~= a[5].live);
    assert(a[7].live =~= a[5].live.push(Resource::ShaderModule(handles[6])));
    assert(a[8].live =~= a[7].live.push(Resource::SetLayout(handles[7])));
    assert(a[9].live =~= a[8].live.push(Resource::PipelineLayout(handles[8])));
    let kept = seq![
        Resource::Instance(handles[1]),
        Resource::Device(handles[4]),
        Resource::SetLayout(handles[7]),
        Resource::PipelineLayout(handles[8]),
    ];
    assert(setup::without_modules(a[9].live) =~= kept) by {
        reveal_with_fuel(setup::without_modules, 6);
        let live = a[9].live;
        assert(live.drop_last() =~= a[8].live);
        assert(a[8].live.drop_last() =~= a[7].live);
        assert(a[7].live.drop_last() =~= a[5].live);
        assert(a[5].live.drop_last() =~= a[2].live);
        assert(a[2].live.drop_last() =~= Seq::empty());
    }
    assert(a[10].live =~= kept.push(Resource::Pipeline(handles[9])));
    assert(a[11].live =~= a[10].live.push(Resource::DescriptorPool(handles[10])));
    assert(a[12].live =~= a[11].live);
    assert(a[13].live =~= a[11].live.push(Resource::CommandPool(handles[12])));
    assert(a[14].live =~= a[13].live.push(Resource::CommandBuffer(handles[13])));
    assert(a[15].live =~= a[14].live.push(Resource::Fence(handles[14])));
    assert(a[16].live =~= a[15].live.push(Resource::Buffer(handles[15])));
    assert(a[17].live =~= a[16].live);
    assert(a[18].live =~= a[16].live.push(Resource::Memory(handles[17])));
    assert(a[19].live =~= a[18].live);
    assert(a[20].live =~= a[18].live.push(Resource::Mapping(handles[19])));
    assert(answers.take(20) =~= answers);
}

/// A kernel whose set-up fails at its pipeline, at its descriptors or at its buffer
/// leaves nothing behind, whatever was made before.
pub proof fn failed_kernel_leaves_nothing(done: int, live: Seq<Resource>, code: i32)
    requires
        0 <= done < shader_steps().len(),
        shader_steps()[done].step is Pipeline || shader_steps()[done].step is DescriptorSet
            || done >= 7,
        !(shader_steps()[done].step is HostMemoryType),
    ensures
        ({
            let model = setup::SetupModel { left: shader_steps().skip(done), live };
            let answer = setup::Answer::Failed(code);
            &&& model.destroyed(answer) == live.reverse()
            &&& model.after(answer).live == Seq::<Resource>::empty()
        }),
{
}

/// What a device that reads images holds once its plan is through.
pub proof fn completed_device_holds(handles: Seq<u64>)
    requires
        handles.len() == device_steps().len(),
    ensures
        (setup::SetupModel { left: device_steps(), live: Seq::empty() }).run(
            handles.map_values(|handle: u64| setup::Answer::Made(handle)),
        ).live == seq![
            Resource::Instance(handles[1]),
            Resource::Device(handles[5]),
        ],
{
    let start = setup::SetupModel { left: device_steps(), live: Seq::empty() };
    let answers = handles.map_values(|handle: u64| setup::Answer::Made(handle));
    let a = Seq::new(7, |k: int| start.run(answers.take(k)));
    assert forall|k: int| 0 < k <= 6 implies #[trigger] a[k] == a[k - 1].after(
        answers[k - 1],
    ) by {
        assert(answers.take(k).drop_last() =~= answers.take(k - 1));
        assert(answers.take(k).last() == answers[k - 1]);
    }
    assert forall|k: int| 0 <= k <= 6 implies #[trigger] a[k].left == device_steps().skip(k) by {
        setup::plan_takes_all_its_steps(device_steps(), answers.take(k));
    }
    assert(answers.take(0) =~= Seq::empty());
    assert(a[0] == start);
    assert(a[1].live =~= Seq::empty());
    assert(a[2].live =~= seq![Resource::Instance(handles[1])]);
    assert(a[3].live =~= a[2].live);
    assert(a[4].live =~= a[2].live);
    assert(a[5].live =~= a[2].live);
    assert(a[6].live =~= a[2].live.push(Resource::Device(handles[5])));
    assert(answers.take(6) =~= answers);
}

/// What commands are recorded and waited for with, once the plan is through.
pub proof fn completed_commands_hold(handles: Seq<u64>)
    requires
        handles.len() == command_steps().len(),
    ensures
        (setup::SetupModel { left: command_steps(), live: Seq::empty() }).run(
            handles.map_values(|handle: u64| setup::Answer::Made(handle)),
        ).live == seq![
            Resource::CommandPool(handles[0]),
            Resource::CommandBuffer(handles[1]),
            Resource::Fence(handles[2]),
        ],
{
    let start = setup::SetupModel { left: command_steps(), live: Seq::empty() };
    let answers = handles.map_values(|handle: u64| setup::Answer::Made(handle));
    let a = Seq::new(4, |k: int| start.run(answers.take(k)));
    assert forall|k: int| 0 < k <= 3 implies #[trigger] a[k] == a[k - 1].after(
        answers[k - 1],
    ) by {
        assert(answers.take(k).drop_last() =~= answers.take(k - 1));
        assert(answers.take(k).last() == answers[k - 1]);
    }
    assert forall|k: int| 0 <= k <= 3 implies #[trigger] a[k].left == command_steps().skip(k) by {
        setup::plan_takes_all_its_steps(command_steps(), answers.take(k));
    }
    assert(answers.take(0) =~= Seq::empty());
    assert(a[0] == start);
    assert(a[1].live =~= seq![Resource::CommandPool(handles[0])]);
    assert(a[2].live =~= a[1].live.push(Resource::CommandBuffer(handles[1])));
    assert(a[3].live =~= a[2].live.push(Resource::Fence(handles[2])));
    assert(answers.take(3) =~= answers);
}

/// What a storage buffer that was taken over consists of.
pub proof fn completed_buffer_import_holds(handles: Seq<u64>)
    requires
        handles.len() == buffer_import_steps().len(),
    ensures
        (setup::SetupModel { left: buffer_import_steps(), live: Seq::empty() }).run(
            handles.map_values(|handle: u64| setup::Answer::Made(handle)),
        ).live == seq![
            Resource::Buffer(handles[0]),
            Resource::Memory(handles[2]),
        ],
{
    let start = setup::SetupModel { left: buffer_import_steps(), live: Seq::empty() };
    let answers = handles.map_values(|handle: u64| setup::Answer::Made(handle));
    let a = Seq::new(5, |k: int| start.run(answers.take(k)));
    assert forall|k: int| 0 < k <= 4 implies #[trigger] a[k] == a[k - 1].after(
        answers[k - 1],
    ) by {
        assert(answers.take(k).drop_last() =~= answers.take(k - 1));
        assert(answers.take(k).last() == answers[k - 1]);
    }
    assert forall|k: int| 0 <= k <= 4 implies #[trigger] a[k].left == buffer_import_steps().skip(k) by {
        setup::plan_takes_all_its_steps(buffer_import_steps(), answers.take(k));
    }
    assert(answers.take(0) =~= Seq::empty());
    assert(a[0] == start);
    assert(a[1].live =~= seq![Resource::Buffer(handles[0])]);
    assert(a[2].live =~= a[1].live);
    assert(a[3].live =~= a[2].live.push(Resource::Memory(handles[2])));
    assert(a[4].live =~= a[3].live);
    assert(answers.take(4) =~= answers);
}

/// What an image that was taken over consists of, its view last.
pub proof fn completed_image_import_holds(handles: Seq<u64>)
    requires
        handles.len() == image_import_steps().len(),
    ensures
        (setup::SetupModel { left: image_import_steps(), live: Seq::empty() }).run(
            handles.map_values(|handle: u64| setup::Answer::Made(handle)),
        ).live == seq![
            Resource::Image(handles[0]),
            Resource::Memory(handles[2]),
            Resource::ImageView(handles[5]),
        ],
{
    let start = setup::SetupModel { left: image_import_steps(), live: Seq::empty() };
    let answers = handles.map_values(|handle: u64| setup::Answer::Made(handle));
    let a = Seq::new(7, |k: int| start.run(answers.take(k)));
    assert forall|k: int| 0 < k <= 6 implies #[trigger] a[k] == a[k - 1].after(
        answers[k - 1],
    ) by {
        assert(answers.take(k).drop_last() =~= answers.take(k - 1));
        assert(answers.take(k).last() == answers[k - 1]);
    }
    assert forall|k: int| 0 <= k <= 6 implies #[trigger] a[k].left == image_import_steps().skip(k) by {
        setup::plan_takes_all_its_steps(image_import_steps(), answers.take(k));
    }
    assert(answers.take(0) =~= Seq::empty());
    assert(a[0] == start);
    assert(a[1].live =~= seq![Resource::Image(handles[0])]);
    assert(a[2].live =~= a[1].live);
    assert(a[3].live =~= a[2].live.push(Resource::Memory(handles[2])));
    assert(a[4].live =~= a[3].live);
    assert(a[5].live =~= a[3].live);
    assert(a[6].live =~= a[5].live.push(Resource::ImageView(handles[5])));
    assert(answers.take(6) =~= answers);
}

/// What a kernel holds once its plan is through: its shader module is gone.
pub proof fn completed_kernel_holds(handles: Seq<u64>)
    requires
        handles.len() == shader_steps().len(),
    ensures
        (setup::SetupModel { left: shader_steps(), live: Seq::empty() }).run(
            handles.map_values(|handle: u64| setup::Answer::Made(handle)),
        ).live == seq![
            Resource::SetLayout(handles[0]),
            Resource::PipelineLayout(handles[1]),
            Resource::Pipeline(handles[4]),
            Resource::DescriptorPool(handles[5]),
            Resource::Buffer(handles[7]),
            Resource::Memory(handles[9]),
            Resource::Mapping(handles[11]),
        ],
{
    let start = setup::SetupModel { left: shader_steps(), live: Seq::empty() };
    let answers = handles.map_values(|handle: u64| setup::Answer::Made(handle));
    let a = Seq::new(13, |k: int| start.run(answers.take(k)));
    assert forall|k: int| 0 < k <= 12 implies #[trigger] a[k] == a[k - 1].after(
        answers[k - 1],
    ) by {
        assert(answers.take(k).drop_last() =~= answers.take(k - 1));
        assert(answers.take(k).last() == answers[k - 1]);
    }
    assert forall|k: int| 0 <= k <= 12 implies #[trigger] a[k].left == shader_steps().skip(k) by {
        setup::plan_takes_all_its_steps(shader_steps(), answers.take(k));
    }
    assert(answers.take(0) =~= Seq::empty());
    assert(a[0] == start);
    assert(a[1].live =~= seq![Resource::SetLayout(handles[0])]);
    assert(a[2].live =~= a[1].live.push(Resource::PipelineLayout(handles[1])));
    assert(a[3].live =~= a[2].live);
    assert(a[4].live =~= a[2].live.push(Resource::ShaderModule(handles[3])));
    assert(setup::without_modules(a[4].live) =~= a[2].live) by {
        reveal_with_fuel(setup::without_modules, 4);
        assert(a[4].live.drop_last() =~= a[2].live);
        assert(a[2].live.drop_last() =~= a[1].live);
        assert(a[1].live.drop_last() =~= Seq::empty());
    }
    assert(a[5].live =~= a[2].live.push(Resource::Pipeline(handles[4])));
    assert(a[6].live =~= a[5].live.push(Resource::DescriptorPool(handles[5])));
    assert(a[7].live =~= a[6].live);
    assert(a[8].live =~= a[6].live.push(Resource::Buffer(handles[7])));
    assert(a[9].live =~= a[8].live);
    assert(a[10].live =~= a[8].live.push(Resource::Memory(handles[9])));
    assert(a[11].live =~= a[10].live);
    assert(a[12].live =~= a[10].live.push(Resource::Mapping(handles[11])));
    assert(answers.take(12) =~= answers);
}

/// An image that could not be taken over leaves nothing behind once its memory was asked
/// for: a failure there gives back the newest first, a later one the oldest first.
pub proof fn failed_image_leaves_nothing(done: int, live: Seq<Resource>, code: i32)
    requires
        2 <= done < image_import_steps().len(),
    ensures
        ({
            let model = setup::SetupModel { left: image_import_steps().skip(done), live };
            let answer = setup::Answer::Failed(code);
            &&& model.after(answer).live == Seq::<Resource>::empty()
            &&& done == 2 ==> model.destroyed(answer) == live.reverse()
            &&& done > 2 ==> model.destroyed(answer) == live
        }),
{
}

/// A mapping is taken down before the buffer, and the buffer before its memory. All that
/// is older follows, the newest first.
pub proof fn older_objects_are_taken_down_later(live: Seq<Resource>, i: int)
    requires
        0 <= i < live.len(),
    ensures
        ({
            let n = live.len() as int;
            let order = teardown_order(live);
            let mapped = n >= 3 && live[n - 1] is Mapping;
            &&& order.len() == n
            &&& mapped ==> order[0] == live[n - 1] && order[1] == live[n - 3] && order[2]
                == live[n - 2]
            &&& !mapped || i < n - 3 ==> order[n - 1 - i] == live[i]
        }),
{
}

/// A device for images has everything that one for buffers has.
pub proof fn images_need_more_extensions()
    ensures
        extension_names(false).is_prefix_of(extension_names(true)),
        extension_names(false).len() == 2,
        extension_names(true).len() == 6,
{
}

} // verus!
