//! Dispatches: what is set before one, what is run, and how long it took.
use vstd::prelude::*;

use crate::names::IdentifierIdx;
use crate::script::{RayTables, RootValsView, TimeSpan, UnresolvedRootVal, ViewType};
use crate::state::{DispatchContent, PipelineKind, RootObjectsView, RootVal};

verus! {

/// A step before a dispatch.
#[derive(Clone, Debug, Eq, Hash, PartialEq)]
pub enum Command {
    SetPipeline { pipeline: IdentifierIdx },
    SetStateObject { pso: IdentifierIdx },
    SetRootSignature { root_sig: Option<IdentifierIdx> },
    BindTable { index: u32, view: IdentifierIdx },
    SetView { typ: ViewType, index: u32, buffer: IdentifierIdx },
    SetConstants {
        index: u32,
        /// In 32 bit values
        count: u32,
        data: Vec<u8>,
    },
}

/// The view of `Command`.
pub enum CommandView {
    SetPipeline { pipeline: IdentifierIdx },
    SetStateObject { pso: IdentifierIdx },
    SetRootSignature { root_sig: Option<IdentifierIdx> },
    BindTable { index: u32, view: IdentifierIdx },
    SetView { typ: ViewType, index: u32, buffer: IdentifierIdx },
    SetConstants { index: u32, count: u32, data: Seq<u8> },
}

impl DeepView for Command {
    type V = CommandView;

    open spec fn deep_view(&self) -> CommandView {
        match self {
            Command::SetPipeline { pipeline } => CommandView::SetPipeline { pipeline: *pipeline },
            Command::SetStateObject { pso } => CommandView::SetStateObject { pso: *pso },
            Command::SetRootSignature { root_sig } => CommandView::SetRootSignature {
                root_sig: *root_sig,
            },
            Command::BindTable { index, view } => CommandView::BindTable {
                index: *index,
                view: *view,
            },
            Command::SetView { typ, index, buffer } => CommandView::SetView {
                typ: *typ,
                index: *index,
                buffer: *buffer,
            },
            Command::SetConstants { index, count, data } => CommandView::SetConstants {
                index: *index,
                count: *count,
                data: data@,
            },
        }
    }
}

/// Whether a dispatch runs a pipeline, and not a state object.
pub open spec fn runs_pipeline(content: DispatchContent) -> bool {
    match content {
        DispatchContent::Dispatch => true,
        DispatchContent::DispatchRays { .. } => false,
        DispatchContent::ExecuteIndirect { pipeline_kind, .. } => pipeline_kind
            == PipelineKind::Pipeline,
    }
}

/// The root signature of a dispatch: its own, or else that of the pipeline.
pub open spec fn used_root_sig(
    content: DispatchContent,
    pipeline_root_sig: Option<IdentifierIdx>,
    root_sig: Option<IdentifierIdx>,
) -> Option<IdentifierIdx> {
    if root_sig is Some {
        root_sig
    } else if runs_pipeline(content) {
        pipeline_root_sig
    } else {
        None
    }
}

/// The first steps of a dispatch.
pub open spec fn first_commands(
    pipeline: IdentifierIdx,
    content: DispatchContent,
    pipeline_root_sig: Option<IdentifierIdx>,
    root_sig: Option<IdentifierIdx>,
) -> Seq<CommandView> {
    seq![
        if runs_pipeline(content) {
            CommandView::SetPipeline { pipeline }
        } else {
            CommandView::SetStateObject { pso: pipeline }
        },
        CommandView::SetRootSignature {
            root_sig: used_root_sig(content, pipeline_root_sig, root_sig),
        },
    ]
}

/// The steps that set root values: what is bound, addresses, constants.
pub open spec fn value_commands(
    vals: RootValsView,
    ids: RootObjectsView,
    data: Seq<Seq<u8>>,
) -> Seq<CommandView> {
    Seq::new(
        vals.binds.len(),
        |i: int| CommandView::BindTable { index: vals.binds[i].index, view: ids.binds[i] },
    ) + Seq::new(
        vals.views.len(),
        |i: int|
            CommandView::SetView {
                typ: vals.views[i].typ->0,
                index: vals.views[i].index,
                buffer: ids.views[i],
            },
    ) + Seq::new(
        vals.consts.len(),
        |i: int|
            CommandView::SetConstants {
                index: vals.consts[i].index,
                count: (data[i].len() / 4) as u32,
                data: data[i],
            },
    )
}

/// A dispatch of rays runs a state object, a plain dispatch a pipeline, and an indirect dispatch
/// what is told of it. It uses its own root signature if it has one; only a pipeline has another.
/// Then each root value is set once, at the index that the script gives it.
pub proof fn lemma_dispatch_commands(
    pipeline: IdentifierIdx,
    content: DispatchContent,
    pipeline_root_sig: Option<IdentifierIdx>,
    root_sig: Option<IdentifierIdx>,
    vals: RootValsView,
    ids: RootObjectsView,
    data: Seq<Seq<u8>>,
)
    requires
        root_vals_ok(vals, ids, data),
        constants_fit(data),
    ensures
        ({
            let commands = first_commands(pipeline, content, pipeline_root_sig, root_sig)
                + value_commands(vals, ids, data);
            let b = vals.binds.len();
            let v = vals.views.len();
            let c = vals.consts.len();
            &&& commands.len() == 2 + b + v + c
            &&& match commands[0] {
                CommandView::SetPipeline { pipeline: p } => p == pipeline && (content is Dispatch
                    || (content matches DispatchContent::ExecuteIndirect { pipeline_kind, .. }
                    && pipeline_kind is Pipeline)),
                CommandView::SetStateObject { pso } => pso == pipeline && (content is DispatchRays
                    || (content matches DispatchContent::ExecuteIndirect { pipeline_kind, .. }
                    && pipeline_kind !is Pipeline)),
                _ => false,
            }
            &&& commands[1] matches CommandView::SetRootSignature { root_sig: r } && (root_sig
                is Some ==> r == root_sig) && (root_sig is None && commands[0] is SetPipeline ==> r
                == pipeline_root_sig) && (root_sig is None && commands[0] is SetStateObject ==> r
                is None)
            &&& forall|k: int| #![trigger commands[k]]
                2 <= k < commands.len() ==> match commands[k] {
                    CommandView::BindTable { index, view } => {
                        let i = k - 2;
                        &&& i < b
                        &&& index == vals.binds[i].index
                        &&& view == ids.binds[i]
                    },
                    CommandView::SetView { typ, index, buffer } => {
                        let i = k - 2 - b;
                        &&& 0 <= i < v
                        &&& vals.views[i].typ == Some(typ)
                        &&& index == vals.views[i].index
                        &&& buffer == ids.views[i]
                    },
                    CommandView::SetConstants { index, count, data: bytes } => {
                        let i = k - 2 - b - v;
                        &&& 0 <= i < c
                        &&& index == vals.consts[i].index
                        &&& bytes == data[i]
                        &&& 4 * count <= bytes.len() < 4 * count + 4
                    },
                    _ => false,
                }
        }),
{
    let commands = first_commands(pipeline, content, pipeline_root_sig, root_sig)
        + value_commands(vals, ids, data);
    let b = vals.binds.len();
    let v = vals.views.len();
    assert forall|k: int| #![trigger commands[k]] 2 <= k < commands.len() implies match commands[k] {
        CommandView::BindTable { index, view } => {
            let i = k - 2;
            &&& i < b
            &&& index == vals.binds[i].index
            &&& view == ids.binds[i]
        },
        CommandView::SetView { typ, index, buffer } => {
            let i = k - 2 - b;
            &&& 0 <= i < v
            &&& vals.views[i].typ == Some(typ)
            &&& index == vals.views[i].index
            &&& buffer == ids.views[i]
        },
        CommandView::SetConstants { index, count, data: bytes } => {
            let i = k - 2 - b - v;
            &&& 0 <= i < vals.consts.len()
            &&& index == vals.consts[i].index
            &&& bytes == data[i]
            &&& 4 * count <= bytes.len() < 4 * count + 4
        },
        _ => false,
    } by {
        if b <= k - 2 < b + v {
            assert(vals.views[k - 2 - b].typ is Some);
        }
        if b + v <= k - 2 {
            assert(data[k - 2 - b - v].len() / 4 <= u32::MAX);
        }
    }
}

/// Whether each constant is short enough.
pub open spec fn constants_fit(data: Seq<Seq<u8>>) -> bool {
    forall|i: int| 0 <= i < data.len() ==> (#[trigger] data[i]).len() / 4 <= u32::MAX
}

/// A dispatch has too many root constants.
#[derive(Clone, Copy, Debug, Eq, Hash, PartialEq, Structural)]
pub struct TooManyRootConstants;

/// Whether there is one object for each root value, and each view has a type.
pub open spec fn root_vals_ok(
    vals: RootValsView,
    ids: RootObjectsView,
    data: Seq<Seq<u8>>,
) -> bool {
    &&& vals.binds.len() == ids.binds.len()
    &&& vals.views.len() == ids.views.len()
    &&& vals.consts.len() == data.len()
    &&& forall|i: int| 0 <= i < vals.views.len() ==> (#[trigger] vals.views[i]).typ is Some
}

/// The steps before a dispatch. `data` holds the bytes of the constants.
pub fn plan_dispatch(
    pipeline: IdentifierIdx,
    content: DispatchContent,
    pipeline_root_sig: Option<IdentifierIdx>,
    root_sig: Option<IdentifierIdx>,
    vals: &UnresolvedRootVal,
    ids: &RootVal,
    data: Vec<Vec<u8>>,
) -> (result: Result<Vec<Command>, TooManyRootConstants>)
    requires
        root_vals_ok(vals.deep_view(), ids.deep_view(), data.deep_view()),
    ensures
        match result {
            Ok(commands) => constants_fit(data.deep_view()) && commands.deep_view()
                == first_commands(pipeline, content, pipeline_root_sig, root_sig)
                + value_commands(vals.deep_view(), ids.deep_view(), data.deep_view()),
            Err(_) => !constants_fit(data.deep_view()),
        },
{
    let ghost v = vals.deep_view();
    let ghost o = ids.deep_view();
    let ghost d = data.deep_view();
    let ghost first = first_commands(pipeline, content, pipeline_root_sig, root_sig);
    let ghost binds = Seq::new(
        v.binds.len(),
        |i: int| CommandView::BindTable { index: v.binds[i].index, view: o.binds[i] },
    );
    let ghost views = Seq::new(
        v.views.len(),
        |i: int|
            CommandView::SetView {
                typ: v.views[i].typ->0,
                index: v.views[i].index,
                buffer: o.views[i],
            },
    );
    let ghost consts = Seq::new(
        v.consts.len(),
        |i: int|
            CommandView::SetConstants {
                index: v.consts[i].index,
                count: (d[i].len() / 4) as u32,
                data: d[i],
            },
    );
    let is_pipeline = match content {
        DispatchContent::Dispatch => true,
        DispatchContent::DispatchRays { .. } => false,
        DispatchContent::ExecuteIndirect { pipeline_kind, .. } => pipeline_kind
            == PipelineKind::Pipeline,
    };
    let root_sig = match root_sig {
        Some(r) => Some(r),
        None => if is_pipeline {
            pipeline_root_sig
        } else {
            None
        },
    };
    let mut commands: Vec<Command> = Vec::new();
    if is_pipeline {
        commands.push(Command::SetPipeline { pipeline });
    } else {
        commands.push(Command::SetStateObject { pso: pipeline });
    }
    commands.push(Command::SetRootSignature { root_sig });
    assert(commands.deep_view() =~= first + binds.take(0));
    let mut i: usize = 0;
    while i < vals.binds.len()
        invariant
            i <= vals.binds@.len(),
            v == vals.deep_view(),
            o == ids.deep_view(),
            vals.binds@.len() == ids.binds@.len(),
            binds.len() == vals.binds@.len(),
            forall|j: int|
                0 <= j < binds.len() ==> #[trigger] binds[j] == (CommandView::BindTable {
                    index: v.binds[j].index,
                    view: o.binds[j],
                }),
            commands.deep_view() == first + binds.take(i as int),
        decreases vals.binds@.len() - i,
    {
        let ghost before = commands.deep_view();
        assert(v.binds[i as int] == vals.binds@[i as int].deep_view());
        assert(o.binds[i as int] == ids.binds@[i as int]);
        commands.push(Command::BindTable { index: vals.binds[i].index, view: ids.binds[i] });
        i += 1;
        assert(commands.deep_view() =~= before.push(binds[i - 1]));
        assert(commands.deep_view() =~= first + binds.take(i as int));
    }
    assert(commands.deep_view() =~= first + binds + views.take(0));
    let mut i: usize = 0;
    while i < vals.views.len()
        invariant
            i <= vals.views@.len(),
            v == vals.deep_view(),
            o == ids.deep_view(),
            vals.views@.len() == ids.views@.len(),
            views.len() == vals.views@.len(),
            forall|j: int| 0 <= j < v.views.len() ==> (#[trigger] v.views[j]).typ is Some,
            forall|j: int|
                0 <= j < views.len() ==> #[trigger] views[j] == (CommandView::SetView {
                    typ: v.views[j].typ->0,
                    index: v.views[j].index,
                    buffer: o.views[j],
                }),
            commands.deep_view() == first + binds + views.take(i as int),
        decreases vals.views@.len() - i,
    {
        let ghost before = commands.deep_view();
        assert(v.views[i as int] == vals.views@[i as int].deep_view());
        assert(o.views[i as int] == ids.views@[i as int]);
        match vals.views[i].typ {
            Some(typ) => {
                commands.push(
                    Command::SetView { typ, index: vals.views[i].index, buffer: ids.views[i] },
                );
            },
            None => {
                assert(false);
            },
        }
        i += 1;
        assert(commands.deep_view() =~= before.push(views[i - 1]));
        assert(commands.deep_view() =~= first + binds + views.take(i as int));
    }
    assert(commands.deep_view() =~= first + binds + views + consts.take(0));
    let mut i: usize = 0;
    while i < vals.consts.len()
        invariant
            i <= vals.consts@.len(),
            v == vals.deep_view(),
            d == data.deep_view(),
            vals.consts@.len() == data@.len(),
            consts.len() == vals.consts@.len(),
            forall|j: int|
                0 <= j < consts.len() ==> #[trigger] consts[j] == (CommandView::SetConstants {
                    index: v.consts[j].index,
                    count: (d[j].len() / 4) as u32,
                    data: d[j],
                }),
            forall|j: int| 0 <= j < i ==> (#[trigger] d[j]).len() / 4 <= u32::MAX,
            commands.deep_view() == first + binds + views + consts.take(i as int),
        decreases vals.consts@.len() - i,
    {
        let ghost before = commands.deep_view();
        assert(v.consts[i as int] == vals.consts@[i as int].deep_view());
        assert(d[i as int] == data@[i as int]@);
        let words: usize = data[i].len() / 4;
        if words as u128 > u32::MAX as u128 {
            return Err(TooManyRootConstants);
        }
        let copy = copy_bytes(&data[i]);
        commands.push(
            Command::SetConstants { index: vals.consts[i].index, count: words as u32, data: copy },
        );
        i += 1;
        assert(commands.deep_view() =~= before.push(consts[i - 1]));
        assert(commands.deep_view() =~= first + binds + views + consts.take(i as int));
    }
    assert(commands.deep_view() =~= first + value_commands(v, o, d));
    Ok(commands)
}

/// A copy of bytes.
fn copy_bytes(bytes: &Vec<u8>) -> (copy: Vec<u8>)
    ensures
        copy@ == bytes@,
{
    let mut copy: Vec<u8> = Vec::new();
    let mut i: usize = 0;
    while i < bytes.len()
        invariant
            i <= bytes@.len(),
            copy@ == bytes@.take(i as int),
        decreases bytes@.len() - i,
    {
        copy.push(bytes[i]);
        i += 1;
        assert(copy@ =~= bytes@.take(i as int));
    }
    assert(bytes@.take(i as int) =~= bytes@);
    copy
}

/// The buffer of an indirect dispatch is too small for its commands.
#[derive(Clone, Copy, Debug, Eq, Hash, PartialEq, Structural)]
pub struct TooSmallExecuteIndirectBuffer {
    pub buffer_size: u64,
    pub offset: u64,
    pub max_commands: u32,
    pub stride: u32,
}

/// Where the arguments of an indirect dispatch start, if the buffer has room for all commands.
pub open spec fn argument_place(
    buffer_size: u64,
    offset: Option<u64>,
    stride: u32,
    max_commands: u32,
) -> Option<u64> {
    let start = match offset {
        Some(o) => o,
        None => 0,
    };
    if start + stride * max_commands <= buffer_size {
        Some(start)
    } else {
        None
    }
}

/// The arguments start at the offset, or at the start of the buffer without one. Each command is in
/// the buffer. If there is no room, the buffer ends before the end of the last command.
pub proof fn lemma_argument_place(
    buffer_size: u64,
    offset: Option<u64>,
    stride: u32,
    max_commands: u32,
    k: int,
)
    ensures
        match argument_place(buffer_size, offset, stride, max_commands) {
            Some(start) => {
                &&& offset matches Some(o) ==> start == o
                &&& offset is None ==> start == 0
                &&& start <= buffer_size
                &&& 0 <= k < max_commands ==> start + k * stride + stride <= buffer_size
            },
            None => offset matches Some(o) && o > buffer_size || max_commands > 0 && (match offset {
                Some(o) => o as int,
                None => 0,
            }) + (max_commands - 1) * stride + stride > buffer_size,
        },
{
    let last = max_commands as int - 1;
    assert(0 <= stride * max_commands) by (nonlinear_arith);
    if 0 <= k < max_commands {
        assert(k * stride + stride <= stride * max_commands) by (nonlinear_arith)
            requires
                0 <= k < max_commands,
                0 <= stride,
        ;
    }
    assert(last * stride + stride == stride * max_commands) by (nonlinear_arith)
        requires
            last == max_commands - 1,
    ;
    if max_commands == 0 {
        assert(stride * max_commands == 0) by (nonlinear_arith)
            requires
                max_commands == 0,
        ;
    }
}

/// The offset at which the arguments of an indirect dispatch start. From there on, the buffer must
/// have room for all commands.
pub fn argument_start(
    buffer_size: u64,
    offset: Option<u64>,
    stride: u32,
    max_commands: u32,
) -> (result: Result<u64, TooSmallExecuteIndirectBuffer>)
    ensures
        ({
            let start = match offset {
                Some(o) => o,
                None => 0,
            };
            match result {
                Ok(o) => o == start && start + stride * max_commands <= buffer_size,
                Err(e) => start + stride * max_commands > buffer_size && e == (
                TooSmallExecuteIndirectBuffer { buffer_size, offset: start, max_commands, stride }),
            }
        }),
        match argument_place(buffer_size, offset, stride, max_commands) {
            Some(start) => result == Ok::<_, TooSmallExecuteIndirectBuffer>(start),
            None => result is Err,
        },
{
    let start: u64 = match offset {
        Some(o) => o,
        None => 0,
    };
    assert(0 <= stride * max_commands <= u32::MAX * u32::MAX) by (nonlinear_arith)
        requires
            0 <= stride <= u32::MAX,
            0 <= max_commands <= u32::MAX,
    ;
    if start > buffer_size || buffer_size - start < stride as u64 * max_commands as u64 {
        return Err(
            TooSmallExecuteIndirectBuffer { buffer_size, offset: start, max_commands, stride },
        );
    }
    Ok(start)
}

/// Where a shader table stands in memory.
#[derive(Clone, Copy, Debug, Default, Eq, Hash, PartialEq, Structural)]
pub struct TableRange {
    pub start: u64,
    pub size: u64,
    pub stride: u64,
}

/// Where the shader tables of a dispatch of rays stand. All zero for one that is not given.
#[derive(Clone, Copy, Debug, Default, Eq, Hash, PartialEq, Structural)]
pub struct RaysPlan {
    pub raygen_start: u64,
    pub raygen_size: u64,
    pub miss: TableRange,
    pub hit_group: TableRange,
    pub callable: TableRange,
}

/// The range of a table, all zero if there is none.
pub open spec fn table_range(table: Option<TableRange>) -> TableRange {
    match table {
        Some(t) => t,
        None => TableRange { start: 0, size: 0, stride: 0 },
    }
}

/// The range of a table, all zero if there is none.
fn get_range(table: Option<TableRange>) -> (range: TableRange)
    ensures
        range == table_range(table),
{
    match table {
        Some(t) => t,
        None => TableRange { start: 0, size: 0, stride: 0 },
    }
}

/// A table that is given stands where it stands, and one that is not given takes no memory.
pub proof fn lemma_table_range(table: Option<TableRange>)
    ensures
        table matches Some(t) ==> table_range(table) == t,
        table is None ==> table_range(table).start == 0 && table_range(table).size == 0
            && table_range(table).stride == 0,
{
}

/// Where the GPU looks for the shader tables.
pub open spec fn rays_plan(tables: RayTables<TableRange>) -> RaysPlan {
    RaysPlan {
        raygen_start: table_range(tables.raygen).start,
        raygen_size: table_range(tables.raygen).size,
        miss: table_range(tables.miss),
        hit_group: table_range(tables.hit_group),
        callable: table_range(tables.callable),
    }
}

/// The GPU looks for each shader table where the table of the same role stands, and a role without a
/// table has no memory.
pub proof fn lemma_rays_plan(tables: RayTables<TableRange>)
    ensures
        ({
            let plan = rays_plan(tables);
            &&& tables.raygen matches Some(t) ==> plan.raygen_start == t.start && plan.raygen_size
                == t.size
            &&& tables.raygen is None ==> plan.raygen_start == 0 && plan.raygen_size == 0
            &&& tables.miss matches Some(t) ==> plan.miss == t
            &&& tables.miss is None ==> plan.miss.start == 0 && plan.miss.size == 0
                && plan.miss.stride == 0
            &&& tables.hit_group matches Some(t) ==> plan.hit_group == t
            &&& tables.hit_group is None ==> plan.hit_group.start == 0 && plan.hit_group.size == 0
                && plan.hit_group.stride == 0
            &&& tables.callable matches Some(t) ==> plan.callable == t
            &&& tables.callable is None ==> plan.callable.start == 0 && plan.callable.size == 0
                && plan.callable.stride == 0
        }),
{
}

/// The shader tables of a dispatch of rays. There is no stride for ray generation.
pub fn plan_rays(tables: RayTables<TableRange>) -> (plan: RaysPlan)
    ensures
        plan.raygen_start == table_range(tables.raygen).start,
        plan.raygen_size == table_range(tables.raygen).size,
        plan.miss == table_range(tables.miss),
        plan.hit_group == table_range(tables.hit_group),
        plan.callable == table_range(tables.callable),
        plan == rays_plan(tables),
{
    let raygen = get_range(tables.raygen);
    RaysPlan {
        raygen_start: raygen.start,
        raygen_size: raygen.size,
        miss: get_range(tables.miss),
        hit_group: get_range(tables.hit_group),
        callable: get_range(tables.callable),
    }
}

/// How long a number of ticks takes, in whole nanoseconds of the last second.
pub open spec fn tick_time(ticks: nat, frequency: nat) -> (nat, nat) {
    (ticks / frequency, ((ticks % frequency) * 1_000_000_000) / frequency)
}

/// The time between two timestamps, with a number of ticks per second.
pub fn elapsed(start: u64, end: u64, frequency: u64) -> (time: TimeSpan)
    requires
        start <= end,
        frequency > 0,
    ensures
        (time.seconds as nat, time.nanoseconds as nat) == tick_time(
            (end - start) as nat,
            frequency as nat,
        ),
        time.nanoseconds < 1_000_000_000,
{
    let ticks: u64 = end - start;
    let rest: u128 = (ticks % frequency) as u128;
    let nanoseconds: u128 = rest * 1_000_000_000 / frequency as u128;
    assert(nanoseconds < 1_000_000_000) by (nonlinear_arith)
        requires
            frequency > 0,
            rest < frequency,
            nanoseconds == (rest * 1_000_000_000) / frequency as int,
    ;
    TimeSpan { seconds: ticks / frequency, nanoseconds: nanoseconds as u32 }
}

/// No time is lost but less than a nanosecond: the time in nanoseconds, rounded down, is that of
/// the ticks.
pub proof fn lemma_elapsed(ticks: nat, frequency: nat)
    requires
        frequency > 0,
    ensures
        tick_time(ticks, frequency).0 * 1_000_000_000 + tick_time(ticks, frequency).1 == (ticks
            * 1_000_000_000) / frequency,
{
    let s = ticks / frequency;
    let r = ticks % frequency;
    vstd::arithmetic::div_mod::lemma_fundamental_div_mod(ticks as int, frequency as int);
    assert(ticks * 1_000_000_000 == r * 1_000_000_000 + frequency * (s * 1_000_000_000))
        by (nonlinear_arith)
        requires
            ticks == frequency * s + r,
    ;
    vstd::arithmetic::div_mod::lemma_hoist_over_denominator(
        (r * 1_000_000_000) as int,
        (s * 1_000_000_000) as int,
        frequency,
    );
    assert(frequency * (s * 1_000_000_000) == (s * 1_000_000_000) * frequency)
        by (nonlinear_arith);
}

} // verus!
