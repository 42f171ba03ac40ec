//! How root signatures, views, command signatures and state objects are described to a GPU.
use vstd::prelude::*;

use crate::names::IdentifierIdx;
use crate::script::{
    new_list, push_item, CommandSignatureArgument, HitGroup, InputViewType, LinkObject,
    LinkObjectView, RootSigEntry, ViewType,
};
use crate::source::{Identifier, SpanObj};
use crate::value::{is_float, DataType};

verus! {

/// A parameter of a root signature.
#[derive(Clone, Copy, Debug, Eq, Hash, PartialEq, Structural)]
pub enum RootParameter {
    /// A table with one range of descriptors
    DescriptorTable { typ: ViewType, count: u32, base_register: u32, space: u32 },
    Descriptor { typ: ViewType, register: u32, space: u32 },
    Constants { register: u32, space: u32, count: u32 },
}

/// The parameter for an entry of a root signature.
pub open spec fn root_parameter(entry: RootSigEntry) -> RootParameter {
    match entry {
        RootSigEntry::Table(t) => RootParameter::DescriptorTable {
            typ: t.typ,
            count: t.number,
            base_register: t.register,
            space: t.space,
        },
        RootSigEntry::View(v) => RootParameter::Descriptor {
            typ: v.typ,
            register: v.register,
            space: v.space,
        },
        RootSigEntry::Const(c) => RootParameter::Constants {
            register: c.register,
            space: c.space,
            count: c.number,
        },
    }
}

/// A list is longer than can be described.
#[derive(Clone, Copy, Debug, Eq, Hash, PartialEq, Structural)]
pub struct TooMany {
    pub count: usize,
}

/// The parameters of a root signature, in the order of its entries. There can be at most
/// `u32::MAX`.
pub fn root_parameters(entries: &Vec<RootSigEntry>) -> (result: Result<Vec<RootParameter>, TooMany>)
    ensures
        match result {
            Ok(parameters) => entries@.len() <= u32::MAX && parameters@ == Seq::new(
                entries@.len(),
                |i: int| root_parameter(entries@[i]),
            ),
            Err(e) => entries@.len() > u32::MAX && e.count == entries@.len(),
        },
{
    let mut parameters: Vec<RootParameter> = Vec::new();
    let mut i: usize = 0;
    while i < entries.len()
        invariant
            i <= entries@.len(),
            parameters@ == Seq::new(i as nat, |j: int| root_parameter(entries@[j])),
        decreases entries@.len() - i,
    {
        let parameter = match entries[i] {
            RootSigEntry::Table(t) => RootParameter::DescriptorTable {
                typ: t.typ,
                count: t.number,
                base_register: t.register,
                space: t.space,
            },
            RootSigEntry::View(v) => RootParameter::Descriptor {
                typ: v.typ,
                register: v.register,
                space: v.space,
            },
            RootSigEntry::Const(c) => RootParameter::Constants {
                register: c.register,
                space: c.space,
                count: c.number,
            },
        };
        parameters.push(parameter);
        i += 1;
        assert(parameters@ =~= Seq::new(i as nat, |j: int| root_parameter(entries@[j])));
    }
    if entries.len() as u128 > u32::MAX as u128 {
        Err(TooMany { count: entries.len() })
    } else {
        Ok(parameters)
    }
}

/// How the elements of a buffer are read.
#[derive(Clone, Copy, Debug, Eq, Hash, PartialEq, Structural)]
pub enum ElementFormat {
    R32Uint,
    R16Uint,
    R8Uint,
    R32Float,
    R16Float,
    R32Typeless,
    Unknown,
}

/// How a view of a buffer is described.
#[derive(Clone, Copy, Debug, Eq, Hash, PartialEq, Structural)]
pub struct BufferView {
    pub typ: ViewType,
    pub format: ElementFormat,
    pub num_elements: u32,
    /// Zero if the elements are no structs
    pub struct_stride: u32,
    pub is_raw: bool,
}

/// How a view is described.
#[derive(Clone, Copy, Debug, Eq, Hash, PartialEq, Structural)]
pub enum ViewPlan {
    Buffer(BufferView),
    /// A raytracing acceleration structure
    AccelStruct,
}

/// Why there can be no view.
#[derive(Clone, Copy, Debug, Eq, Hash, PartialEq, Structural)]
pub enum ViewError {
    /// There are no views with this type of data.
    InvalidDataType { typ: DataType },
    /// The buffer has too many elements.
    BufferTooLarge,
}

/// The format for a type of data, if there is one.
pub open spec fn typed_format(typ: DataType) -> Option<ElementFormat> {
    match typ {
        DataType::U64 => None,
        DataType::U32 => Some(ElementFormat::R32Uint),
        DataType::U16 => Some(ElementFormat::R16Uint),
        DataType::U8 => Some(ElementFormat::R8Uint),
        DataType::F32 => Some(ElementFormat::R32Float),
        DataType::F16 => Some(ElementFormat::R16Float),
    }
}

/// A view of as many elements as fit into the buffer.
pub open spec fn buffer_view(
    typ: ViewType,
    format: ElementFormat,
    element_size: nat,
    struct_stride: u32,
    is_raw: bool,
    buffer_size: u64,
) -> Result<ViewPlan, ViewError> {
    let num_elements = buffer_size as nat / element_size;
    if num_elements > u32::MAX {
        Err(ViewError::BufferTooLarge)
    } else {
        Ok(
            ViewPlan::Buffer(
                BufferView {
                    typ,
                    format,
                    num_elements: num_elements as u32,
                    struct_stride,
                    is_raw,
                },
            ),
        )
    }
}

/// The description of a view of a buffer with some size.
pub open spec fn view_plan(view: InputViewType, buffer_size: u64) -> Result<ViewPlan, ViewError> {
    match view {
        InputViewType::RaytracingAccelStruct => Ok(ViewPlan::AccelStruct),
        InputViewType::Raw { typ } => buffer_view(
            typ,
            ElementFormat::R32Typeless,
            4,
            0,
            true,
            buffer_size,
        ),
        InputViewType::Typed { typ, data_type } => match typed_format(data_type) {
            Some(format) => buffer_view(
                typ,
                format,
                data_type.size(),
                0,
                false,
                buffer_size,
            ),
            None => Err(ViewError::InvalidDataType { typ: data_type }),
        },
        InputViewType::Structured { typ, struct_size } => buffer_view(
            typ,
            ElementFormat::Unknown,
            struct_size as nat,
            struct_size,
            false,
            buffer_size,
        ),
    }
}

/// Describes a view of a buffer with some size.
pub fn plan_view(view: InputViewType, buffer_size: u64) -> (result: Result<ViewPlan, ViewError>)
    requires
        view matches InputViewType::Structured { struct_size, .. } ==> struct_size > 0,
    ensures
        result == view_plan(view, buffer_size),
{
    let (typ, format, element_size, struct_stride, is_raw): (
        ViewType,
        ElementFormat,
        u64,
        u32,
        bool,
    ) = match view {
        InputViewType::RaytracingAccelStruct => {
            return Ok(ViewPlan::AccelStruct);
        },
        InputViewType::Raw { typ } => (typ, ElementFormat::R32Typeless, 4, 0, true),
        InputViewType::Typed { typ, data_type } => {
            let format = match data_type {
                DataType::U64 => {
                    return Err(ViewError::InvalidDataType { typ: data_type });
                },
                DataType::U32 => ElementFormat::R32Uint,
                DataType::U16 => ElementFormat::R16Uint,
                DataType::U8 => ElementFormat::R8Uint,
                DataType::F32 => ElementFormat::R32Float,
                DataType::F16 => ElementFormat::R16Float,
            };
            (typ, format, data_type.len() as u64, 0, false)
        },
        InputViewType::Structured { typ, struct_size } => (
            typ,
            ElementFormat::Unknown,
            struct_size as u64,
            struct_size,
            false,
        ),
    };
    let num_elements: u64 = buffer_size / element_size;
    if num_elements > u32::MAX as u64 {
        return Err(ViewError::BufferTooLarge);
    }
    Ok(
        ViewPlan::Buffer(
            BufferView {
                typ,
                format,
                num_elements: num_elements as u32,
                struct_stride,
                is_raw,
            },
        ),
    )
}

/// A view never reaches beyond the buffer, and leaves no room for one more element.
pub proof fn lemma_view_in_buffer(view: InputViewType, buffer_size: u64, element_size: nat)
    requires
        match view {
            InputViewType::RaytracingAccelStruct => false,
            InputViewType::Raw { .. } => element_size == 4,
            InputViewType::Typed { data_type, .. } => element_size == data_type.size(),
            InputViewType::Structured { struct_size, .. } => element_size == struct_size
                && struct_size > 0,
        },
    ensures
        match view_plan(view, buffer_size) {
            Ok(ViewPlan::Buffer(b)) => b.num_elements * element_size <= buffer_size
                < b.num_elements * element_size + element_size,
            Ok(ViewPlan::AccelStruct) => false,
            Err(_) => true,
        },
{
    let n = buffer_size as nat / element_size;
    assert(n * element_size <= buffer_size < n * element_size + element_size)
        by (nonlinear_arith)
        requires
            n == buffer_size as nat / element_size,
            element_size > 0,
    ;
}

/// The number of bits of an element, if the format says it.
pub open spec fn format_bits(format: ElementFormat) -> Option<nat> {
    match format {
        ElementFormat::R32Uint | ElementFormat::R32Float | ElementFormat::R32Typeless => Some(32),
        ElementFormat::R16Uint | ElementFormat::R16Float => Some(16),
        ElementFormat::R8Uint => Some(8),
        ElementFormat::Unknown => None,
    }
}

/// Whether the elements are floating-point numbers.
pub open spec fn is_float_format(format: ElementFormat) -> bool {
    format is R32Float || format is R16Float
}

/// Whether the elements are unsigned integers.
pub open spec fn is_integer_format(format: ElementFormat) -> bool {
    format is R32Uint || format is R16Uint || format is R8Uint
}

/// The elements of a typed view have the width and the kind of the type of data: floating-point
/// numbers for a floating-point type and unsigned integers for any other type. There are no views
/// with elements of more than four bytes.
pub proof fn lemma_typed_view_format(typ: ViewType, data_type: DataType, buffer_size: u64)
    ensures
        match view_plan(InputViewType::Typed { typ, data_type }, buffer_size) {
            Ok(ViewPlan::Buffer(b)) => {
                &&& data_type.size() <= 4
                &&& b.typ == typ
                &&& format_bits(b.format) == Some(8 * data_type.size())
                &&& is_float_format(b.format) == is_float(data_type)
                &&& is_integer_format(b.format) == !is_float(data_type)
                &&& b.num_elements == buffer_size as nat / data_type.size()
                &&& b.struct_stride == 0
                &&& !b.is_raw
            },
            Ok(ViewPlan::AccelStruct) => false,
            Err(ViewError::InvalidDataType { typ: t }) => data_type.size() > 4 && t == data_type,
            Err(ViewError::BufferTooLarge) => data_type.size() <= 4 && buffer_size as nat
                / data_type.size() > u32::MAX,
        },
{
}

/// Typed views of different types of data have different formats.
pub proof fn lemma_typed_view_formats_differ(
    typ: ViewType,
    a: DataType,
    b: DataType,
    buffer_size: u64,
)
    requires
        a != b,
    ensures
        match (
            view_plan(InputViewType::Typed { typ, data_type: a }, buffer_size),
            view_plan(InputViewType::Typed { typ, data_type: b }, buffer_size),
        ) {
            (Ok(ViewPlan::Buffer(v)), Ok(ViewPlan::Buffer(w))) => v.format != w.format,
            _ => true,
        },
{
}

/// A raw view reads the buffer as words of four bytes without a type, and a structured view as
/// structs of the given size without a format. Only these two know a size that the format does not
/// say.
pub proof fn lemma_untyped_view_format(typ: ViewType, struct_size: u32, buffer_size: u64)
    requires
        struct_size > 0,
    ensures
        match view_plan(InputViewType::Raw { typ }, buffer_size) {
            Ok(ViewPlan::Buffer(b)) => {
                &&& b.typ == typ
                &&& format_bits(b.format) == Some(32nat)
                &&& !is_float_format(b.format) && !is_integer_format(b.format)
                &&& b.is_raw
                &&& b.struct_stride == 0
                &&& b.num_elements == buffer_size / 4
            },
            Ok(ViewPlan::AccelStruct) => false,
            Err(e) => e is BufferTooLarge && buffer_size / 4 > u32::MAX,
        },
        match view_plan(InputViewType::Structured { typ, struct_size }, buffer_size) {
            Ok(ViewPlan::Buffer(b)) => {
                &&& b.typ == typ
                &&& format_bits(b.format) is None
                &&& !b.is_raw
                &&& b.struct_stride == struct_size
                &&& b.num_elements == buffer_size as nat / struct_size as nat
            },
            Ok(ViewPlan::AccelStruct) => false,
            Err(e) => e is BufferTooLarge && buffer_size as nat / struct_size as nat > u32::MAX,
        },
        view_plan(InputViewType::RaytracingAccelStruct, buffer_size) == Ok::<_, ViewError>(
            ViewPlan::AccelStruct,
        ),
{
}

/// The kind of view that a parameter of a root signature binds, if it binds one.
pub open spec fn parameter_view(p: RootParameter) -> Option<ViewType> {
    match p {
        RootParameter::DescriptorTable { typ, .. } => Some(typ),
        RootParameter::Descriptor { typ, .. } => Some(typ),
        RootParameter::Constants { .. } => None,
    }
}

/// The first register and the space that a parameter binds.
pub open spec fn parameter_place(p: RootParameter) -> (u32, u32) {
    match p {
        RootParameter::DescriptorTable { base_register, space, .. } => (base_register, space),
        RootParameter::Descriptor { register, space, .. } => (register, space),
        RootParameter::Constants { register, space, .. } => (register, space),
    }
}

/// How many views or constants a parameter binds.
pub open spec fn parameter_count(p: RootParameter) -> u32 {
    match p {
        RootParameter::DescriptorTable { count, .. } => count,
        RootParameter::Descriptor { .. } => 1,
        RootParameter::Constants { count, .. } => count,
    }
}

/// A parameter of a root signature binds what the entry says: a table and a single view of the kind
/// of the entry, or constants, as many as the entry says, at the register and in the space of the
/// entry.
pub proof fn lemma_root_parameter(entry: RootSigEntry)
    ensures
        match entry {
            RootSigEntry::Table(t) => {
                let p = root_parameter(entry);
                &&& p is DescriptorTable
                &&& parameter_view(p) == Some(t.typ)
                &&& parameter_place(p) == (t.register, t.space)
                &&& parameter_count(p) == t.number
            },
            RootSigEntry::View(v) => {
                let p = root_parameter(entry);
                &&& p is Descriptor
                &&& parameter_view(p) == Some(v.typ)
                &&& parameter_place(p) == (v.register, v.space)
                &&& parameter_count(p) == 1
            },
            RootSigEntry::Const(c) => {
                let p = root_parameter(entry);
                &&& p is Constants
                &&& parameter_view(p) is None
                &&& parameter_place(p) == (c.register, c.space)
                &&& parameter_count(p) == c.number
            },
        },
{
}

/// An argument of a command, as the GPU is told of it.
#[derive(Clone, Copy, Debug, Eq, Hash, PartialEq, Structural)]
pub enum IndirectArgument {
    Constant {
        root_parameter_index: u32,
        /// In 32 bit values
        dest_offset: u32,
        number: u32,
    },
    View { typ: ViewType, root_parameter_index: u32 },
    Dispatch,
    DispatchRays,
}

/// The description of an argument.
pub open spec fn indirect_argument(arg: CommandSignatureArgument) -> IndirectArgument {
    match arg {
        CommandSignatureArgument::Constant { index, number, offset } => IndirectArgument::Constant {
            root_parameter_index: index,
            dest_offset: offset / 4,
            number,
        },
        CommandSignatureArgument::View { typ, index } => IndirectArgument::View {
            typ,
            root_parameter_index: index,
        },
        CommandSignatureArgument::Dispatch => IndirectArgument::Dispatch,
        CommandSignatureArgument::DispatchRays => IndirectArgument::DispatchRays,
    }
}

/// How many bytes an argument takes: four for each constant, an address for a view, three 32-bit
/// numbers for a dispatch. For rays, the three numbers stand behind one address range and three
/// address ranges with a stride, and the whole is a multiple of eight bytes.
pub open spec fn argument_size(arg: CommandSignatureArgument) -> nat {
    match arg {
        CommandSignatureArgument::Constant { number, .. } => (number * 4) as nat,
        CommandSignatureArgument::View { .. } => 8,
        CommandSignatureArgument::Dispatch => 12,
        CommandSignatureArgument::DispatchRays => 104,
    }
}

/// How many bytes the arguments of one command take.
pub open spec fn command_size(arguments: Seq<CommandSignatureArgument>) -> nat
    decreases arguments.len(),
{
    if arguments.len() == 0 {
        0
    } else {
        command_size(arguments.drop_last()) + argument_size(arguments.last())
    }
}

/// How many bytes the arguments of one command take.
pub fn get_command_size(arguments: &Vec<CommandSignatureArgument>) -> (size: u128)
    ensures
        size == command_size(arguments@),
{
    let mut size: u128 = 0;
    let mut i: usize = 0;
    assert(arguments@.take(0) =~= Seq::<CommandSignatureArgument>::empty());
    while i < arguments.len()
        invariant
            i <= arguments@.len(),
            size == command_size(arguments@.take(i as int)),
            size <= i * 0x4_0000_0000,
        decreases arguments@.len() - i,
    {
        proof {
            assert(arguments@.take(i + 1).drop_last() =~= arguments@.take(i as int));
            assert(arguments@.take(i + 1).last() == arguments@[i as int]);
        }
        let bytes: u128 = match arguments[i] {
            CommandSignatureArgument::Constant { number, .. } => number as u128 * 4,
            CommandSignatureArgument::View { .. } => 8,
            CommandSignatureArgument::Dispatch => 12,
            CommandSignatureArgument::DispatchRays => 104,
        };
        size = size + bytes;
        i += 1;
    }
    assert(arguments@.take(i as int) =~= arguments@);
    size
}

/// How many bytes of a command an argument reads: four for each constant, eight for the address of
/// a view, and the three group counts or the description of the rays.
pub open spec fn read_size(arg: IndirectArgument) -> nat {
    match arg {
        IndirectArgument::Constant { number, .. } => 4 * number as nat,
        IndirectArgument::View { .. } => 8,
        IndirectArgument::Dispatch => 3 * 4,
        // one range of addresses, three ranges with a stride, three counts, rounded up
        IndirectArgument::DispatchRays => (2 * 8 + 3 * (3 * 8) + 3 * 4 + 7) / 8 * 8,
    }
}

/// An argument as the GPU is told of it takes the bytes that are reckoned for it. It sets the root
/// parameter that the script names: the constants from the byte offset of the script on, or a view
/// of the same kind.
pub proof fn lemma_indirect_argument(arg: CommandSignatureArgument)
    requires
        arg matches CommandSignatureArgument::Constant { offset, .. } ==> offset % 4 == 0,
    ensures
        read_size(indirect_argument(arg)) == argument_size(arg),
        match indirect_argument(arg) {
            IndirectArgument::Constant { root_parameter_index, dest_offset, number } => arg matches
                CommandSignatureArgument::Constant { index, number: n, offset }
                && root_parameter_index == index && 4 * dest_offset == offset && number == n,
            IndirectArgument::View { typ, root_parameter_index } => arg matches
                CommandSignatureArgument::View { typ: t, index } && typ == t && root_parameter_index
                == index,
            IndirectArgument::Dispatch => arg is Dispatch,
            IndirectArgument::DispatchRays => arg is DispatchRays,
        },
{
}

/// The arguments of a command stand directly behind each other: those of a longer list start where
/// those of the first part end.
pub proof fn lemma_command_size(
    a: Seq<CommandSignatureArgument>,
    b: Seq<CommandSignatureArgument>,
)
    ensures
        command_size(a + b) == command_size(a) + command_size(b),
        a.len() == 1 ==> command_size(a) == read_size(indirect_argument(a[0])),
    decreases b.len(),
{
    if a.len() == 1 {
        assert(a.drop_last() =~= Seq::empty());
        assert(command_size(a.drop_last()) == 0);
        assert(read_size(indirect_argument(a[0])) == argument_size(a[0]));
    }
    if b.len() == 0 {
        assert(a + b =~= a);
    } else {
        assert((a + b).drop_last() =~= a + b.drop_last());
        lemma_command_size(a, b.drop_last());
    }
}

/// How a command signature is described.
#[derive(Clone, Debug, Eq, Hash, PartialEq)]
pub struct CommandSignaturePlan {
    pub arguments: Vec<IndirectArgument>,
    pub stride: u32,
}

/// The commands stand too close to each other.
#[derive(Clone, Copy, Debug, Eq, Hash, PartialEq, Structural)]
pub struct TooSmallExecuteIndirectStride {
    pub stride: u32,
    pub need_stride: u32,
}

/// Describes a command signature. Without a stride, commands stand directly behind each other.
pub fn plan_command_signature(
    stride: Option<u32>,
    arguments: &Vec<CommandSignatureArgument>,
) -> (result: Result<CommandSignaturePlan, TooSmallExecuteIndirectStride>)
    requires
        command_size(arguments@) <= u32::MAX,
        forall|i: int|
            0 <= i < arguments@.len() ==> (#[trigger] arguments@[i] matches
                CommandSignatureArgument::Constant { offset, .. } ==> offset % 4 == 0),
    ensures
        match result {
            Ok(plan) => plan.arguments@ == Seq::new(
                arguments@.len(),
                |i: int| indirect_argument(arguments@[i]),
            ) && plan.stride == (match stride {
                Some(s) => s as nat,
                None => command_size(arguments@),
            }) && plan.stride >= command_size(arguments@),
            Err(e) => stride == Some(e.stride) && e.stride < command_size(arguments@)
                && e.need_stride == command_size(arguments@),
        },
{
    let size: u32 = get_command_size(arguments) as u32;
    let stride: u32 = match stride {
        Some(s) => s,
        None => size,
    };
    if stride < size {
        return Err(TooSmallExecuteIndirectStride { stride, need_stride: size });
    }
    let mut args: Vec<IndirectArgument> = Vec::new();
    let mut i: usize = 0;
    while i < arguments.len()
        invariant
            i <= arguments@.len(),
            args@ == Seq::new(i as nat, |j: int| indirect_argument(arguments@[j])),
        decreases arguments@.len() - i,
    {
        let arg = match arguments[i] {
            CommandSignatureArgument::Constant { index, number, offset } => {
                IndirectArgument::Constant {
                    root_parameter_index: index,
                    dest_offset: offset / 4,
                    number,
                }
            },
            CommandSignatureArgument::View { typ, index } => IndirectArgument::View {
                typ,
                root_parameter_index: index,
            },
            CommandSignatureArgument::Dispatch => IndirectArgument::Dispatch,
            CommandSignatureArgument::DispatchRays => IndirectArgument::DispatchRays,
        };
        args.push(arg);
        i += 1;
        assert(args@ =~= Seq::new(i as nat, |j: int| indirect_argument(arguments@[j])));
    }
    Ok(CommandSignaturePlan { arguments: args, stride })
}

/// A part of a state object. Libraries and collections are told by their place in the statement.
#[derive(Clone, Debug, Eq, Hash, PartialEq)]
pub enum Subobject<S> {
    Library { place: usize, object: IdentifierIdx },
    Collection { place: usize, collection: IdentifierIdx },
    HitGroup {
        name: S,
        /// Hits boxes instead of triangles
        procedural: bool,
        any_hit: Option<S>,
        closest_hit: Option<S>,
        intersection: Option<S>,
    },
    Config { flags: u32 },
}

impl<S: DeepView> DeepView for Subobject<S> {
    type V = Subobject<S::V>;

    open spec fn deep_view(&self) -> Subobject<S::V> {
        match self {
            Subobject::Library { place, object } => Subobject::Library {
                place: *place,
                object: *object,
            },
            Subobject::Collection { place, collection } => Subobject::Collection {
                place: *place,
                collection: *collection,
            },
            Subobject::HitGroup { name, procedural, any_hit, closest_hit, intersection } =>
                Subobject::HitGroup {
                    name: name.deep_view(),
                    procedural: *procedural,
                    any_hit: any_hit.deep_view(),
                    closest_hit: closest_hit.deep_view(),
                    intersection: intersection.deep_view(),
                },
            Subobject::Config { flags } => Subobject::Config { flags: *flags },
        }
    }
}

/// Why a state object cannot be described.
#[derive(Clone, Copy, Debug, Eq, Hash, PartialEq, Structural)]
pub enum StateObjectError {
    TooManyExports,
    TooManySubobjects,
}

/// Whether there are few enough exports of each object.
pub open spec fn exports_fit(objects: Seq<LinkObjectView>) -> bool {
    forall|i: int| 0 <= i < objects.len() ==> (#[trigger] objects[i]).exports.len() <= u32::MAX
}

/// The name of a shader, if there is one.
pub open spec fn shader_name(shader: Option<SpanObj<Seq<char>>>) -> Option<Seq<char>> {
    match shader {
        Some(shader) => Some(shader.content),
        None => None,
    }
}

/// A hit group as a part of a state object. With an intersection shader it hits boxes.
pub open spec fn hit_group_part(group: HitGroup<Seq<char>>) -> Subobject<Seq<char>> {
    Subobject::HitGroup {
        name: group.name.content,
        procedural: group.intersection is Some,
        any_hit: shader_name(group.any_hit),
        closest_hit: shader_name(group.closest_hit),
        intersection: shader_name(group.intersection),
    }
}

/// The parts of a state object: libraries, collections, hit groups, and flags if there are any.
pub open spec fn subobjects(
    lib_ids: Seq<IdentifierIdx>,
    collection_ids: Seq<IdentifierIdx>,
    hit_groups: Seq<HitGroup<Seq<char>>>,
    config: u32,
) -> Seq<Subobject<Seq<char>>> {
    Seq::new(
        lib_ids.len(),
        |i: int| Subobject::Library { place: i as usize, object: lib_ids[i] },
    ) + Seq::new(
        collection_ids.len(),
        |i: int| Subobject::Collection { place: i as usize, collection: collection_ids[i] },
    ) + Seq::new(hit_groups.len(), |i: int| hit_group_part(hit_groups[i])) + if config == 0 {
        Seq::<Subobject<Seq<char>>>::empty()
    } else {
        seq![Subobject::Config { flags: config }]
    }
}

/// Whether a shader has the name that the script gives, or both are left out.
pub open spec fn is_shader(written: Option<SpanObj<Seq<char>>>, shader: Option<Seq<char>>) -> bool {
    match (written, shader) {
        (Some(w), Some(s)) => s == w.content,
        (None, None) => true,
        _ => false,
    }
}

/// A hit group keeps its name and its shaders, each in its own role, and it hits boxes exactly if
/// it has a shader that intersects them.
pub proof fn lemma_hit_group_part(group: HitGroup<Seq<char>>)
    ensures
        hit_group_part(group) matches Subobject::HitGroup {
            name,
            procedural,
            any_hit,
            closest_hit,
            intersection,
        } && name == group.name.content && procedural == (intersection is Some) && is_shader(
            group.any_hit,
            any_hit,
        ) && is_shader(group.closest_hit, closest_hit) && is_shader(
            group.intersection,
            intersection,
        ),
{
}

/// Each library, each collection and each hit group is in a state object once. Libraries and
/// collections are known by their place in the statement, and the flags are there exactly if one is
/// set.
pub proof fn lemma_subobjects(
    lib_ids: Seq<IdentifierIdx>,
    collection_ids: Seq<IdentifierIdx>,
    hit_groups: Seq<HitGroup<Seq<char>>>,
    config: u32,
)
    requires
        lib_ids.len() <= usize::MAX,
        collection_ids.len() <= usize::MAX,
    ensures
        ({
            let parts = subobjects(lib_ids, collection_ids, hit_groups, config);
            let l = lib_ids.len();
            let c = collection_ids.len();
            let h = hit_groups.len();
            &&& parts.len() == l + c + h + if config != 0 {
                1int
            } else {
                0
            }
            &&& forall|k: int| #![trigger parts[k]]
                0 <= k < parts.len() ==> match parts[k] {
                    Subobject::Library { place, object } => k < l && place == k && object
                        == lib_ids[k],
                    Subobject::Collection { place, collection } => l <= k < l + c && place == k - l
                        && collection == collection_ids[k - l],
                    Subobject::HitGroup { name, .. } => l + c <= k < l + c + h && name
                        == hit_groups[k - l - c].name.content && parts[k] == hit_group_part(
                        hit_groups[k - l - c],
                    ),
                    Subobject::Config { flags } => k == l + c + h && flags == config && flags != 0,
                }
        }),
{
}

/// The name of a shader, if there is one.
fn get_shader_name(shader: &Option<Identifier>) -> (name: Option<String>)
    ensures
        name.deep_view() == shader_name(shader.deep_view()),
{
    match shader {
        Some(shader) => Some(shader.content.clone()),
        None => None,
    }
}

/// A hit group as a part of a state object.
fn get_hit_group_part(group: &HitGroup<String>) -> (part: Subobject<String>)
    ensures
        part.deep_view() == hit_group_part(group.deep_view()),
{
    let procedural = match &group.intersection {
        Some(_) => true,
        None => false,
    };
    Subobject::HitGroup {
        name: group.name.content.clone(),
        procedural,
        any_hit: get_shader_name(&group.any_hit),
        closest_hit: get_shader_name(&group.closest_hit),
        intersection: get_shader_name(&group.intersection),
    }
}

/// Whether there are few enough exports of each object.
fn check_exports(objects: &Vec<LinkObject>) -> (fits: bool)
    ensures
        fits == exports_fit(objects.deep_view()),
{
    let mut i: usize = 0;
    while i < objects.len()
        invariant
            i <= objects@.len(),
            forall|j: int|
                0 <= j < i ==> (#[trigger] objects.deep_view()[j]).exports.len() <= u32::MAX,
        decreases objects@.len() - i,
    {
        assert(objects.deep_view()[i as int] == objects@[i as int].deep_view());
        assert(objects@[i as int].deep_view().exports.len() == objects@[i as int].exports@.len());
        if objects[i].exports.len() as u128 > u32::MAX as u128 {
            return false;
        }
        i += 1;
    }
    true
}

/// Describes a state object.
pub fn plan_state_object(
    libs: &Vec<LinkObject>,
    lib_ids: &Vec<IdentifierIdx>,
    collections: &Vec<LinkObject>,
    collection_ids: &Vec<IdentifierIdx>,
    hit_groups: &Vec<HitGroup<String>>,
    config: u32,
) -> (result: Result<Vec<Subobject<String>>, StateObjectError>)
    requires
        libs@.len() == lib_ids@.len(),
        collections@.len() == collection_ids@.len(),
    ensures
        ({
            let parts = subobjects(lib_ids@, collection_ids@, hit_groups.deep_view(), config);
            match result {
                Ok(list) => exports_fit(libs.deep_view()) && exports_fit(collections.deep_view())
                    && parts.len() <= u32::MAX && list.deep_view() == parts,
                Err(StateObjectError::TooManyExports) => !exports_fit(libs.deep_view())
                    || !exports_fit(collections.deep_view()),
                Err(StateObjectError::TooManySubobjects) => exports_fit(libs.deep_view())
                    && exports_fit(collections.deep_view()) && parts.len() > u32::MAX,
            }
        }),
{
    if !check_exports(libs) || !check_exports(collections) {
        return Err(StateObjectError::TooManyExports);
    }
    let ghost groups = hit_groups.deep_view();
    let ghost l = Seq::new(
        lib_ids@.len(),
        |i: int| Subobject::<Seq<char>>::Library { place: i as usize, object: lib_ids@[i] },
    );
    let ghost c = Seq::new(
        collection_ids@.len(),
        |i: int|
            Subobject::<Seq<char>>::Collection {
                place: i as usize,
                collection: collection_ids@[i],
            },
    );
    let ghost h = Seq::new(groups.len(), |i: int| hit_group_part(groups[i]));
    let mut list: Vec<Subobject<String>> = new_list();
    let mut i: usize = 0;
    assert(list.deep_view() =~= l.take(0));
    while i < lib_ids.len()
        invariant
            i <= lib_ids@.len(),
            l.len() == lib_ids@.len(),
            forall|j: int|
                0 <= j < l.len() ==> #[trigger] l[j] == (Subobject::<Seq<char>>::Library {
                    place: j as usize,
                    object: lib_ids@[j],
                }),
            list.deep_view() == l.take(i as int),
        decreases lib_ids@.len() - i,
    {
        push_item(&mut list, Subobject::Library { place: i, object: lib_ids[i] });
        i += 1;
        assert(list.deep_view() =~= l.take(i as int));
    }
    let mut i: usize = 0;
    assert(list.deep_view() =~= l + c.take(0));
    while i < collection_ids.len()
        invariant
            i <= collection_ids@.len(),
            c.len() == collection_ids@.len(),
            forall|j: int|
                0 <= j < c.len() ==> #[trigger] c[j] == (Subobject::<Seq<char>>::Collection {
                    place: j as usize,
                    collection: collection_ids@[j],
                }),
            list.deep_view() == l + c.take(i as int),
        decreases collection_ids@.len() - i,
    {
        push_item(&mut list, Subobject::Collection { place: i, collection: collection_ids[i] });
        i += 1;
        assert(list.deep_view() =~= l + c.take(i as int));
    }
    let mut i: usize = 0;
    assert(list.deep_view() =~= l + c + h.take(0));
    while i < hit_groups.len()
        invariant
            i <= hit_groups@.len(),
            groups == hit_groups.deep_view(),
            h.len() == hit_groups@.len(),
            forall|j: int| 0 <= j < h.len() ==> #[trigger] h[j] == hit_group_part(groups[j]),
            list.deep_view() == l + c + h.take(i as int),
        decreases hit_groups@.len() - i,
    {
        assert(groups[i as int] == hit_groups@[i as int].deep_view());
        push_item(&mut list, get_hit_group_part(&hit_groups[i]));
        i += 1;
        assert(list.deep_view() =~= l + c + h.take(i as int));
    }
    if config != 0 {
        push_item(&mut list, Subobject::Config { flags: config });
    }
    assert(list.deep_view() =~= subobjects(lib_ids@, collection_ids@, groups, config));
    assert(list.deep_view().len() == list@.len());
    if list.len() as u128 > u32::MAX as u128 {
        Err(StateObjectError::TooManySubobjects)
    } else {
        Ok(list)
    }
}

} // verus!
