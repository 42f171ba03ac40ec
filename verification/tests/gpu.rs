use smoldr::gpu::accel::{
    blas_bytes, blas_geometries, get_tlas_bytes, GeometryDesc, InstanceData, ProceduralData,
    TriangleData, ONE_BITS,
};
use smoldr::gpu::binding::{
    get_command_size, plan_command_signature, plan_state_object, plan_view, root_parameters,
    BufferView, ElementFormat, IndirectArgument, RootParameter, Subobject,
    TooSmallExecuteIndirectStride, ViewError, ViewPlan,
};
use smoldr::gpu::device::{adapter_name, device_messages, get_device_list, DescriptorHeap};
use smoldr::gpu::dispatch::{
    argument_start, elapsed, plan_dispatch, plan_rays, Command, TableRange,
    TooSmallExecuteIndirectBuffer,
};
use smoldr::gpu::layout::{next_multiple_of, push_words, write_bytes, zero_bytes};
use smoldr::gpu::shader_table::{
    get_local_root_sig_stride, get_record_count, get_table_bytes, table_layout, RecordConst,
    RecordData, RecordNumber, TableLayout, TooManyLocalRootEntries, SHADER_ID_SIZE,
};
use smoldr::gpu::window::{
    get_window_action, get_window_title, has_area, WindowAction, KEY_ESCAPE, MESSAGE_DESTROY,
    MESSAGE_KEY_DOWN, MESSAGE_PAINT, MESSAGE_SIZE, SIZE_MINIMIZED,
};
use smoldr::names::IdentifierIdx;
use smoldr::parser::statements::parse_str;
use smoldr::script::{
    CommandSignatureArgument, Directive, InputViewType, RayTables, TimeSpan, UnresolvedRootVal,
    ViewType,
};
use smoldr::state::{DispatchContent, PipelineKind, RootVal};
use smoldr::value::DataType;

fn parse_one(text: &str) -> Directive {
    parse_str(text).unwrap().pop().unwrap()
}

fn floats(bytes: &[u8]) -> Vec<f32> {
    bytes.chunks(4).map(|c| f32::from_le_bytes(c.try_into().unwrap())).collect()
}

fn bits(floats: &[f32]) -> Vec<u32> {
    floats.iter().map(|f| f.to_bits()).collect()
}

#[test]
fn geometries_stand_where_they_are_looked_for() {
    let transform: Vec<f32> = (0..12).map(|i| i as f32).collect();
    let first: Vec<f32> = (0..9).map(|i| 10.0 + i as f32).collect();
    let second: Vec<f32> = (0..9).map(|i| 30.0 + i as f32).collect();
    let boxes: Vec<f32> = (0..12).map(|i| 50.0 + i as f32).collect();
    let triangles = vec![
        TriangleData { vertices: bits(&first), transform: None, config: 1 },
        TriangleData {
            vertices: bits(&second),
            transform: Some(bits(&transform)),
            config: 2,
        },
    ];
    let procedurals = vec![ProceduralData { aabbs: bits(&boxes), config: 3 }];
    let bytes = blas_bytes(&triangles, &procedurals);
    assert_eq!(bytes.len(), 4 * (12 + 12 + 18));
    let base = 0x1000;
    let at = |address: u64, count: usize| {
        let start = (address - base) as usize;
        floats(&bytes[start..start + 4 * count])
    };
    let all = blas_geometries(&triangles, &procedurals, base);
    assert_eq!(all.len(), 3);
    match all[0] {
        GeometryDesc::Triangles { flags, transform, vertex_count, vertex_start, vertex_stride } => {
            assert_eq!((flags, transform, vertex_count, vertex_stride), (1, 0, 3, 12));
            assert_eq!(at(vertex_start, 9), first);
        }
        _ => panic!(),
    }
    match all[1] {
        GeometryDesc::Triangles { flags, transform: t, vertex_count, vertex_start, .. } => {
            assert_eq!((flags, vertex_count), (2, 3));
            assert_eq!(at(t, 12), transform);
            assert_eq!(at(vertex_start, 9), second);
        }
        _ => panic!(),
    }
    match all[2] {
        GeometryDesc::Aabbs { flags, count, start, stride } => {
            assert_eq!((flags, count, stride), (3, 2, 24));
            assert_eq!(at(start, 12), boxes);
        }
        _ => panic!(),
    }
}

#[test]
fn instances_take_sixty_four_bytes() {
    let instance = |transform, id, mask, index_contrib| InstanceData {
        transform,
        id,
        mask,
        index_contrib,
        flags: 4,
        address: 0x0102_0304_0506_0708,
    };
    let moved: Vec<f32> = (0..12).map(|i| i as f32).collect();
    let bytes = get_tlas_bytes(&vec![
        instance(None, None, None, None),
        instance(Some(bits(&moved)), Some(5), Some(0x80), Some(7)),
    ]);
    assert_eq!(bytes.len(), 128);
    let one = f32::from_bits(ONE_BITS);
    assert_eq!(one, 1.0);
    assert_eq!(
        floats(&bytes[0..48]),
        vec![one, 0.0, 0.0, 0.0, 0.0, one, 0.0, 0.0, 0.0, 0.0, one, 0.0]
    );
    assert_eq!(&bytes[48..52], &0xff00_0000u32.to_le_bytes());
    assert_eq!(&bytes[52..56], &0x0400_0000u32.to_le_bytes());
    assert_eq!(&bytes[56..64], &0x0102_0304_0506_0708u64.to_le_bytes());
    assert_eq!(floats(&bytes[64..112]), moved);
    assert_eq!(&bytes[112..116], &0x8000_0005u32.to_le_bytes());
    assert_eq!(&bytes[116..120], &0x0400_0007u32.to_le_bytes());
}

#[test]
fn bytes_are_laid_out() {
    let mut bytes = vec![9];
    push_words(&mut bytes, &vec![1, 0x0a0b0c0d]);
    assert_eq!(bytes, vec![9, 1, 0, 0, 0, 0x0d, 0x0c, 0x0b, 0x0a]);
    assert_eq!(next_multiple_of(33, 32), 64);
    assert_eq!(next_multiple_of(64, 32), 64);
    assert_eq!(next_multiple_of(0, 8), 0);
    let mut zeros = zero_bytes(4);
    write_bytes(&mut zeros, 1, &vec![7, 8]);
    assert_eq!(zeros, vec![0, 7, 8, 0]);
}

#[test]
fn records_stand_at_their_index() {
    let record = |index: u32, number| RecordData {
        index,
        binds: vec![RecordNumber { index: 0, number }],
        views: vec![RecordNumber { index: 2, number: number + 1 }],
        consts: vec![RecordConst { index: 1, data: vec![index as u8; 4] }],
    };
    let records = vec![record(3, 100), record(0, 200)];
    // 32 bytes for the identifier and up to byte 17 for arguments
    assert_eq!(get_local_root_sig_stride(&records), 64);
    assert_eq!(get_record_count(&records), 4);
    let layout = table_layout(&records).unwrap();
    assert_eq!(layout, TableLayout { stride: 64, size: 256 });
    let ids = vec![vec![1; SHADER_ID_SIZE], vec![2; SHADER_ID_SIZE]];
    let table = get_table_bytes(&records, &ids, layout);
    assert_eq!(table.len(), 256);
    assert_eq!(&table[192..224], &[1; 32]);
    assert_eq!(&table[224..232], &100u64.to_le_bytes());
    assert_eq!(&table[232..236], &[3; 4]);
    assert_eq!(&table[240..248], &101u64.to_le_bytes());
    assert_eq!(&table[0..32], &[2; 32]);
    assert_eq!(&table[32..40], &200u64.to_le_bytes());
    assert_eq!(&table[64..192], &[0; 128]);
    assert_eq!(
        table_layout(&vec![]),
        Ok(TableLayout { stride: 32, size: 0 })
    );
    let too_long = RecordData {
        index: 0,
        binds: vec![RecordNumber { index: 600, number: 0 }],
        views: vec![],
        consts: vec![],
    };
    assert_eq!(
        table_layout(&vec![too_long]),
        Err(TooManyLocalRootEntries { stride: 4864, max_size: 4096 })
    );
}

#[test]
fn root_signatures_are_described() {
    let text = "ROOT root\n TABLE SRV REGISTER 1 NUMBER 2 SPACE 3\n UAV REGISTER 4 SPACE 5\n \
                ROOT_CONST NUMBER 6 REGISTER 7 SPACE 8\nEND";
    match parse_one(text) {
        Directive::RootSig { entries, .. } => assert_eq!(
            root_parameters(&entries),
            Ok(vec![
                RootParameter::DescriptorTable {
                    typ: ViewType::Srv,
                    count: 2,
                    base_register: 1,
                    space: 3,
                },
                RootParameter::Descriptor { typ: ViewType::Uav, register: 4, space: 5 },
                RootParameter::Constants { register: 7, space: 8, count: 6 },
            ])
        ),
        _ => panic!(),
    }
}

#[test]
fn views_are_described() {
    let typ = ViewType::Uav;
    assert_eq!(
        plan_view(InputViewType::Typed { typ, data_type: DataType::U16 }, 7),
        Ok(ViewPlan::Buffer(BufferView {
            typ,
            format: ElementFormat::R16Uint,
            num_elements: 3,
            struct_stride: 0,
            is_raw: false,
        }))
    );
    assert_eq!(
        plan_view(InputViewType::Raw { typ: ViewType::Srv }, 8),
        Ok(ViewPlan::Buffer(BufferView {
            typ: ViewType::Srv,
            format: ElementFormat::R32Typeless,
            num_elements: 2,
            struct_stride: 0,
            is_raw: true,
        }))
    );
    assert_eq!(
        plan_view(InputViewType::Structured { typ, struct_size: 12 }, 40),
        Ok(ViewPlan::Buffer(BufferView {
            typ,
            format: ElementFormat::Unknown,
            num_elements: 3,
            struct_stride: 12,
            is_raw: false,
        }))
    );
    assert_eq!(plan_view(InputViewType::RaytracingAccelStruct, 0), Ok(ViewPlan::AccelStruct));
    assert_eq!(
        plan_view(InputViewType::Typed { typ, data_type: DataType::U64 }, 8),
        Err(ViewError::InvalidDataType { typ: DataType::U64 })
    );
    assert_eq!(
        plan_view(InputViewType::Typed { typ, data_type: DataType::U8 }, 1 << 32),
        Err(ViewError::BufferTooLarge)
    );
}

#[test]
fn command_signatures_are_described() {
    let arguments = vec![
        CommandSignatureArgument::Constant { index: 1, number: 2, offset: 8 },
        CommandSignatureArgument::View { typ: ViewType::Srv, index: 3 },
        CommandSignatureArgument::DispatchRays,
    ];
    assert_eq!(get_command_size(&arguments), 120);
    let plan = plan_command_signature(None, &arguments).unwrap();
    assert_eq!(plan.stride, 120);
    assert_eq!(
        plan.arguments,
        vec![
            IndirectArgument::Constant { root_parameter_index: 1, dest_offset: 2, number: 2 },
            IndirectArgument::View { typ: ViewType::Srv, root_parameter_index: 3 },
            IndirectArgument::DispatchRays,
        ]
    );
    assert_eq!(plan_command_signature(Some(128), &arguments).unwrap().stride, 128);
    assert_eq!(
        plan_command_signature(Some(8), &vec![CommandSignatureArgument::Dispatch]),
        Err(TooSmallExecuteIndirectStride { stride: 8, need_stride: 12 })
    );
}

#[test]
fn state_objects_are_described() {
    let text = "RTPSO pso\n LIB a\n LIB b\n COLLECTION c\n HIT_GROUP g x z -\n \
                HIT_GROUP h - - y\n CONFIG add_to_so\nEND";
    match parse_one(text) {
        Directive::PipelineStateObject { libs, collections, hit_groups, config, .. } => {
            let ids = vec![IdentifierIdx(1), IdentifierIdx(2)];
            let collection_ids = vec![IdentifierIdx(3)];
            let parts = plan_state_object(
                &libs,
                &ids,
                &collections,
                &collection_ids,
                &hit_groups,
                config,
            );
            assert_eq!(
                parts,
                Ok(vec![
                    Subobject::Library { place: 0, object: IdentifierIdx(1) },
                    Subobject::Library { place: 1, object: IdentifierIdx(2) },
                    Subobject::Collection { place: 0, collection: IdentifierIdx(3) },
                    Subobject::HitGroup {
                        name: "g".to_string(),
                        procedural: false,
                        any_hit: Some("x".to_string()),
                        closest_hit: Some("z".to_string()),
                        intersection: None,
                    },
                    Subobject::HitGroup {
                        name: "h".to_string(),
                        procedural: true,
                        any_hit: None,
                        closest_hit: None,
                        intersection: Some("y".to_string()),
                    },
                    Subobject::Config { flags: 4 },
                ])
            );
        }
        _ => panic!(),
    }
}

#[test]
fn dispatches_are_planned() {
    let text = "DISPATCH pipe\n ROOT_CONST 3 RAW 4\n  uint32 9\n END\n UAV 2 buf\n \
                BIND 1 TABLE view\nRUN 1 2 3";
    let root_val = match parse_one(text) {
        Directive::Dispatch { root_val, .. } => root_val,
        _ => panic!(),
    };
    let ids = RootVal {
        binds: vec![IdentifierIdx(7)],
        consts: vec![vec![]],
        views: vec![IdentifierIdx(8)],
    };
    let data = vec![vec![9, 0, 0, 0]];
    let pipeline = IdentifierIdx(5);
    let own = Some(IdentifierIdx(6));
    let commands = plan_dispatch(
        pipeline,
        DispatchContent::Dispatch,
        own,
        None,
        &root_val,
        &ids,
        data.clone(),
    )
    .unwrap();
    assert_eq!(
        commands,
        vec![
            Command::SetPipeline { pipeline },
            Command::SetRootSignature { root_sig: own },
            Command::BindTable { index: 1, view: IdentifierIdx(7) },
            Command::SetView { typ: ViewType::Uav, index: 2, buffer: IdentifierIdx(8) },
            Command::SetConstants { index: 3, count: 1, data: vec![9, 0, 0, 0] },
        ]
    );
    let nothing = UnresolvedRootVal { binds: vec![], consts: vec![], views: vec![] };
    let no_ids = RootVal { binds: vec![], consts: vec![], views: vec![] };
    let first = |content, root_sig| {
        plan_dispatch(pipeline, content, own, root_sig, &nothing, &no_ids, vec![]).unwrap()
    };
    let tables = RayTables { raygen: None, miss: None, hit_group: None, callable: None };
    assert_eq!(
        first(DispatchContent::DispatchRays { tables }, None),
        vec![
            Command::SetStateObject { pso: pipeline },
            Command::SetRootSignature { root_sig: None },
        ]
    );
    let indirect = DispatchContent::ExecuteIndirect {
        signature: IdentifierIdx(0),
        pipeline_kind: PipelineKind::Pipeline,
        argument_buffer: IdentifierIdx(0),
        count_buffer: None,
    };
    assert_eq!(
        first(indirect, Some(IdentifierIdx(9))),
        vec![
            Command::SetPipeline { pipeline },
            Command::SetRootSignature { root_sig: Some(IdentifierIdx(9)) },
        ]
    );
}

#[test]
fn indirect_arguments_must_fit() {
    assert_eq!(argument_start(48, None, 12, 4), Ok(0));
    assert_eq!(argument_start(48, Some(12), 12, 3), Ok(12));
    assert_eq!(
        argument_start(48, Some(13), 12, 3),
        Err(TooSmallExecuteIndirectBuffer {
            buffer_size: 48,
            offset: 13,
            max_commands: 3,
            stride: 12,
        })
    );
    assert!(argument_start(8, Some(9), 0, 0).is_err());
    assert!(argument_start(u64::MAX, Some(u64::MAX), u32::MAX, u32::MAX).is_err());
}

#[test]
fn rays_get_their_tables() {
    let range = |n: u64| TableRange { start: n, size: n + 1, stride: n + 2 };
    let plan = plan_rays(RayTables {
        raygen: Some(range(10)),
        miss: None,
        hit_group: Some(range(30)),
        callable: Some(range(40)),
    });
    assert_eq!((plan.raygen_start, plan.raygen_size), (10, 11));
    assert_eq!(plan.miss, TableRange { start: 0, size: 0, stride: 0 });
    assert_eq!(plan.hit_group, range(30));
    assert_eq!(plan.callable, range(40));
}

#[test]
fn ticks_become_time() {
    assert_eq!(elapsed(100, 100, 1), TimeSpan { seconds: 0, nanoseconds: 0 });
    assert_eq!(elapsed(5, 35, 20), TimeSpan { seconds: 1, nanoseconds: 500_000_000 });
    assert_eq!(elapsed(0, 2, 3), TimeSpan { seconds: 0, nanoseconds: 666_666_666 });
    assert_eq!(
        elapsed(0, u64::MAX - 1, u64::MAX),
        TimeSpan { seconds: 0, nanoseconds: 999_999_999 }
    );
}

#[test]
fn devices_are_described() {
    let mut heap = DescriptorHeap::new();
    assert_eq!(heap.next(32), 0);
    assert_eq!(heap.next(16), 32);
    assert_eq!(heap.next(16), 48);
    heap.reset();
    assert_eq!(heap.next(32), 0);
    assert_eq!(adapter_name("GPU\0\0\0"), "GPU");
    assert_eq!(adapter_name("GPU"), "GPU");
    assert_eq!(device_messages(&vec![]), "");
    assert_eq!(device_messages(&vec!["a".to_string(), "b".to_string()]), "DX a\nDX b");
    assert_eq!(get_device_list(&vec![]), "");
    assert_eq!(get_device_list(&vec!["a".to_string(), "b".to_string()]), "\n- a\n- b");
}

#[test]
fn windows_react() {
    assert_eq!(get_window_action(MESSAGE_PAINT, 0), WindowAction::Paint);
    assert_eq!(get_window_action(MESSAGE_SIZE, 0), WindowAction::Resize);
    assert_eq!(get_window_action(MESSAGE_SIZE, SIZE_MINIMIZED as u64), WindowAction::Ignore);
    assert_eq!(get_window_action(MESSAGE_KEY_DOWN, KEY_ESCAPE as u64), WindowAction::Quit);
    assert_eq!(get_window_action(MESSAGE_KEY_DOWN, 0x20), WindowAction::Default);
    assert_eq!(get_window_action(MESSAGE_DESTROY, 0), WindowAction::Quit);
    assert_eq!(get_window_action(0x400, 0), WindowAction::Default);
    assert!(has_area(0, 0, 400, 300));
    assert!(!has_area(5, 0, 5, 300));
    assert_eq!(get_window_title(&None), "smoldr");
    assert_eq!(get_window_title(&Some("a.sm".to_string())), "smoldr a.sm");
}
