use smoldr::duration::DurationError;
use smoldr::names::IdentifierType;
use smoldr::parse_error::{IntType, ParserError, StatementFormat, WordKind};
use smoldr::parser::checks::sleep_for;
use smoldr::parser::statements::{parse, parse_str};
use smoldr::script::{
    CommandSignatureArgument, Dim3, Directive, DispatchType, DumpDataType, DumpFormat, Export,
    Fill, InputViewType, NumberForm, NumberLiteral, PipelineStateObjectType, PipelineType,
    RootSigConst, RootSigEntry, RootSigTable, RootSigView, ShaderReference, TimeSpan,
    UnresolvedValue, UnresolvedValueContent, ViewType,
};
use smoldr::source::{Identifier, SourceFileIdx, Span, SpanObj};
use smoldr::value::{DataType, Value};

/// The only statement of a script.
fn one(text: &str) -> Directive {
    let mut all = parse_str(text).unwrap();
    assert_eq!(all.len(), 1);
    all.pop().unwrap()
}

fn error(text: &str) -> ParserError<String> {
    parse_str(text).unwrap_err()
}

fn span(start: usize, end: usize) -> Span {
    Span { start, end }
}

fn contents(ids: &[Identifier]) -> Vec<&str> {
    ids.iter().map(|i| i.content.as_str()).collect()
}

fn literal(digits: &str, form: NumberForm, negative: bool) -> NumberLiteral<String> {
    NumberLiteral { negative, form, digits: digits.to_string() }
}

#[test]
fn sources_keep_line_numbers() {
    let text = "# first\nSOURCE a\n  code\nEND\nSOURCE b\nx\nEND\n";
    let all = parse_str(text).unwrap();
    assert_eq!(all.len(), 2);
    match &all[0] {
        Directive::Source { name, content } => {
            assert_eq!(name.content, "a");
            assert_eq!(content, "\n\n  code");
        }
        _ => panic!(),
    }
    match &all[1] {
        Directive::Source { content, .. } => assert_eq!(content, "\n\n\n\n\nx"),
        _ => panic!(),
    }
}

#[test]
fn objects_and_libraries() {
    match one("OBJECT cs_obj cs_source cs_6_4 CSMain -DA=1 \"-D B\"") {
        Directive::Object { name, source, shader_model, entrypoint, args } => {
            assert_eq!(name.content, "cs_obj");
            assert_eq!(source.content, "cs_source");
            assert_eq!(shader_model, "cs_6_4");
            assert_eq!(entrypoint.as_deref(), Some("CSMain"));
            assert_eq!(args, vec!["-DA=1", "-D B"]);
        }
        _ => panic!(),
    }
    match one("LIB lib source lib_6_4 # comment") {
        Directive::Object { entrypoint, args, .. } => {
            assert_eq!(entrypoint, None);
            assert!(args.is_empty());
        }
        _ => panic!(),
    }
    match one("LIB lib\ndefine void @f()\nEND") {
        Directive::ObjectDxil { name, content } => {
            assert_eq!(name.content, "lib");
            assert_eq!(content, "define void @f()");
        }
        _ => panic!(),
    }
}

#[test]
fn root_signatures() {
    let text = "ROOT default
  UAV REGISTER 5 SPACE 0
  TABLE SRV REGISTER 0 NUMBER 2 SPACE 1
  ROOT_CONST NUMBER 2 REGISTER 0 SPACE 0
  CONFIG cbv_srv_uav_heap_directly_indexed local_root_signature
END";
    match one(text) {
        Directive::RootSig { name, entries, config } => {
            assert_eq!(name.content, "default");
            assert_eq!(
                entries,
                vec![
                    RootSigEntry::View(RootSigView { typ: ViewType::Uav, register: 5, space: 0 }),
                    RootSigEntry::Table(RootSigTable {
                        typ: ViewType::Srv,
                        register: 0,
                        number: 2,
                        space: 1
                    }),
                    RootSigEntry::Const(RootSigConst { number: 2, register: 0, space: 0 }),
                ]
            );
            assert_eq!(config, 1024 | 128);
        }
        _ => panic!(),
    }
    match one("ROOT_DXIL root_sig obj") {
        Directive::RootSigDxil { name, object } => {
            assert_eq!((name.content.as_str(), object.content.as_str()), ("root_sig", "obj"));
        }
        _ => panic!(),
    }
}

#[test]
fn command_signatures() {
    let text = "COMMAND_SIGNATURE sig STRIDE 4 ROOT_SIG root
  SRV REGISTER 1
  UAV REGISTER 2
  ROOT_CONST NUMBER 3 REGISTER 3 OFFSET 8
  DISPATCH
END
";
    match one(text) {
        Directive::CommandSignature { stride, arguments, root_sig, .. } => {
            assert_eq!(stride, Some(4));
            assert_eq!(root_sig.unwrap().content, "root");
            assert_eq!(
                arguments,
                vec![
                    CommandSignatureArgument::View { typ: ViewType::Srv, index: 1 },
                    CommandSignatureArgument::View { typ: ViewType::Uav, index: 2 },
                    CommandSignatureArgument::Constant { index: 3, number: 3, offset: 8 },
                    CommandSignatureArgument::Dispatch,
                ]
            );
        }
        _ => panic!(),
    }
}

#[test]
fn pipelines_and_state_objects() {
    match one("PIPELINE pipeline COMPUTE\n  ATTACH cs_obj\n  ROOT root_sig\nEND") {
        Directive::Pipeline { name, typ, shaders, root_sig } => {
            assert_eq!(name.content, "pipeline");
            assert_eq!(typ, PipelineType::Compute);
            assert_eq!(contents(&shaders), vec!["cs_obj"]);
            assert_eq!(root_sig.unwrap().content, "root_sig");
        }
        _ => panic!(),
    }
    let text = "RTPSO rtpso ADDTO old
  LIB rtobj2 EXPORTS foo=foo_orig bar
  COLLECTION col
  HIT_GROUP group - closest -
  CONFIG add_to_so
END";
    match one(text) {
        Directive::PipelineStateObject {
            name, typ, add_to, libs, collections, hit_groups, config
        } => {
            assert_eq!(name.content, "rtpso");
            assert_eq!(typ, PipelineStateObjectType::Pipeline);
            assert_eq!(add_to.unwrap().content, "old");
            assert_eq!(libs.len(), 1);
            assert_eq!(libs[0].name.content, "rtobj2");
            assert_eq!(
                libs[0].exports,
                vec![
                    Export { name: "foo".to_string(), to_rename: Some("foo_orig".to_string()) },
                    Export { name: "bar".to_string(), to_rename: None },
                ]
            );
            assert_eq!(collections[0].name.content, "col");
            assert!(collections[0].exports.is_empty());
            assert_eq!(hit_groups.len(), 1);
            assert!(hit_groups[0].any_hit.is_none());
            assert_eq!(hit_groups[0].closest_hit.as_ref().unwrap().content, "closest");
            assert!(hit_groups[0].intersection.is_none());
            assert_eq!(config, 4);
        }
        _ => panic!(),
    }
    match one("COLLECTION col\n  LIB rtobj\nEND") {
        Directive::PipelineStateObject { typ, add_to, .. } => {
            assert_eq!(typ, PipelineStateObjectType::Collection);
            assert!(add_to.is_none());
        }
        _ => panic!(),
    }
}

#[test]
fn dispatches() {
    let text = "DISPATCH pipeline
  BIND 0 TABLE view
  ROOT_SIG root_sig
  ROOT_CONST 1 RAW 4
    uint32 5
  END
  UAV 2 buf
  SRV 3 buf2
RUN 1 2 3
";
    match one(text) {
        Directive::Dispatch { identifier, pipeline, root_val, root_sig, typ } => {
            assert_eq!(identifier.content, "DISPATCH");
            assert_eq!(pipeline.content, "pipeline");
            assert_eq!(root_sig.unwrap().content, "root_sig");
            assert_eq!(typ, DispatchType::Dispatch { dimensions: Dim3 { x: 1, y: 2, z: 3 } });
            assert_eq!(root_val.binds.len(), 1);
            assert_eq!(root_val.binds[0].view.content, "view");
            assert_eq!(root_val.consts[0].index, 1);
            assert_eq!(
                root_val.consts[0].content,
                UnresolvedValueContent::Raw {
                    size: 4,
                    values: vec![UnresolvedValue::Resolved(Value::U32(5))]
                }
            );
            assert_eq!(root_val.views.len(), 2);
            assert_eq!(root_val.views[0].typ, Some(ViewType::Uav));
            assert_eq!(root_val.views[1].typ, Some(ViewType::Srv));
            assert_eq!(root_val.views[1].buffer.content, "buf2");
        }
        _ => panic!(),
    }
    match one("DISPATCHRAYS rtpso\nRUN rgen_table - miss_table - 64 1 1") {
        Directive::Dispatch { typ: DispatchType::DispatchRays { dimensions, tables }, .. } => {
            assert_eq!(dimensions, Dim3 { x: 64, y: 1, z: 1 });
            assert_eq!(tables.raygen.unwrap().content, "rgen_table");
            assert!(tables.hit_group.is_none());
            assert_eq!(tables.miss.unwrap().content, "miss_table");
            assert!(tables.callable.is_none());
        }
        _ => panic!(),
    }
    match one("DISPATCHRAYS rtpso\nRUN a b c d 1 2 3") {
        Directive::Dispatch { typ: DispatchType::DispatchRays { tables, .. }, .. } => {
            assert_eq!(tables.raygen.unwrap().content, "a");
            assert_eq!(tables.hit_group.unwrap().content, "b");
            assert_eq!(tables.miss.unwrap().content, "c");
            assert_eq!(tables.callable.unwrap().content, "d");
        }
        _ => panic!(),
    }
    let text = "EXECUTE_INDIRECT pipe SIGNATURE sig
RUN args OFFSET 8 MAX_COMMANDS 2 COUNT counts COUNT_OFFSET 4";
    match one(text) {
        Directive::Dispatch {
            typ:
                DispatchType::ExecuteIndirect {
                    signature,
                    argument_buffer,
                    argument_offset,
                    count_buffer,
                    count_offset,
                    max_commands,
                },
            ..
        } => {
            assert_eq!(signature.content, "sig");
            assert_eq!(argument_buffer.content, "args");
            assert_eq!(argument_offset, Some(8));
            assert_eq!(count_buffer.unwrap().content, "counts");
            assert_eq!(count_offset, Some(4));
            assert_eq!(max_commands, 2);
        }
        _ => panic!(),
    }
}

#[test]
fn buffers_and_views() {
    match one("BUFFER buf DATA_TYPE uint32 SIZE 5 SERIES_FROM 0 INC_BY 1") {
        Directive::Buffer { name, content } => {
            assert_eq!(name.content, "buf");
            assert_eq!(
                content,
                UnresolvedValueContent::Typed {
                    typ: DataType::U32,
                    element_count: 5,
                    fill: Fill::Series {
                        from: UnresolvedValue::Resolved(Value::U32(0)),
                        increment: UnresolvedValue::Resolved(Value::U32(1)),
                    },
                }
            );
        }
        _ => panic!(),
    }
    match one("BUFFER buf DATA_TYPE float SIZE 1 FILL -.5e-3") {
        Directive::Buffer { content: UnresolvedValueContent::Typed { fill, .. }, .. } => {
            assert_eq!(
                fill,
                Fill::Const(UnresolvedValue::F32(literal("-.5e-3", NumberForm::Float, true)))
            );
        }
        _ => panic!(),
    }
    match one("BUFFER buf RAW 128\n  uint32 3 4\n  float 1.0\n  GPUVA buffer\nEND") {
        Directive::Buffer { content: UnresolvedValueContent::Raw { size, values }, .. } => {
            assert_eq!(size, 128);
            assert_eq!(values.len(), 4);
            assert_eq!(values[0], UnresolvedValue::Resolved(Value::U32(3)));
            assert_eq!(values[1], UnresolvedValue::Resolved(Value::U32(4)));
            assert_eq!(
                values[2],
                UnresolvedValue::F32(literal("1.0", NumberForm::Float, false))
            );
            match &values[3] {
                UnresolvedValue::Gpuva(id) => assert_eq!(id.content, "buffer"),
                _ => panic!(),
            }
        }
        _ => panic!(),
    }
    let view = |text: &str| match one(text) {
        Directive::View { buffer, typ, .. } => {
            assert!(buffer.is_some());
            typ
        }
        _ => panic!(),
    };
    assert_eq!(view("VIEW view buf AS UAV"), InputViewType::Raw { typ: ViewType::Uav });
    assert_eq!(
        view("VIEW view buf AS TYPED UAV float"),
        InputViewType::Typed { typ: ViewType::Uav, data_type: DataType::F32 }
    );
    assert_eq!(
        view("VIEW view buf AS STRUCTURED SRV BYTES 16"),
        InputViewType::Structured { typ: ViewType::Srv, struct_size: 16 }
    );
    assert_eq!(view("VIEW rtas tlas AS RTAS SRV"), InputViewType::RaytracingAccelStruct);
}

#[test]
fn acceleration_structures() {
    let text = "BLAS triangle_blas
  GEOMETRY TRIANGLE
    VERTEX 0.0 -0.75 1.0
    VERTEX -0.75 0.75 1
    VERTEX 0.75 0.75 0x10
    TRANSFORM
      1 0 0 0
      0 1 0 0
      0 0 1 0
    END
    CONFIG opaque
  END

  GEOMETRY PROCEDURAL
    AABB -1 -1 -1 1 1 1
    # No any hit calls
    CONFIG no_duplicate_anyhit
  END
  CONFIG prefer_fast_build
END";
    match one(text) {
        Directive::Blas { procedurals, triangles, config, .. } => {
            assert_eq!(config, 8);
            assert_eq!(triangles.len(), 1);
            assert_eq!(triangles[0].vertices.len(), 3);
            assert_eq!(triangles[0].config, 1);
            assert_eq!(
                triangles[0].vertices[0].y,
                literal("-0.75", NumberForm::Float, true)
            );
            assert_eq!(
                triangles[0].vertices[2].z,
                literal("10", NumberForm::Hexadecimal, false)
            );
            let transform = triangles[0].transform.as_ref().unwrap();
            assert_eq!(transform.row1.y, literal("1", NumberForm::Decimal, false));
            assert_eq!(procedurals.len(), 1);
            assert_eq!(procedurals[0].config, 2);
            assert_eq!(
                procedurals[0].aabbs[0].min.x,
                literal("1", NumberForm::Decimal, true)
            );
        }
        _ => panic!(),
    }
    let text = "TLAS as
  BLAS triangle_blas -

  # Add a second instance
  BLAS triangle_blas
    ID 3
    MASK 0xf
    # Set the InstanceContributionToHitGroupIndex
    HIT_GROUP_INDEX_CONTRIBUTION 1
    TRANSFORM
      1 0 0 0
      0 1 0 0
      0 0 1 0
    END
    CONFIG force_opaque
  END
END";
    match one(text) {
        Directive::Tlas { blas, config, .. } => {
            assert_eq!(config, 0);
            assert_eq!(blas.len(), 2);
            assert_eq!(blas[0].id, None);
            assert_eq!(blas[0].mask, None);
            assert!(blas[0].transform.is_none());
            assert_eq!(blas[1].id, Some(3));
            assert_eq!(blas[1].mask, Some(15));
            assert_eq!(blas[1].index_contrib, Some(1));
            assert!(blas[1].transform.is_some());
            assert_eq!(blas[1].config, 4);
        }
        _ => panic!(),
    }
}

#[test]
fn shader_tables() {
    let text = "SHADERTABLE miss_table rtpso
  RECORD 0 miss0 -

  RECORD 1 miss1
    TABLE view
    GPUVA buf
  END

  RECORD 3
    SHADERID miss_id
  END

  # Null record
  RECORD 2
  END
END";
    match one(text) {
        Directive::ShaderTable { name, pipeline_state_object, records } => {
            assert_eq!(name.content, "miss_table");
            assert_eq!(pipeline_state_object.content, "rtpso");
            assert_eq!(records.iter().map(|r| r.index).collect::<Vec<_>>(), vec![0, 1, 3, 2]);
            match &records[0].shader {
                ShaderReference::Name(n) => assert_eq!(n.content, "miss0"),
                _ => panic!(),
            }
            assert_eq!(records[1].root_val.binds[0].index, 0);
            assert_eq!(records[1].root_val.views[0].index, 1);
            assert_eq!(records[1].root_val.views[0].typ, None);
            match &records[2].shader {
                ShaderReference::ShaderId(n) => assert_eq!(n.content, "miss_id"),
                _ => panic!(),
            }
            assert_eq!(records[3].shader, ShaderReference::Null);
        }
        _ => panic!(),
    }
    match one("SHADERID miss_id rtpso \"?miss@@YA\"") {
        Directive::ShaderId { shader_name, .. } => assert_eq!(shader_name.content, "?miss@@YA"),
        _ => panic!(),
    }
}

#[test]
fn including_and_sleeping() {
    match one("INCLUDE dir/triangle_tlas.sm") {
        Directive::Include { path, .. } => assert_eq!(path.content, "dir/triangle_tlas.sm"),
        _ => panic!(),
    }
    let time = |text: &str| match one(text) {
        Directive::Sleep { duration, .. } => duration.content,
        _ => panic!(),
    };
    assert_eq!(time("SLEEP 1s"), TimeSpan { seconds: 1, nanoseconds: 0 });
    assert_eq!(time("SLEEP 2s 500ms"), TimeSpan { seconds: 2, nanoseconds: 500_000_000 });
    assert_eq!(time("SLEEP 1us"), TimeSpan { seconds: 0, nanoseconds: 1000 });
    assert_eq!(time("SLEEP 600000000000ns 5ns"), TimeSpan { seconds: 600, nanoseconds: 5 });
    assert_eq!(
        error("SLEEP 5foo"),
        ParserError::ParseDuration {
            source: DurationError::UnknownUnit { start: 1, end: 4, value: 5 },
            duration_span: span(6, 10),
            identifier: Identifier {
                content: "SLEEP".to_string(),
                source_file: SourceFileIdx(0),
                span: span(0, 5),
            },
        }
    );
}

#[test]
fn sleeping_for_a_known_time() {
    let id = SpanObj {
        content: "SLEEP".to_string(),
        source_file: SourceFileIdx(1),
        span: span(0, 5),
    };
    let text =
        SpanObj { content: "3s".to_string(), source_file: SourceFileIdx(1), span: span(6, 8) };
    let time = TimeSpan { seconds: 3, nanoseconds: 4 };
    match sleep_for(&id, &text, Ok(time)).unwrap() {
        Directive::Sleep { identifier, duration } => {
            assert_eq!(identifier, id);
            assert_eq!(duration.content, time);
            assert_eq!(duration.span, span(6, 8));
        }
        _ => panic!(),
    }
    let fail = sleep_for(&id, &text, Err(DurationError::Empty)).unwrap_err();
    assert_eq!(
        fail.error,
        ParserError::ParseDuration {
            source: DurationError::Empty,
            duration_span: span(6, 8),
            identifier: id,
        }
    );
}

#[test]
fn printing_and_checking() {
    let dump = |text: &str| match one(text) {
        Directive::Dump { resource, typ, print_stride, format, .. } => {
            assert_eq!(resource.content, "buf");
            (typ, print_stride, format)
        }
        _ => panic!(),
    };
    assert_eq!(
        dump("DUMP buf uint32"),
        (DumpDataType::DataType(DataType::U32), None, DumpFormat::List)
    );
    assert_eq!(
        dump("DUMP buf uint32 PRINT_STRIDE 4 EXPECT"),
        (DumpDataType::DataType(DataType::U32), Some(4), DumpFormat::Expect)
    );
    assert_eq!(dump("DUMP buf DXIL"), (DumpDataType::Dxil, None, DumpFormat::List));
    match one("EXPECT buf uint32 OFFSET 0 EQ 1 0x2") {
        Directive::Expect { epsilon, offset, values, value_spans, .. } => {
            assert!(epsilon.is_none());
            assert_eq!(offset.content, 0);
            assert_eq!(
                values,
                vec![
                    UnresolvedValue::Resolved(Value::U32(1)),
                    UnresolvedValue::Resolved(Value::U32(2)),
                ]
            );
            assert_eq!(contents(&value_spans), vec!["1", "0x2"]);
            assert_eq!(value_spans[1].span, span(32, 35));
        }
        _ => panic!(),
    }
    match one("EXPECT buf float EPSILON 0.1 OFFSET 4 EQ 1.0 2.0") {
        Directive::Expect { epsilon, offset, values, .. } => {
            assert_eq!(
                epsilon.unwrap().content,
                UnresolvedValue::F32(literal("0.1", NumberForm::Float, false))
            );
            assert_eq!(offset.content, 4);
            assert_eq!(values.len(), 2);
        }
        _ => panic!(),
    }
    match one("ASSERT SHADERID NE miss_id rgen_id") {
        Directive::AssertShaderId { equal, id_a, id_b, .. } => {
            assert!(!equal);
            assert_eq!((id_a.content.as_str(), id_b.content.as_str()), ("miss_id", "rgen_id"));
        }
        _ => panic!(),
    }
}

#[test]
fn errors_tell_what_is_wrong() {
    assert_eq!(
        error("DUMP buf uint32 PRINT_STRIDE 0"),
        ParserError::InvalidStatement {
            decl: span(0, 4),
            span: span(16, 16),
            format: StatementFormat::Dump,
        }
    );
    assert_eq!(
        error("BUFFER buf RAW 007\n  uint32 3 4\nEND"),
        ParserError::RawSizeMismatch {
            size: SpanObj { content: 7, source_file: SourceFileIdx(0), span: span(15, 18) },
            content: span(21, 32),
            content_size: 8,
        }
    );
    assert_eq!(
        error("EXPECT buf uint8 OFFSET 0 EQ 256"),
        ParserError::InvalidInteger { span: span(29, 32), typ: IntType::U8 }
    );
    assert_eq!(
        error("EXPECT buf uint8 OFFSET 0 EQ"),
        ParserError::InvalidStatement {
            decl: span(0, 6),
            span: span(27, 27),
            format: StatementFormat::Expect,
        }
    );
    assert_eq!(
        error("DUMP buf int"),
        ParserError::InvalidWord { span: span(9, 12), word: WordKind::DataType }
    );
    assert_eq!(
        error("BUFFER b DATA_TYPE uint8 SIZE 0xfffffffffffffffff FILL 0"),
        ParserError::InvalidInteger { span: span(32, 49), typ: IntType::U64 }
    );
    match error("ROOT r\n  CONFIG local_root_signature\n  CONFIG allow_stream_output\nEND") {
        ParserError::DuplicateArgument { arg0, arg1 } => {
            assert_eq!(arg0.span, span(9, 15));
            assert_eq!(arg1.span, span(39, 45));
        }
        _ => panic!(),
    }
    assert_eq!(
        error("SOURCE a\ncode"),
        ParserError::UndelimitedStatement { span: span(9, 10) }
    );
    assert_eq!(StatementFormat::Dump.keyword(), "DUMP");
    assert_eq!(
        StatementFormat::Dump.text(),
        "DUMP <resource> <type> [PRINT_STRIDE <stride>] [EXPECT]"
    );
    assert_eq!(WordKind::View.expected(), vec!["SRV", "UAV"]);
    assert_eq!(IntType::U16.name(), "u16");
    assert_eq!(IdentifierType::PipelineStateObject.text(), "PSO");
}

#[test]
fn statements_are_told_by_words_of_the_script() {
    let text = "BUFFER b DATA_TYPE uint8 SIZE 1 FILL 0\nDUMP b uint8\n";
    let all = parse(text, SourceFileIdx(7)).unwrap();
    let names: Vec<&str> = all
        .iter()
        .map(|d| {
            let id = d.get_identifier();
            assert_eq!(id.source_file, SourceFileIdx(7));
            assert_eq!(&text[id.span.start..id.span.end], id.content);
            id.content.as_str()
        })
        .collect();
    assert_eq!(names, vec!["b", "DUMP"]);
}
