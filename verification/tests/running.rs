use smoldr::check::{check_expect, ExpectError};
use smoldr::content::{resolve_values, ValueContent};
use smoldr::duration::{parse_duration, DurationError};
use smoldr::files::SourceFiles;
use smoldr::names::{ExpectedTypes, IdentifierIdx, IdentifierType, NameError, Names};
use smoldr::null_backend::{
    get_compiler_arguments, get_library_arguments, CompilerArgument, NullBuffers,
};
use smoldr::parser::statements::parse_str;
use smoldr::run::{
    after_frame, error_wrap, max_frames, repeat_count, Continue, ErrorWrap, RunError, StatementRun,
};
use smoldr::script::{Directive, Fill, TimeSpan};
use smoldr::source::{copy_identifier, span_obj, Identifier, Source, SourceFileIdx, Span, SpanObj};
use smoldr::state::{Action, DispatchContent, PipelineKind, Query, State};
use smoldr::value::Value;

fn id(text: &str) -> Identifier {
    SpanObj { content: text.to_string(), source_file: SourceFileIdx(0), span: Span::default() }
}

fn statements(text: &str) -> Vec<Directive> {
    parse_str(text).unwrap()
}

/// Runs statements that all name what they should.
fn apply_all(state: &mut State, text: &str) -> Vec<Action> {
    statements(text).iter().map(|d| state.apply(d).unwrap()).collect()
}

const OBJECTS: &str = "SOURCE src\ncode\nEND
OBJECT obj src cs_6_4 main
BUFFER buf DATA_TYPE uint32 SIZE 1 FILL 0
VIEW view buf AS UAV
ROOT root
  UAV REGISTER 0 SPACE 0
END
PIPELINE pipe COMPUTE
  ATTACH obj
  ROOT root
END
";

#[test]
fn names_are_given_once() {
    let mut names = Names::new();
    assert_eq!(names.add_identifier(id("a"), IdentifierType::Buffer), Ok(IdentifierIdx(0)));
    assert_eq!(names.add_identifier(id("b"), IdentifierType::View), Ok(IdentifierIdx(1)));
    assert_eq!(
        names.add_identifier(id("a"), IdentifierType::Blas),
        Err(NameError::DuplicateIdentifier { name0: id("a"), name1: id("a") })
    );
    assert_eq!(
        names.add_identifier(id("NULL"), IdentifierType::Blas),
        Err(NameError::NullIdentifier { name: id("NULL") })
    );
    assert_eq!(names.get_identifier(&id("b")), Ok(IdentifierIdx(1)));
    assert_eq!(
        names.get_identifier(&id("c")),
        Err(NameError::UnknownIdentifier { name: id("c") })
    );
    assert_eq!(names.get_type(&id("a"), IdentifierType::Buffer), Ok(IdentifierIdx(0)));
    match names.get_types(&id("b"), ExpectedTypes::Addressable).unwrap_err() {
        NameError::WrongType { expected, actual, declaration, used } => {
            assert_eq!(
                expected.list(),
                vec![
                    IdentifierType::Buffer,
                    IdentifierType::ShaderTable,
                    IdentifierType::Tlas,
                    IdentifierType::Blas,
                ]
            );
            assert_eq!(actual, IdentifierType::View);
            assert_eq!(declaration, id("b"));
            assert_eq!(used, id("b"));
        }
        _ => panic!(),
    }
    assert_eq!(names.declaration(IdentifierIdx(1)), &id("b"));
    assert_eq!(names.type_of(IdentifierIdx(1)), IdentifierType::View);
    names.clear();
    assert!(names.get_identifier(&id("a")).is_err());
    assert_eq!(names.add_identifier(id("b"), IdentifierType::Blas), Ok(IdentifierIdx(0)));
}

#[test]
fn statements_become_actions() {
    let mut state = State::new();
    let actions = apply_all(&mut state, OBJECTS);
    assert_eq!(actions[0], Action::Nothing);
    assert_eq!(actions[1], Action::Compile { id: IdentifierIdx(1), source: IdentifierIdx(0) });
    assert_eq!(state.source_text(IdentifierIdx(0)), "\ncode");
    assert_eq!(
        actions[2],
        Action::CreateBuffer { id: IdentifierIdx(2), queries: vec![Query::Known] }
    );
    assert_eq!(
        actions[3],
        Action::CreateView { id: IdentifierIdx(3), buffer: Some(IdentifierIdx(2)) }
    );
    assert_eq!(actions[4], Action::CreateRootSig { id: IdentifierIdx(4) });
    assert_eq!(
        actions[5],
        Action::CreateComputePipeline {
            id: IdentifierIdx(5),
            shader: IdentifierIdx(1),
            root_sig: Some(IdentifierIdx(4)),
        }
    );
    let actions = apply_all(
        &mut state,
        "DISPATCH pipe\n BIND 0 TABLE view\n UAV 1 buf\n ROOT_CONST 2 RAW 8\n  GPUVA buf\n END\n\
         RUN 1 1 1\nDUMP buf uint32\nEXPECT buf uint32 OFFSET 0 EQ 0\n",
    );
    match &actions[0] {
        Action::Dispatch { pipeline, root_val, content, root_sig } => {
            assert_eq!(*pipeline, IdentifierIdx(5));
            assert_eq!(root_val.binds, vec![IdentifierIdx(3)]);
            assert_eq!(root_val.views, vec![IdentifierIdx(2)]);
            assert_eq!(
                root_val.consts,
                vec![vec![Query::Address { id: IdentifierIdx(2), typ: IdentifierType::Buffer }]]
            );
            assert_eq!(*content, DispatchContent::Dispatch);
            assert_eq!(*root_sig, None);
        }
        _ => panic!(),
    }
    assert_eq!(actions[1], Action::DumpBuffer { resource: IdentifierIdx(2) });
    assert_eq!(
        actions[2],
        Action::Expect { resource: IdentifierIdx(2), queries: vec![Query::Known] }
    );
}

#[test]
fn wrong_statements_keep_their_name() {
    let mut state = State::new();
    let all = statements("OBJECT o missing cs_6_4 main\nDUMP o DXIL\nDUMP o uint8\n");
    assert_eq!(
        state.apply(&all[0]),
        Err(NameError::UnknownIdentifier {
            name: Identifier {
                content: "missing".to_string(),
                source_file: SourceFileIdx(0),
                span: Span { start: 9, end: 16 },
            }
        })
    );
    assert_eq!(state.apply(&all[1]), Ok(Action::DumpDxil { object: IdentifierIdx(0) }));
    match state.apply(&all[2]) {
        Err(NameError::WrongType { expected, actual, .. }) => {
            assert_eq!(expected, ExpectedTypes::One(IdentifierType::Buffer));
            assert_eq!(actual, IdentifierType::Object);
        }
        _ => panic!(),
    }
    let all = statements("PIPELINE p COMPUTE\n ATTACH o\n ATTACH o\nEND\n");
    match state.apply(&all[0]) {
        Err(NameError::InvalidShaderCount { shader_count, .. }) => assert_eq!(shader_count, 2),
        _ => panic!(),
    }
    let all = vec![Directive::View {
        name: id("v"),
        buffer: None,
        typ: smoldr::script::InputViewType::Raw { typ: smoldr::script::ViewType::Srv },
    }];
    assert_eq!(state.apply(&all[0]), Err(NameError::ViewNoBuffer { name: id("v") }));
}

#[test]
fn dispatches_forget_downloads() {
    let mut state = State::new();
    apply_all(&mut state, OBJECTS);
    let buf = IdentifierIdx(2);
    assert_eq!(state.downloaded(buf), None);
    state.keep_download(buf, vec![1, 2]);
    apply_all(&mut state, "DUMP buf uint8\n");
    assert_eq!(state.downloaded(buf), Some(&vec![1, 2]));
    // A dispatch that is not run forgets nothing
    assert!(state.apply(&statements("DISPATCH missing\nRUN 1 1 1")[0]).is_err());
    assert_eq!(state.downloaded(buf), Some(&vec![1, 2]));
    apply_all(&mut state, "DISPATCH pipe\nRUN 1 1 1");
    assert_eq!(state.downloaded(buf), None);
    state.reset();
    assert!(state.names().get_identifier(&id("buf")).is_err());
    apply_all(&mut state, OBJECTS);
}

#[test]
fn indirect_dispatches_run_both_kinds_of_pipelines() {
    let mut state = State::new();
    apply_all(&mut state, OBJECTS);
    apply_all(&mut state, "COMMAND_SIGNATURE sig\n DISPATCH\nEND\nRTPSO pso\n LIB obj\nEND\n");
    let mut kind = |pipeline: &str| {
        let text = format!("EXECUTE_INDIRECT {pipeline} SIGNATURE sig\nRUN buf MAX_COMMANDS 1");
        match state.apply(&statements(&text)[0]).unwrap() {
            Action::Dispatch {
                content: DispatchContent::ExecuteIndirect { pipeline_kind, .. },
                ..
            } => pipeline_kind,
            _ => panic!(),
        }
    };
    assert_eq!(kind("pipe"), PipelineKind::Pipeline);
    assert_eq!(kind("pso"), PipelineKind::PipelineStateObject);
}

#[test]
fn expects_go_on_until_another_statement() {
    let mut run: StatementRun<u32> = StatementRun::new();
    assert_eq!(run.begin_statement(true), Ok(()));
    assert_eq!(run.end_statement(true, Some(1), false), Ok(()));
    assert_eq!(run.begin_statement(true), Ok(()));
    assert_eq!(run.end_statement(true, None, false), Ok(()));
    assert_eq!(run.begin_statement(false), Err(RunError::Single(1)));
    let mut run: StatementRun<u32> = StatementRun::new();
    run.end_statement(true, Some(1), false).unwrap();
    run.end_statement(true, Some(2), false).unwrap();
    assert_eq!(run.finish(), Err(RunError::Failure(vec![1, 2])));
    let mut run: StatementRun<u32> = StatementRun::new();
    assert_eq!(run.end_statement(false, Some(7), false), Err(RunError::Single(7)));
    let mut run: StatementRun<u32> = StatementRun::new();
    assert_eq!(run.end_statement(true, Some(7), true), Err(RunError::WithMessages(7)));
    let mut run: StatementRun<u32> = StatementRun::new();
    for i in 0..31 {
        assert_eq!(run.begin_statement(true), Ok(()));
        assert_eq!(run.end_statement(true, Some(i), false), Ok(()));
    }
    assert_eq!(
        run.end_statement(true, Some(31), false),
        Err(RunError::Abort((0..32).collect()))
    );
    let run: StatementRun<u32> = StatementRun::new();
    assert_eq!(run.finish(), Ok(()));
}

#[test]
fn frames_are_counted() {
    assert_eq!(repeat_count(None), 1);
    assert_eq!(repeat_count(Some(0)), 0);
    assert_eq!(max_frames(None), 0);
    assert_eq!(max_frames(Some(5)), 5);
    assert_eq!(after_frame(0, 0), (1, Continue::Continue));
    assert_eq!(after_frame(3, 5), (4, Continue::Continue));
    assert_eq!(after_frame(4, 5), (5, Continue::Exit));
    assert_eq!(error_wrap(true, true), ErrorWrap::Keep);
    assert_eq!(error_wrap(false, true), ErrorWrap::StatementValidated);
    assert_eq!(error_wrap(false, false), ErrorWrap::Statement);
}

#[test]
fn buffers_give_back_what_was_written() {
    let mut buffers = NullBuffers::new();
    let (a, b) = (IdentifierIdx(1), IdentifierIdx(2));
    buffers.create_buffer(a, 3);
    buffers.create_buffer(b, 1);
    assert_eq!(buffers.download(a), &vec![0, 0, 0]);
    buffers.upload(a, vec![1, 2, 3]);
    assert_eq!(buffers.download(a), &vec![1, 2, 3]);
    assert_eq!(buffers.download(b), &vec![0]);
    buffers.reset();
    assert!(!buffers.contains(a));
}

#[test]
fn the_compiler_gets_arguments() {
    let text = |t: &str| CompilerArgument::Text(t.to_string());
    assert_eq!(
        get_compiler_arguments(
            &"cs_6_4".to_string(),
            &Some("main".to_string()),
            true,
            &vec!["-O3".to_string()]
        ),
        vec![
            text("-T"),
            text("cs_6_4"),
            text("-E"),
            text("main"),
            text("-I"),
            CompilerArgument::SearchDir,
            text("-Fo"),
            CompilerArgument::OutputFile,
            CompilerArgument::InputFile,
            text("-O3"),
        ]
    );
    assert_eq!(
        get_compiler_arguments(&"lib_6_4".to_string(), &None, false, &vec![])[3],
        text("")
    );
    assert_eq!(
        get_library_arguments(true, &vec!["-O3".to_string()]),
        vec![text("-O3"), text("-I"), CompilerArgument::SearchDir]
    );
}

#[test]
fn durations_are_read() {
    assert_eq!(parse_duration("1h 2min"), Ok(TimeSpan { seconds: 3720, nanoseconds: 0 }));
    assert_eq!(parse_duration("32ms"), Ok(TimeSpan { seconds: 0, nanoseconds: 32_000_000 }));
    assert_eq!(parse_duration("0"), Ok(TimeSpan { seconds: 0, nanoseconds: 0 }));
    assert_eq!(parse_duration(""), Err(DurationError::Empty));
    assert_eq!(parse_duration("s"), Err(DurationError::NumberExpected(0)));
    assert_eq!(
        parse_duration("5foo 99999999999y 999999999999y"),
        Err(DurationError::UnknownUnit { start: 1, end: 4, value: 5 })
    );
    assert_eq!(
        parse_duration("18446744073709551615s 999999999ns"),
        Ok(TimeSpan { seconds: u64::MAX, nanoseconds: 999_999_999 })
    );
    // One nanosecond more than a length of time can hold
    assert_eq!(
        parse_duration("18446744073709551615s 1000000000ns"),
        Err(DurationError::NumberOverflow)
    );
    assert_eq!(parse_duration("99999999999999999999s"), Err(DurationError::NumberOverflow));
}

#[test]
fn files_are_kept() {
    let mut files = SourceFiles::new();
    let (first, result) = files.parse_stream("a.sm".to_string(), "# nothing".to_string());
    assert_eq!(first, SourceFileIdx(0));
    assert_eq!(result, Ok(vec![]));
    let text = "SLEEP 1s\n\nDISPATCH pipe\nRUN 1 1 1";
    let (second, result) = files.parse_stream("b.sm".to_string(), text.to_string());
    assert_eq!(second, SourceFileIdx(1));
    let all = result.unwrap();
    assert_eq!(files.get_named_source(first), ("a.sm", "# nothing"));
    assert_eq!(files.get_named_source(second), ("b.sm", text));
    assert_eq!(files.get_named_source(SourceFileIdx(2)), ("unknown", ""));
    let time = TimeSpan { seconds: 62, nanoseconds: 5_000_000 };
    let (message, shown) = files.get_dispatch_message(all[1].get_identifier(), time);
    assert_eq!(message, "Dispatch from b.sm:3 finished");
    assert_eq!(shown, "1m 2s 5ms");
    let (third, result) = files.parse_stream("c.sm".to_string(), "FOO".to_string());
    assert_eq!(third, SourceFileIdx(2));
    assert!(result.is_err());
    let text = "\r\n\n\r\n/* \r */DISPATCH pipe\nRUN 1 1 1".to_string();
    let (_, result) = files.parse_stream("d.sm".to_string(), text);
    let (message, _) = files.get_dispatch_message(result.unwrap()[0].get_identifier(), time);
    assert_eq!(message, "Dispatch from d.sm:5 finished");
}

#[test]
fn objects_keep_their_place() {
    let src = Source::new("ab\nü\nc", SourceFileIdx(2));
    let object = span_obj(&src, 5u8, 3, 4);
    assert_eq!(object.content, 5);
    assert_eq!(object.source_file, SourceFileIdx(2));
    assert_eq!(object.span, Span { start: 3, end: 5 });
    let mapped = object.map_content("x");
    assert_eq!(mapped.content, "x");
    assert_eq!(mapped.span, object.span);
    assert_eq!(copy_identifier(&id("q")), id("q"));
    assert_eq!(src.lines_before(5), 2);
    assert_eq!(src.slice(3, 6), "ü\nc");
}

const WHOLE_SCRIPT: &str = "SOURCE code
RWBuffer<uint> buf: register(u0);
[numthreads(64, 1, 1)]
void main(uint3 id: SV_DispatchThreadID) { buf[id.x] = id.x; }
END

OBJECT obj code cs_6_0 main

BUFFER buffer DATA_TYPE uint32 SIZE 64 FILL 0
VIEW view buffer AS TYPED UAV uint32

ROOT root
  TABLE UAV REGISTER 0 NUMBER 1 SPACE 0
END

PIPELINE pipeline COMPUTE
  ATTACH obj
  ROOT root
END

DISPATCH pipeline
  BIND 0 TABLE view
RUN 1 1 1

EXPECT buffer uint32 OFFSET 0 EQ 0 1 2 3
";

#[test]
fn a_whole_script_runs_without_a_gpu() {
    let mut state = State::new();
    let mut buffers = NullBuffers::new();
    let mut run: StatementRun<usize> = StatementRun::new();
    for dir in statements(WHOLE_SCRIPT) {
        let is_expect = matches!(dir, Directive::Expect { .. });
        assert_eq!(run.begin_statement(is_expect), Ok(()));
        let mut failure = None;
        match (state.apply(&dir).unwrap(), &dir) {
            (Action::CreateBuffer { id, queries }, Directive::Buffer { content, .. }) => {
                buffers.create_buffer(id, content.len() as usize);
                let resolved = content.resolve(&vec![0; queries.len()]);
                buffers.upload(id, resolved.fill(&vec![]));
            }
            (
                Action::Expect { resource, queries },
                Directive::Expect { offset, values, .. },
            ) => {
                let values = resolve_values(values, &vec![0; queries.len()]);
                let data = buffers.download(resource);
                match check_expect(offset.content, &values, None, &vec![], data, false) {
                    Err(ExpectError::Content(m)) => failure = Some(m.index),
                    _ => panic!(),
                }
            }
            _ => {}
        }
        assert_eq!(run.end_statement(is_expect, failure, false), Ok(()));
    }
    // Nothing has written to the buffer, so that all is zero
    assert_eq!(run.finish(), Err(RunError::Single(1)));
}

const ADD_SCRIPT: &str = "# Create a HLSL source called csshader
SOURCE csshader
ByteAddressBuffer inbuf[2] : register(t0); // SRV
RWByteAddressBuffer outbuf : register(u0); // UAV

[numthreads(32, 1, 1)]
void CSMain(uint3 DTid : SV_DispatchThreadID)
{
  // Take 2 numbers from first buffer, one from second, and sum them
  unsigned int first_idx = DTid.x * 2;
  float first = inbuf[0].Load<float>(first_idx * 4) + inbuf[0].Load<float>((first_idx + 1) * 4);
  float sum = first + inbuf[1].Load<float>(DTid.x * 4);
  outbuf.Store<float>(DTid.x * 4, sum);
}
END

# Compile the source with dxc into a binary called csobj
OBJECT csobj csshader cs_6_4 CSMain

# Allocate buffers in GPU memory for input and output
BUFFER inbuf DATA_TYPE float SIZE 64 SERIES_FROM 0 INC_BY .25
BUFFER inbuf2 DATA_TYPE float SIZE 32 SERIES_FROM 10.0 INC_BY .25
BUFFER outbuf DATA_TYPE float SIZE 32 FILL 0

# The root signature
ROOT default
  TABLE UAV REGISTER 0 NUMBER 1 SPACE 0
  TABLE SRV REGISTER 0 NUMBER 2 SPACE 0
END

# Create a compute pipeline called cspipe
PIPELINE cspipe COMPUTE
  ATTACH csobj
  ROOT   default
END

# Create views that point to the complete buffers
VIEW inview inbuf AS SRV
VIEW inview2 inbuf2 AS SRV
VIEW outview outbuf AS UAV

# Run the pipeline in a 1x1x1 dispatch
DISPATCH cspipe
  BIND 0 TABLE outview
  BIND 1 TABLE inview
RUN 1 1 1

# Check that the shaders worked as expected
EXPECT outbuf float OFFSET 0 EQ 10.25 11.5 12.75 14
EXPECT outbuf float OFFSET 64 EQ 30.25 31.5 32.75 34

# Use DUMP to see a buffer's content
#DUMP outbuf float
";

/// The bits of a value that the script does not tell as an integer.
fn answer(query: &Query<String>) -> u64 {
    match query {
        Query::F32(literal) => literal.digits.parse::<f32>().unwrap().to_bits().into(),
        _ => 0,
    }
}

/// Runs a script without a GPU, and tells the value at which each EXPECT statement fails.
fn run_script(text: &str, ignore_expect: bool) -> Vec<Option<usize>> {
    let mut state = State::new();
    let mut buffers = NullBuffers::new();
    let mut failures = Vec::new();
    for dir in statements(text) {
        match (state.apply(&dir).unwrap(), &dir) {
            (Action::CreateBuffer { id, queries }, Directive::Buffer { content, .. }) => {
                buffers.create_buffer(id, content.len() as usize);
                let resolved = content.resolve(&queries.iter().map(answer).collect());
                let series = match &resolved {
                    ValueContent::Typed {
                        element_count,
                        fill: Fill::Series { from: Value::F32(from), increment: Value::F32(inc) },
                        ..
                    } => {
                        let (from, inc) = (f32::from_bits(*from), f32::from_bits(*inc));
                        (0..*element_count)
                            .map(|i| (from + inc * i as f32).to_bits().into())
                            .collect()
                    }
                    _ => vec![],
                };
                buffers.upload(id, resolved.fill(&series));
            }
            (
                Action::Expect { resource, queries },
                Directive::Expect { offset, values, .. },
            ) => {
                let values = resolve_values(values, &queries.iter().map(answer).collect());
                let data = buffers.download(resource);
                let result =
                    check_expect(offset.content, &values, None, &vec![], data, ignore_expect);
                failures.push(match result {
                    Ok(()) => None,
                    Err(ExpectError::Content(m)) => Some(m.index),
                    _ => panic!(),
                });
            }
            _ => {}
        }
    }
    failures
}

#[test]
fn expectations_can_be_ignored() {
    assert_eq!(run_script(ADD_SCRIPT, true), vec![None, None]);
    assert_eq!(run_script(ADD_SCRIPT, false), vec![Some(0), Some(0)]);
    let series = "BUFFER b DATA_TYPE float SIZE 3 SERIES_FROM 10.0 INC_BY .25
EXPECT b float OFFSET 0 EQ 10 10.25 10.5
EXPECT b float OFFSET 4 EQ 10.25 11
";
    assert_eq!(run_script(series, false), vec![None, Some(1)]);
}

#[test]
fn objects_are_known_across_scripts() {
    let outer = "BUFFER a DATA_TYPE uint8 SIZE 1 FILL 0\n";
    let inner = "VIEW v a AS UAV\nBUFFER b DATA_TYPE uint8 SIZE 1 FILL 0\n";
    let after = "VIEW w b AS SRV\nDUMP a uint8\n";
    let mut state = State::new();
    let mut actions = apply_all(&mut state, outer);
    actions.extend(apply_all(&mut state, inner));
    actions.extend(apply_all(&mut state, after));
    let mut at_once = State::new();
    assert_eq!(actions, apply_all(&mut at_once, &format!("{outer}{inner}{after}")));
    assert_eq!(
        actions[3],
        Action::CreateView { id: IdentifierIdx(3), buffer: Some(IdentifierIdx(2)) }
    );
}

#[test]
fn names_know_their_place() {
    let text = "# ä\nVIEW view  buffer AS UAV";
    let all = statements(text);
    match &all[0] {
        Directive::View { name, buffer: Some(buffer), .. } => {
            for id in [name, buffer] {
                assert_eq!(&text[id.span.start..id.span.end], id.content);
            }
        }
        _ => panic!(),
    }
}
