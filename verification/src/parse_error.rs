//! What can be wrong with the text of a script.
use vstd::arithmetic::power2::{lemma2_to64, lemma2_to64_rest, pow2};
use vstd::prelude::*;

use crate::duration::DurationError;
use crate::flags::FlagKind;
use crate::source::{Span, SpanObj};
use crate::text::{before, decimal_digits, until_char};

verus! {

/// The statements and lines of a script whose form an error can explain.
#[derive(Clone, Copy, Debug, Eq, Hash, PartialEq, Structural)]
pub enum StatementFormat {
    Assert,
    Blas,
    Buffer,
    Collection,
    CommandSignature,
    Dispatch,
    DispatchRays,
    Dump,
    ExecuteIndirect,
    Expect,
    Include,
    Lib,
    Object,
    Pipeline,
    Rtpso,
    Root,
    RootDxil,
    ShaderTable,
    ShaderId,
    Sleep,
    Source,
    Tlas,
    View,
    PsoCollection,
    PsoLib,
    PsoHitGroup,
    Aabb,
    Vertex,
    Transform,
    InstanceId,
    InstanceMask,
    InstanceContribution,
    Instance,
    SeriesFrom,
    Fill,
    RootTable,
    RootSrv,
    RootUav,
    RootConst,
    PipelineAttach,
    PipelineRoot,
    DispatchBind,
    DispatchRootConst,
    DispatchSrv,
    DispatchUav,
    DispatchRootSig,
}

/// The form of a statement, as it is shown to the author of a script.
pub open spec fn format_text(format: StatementFormat) -> Seq<char> {
    match format {
        StatementFormat::Assert => "ASSERT SHADERID [EQ|NE] <shaderid_a> <shaderid_b>"@,
        StatementFormat::Blas => "BLAS <name> content... END"@,
        StatementFormat::Buffer =>
            "BUFFER <name> [DATA_TYPE <tyflagspe> SIZE <elements> | RAW <bytes> ... END]"@,
        StatementFormat::Collection => "COLLECTION name [ADDTO existing_name]"@,
        StatementFormat::CommandSignature =>
            "COMMAND_SIGNATURE <name> [STRIDE <stride>] [ROOT_SIG <root_sig>] content... END"@,
        StatementFormat::Dispatch => "DISPATCH <pipeline> content... RUN <x> <y> <z>"@,
        StatementFormat::DispatchRays =>
            "DISPATCHRAYS <pipeline> content... RUN <raygentab> <hittab> <misstab> <calltab> <x> <y> <z>"@,
        StatementFormat::Dump => "DUMP <resource> <type> [PRINT_STRIDE <stride>] [EXPECT]"@,
        StatementFormat::ExecuteIndirect =>
            "EXECUTE_INDIRECT <pipeline> SIGNATURE <command_signature> content... RUN <argument_buffer> [OFFSET <offset>] MAX_COMMANDS <num> [COUNT <count_buffer> [COUNT_OFFSET <offset>]]"@,
        StatementFormat::Expect =>
            "EXPECT <resource> <type> [EPSILON <epsilon>] OFFSET <offset> EQ <list>"@,
        StatementFormat::Include => "INCLUDE <path>"@,
        StatementFormat::Lib => "LIB <name> <source_name> <shader_model> [<compile arguments>]"@,
        StatementFormat::Object =>
            "OBJECT <name> <source_name> <shader_model> <entrypoint> [<compile arguments>]"@,
        StatementFormat::Pipeline => "PIPELINE <name> <type> content... END"@,
        StatementFormat::Rtpso => "RTPSO name [ADDTO existing_name]"@,
        StatementFormat::Root => "ROOT <name> content... END"@,
        StatementFormat::RootDxil => "ROOT_DXIL <sig_name> <object>"@,
        StatementFormat::ShaderTable => "SHADERTABLE <name> <state_object> content... END"@,
        StatementFormat::ShaderId => "SHADERID <name> <state_object> <shader_name>"@,
        StatementFormat::Sleep => "SLEEP <duration>"@,
        StatementFormat::Source => "SOURCE <name> code... END"@,
        StatementFormat::Tlas => "TLAS <name> content... END"@,
        StatementFormat::View => "VIEW <name> <buffer_name> AS [UAV|SRV|RTAS SRV]"@,
        StatementFormat::PsoCollection =>
            "COLLECTION <obj> [EXPORTS <name>[=<exportToRename>] <....>]"@,
        StatementFormat::PsoLib => "LIB <obj> [EXPORTS <name>[=<exportToRename>] <....>]"@,
        StatementFormat::PsoHitGroup => "HIT_GROUP <name> <anyhit> <closesthit> <intersection>"@,
        StatementFormat::Aabb => "AABB <min_x> <min_y> <min_z> <max_x> <max_y> <max_z>"@,
        StatementFormat::Vertex => "VERTEX <x> <y> <z>"@,
        StatementFormat::Transform => "TRANSFORM content 3x4... END"@,
        StatementFormat::InstanceId => "ID <num>"@,
        StatementFormat::InstanceMask => "MASK <num>"@,
        StatementFormat::InstanceContribution => "HIT_GROUP_INDEX_CONTRIBUTION <num>"@,
        StatementFormat::Instance => "BLAS <name> [-]"@,
        StatementFormat::SeriesFrom => "SERIES_FROM <start> INC_BY <increment>"@,
        StatementFormat::Fill => "FILL <const>"@,
        StatementFormat::RootTable => "TABLE <type> REGISTER <num> NUMBER <num> SPACE <space>"@,
        StatementFormat::RootSrv => "SRV REGISTER <num> SPACE <space>"@,
        StatementFormat::RootUav => "UAV REGISTER <num> SPACE <space>"@,
        StatementFormat::RootConst => "ROOT_CONST COUNT <num> REGISTER <num> SPACE <space>"@,
        StatementFormat::PipelineAttach => "ATTACH <name>"@,
        StatementFormat::PipelineRoot => "ROOT <root_sig>"@,
        StatementFormat::DispatchBind => "BIND <index> [TABLE <view>]"@,
        StatementFormat::DispatchRootConst => "ROOT_CONST <idx> <data_spec>"@,
        StatementFormat::DispatchSrv => "SRV <idx> <buffer_name>"@,
        StatementFormat::DispatchUav => "UAV <idx> <buffer_name>"@,
        StatementFormat::DispatchRootSig => "ROOT_SIG <name>"@,
    }
}

impl StatementFormat {
    /// The word that the statement starts with.
    pub fn keyword(self) -> (word: String)
        ensures
            word@ == before(format_text(self), ' '),
    {
        until_char(self.text(), ' ')
    }

    /// The form of the statement, as it is shown to the author of a script.
    pub fn text(self) -> (text: &'static str)
        ensures
            text@ == format_text(self),
    {
        match self {
            StatementFormat::Assert => "ASSERT SHADERID [EQ|NE] <shaderid_a> <shaderid_b>",
            StatementFormat::Blas => "BLAS <name> content... END",
            StatementFormat::Buffer =>
                "BUFFER <name> [DATA_TYPE <tyflagspe> SIZE <elements> | RAW <bytes> ... END]",
            StatementFormat::Collection => "COLLECTION name [ADDTO existing_name]",
            StatementFormat::CommandSignature =>
                "COMMAND_SIGNATURE <name> [STRIDE <stride>] [ROOT_SIG <root_sig>] content... END",
            StatementFormat::Dispatch => "DISPATCH <pipeline> content... RUN <x> <y> <z>",
            StatementFormat::DispatchRays =>
                "DISPATCHRAYS <pipeline> content... RUN <raygentab> <hittab> <misstab> <calltab> <x> <y> <z>",
            StatementFormat::Dump => "DUMP <resource> <type> [PRINT_STRIDE <stride>] [EXPECT]",
            StatementFormat::ExecuteIndirect =>
                "EXECUTE_INDIRECT <pipeline> SIGNATURE <command_signature> content... RUN <argument_buffer> [OFFSET <offset>] MAX_COMMANDS <num> [COUNT <count_buffer> [COUNT_OFFSET <offset>]]",
            StatementFormat::Expect =>
                "EXPECT <resource> <type> [EPSILON <epsilon>] OFFSET <offset> EQ <list>",
            StatementFormat::Include => "INCLUDE <path>",
            StatementFormat::Lib => "LIB <name> <source_name> <shader_model> [<compile arguments>]",
            StatementFormat::Object =>
                "OBJECT <name> <source_name> <shader_model> <entrypoint> [<compile arguments>]",
            StatementFormat::Pipeline => "PIPELINE <name> <type> content... END",
            StatementFormat::Rtpso => "RTPSO name [ADDTO existing_name]",
            StatementFormat::Root => "ROOT <name> content... END",
            StatementFormat::RootDxil => "ROOT_DXIL <sig_name> <object>",
            StatementFormat::ShaderTable => "SHADERTABLE <name> <state_object> content... END",
            StatementFormat::ShaderId => "SHADERID <name> <state_object> <shader_name>",
            StatementFormat::Sleep => "SLEEP <duration>",
            StatementFormat::Source => "SOURCE <name> code... END",
            StatementFormat::Tlas => "TLAS <name> content... END",
            StatementFormat::View => "VIEW <name> <buffer_name> AS [UAV|SRV|RTAS SRV]",
            StatementFormat::PsoCollection =>
                "COLLECTION <obj> [EXPORTS <name>[=<exportToRename>] <....>]",
            StatementFormat::PsoLib => "LIB <obj> [EXPORTS <name>[=<exportToRename>] <....>]",
            StatementFormat::PsoHitGroup => "HIT_GROUP <name> <anyhit> <closesthit> <intersection>",
            StatementFormat::Aabb => "AABB <min_x> <min_y> <min_z> <max_x> <max_y> <max_z>",
            StatementFormat::Vertex => "VERTEX <x> <y> <z>",
            StatementFormat::Transform => "TRANSFORM content 3x4... END",
            StatementFormat::InstanceId => "ID <num>",
            StatementFormat::InstanceMask => "MASK <num>",
            StatementFormat::InstanceContribution => "HIT_GROUP_INDEX_CONTRIBUTION <num>",
            StatementFormat::Instance => "BLAS <name> [-]",
            StatementFormat::SeriesFrom => "SERIES_FROM <start> INC_BY <increment>",
            StatementFormat::Fill => "FILL <const>",
            StatementFormat::RootTable => "TABLE <type> REGISTER <num> NUMBER <num> SPACE <space>",
            StatementFormat::RootSrv => "SRV REGISTER <num> SPACE <space>",
            StatementFormat::RootUav => "UAV REGISTER <num> SPACE <space>",
            StatementFormat::RootConst => "ROOT_CONST COUNT <num> REGISTER <num> SPACE <space>",
            StatementFormat::PipelineAttach => "ATTACH <name>",
            StatementFormat::PipelineRoot => "ROOT <root_sig>",
            StatementFormat::DispatchBind => "BIND <index> [TABLE <view>]",
            StatementFormat::DispatchRootConst => "ROOT_CONST <idx> <data_spec>",
            StatementFormat::DispatchSrv => "SRV <idx> <buffer_name>",
            StatementFormat::DispatchUav => "UAV <idx> <buffer_name>",
            StatementFormat::DispatchRootSig => "ROOT_SIG <name>",
        }
    }
}

/// The lists of words of which one is expected.
#[derive(Clone, Copy, Debug, Eq, Hash, PartialEq, Structural)]
pub enum WordKind {
    DataType,
    View,
    PipelineType,
}

/// What a word of a list is called.
pub open spec fn word_name(kind: WordKind) -> Seq<char> {
    match kind {
        WordKind::DataType => "type"@,
        WordKind::View => "view"@,
        WordKind::PipelineType => "pipeline type"@,
    }
}

/// The words of a list.
pub open spec fn expected_words(kind: WordKind) -> Seq<Seq<char>> {
    match kind {
        WordKind::DataType => seq![
            "uint64"@,
            "uint32"@,
            "uint16"@,
            "uint8"@,
            "float"@,
            "float16"@,
        ],
        WordKind::View => seq!["SRV"@, "UAV"@],
        WordKind::PipelineType => seq!["COMPUTE"@],
    }
}

impl WordKind {
    /// What a word of the list is called.
    pub fn name(self) -> (name: &'static str)
        ensures
            name@ == word_name(self),
    {
        match self {
            WordKind::DataType => "type",
            WordKind::View => "view",
            WordKind::PipelineType => "pipeline type",
        }
    }

    /// The words of the list.
    pub fn expected(self) -> (words: Vec<&'static str>)
        ensures
            words.deep_view() == expected_words(self),
    {
        let words = match self {
            WordKind::DataType => vec!["uint64", "uint32", "uint16", "uint8", "float", "float16"],
            WordKind::View => vec!["SRV", "UAV"],
            WordKind::PipelineType => vec!["COMPUTE"],
        };
        assert(words.deep_view() =~= expected_words(self));
        words
    }
}

/// The integer types that a number in a script can have.
#[derive(Clone, Copy, Debug, Eq, Hash, PartialEq, Structural)]
pub enum IntType {
    U64,
    U32,
    U16,
    U8,
}

/// The largest number of a type.
pub open spec fn int_max(typ: IntType) -> u64 {
    match typ {
        IntType::U64 => u64::MAX,
        IntType::U32 => 0xffff_ffff,
        IntType::U16 => 0xffff,
        IntType::U8 => 0xff,
    }
}

/// The name of a type.
pub open spec fn int_name(typ: IntType) -> Seq<char> {
    match typ {
        IntType::U64 => "u64"@,
        IntType::U32 => "u32"@,
        IntType::U16 => "u16"@,
        IntType::U8 => "u8"@,
    }
}

/// The number of bits of a type.
pub open spec fn int_bits(typ: IntType) -> nat {
    match typ {
        IntType::U64 => 64,
        IntType::U32 => 32,
        IntType::U16 => 16,
        IntType::U8 => 8,
    }
}

/// A type holds all numbers of its bits, and its name tells how many these are.
pub proof fn lemma_int_type(typ: IntType)
    ensures
        int_max(typ) + 1 == pow2(int_bits(typ)),
        int_name(typ) == "u"@ + decimal_digits(int_bits(typ)),
{
    lemma2_to64();
    lemma2_to64_rest();
    reveal_strlit("u");
    reveal_strlit("u64");
    reveal_strlit("u32");
    reveal_strlit("u16");
    reveal_strlit("u8");
    reveal_with_fuel(decimal_digits, 3);
    assert(decimal_digits(64) =~= seq!['6', '4']);
    assert(decimal_digits(32) =~= seq!['3', '2']);
    assert(decimal_digits(16) =~= seq!['1', '6']);
    assert(decimal_digits(8) =~= seq!['8']);
    assert("u64"@ =~= "u"@ + seq!['6', '4']);
    assert("u32"@ =~= "u"@ + seq!['3', '2']);
    assert("u16"@ =~= "u"@ + seq!['1', '6']);
    assert("u8"@ =~= "u"@ + seq!['8']);
}

impl IntType {
    /// The largest number of the type.
    pub fn max(self) -> (max: u64)
        ensures
            max == int_max(self),
    {
        match self {
            IntType::U64 => u64::MAX,
            IntType::U32 => 0xffff_ffff,
            IntType::U16 => 0xffff,
            IntType::U8 => 0xff,
        }
    }

    /// The name of the type.
    pub fn name(self) -> (name: &'static str)
        ensures
            name@ == int_name(self),
    {
        match self {
            IntType::U64 => "u64",
            IntType::U32 => "u32",
            IntType::U16 => "u16",
            IntType::U8 => "u8",
        }
    }
}

/// An error in the text of a script.
#[derive(Clone, Debug, Eq, Hash, PartialEq)]
pub enum ParserError<S> {
    /// A line that may stand only once stands twice.
    DuplicateArgument { arg0: SpanObj<S>, arg1: SpanObj<S> },
    /// Neither `\`, `"` nor two hexadecimal digits behind a backslash.
    UnknownCharacterEscape { span: Span },
    /// A word in a `CONFIG` line that is not one of the flags.
    InvalidFlag { span: Span, flags: FlagKind },
    /// A number that is too large for its type.
    InvalidInteger { span: Span, typ: IntType },
    /// A statement that does not have its form.
    InvalidStatement { decl: Span, span: Span, format: StatementFormat },
    /// A word that is not one of a list.
    InvalidWord { span: Span, word: WordKind },
    /// A length of time that cannot be understood.
    ParseDuration { source: DurationError, duration_span: Span, identifier: SpanObj<S> },
    /// A `RAW` block whose values do not take as many bytes as it declares.
    RawSizeMismatch { size: SpanObj<u64>, content: Span, content_size: u128 },
    /// A block without `END`.
    UndelimitedStatement { span: Span },
    /// Something else was expected here.
    Unknown { span: Span },
    /// A line that does not start with the name of a statement.
    UnknownStatement { span: Span },
}

impl<S: DeepView> DeepView for ParserError<S> {
    type V = ParserError<S::V>;

    open spec fn deep_view(&self) -> ParserError<S::V> {
        match self {
            ParserError::DuplicateArgument { arg0, arg1 } => ParserError::DuplicateArgument {
                arg0: arg0.deep_view(),
                arg1: arg1.deep_view(),
            },
            ParserError::UnknownCharacterEscape { span } => ParserError::UnknownCharacterEscape {
                span: *span,
            },
            ParserError::InvalidFlag { span, flags } => ParserError::InvalidFlag {
                span: *span,
                flags: *flags,
            },
            ParserError::InvalidInteger { span, typ } => ParserError::InvalidInteger {
                span: *span,
                typ: *typ,
            },
            ParserError::InvalidStatement { decl, span, format } => ParserError::InvalidStatement {
                decl: *decl,
                span: *span,
                format: *format,
            },
            ParserError::InvalidWord { span, word } => ParserError::InvalidWord {
                span: *span,
                word: *word,
            },
            ParserError::ParseDuration { source, duration_span, identifier } =>
                ParserError::ParseDuration {
                source: *source,
                duration_span: *duration_span,
                identifier: identifier.deep_view(),
            },
            ParserError::RawSizeMismatch { size, content, content_size } =>
                ParserError::RawSizeMismatch {
                size: *size,
                content: *content,
                content_size: *content_size,
            },
            ParserError::UndelimitedStatement { span } => ParserError::UndelimitedStatement {
                span: *span,
            },
            ParserError::Unknown { span } => ParserError::Unknown { span: *span },
            ParserError::UnknownStatement { span } => ParserError::UnknownStatement {
                span: *span,
            },
        }
    }
}

impl<S> ParserError<S> {
    /// `self`, except if it is unknown, then `other`.
    pub open spec fn spec_or(self, other: ParserError<S>) -> ParserError<S> {
        if self is Unknown {
            other
        } else {
            self
        }
    }

    /// Return `self` except if it is unknown, then return `other`.
    #[verifier::when_used_as_spec(spec_or)]
    pub fn or(self, other: ParserError<S>) -> (error: ParserError<S>)
        ensures
            error == self.spec_or(other),
    {
        match self {
            ParserError::Unknown { .. } => other,
            error => error,
        }
    }
}

/// An error that is known is not given up for another one, and one that is unknown is always.
pub proof fn lemma_or<S>(a: ParserError<S>, b: ParserError<S>, c: ParserError<S>)
    ensures
        a.spec_or(b) == a || a.spec_or(b) == b,
        a.spec_or(b) is Unknown <==> a is Unknown && b is Unknown,
        a !is Unknown ==> a.spec_or(b) == a,
        a is Unknown ==> a.spec_or(b) == b,
        a.spec_or(b).spec_or(c) == a.spec_or(b.spec_or(c)),
{
}

/// Why a rule of the grammar does not apply.
#[derive(Clone, Debug, Eq, Hash, PartialEq)]
pub struct Fail<S> {
    /// No other rule may be tried instead.
    pub cut: bool,
    pub error: ParserError<S>,
}

impl<S: DeepView> DeepView for Fail<S> {
    type V = Fail<S::V>;

    open spec fn deep_view(&self) -> Fail<S::V> {
        Fail { cut: self.cut, error: self.error.deep_view() }
    }
}

/// What came of a rule: what it found and where that ended, or why it does not apply.
pub type Parsed<T> = Result<(T, usize), Fail<String>>;

/// What comes of a rule.
pub type Outcome<V> = Result<(V, int), Fail<Seq<char>>>;

/// The view of `Parsed`.
pub open spec fn outcome<T: DeepView>(parsed: Parsed<T>) -> Outcome<T::V> {
    match parsed {
        Ok((found, end)) => Ok((found.deep_view(), end as int)),
        Err(fail) => Err(fail.deep_view()),
    }
}

} // verus!
