//! A backend without a GPU: buffers are kept in memory, and shaders are only compiled.
use std::collections::HashMap;

use vstd::prelude::*;
use vstd::std_specs::hash::*;

use crate::check::{expectation_holds, lemma_content_expected};
use crate::content::{
    content_bytes, element_bytes, element_offset, elements, lemma_content_bytes_len,
    resolved_fill_matches, resolved_size, ResolvedContent,
};
use crate::names::IdentifierIdx;
use crate::script::{new_list, push_item};
use crate::value::{values_size, Value};

verus! {

/// An argument for the shader compiler.
#[derive(Clone, Debug, Eq, Hash, PartialEq)]
pub enum CompilerArgument<S> {
    Text(S),
    /// The directory of the script
    SearchDir,
    OutputFile,
    InputFile,
}

impl<S: DeepView> DeepView for CompilerArgument<S> {
    type V = CompilerArgument<S::V>;

    open spec fn deep_view(&self) -> CompilerArgument<S::V> {
        match self {
            CompilerArgument::Text(s) => CompilerArgument::Text(s.deep_view()),
            CompilerArgument::SearchDir => CompilerArgument::SearchDir,
            CompilerArgument::OutputFile => CompilerArgument::OutputFile,
            CompilerArgument::InputFile => CompilerArgument::InputFile,
        }
    }
}

/// Texts as arguments.
pub open spec fn text_arguments(args: Seq<Seq<char>>) -> Seq<CompilerArgument<Seq<char>>> {
    Seq::new(args.len(), |i: int| CompilerArgument::Text(args[i]))
}

/// The arguments for compiling a shader with the command line compiler.
pub open spec fn compiler_arguments(
    shader_model: Seq<char>,
    entrypoint: Option<Seq<char>>,
    search_dir: bool,
    args: Seq<Seq<char>>,
) -> Seq<CompilerArgument<Seq<char>>> {
    let entry = match entrypoint {
        Some(e) => e,
        None => Seq::empty(),
    };
    let profile = seq![
        CompilerArgument::Text("-T"@),
        CompilerArgument::Text(shader_model),
        CompilerArgument::Text("-E"@),
        CompilerArgument::Text(entry),
    ];
    let search = if search_dir {
        seq![CompilerArgument::Text("-I"@), CompilerArgument::SearchDir]
    } else {
        Seq::empty()
    };
    let files = seq![
        CompilerArgument::Text("-Fo"@),
        CompilerArgument::OutputFile,
        CompilerArgument::InputFile,
    ];
    profile + search + files + text_arguments(args)
}

/// The arguments for compiling a shader in process: what the script says, and where it is.
pub open spec fn library_arguments(search_dir: bool, args: Seq<Seq<char>>) -> Seq<
    CompilerArgument<Seq<char>>,
> {
    if search_dir {
        text_arguments(args) + seq![CompilerArgument::Text("-I"@), CompilerArgument::SearchDir]
    } else {
        text_arguments(args)
    }
}

/// Whether an argument stands directly behind an option.
pub open spec fn is_option(
    list: Seq<CompilerArgument<Seq<char>>>,
    option: Seq<char>,
    argument: CompilerArgument<Seq<char>>,
) -> bool {
    exists|i: int|
        0 <= i && i + 1 < list.len() && #[trigger] list[i] == CompilerArgument::Text(option)
            && list[i + 1] == argument
}

/// The compiler is told the shader model, the entry point and the file to write, and the directory
/// of the script exactly if there is one. The arguments of the script come last, in their order.
pub proof fn lemma_compiler_arguments(
    shader_model: Seq<char>,
    entrypoint: Option<Seq<char>>,
    search_dir: bool,
    args: Seq<Seq<char>>,
)
    ensures
        ({
            let list = compiler_arguments(shader_model, entrypoint, search_dir, args);
            let n = list.len() - args.len();
            &&& is_option(list, "-T"@, CompilerArgument::Text(shader_model))
            &&& entrypoint matches Some(e) ==> is_option(list, "-E"@, CompilerArgument::Text(e))
            &&& entrypoint is None ==> is_option(
                list,
                "-E"@,
                CompilerArgument::Text(Seq::empty()),
            )
            &&& search_dir ==> is_option(list, "-I"@, CompilerArgument::SearchDir)
            &&& is_option(list, "-Fo"@, CompilerArgument::OutputFile)
            &&& list.contains(CompilerArgument::InputFile)
            &&& !search_dir ==> !list.contains(CompilerArgument::SearchDir)
            &&& n == if search_dir {
                9int
            } else {
                7
            }
            &&& forall|i: int|
                0 <= i < args.len() ==> list[n + i] == CompilerArgument::Text(#[trigger] args[i])
        }),
{
    let list = compiler_arguments(shader_model, entrypoint, search_dir, args);
    let k = if search_dir {
        6int
    } else {
        4
    };
    assert(list[0] == CompilerArgument::Text("-T"@) && list[1] == CompilerArgument::Text(
        shader_model,
    ));
    assert(list[2] == CompilerArgument::Text("-E"@));
    assert(list[3] is Text);
    if search_dir {
        assert(list[4] == CompilerArgument::Text("-I"@) && list[5]
            == CompilerArgument::<Seq<char>>::SearchDir);
    }
    assert(list[k] == CompilerArgument::Text("-Fo"@) && list[k + 1]
        == CompilerArgument::<Seq<char>>::OutputFile);
    assert(list[k + 2] == CompilerArgument::<Seq<char>>::InputFile);
    if !search_dir {
        assert forall|i: int| 0 <= i < list.len() implies list[i] != CompilerArgument::<
            Seq<char>,
        >::SearchDir by {}
    }
}

/// A library is told the arguments of the script, in their order, and the directory of the script
/// exactly if there is one.
pub proof fn lemma_library_arguments(search_dir: bool, args: Seq<Seq<char>>)
    ensures
        ({
            let list = library_arguments(search_dir, args);
            &&& search_dir ==> list.len() == args.len() + 2 && is_option(
                list,
                "-I"@,
                CompilerArgument::SearchDir,
            )
            &&& !search_dir ==> list.len() == args.len()
            &&& forall|i: int|
                0 <= i < args.len() ==> list[i] == CompilerArgument::Text(#[trigger] args[i])
        }),
{
    let list = library_arguments(search_dir, args);
    if search_dir {
        let n = args.len() as int;
        assert(list[n] == CompilerArgument::Text("-I"@) && list[n + 1]
            == CompilerArgument::<Seq<char>>::SearchDir);
    }
}

/// Puts texts behind arguments.
fn push_texts(list: &mut Vec<CompilerArgument<String>>, args: &Vec<String>)
    ensures
        final(list).deep_view() == old(list).deep_view() + text_arguments(args.deep_view()),
{
    let mut i: usize = 0;
    assert(list.deep_view() + text_arguments(args.deep_view().take(0)) =~= list.deep_view());
    while i < args.len()
        invariant
            i <= args@.len(),
            list.deep_view() == old(list).deep_view() + text_arguments(
                args.deep_view().take(i as int),
            ),
        decreases args@.len() - i,
    {
        push_item(list, CompilerArgument::Text(args[i].clone()));
        i += 1;
        assert(list.deep_view() =~= old(list).deep_view() + text_arguments(
            args.deep_view().take(i as int),
        ));
    }
    assert(args.deep_view().take(i as int) =~= args.deep_view());
}

/// The arguments for compiling a shader with the command line compiler.
pub fn get_compiler_arguments(
    shader_model: &String,
    entrypoint: &Option<String>,
    search_dir: bool,
    args: &Vec<String>,
) -> (list: Vec<CompilerArgument<String>>)
    ensures
        list.deep_view() == compiler_arguments(
            shader_model@,
            entrypoint.deep_view(),
            search_dir,
            args.deep_view(),
        ),
{
    let mut list: Vec<CompilerArgument<String>> = new_list();
    push_item(&mut list, CompilerArgument::Text("-T".to_owned()));
    push_item(&mut list, CompilerArgument::Text(shader_model.clone()));
    push_item(&mut list, CompilerArgument::Text("-E".to_owned()));
    let entry = match entrypoint {
        Some(e) => e.clone(),
        None => String::new(),
    };
    push_item(&mut list, CompilerArgument::Text(entry));
    if search_dir {
        push_item(&mut list, CompilerArgument::Text("-I".to_owned()));
        push_item(&mut list, CompilerArgument::SearchDir);
    }
    push_item(&mut list, CompilerArgument::Text("-Fo".to_owned()));
    push_item(&mut list, CompilerArgument::OutputFile);
    push_item(&mut list, CompilerArgument::InputFile);
    push_texts(&mut list, args);
    assert(list.deep_view() =~= compiler_arguments(
        shader_model@,
        entrypoint.deep_view(),
        search_dir,
        args.deep_view(),
    ));
    list
}

/// The arguments for compiling a shader in process.
pub fn get_library_arguments(search_dir: bool, args: &Vec<String>) -> (list: Vec<
    CompilerArgument<String>,
>)
    ensures
        list.deep_view() == library_arguments(search_dir, args.deep_view()),
{
    let mut list: Vec<CompilerArgument<String>> = new_list();
    push_texts(&mut list, args);
    if search_dir {
        push_item(&mut list, CompilerArgument::Text("-I".to_owned()));
        push_item(&mut list, CompilerArgument::SearchDir);
    }
    assert(list.deep_view() =~= library_arguments(search_dir, args.deep_view()));
    list
}

/// The buffers of a backend without a GPU.
pub struct NullBuffers {
    buffers: HashMap<usize, Vec<u8>>,
}

impl View for NullBuffers {
    type V = Map<usize, Seq<u8>>;

    closed spec fn view(&self) -> Map<usize, Seq<u8>> {
        self.buffers@.map_values(|data: Vec<u8>| data@)
    }
}

impl NullBuffers {
    /// No buffers.
    pub fn new() -> (buffers: NullBuffers)
        ensures
            buffers@ == Map::<usize, Seq<u8>>::empty(),
    {
        broadcast use group_hash_axioms;

        let buffers = NullBuffers { buffers: HashMap::new() };
        assert(buffers@ =~= Map::empty());
        buffers
    }

    /// Removes all buffers.
    pub fn reset(&mut self)
        ensures
            final(self)@ == Map::<usize, Seq<u8>>::empty(),
    {
        broadcast use group_hash_axioms;

        self.buffers.clear();
        assert(self@ =~= Map::empty());
    }

    /// Makes a buffer of `len` zero bytes.
    pub fn create_buffer(&mut self, id: IdentifierIdx, len: usize)
        ensures
            final(self)@ == old(self)@.insert(id.0, Seq::new(len as nat, |i: int| 0u8)),
    {
        broadcast use group_hash_axioms;

        let mut data: Vec<u8> = Vec::new();
        let mut i: usize = 0;
        while i < len
            invariant
                i <= len,
                data@ == Seq::new(i as nat, |j: int| 0u8),
            decreases len - i,
        {
            data.push(0);
            i += 1;
            assert(data@ =~= Seq::new(i as nat, |j: int| 0u8));
        }
        self.buffers.insert(id.0, data);
        assert(self@ =~= old(self)@.insert(id.0, data@));
    }

    /// Writes a whole buffer.
    pub fn upload(&mut self, id: IdentifierIdx, data: Vec<u8>)
        requires
            old(self)@.contains_key(id.0),
            old(self)@[id.0].len() == data@.len(),
        ensures
            final(self)@ == old(self)@.insert(id.0, data@),
    {
        broadcast use group_hash_axioms;

        self.buffers.insert(id.0, data);
        assert(self@ =~= old(self)@.insert(id.0, data@));
    }

    /// Whether there is a buffer.
    pub fn contains(&self, id: IdentifierIdx) -> (b: bool)
        ensures
            b == self@.contains_key(id.0),
    {
        broadcast use group_hash_axioms;

        self.buffers.contains_key(&id.0)
    }

    /// The content of a buffer.
    pub fn download(&self, id: IdentifierIdx) -> (data: &Vec<u8>)
        requires
            self@.contains_key(id.0),
        ensures
            data@ == self@[id.0],
    {
        broadcast use group_hash_axioms;

        match self.buffers.get(&id.0) {
            Some(data) => data,
            None => vstd::pervasive::unreached(),
        }
    }
}

/// A buffer is read as it was last written, and writing a buffer keeps the others.
pub proof fn lemma_read_what_was_written(
    buffers: Map<usize, Seq<u8>>,
    id: usize,
    other: usize,
    data: Seq<u8>,
)
    requires
        buffers.contains_key(id),
    ensures
        buffers.insert(id, data)[id] == data,
        other != id ==> buffers.insert(id, data).contains_key(other) == buffers.contains_key(other)
            && buffers.insert(id, data)[other] == buffers[other],
{
}

/// What a BUFFER statement writes, an EXPECT statement reads back: a buffer that was made with the
/// size of a content and filled with it passes the EXPECT statement with values of that content,
/// at the offset of the first of them.
pub proof fn lemma_buffer_expected(
    buffers: Map<usize, Seq<u8>>,
    id: usize,
    content: ResolvedContent,
    first: int,
    values: Seq<Value>,
    float_series: Seq<u64>,
)
    requires
        resolved_fill_matches(content),
        0 <= first,
        first + values.len() <= elements(content),
        forall|i: int|
            0 <= i < values.len() ==> (#[trigger] values[i]).bytes() == element_bytes(
                content,
                first + i,
                float_series,
            ),
    ensures
        ({
            let made = buffers.insert(id, Seq::new(resolved_size(content), |i: int| 0u8));
            let written = made.insert(id, content_bytes(content, float_series));
            let offset = element_offset(content, first);
            &&& made[id].len() == content_bytes(content, float_series).len()
            &&& 0 <= offset
            &&& offset + values_size(values) <= written[id].len()
            &&& expectation_holds(
                values,
                written[id].subrange(offset, offset + values_size(values)),
                None,
                Seq::empty(),
            )
        }),
{
    lemma_content_bytes_len(content, float_series);
    lemma_content_expected(content, first, values, float_series);
}

} // verus!
