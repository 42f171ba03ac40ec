//! The names that a script gives to its objects.
use vstd::hash_map::StringHashMap;
use vstd::prelude::*;

use crate::source::{copy_identifier, Identifier, IdentifierView, SpanObj};
use crate::text::same_text;

verus! {

/// Number of a named object, counted in the order in which the objects were made.
#[derive(Clone, Copy, Debug, Default, Eq, Hash, Ord, PartialEq, PartialOrd, Structural)]
pub struct IdentifierIdx(pub usize);

impl DeepView for IdentifierIdx {
    type V = IdentifierIdx;

    open spec fn deep_view(&self) -> IdentifierIdx {
        *self
    }
}

impl index_vec::Idx for IdentifierIdx {
    fn from_usize(idx: usize) -> (r: Self)
        ensures
            r.0 == idx,
    {
        IdentifierIdx(idx)
    }

    fn index(self) -> (r: usize)
        ensures
            r == self.0,
    {
        self.0
    }
}

/// What an object is.
#[derive(Clone, Copy, Debug, Eq, Hash, PartialEq, Structural)]
pub enum IdentifierType {
    Source,
    Object,
    Blas,
    Tlas,
    Buffer,
    RootSig,
    ShaderId,
    ShaderTable,
    Pipeline,
    PipelineStateObject,
    View,
    CommandSignature,
}

/// How a kind of object is shown to the author of a script.
pub open spec fn type_text(typ: IdentifierType) -> Seq<char> {
    match typ {
        IdentifierType::Source => "SOURCE"@,
        IdentifierType::Object => "OBJECT"@,
        IdentifierType::Blas => "BLAS"@,
        IdentifierType::Tlas => "TLAS"@,
        IdentifierType::Buffer => "BUFFER"@,
        IdentifierType::RootSig => "ROOT"@,
        IdentifierType::ShaderId => "SHADERID"@,
        IdentifierType::ShaderTable => "SHADERTABLE"@,
        IdentifierType::Pipeline => "PIPELINE"@,
        IdentifierType::PipelineStateObject => "PSO"@,
        IdentifierType::View => "VIEW"@,
        IdentifierType::CommandSignature => "COMMAND_SIGNATURE"@,
    }
}

impl IdentifierType {
    /// How the kind of object is shown to the author of a script.
    pub fn text(self) -> (text: &'static str)
        ensures
            text@ == type_text(self),
    {
        match self {
            IdentifierType::Source => "SOURCE",
            IdentifierType::Object => "OBJECT",
            IdentifierType::Blas => "BLAS",
            IdentifierType::Tlas => "TLAS",
            IdentifierType::Buffer => "BUFFER",
            IdentifierType::RootSig => "ROOT",
            IdentifierType::ShaderId => "SHADERID",
            IdentifierType::ShaderTable => "SHADERTABLE",
            IdentifierType::Pipeline => "PIPELINE",
            IdentifierType::PipelineStateObject => "PSO",
            IdentifierType::View => "VIEW",
            IdentifierType::CommandSignature => "COMMAND_SIGNATURE",
        }
    }
}

/// The kinds of objects that are expected somewhere.
#[derive(Clone, Copy, Debug, Eq, Hash, PartialEq, Structural)]
pub enum ExpectedTypes {
    One(IdentifierType),
    /// Everything that has an address on the GPU.
    Addressable,
    /// Everything that an indirect dispatch can run.
    Runnable,
}

impl ExpectedTypes {
    /// The kinds, in the order in which they are shown.
    pub open spec fn spec_list(self) -> Seq<IdentifierType> {
        match self {
            ExpectedTypes::One(typ) => seq![typ],
            ExpectedTypes::Addressable => seq![
                IdentifierType::Buffer,
                IdentifierType::ShaderTable,
                IdentifierType::Tlas,
                IdentifierType::Blas,
            ],
            ExpectedTypes::Runnable => seq![
                IdentifierType::Pipeline,
                IdentifierType::PipelineStateObject,
            ],
        }
    }

    /// Whether a kind is one of those that are expected.
    pub open spec fn allows(self, typ: IdentifierType) -> bool {
        self.spec_list().contains(typ)
    }

    /// The kinds, in the order in which they are shown.
    pub fn list(self) -> (types: Vec<IdentifierType>)
        ensures
            types@ == self.spec_list(),
    {
        let types = match self {
            ExpectedTypes::One(typ) => vec![typ],
            ExpectedTypes::Addressable => vec![
                IdentifierType::Buffer,
                IdentifierType::ShaderTable,
                IdentifierType::Tlas,
                IdentifierType::Blas,
            ],
            ExpectedTypes::Runnable => vec![
                IdentifierType::Pipeline,
                IdentifierType::PipelineStateObject,
            ],
        };
        assert(types@ =~= self.spec_list());
        types
    }

    /// Whether a kind is one of those that are expected.
    pub fn contains(self, typ: IdentifierType) -> (b: bool)
        ensures
            b == self.allows(typ),
    {
        proof {
            let list = self.spec_list();
            assert(list.contains(list[0]));
            if !(self is One) {
                assert(list.contains(list[1]));
            }
            if self is Addressable {
                assert(list.contains(list[2]));
                assert(list.contains(list[3]));
            }
        }
        match self {
            ExpectedTypes::One(one) => one == typ,
            ExpectedTypes::Addressable => matches!(
                typ,
                IdentifierType::Buffer
                | IdentifierType::ShaderTable
                | IdentifierType::Tlas
                | IdentifierType::Blas
            ),
            ExpectedTypes::Runnable => matches!(
                typ,
                IdentifierType::Pipeline | IdentifierType::PipelineStateObject
            ),
        }
    }
}

/// What can be wrong with the names and objects of a statement.
#[derive(Clone, Debug, Eq, Hash, PartialEq)]
pub enum NameError<S> {
    /// There already is an object of this name.
    DuplicateIdentifier { name0: SpanObj<S>, name1: SpanObj<S> },
    /// `NULL` is no name for an object.
    NullIdentifier { name: SpanObj<S> },
    /// There is no object of this name.
    UnknownIdentifier { name: SpanObj<S> },
    /// The object is of another kind.
    WrongType {
        expected: ExpectedTypes,
        actual: IdentifierType,
        declaration: SpanObj<S>,
        used: SpanObj<S>,
    },
    /// A view must have a buffer, except if it is a raytracing acceleration structure.
    ViewNoBuffer { name: SpanObj<S> },
    /// A compute pipeline must have exactly one shader.
    InvalidShaderCount { name: SpanObj<S>, shader_count: usize },
}

impl<S: DeepView> DeepView for NameError<S> {
    type V = NameError<S::V>;

    open spec fn deep_view(&self) -> NameError<S::V> {
        match self {
            NameError::DuplicateIdentifier { name0, name1 } => NameError::DuplicateIdentifier {
                name0: name0.deep_view(),
                name1: name1.deep_view(),
            },
            NameError::NullIdentifier { name } => NameError::NullIdentifier {
                name: name.deep_view(),
            },
            NameError::UnknownIdentifier { name } => NameError::UnknownIdentifier {
                name: name.deep_view(),
            },
            NameError::WrongType { expected, actual, declaration, used } => NameError::WrongType {
                expected: *expected,
                actual: *actual,
                declaration: declaration.deep_view(),
                used: used.deep_view(),
            },
            NameError::ViewNoBuffer { name } => NameError::ViewNoBuffer { name: name.deep_view() },
            NameError::InvalidShaderCount { name, shader_count } => NameError::InvalidShaderCount {
                name: name.deep_view(),
                shader_count: *shader_count,
            },
        }
    }
}

/// A result with a view of what was found and a view of what was wrong.
pub open spec fn result_view<T: DeepView>(r: Result<T, NameError<String>>) -> Result<
    T::V,
    NameError<Seq<char>>,
> {
    match r {
        Ok(found) => Ok(found.deep_view()),
        Err(e) => Err(e.deep_view()),
    }
}

/// The list of all named objects.
#[verifier::external_body]
pub struct IdentifierTable {
    list: index_vec::IndexVec<IdentifierIdx, (Identifier, IdentifierType)>,
}

/// The objects of a table in the order of their numbers: where each was named, and what it is.
pub uninterp spec fn table_contents(table: IdentifierTable) -> Seq<(IdentifierView, IdentifierType)>;

impl IdentifierTable {
    /// `IndexVec::new`: a table without objects.
    #[verifier::external_body]
    fn new() -> (table: IdentifierTable)
        ensures
            table_contents(table) == Seq::<(IdentifierView, IdentifierType)>::empty(),
    {
        IdentifierTable { list: index_vec::IndexVec::new() }
    }

    /// `IndexVec::push`: puts an object behind the others. Its number is the number of objects
    /// before it. The objects are in a `Vec`, which takes `isize::MAX` bytes at most.
    #[verifier::external_body]
    fn push(&mut self, name: Identifier, typ: IdentifierType) -> (id: IdentifierIdx)
        ensures
            table_contents(*final(self)) == table_contents(*old(self)).push(
                (name.deep_view(), typ),
            ),
            id.0 == table_contents(*old(self)).len(),
            table_contents(*final(self)).len() <= isize::MAX,
    {
        self.list.push((name, typ))
    }

    /// `IndexVec`'s index operator: the object of a number.
    #[verifier::external_body]
    fn at(&self, id: IdentifierIdx) -> (entry: &(Identifier, IdentifierType))
        requires
            id.0 < table_contents(*self).len(),
        ensures
            (entry.0.deep_view(), entry.1) == table_contents(*self)[id.0 as int],
    {
        &self.list[id]
    }

    /// `IndexVec::clear`: removes all objects.
    #[verifier::external_body]
    fn clear(&mut self)
        ensures
            table_contents(*final(self)) == Seq::<(IdentifierView, IdentifierType)>::empty(),
    {
        self.list.clear()
    }
}

/// The named objects of a script so far: the name of each, and what it is.
pub type NamesView = Seq<(IdentifierView, IdentifierType)>;

/// The number of the object of a name.
pub open spec fn find(names: NamesView, name: Seq<char>) -> Option<IdentifierIdx>
    decreases names.len(),
{
    if names.len() == 0 {
        None
    } else if names.last().0.content == name {
        Some(IdentifierIdx((names.len() - 1) as usize))
    } else {
        find(names.drop_last(), name)
    }
}

/// The number of the object that is meant.
pub open spec fn lookup(names: NamesView, id: IdentifierView) -> Result<
    IdentifierIdx,
    NameError<Seq<char>>,
> {
    match find(names, id.content) {
        Some(i) => Ok(i),
        None => Err(NameError::UnknownIdentifier { name: id }),
    }
}

/// The number of the object that is meant, which has to be of an expected kind.
pub open spec fn lookup_types(
    names: NamesView,
    id: IdentifierView,
    expected: ExpectedTypes,
) -> Result<IdentifierIdx, NameError<Seq<char>>> {
    match lookup(names, id) {
        Ok(i) => {
            let (declaration, actual) = names[i.0 as int];
            if expected.allows(actual) {
                Ok(i)
            } else {
                Err(NameError::WrongType { expected, actual, declaration, used: id })
            }
        },
        Err(e) => Err(e),
    }
}

/// The number of the object that is meant, which has to be of a kind.
pub open spec fn lookup_type(names: NamesView, id: IdentifierView, typ: IdentifierType) -> Result<
    IdentifierIdx,
    NameError<Seq<char>>,
> {
    lookup_types(names, id, ExpectedTypes::One(typ))
}

/// The names after one more object got one.
pub open spec fn added(names: NamesView, id: IdentifierView, typ: IdentifierType) -> Result<
    NamesView,
    NameError<Seq<char>>,
> {
    if id.content == "NULL"@ {
        Err(NameError::NullIdentifier { name: id })
    } else {
        match find(names, id.content) {
            Some(i) => Err(
                NameError::DuplicateIdentifier { name0: names[i.0 as int].0, name1: id },
            ),
            None => Ok(names.push((id, typ))),
        }
    }
}

/// Whether no two objects have one name, and none is called `NULL`.
pub open spec fn names_ok(names: NamesView) -> bool {
    &&& forall|i: int| 0 <= i < names.len() ==> (#[trigger] names[i]).0.content != "NULL"@
    &&& forall|i: int, j: int|
        0 <= i < j < names.len() ==> (#[trigger] names[i]).0.content != (
        #[trigger] names[j]).0.content
}

/// A name finds the object that was given it.
pub proof fn lemma_find(names: NamesView, name: Seq<char>)
    requires
        names.len() <= usize::MAX,
    ensures
        match find(names, name) {
            Some(i) => i.0 < names.len() && names[i.0 as int].0.content == name,
            None => forall|i: int|
                0 <= i < names.len() ==> (#[trigger] names[i]).0.content != name,
        },
    decreases names.len(),
{
    if names.len() > 0 && names.last().0.content != name {
        lemma_find(names.drop_last(), name);
        if find(names, name) is None {
            assert forall|i: int| 0 <= i < names.len() implies (#[trigger] names[i]).0.content
                != name by {
                if i < names.len() - 1 {
                    assert(names.drop_last()[i] == names[i]);
                }
            }
        }
    }
}

/// Where no two objects have one name, each is found by its name.
pub proof fn lemma_find_named(names: NamesView, i: int)
    requires
        names_ok(names),
        0 <= i < names.len() <= usize::MAX,
    ensures
        find(names, names[i].0.content) == Some(IdentifierIdx(i as usize)),
{
    lemma_find(names, names[i].0.content);
    if let Some(j) = find(names, names[i].0.content) {
        if (j.0 as int) < i {
            assert(names[j.0 as int].0.content != names[i].0.content);
        }
        if i < j.0 {
            assert(names[i].0.content != names[j.0 as int].0.content);
        }
    }
}

/// Naming one more object keeps names apart, keeps the objects that have a name, and makes the
/// new one known.
pub proof fn lemma_added(names: NamesView, id: IdentifierView, typ: IdentifierType)
    requires
        names_ok(names),
        names.len() < usize::MAX,
    ensures
        added(names, id, typ) matches Ok(after) ==> {
            &&& names_ok(after)
            &&& lookup_type(after, id, typ) == Ok::<_, NameError<Seq<char>>>(
                IdentifierIdx(names.len() as usize),
            )
            &&& forall|name: Seq<char>|
                name != id.content ==> #[trigger] find(after, name) == find(names, name)
        },
        added(names, id, typ) is Err <==> (id.content == "NULL"@ || find(names, id.content) is Some),
{
    lemma_find(names, id.content);
    if let Ok(after) = added(names, id, typ) {
        assert(names_ok(after)) by {
            assert forall|i: int| 0 <= i < after.len() implies (#[trigger] after[i]).0.content
                != "NULL"@ by {
                if i < names.len() {
                    assert(after[i] == names[i]);
                }
            }
            assert forall|i: int, j: int| 0 <= i < j < after.len() implies (
            #[trigger] after[i]).0.content != (#[trigger] after[j]).0.content by {
                assert(after[i] == names[i]);
                if j < names.len() {
                    assert(after[j] == names[j]);
                }
            }
        }
        assert(after.last() == (id, typ));
        assert(after.drop_last() =~= names);
        let list = ExpectedTypes::One(typ).spec_list();
        assert(list[0] == typ);
    }
}

/// An error about a name tells the name that was used, and for which object it stands if it stands
/// for one. An object of another kind is told with its kind, which is none of those expected.
pub proof fn lemma_name_errors(
    names: NamesView,
    id: IdentifierView,
    expected: ExpectedTypes,
    typ: IdentifierType,
)
    requires
        names.len() <= usize::MAX,
    ensures
        match lookup_types(names, id, expected) {
            Ok(_) => true,
            Err(NameError::UnknownIdentifier { name }) => name == id && forall|i: int|
                0 <= i < names.len() ==> (#[trigger] names[i]).0.content != id.content,
            Err(NameError::WrongType { expected: e, actual, declaration, used }) => {
                &&& e == expected
                &&& used == id
                &&& declaration.content == id.content
                &&& names.contains((declaration, actual))
                &&& !expected.spec_list().contains(actual)
            },
            Err(_) => false,
        },
        match added(names, id, typ) {
            Ok(after) => after.len() == names.len() + 1 && after.last() == (id, typ),
            Err(NameError::NullIdentifier { name }) => name == id && id.content == "NULL"@,
            Err(NameError::DuplicateIdentifier { name0, name1 }) => {
                &&& name1 == id
                &&& name0.content == id.content
                &&& exists|i: int| 0 <= i < names.len() && (#[trigger] names[i]).0 == name0
            },
            Err(_) => false,
        },
{
    lemma_find(names, id.content);
    if let Some(i) = find(names, id.content) {
        let k = i.0 as int;
        assert(names[k] == (names[k].0, names[k].1));
        assert(names.contains(names[k]));
    }
}

/// The names of a script, for looking them up.
pub struct Names {
    identifiers: IdentifierTable,
    /// Map into identifiers list
    identifier_map: StringHashMap<usize>,
}

impl View for Names {
    type V = NamesView;

    closed spec fn view(&self) -> NamesView {
        table_contents(self.identifiers)
    }
}

impl Names {
    /// The map leads from each name to its place in the list, and no name occurs twice.
    pub closed spec fn wf(&self) -> bool {
        &&& names_ok(self@)
        &&& self@.len() <= isize::MAX
        &&& forall|i: int|
            0 <= i < self@.len() ==> self.identifier_map@.contains_key(
                (#[trigger] self@[i]).0.content,
            ) && self.identifier_map@[self@[i].0.content] == i
        &&& forall|name: Seq<char>| #[trigger]
            self.identifier_map@.contains_key(name) ==> self.identifier_map@[name] < self@.len()
                && self@[self.identifier_map@[name] as int].0.content == name
    }

    /// No names.
    pub fn new() -> (names: Names)
        ensures
            names.wf(),
            names@ == Seq::<(IdentifierView, IdentifierType)>::empty(),
    {
        Names { identifiers: IdentifierTable::new(), identifier_map: StringHashMap::new() }
    }

    /// Forgets all names.
    pub fn clear(&mut self)
        ensures
            final(self).wf(),
            final(self)@ == Seq::<(IdentifierView, IdentifierType)>::empty(),
    {
        self.identifiers.clear();
        self.identifier_map.clear();
    }

    /// The invariant of the list of names.
    pub proof fn lemma_ok(&self)
        requires
            self.wf(),
        ensures
            names_ok(self@),
            self@.len() <= isize::MAX,
    {
    }

    /// The number of the object of a name.
    fn get(&self, name: &str) -> (id: Option<IdentifierIdx>)
        requires
            self.wf(),
        ensures
            id == find(self@, name@),
            id matches Some(i) ==> i.0 < self@.len(),
    {
        proof {
            lemma_find(self@, name@);
        }
        match self.identifier_map.get(name) {
            Some(i) => {
                proof {
                    lemma_find_named(self@, *i as int);
                }
                Some(IdentifierIdx(*i))
            },
            None => {
                proof {
                    if let Some(i) = find(self@, name@) {
                        assert(self.identifier_map@.contains_key(self@[i.0 as int].0.content));
                    }
                }
                None
            },
        }
    }

    /// Where the object of a number was named.
    pub fn declaration(&self, id: IdentifierIdx) -> (name: &Identifier)
        requires
            self.wf(),
            id.0 < self@.len(),
        ensures
            name.deep_view() == self@[id.0 as int].0,
    {
        &self.identifiers.at(id).0
    }

    /// What the object of a number is.
    pub fn type_of(&self, id: IdentifierIdx) -> (typ: IdentifierType)
        requires
            self.wf(),
            id.0 < self@.len(),
        ensures
            typ == self@[id.0 as int].1,
    {
        self.identifiers.at(id).1
    }

    /// Add to identifier list, make sure it is unique and return its index.
    pub fn add_identifier(&mut self, i: Identifier, ty: IdentifierType) -> (r: Result<
        IdentifierIdx,
        NameError<String>,
    >)
        requires
            old(self).wf(),
        ensures
            final(self).wf(),
            match r {
                Ok(id) => added(old(self)@, i.deep_view(), ty) == Ok::<_, NameError<Seq<char>>>(
                    final(self)@,
                ) && id.0 == old(self)@.len(),
                Err(e) => final(self)@ == old(self)@ && added(old(self)@, i.deep_view(), ty)
                    == Err::<NamesView, _>(e.deep_view()),
            },
    {
        // NULL is not a valid identifier
        if same_text(i.content.as_str(), "NULL") {
            return Err(NameError::NullIdentifier { name: i });
        }
        match self.get(i.content.as_str()) {
            Some(old) => {
                let name0 = copy_identifier(self.declaration(old));
                Err(NameError::DuplicateIdentifier { name0, name1: i })
            },
            None => {
                proof {
                    lemma_added(self@, i.deep_view(), ty);
                    lemma_find(self@, i.content@);
                }
                let ghost before = self@;
                let ghost map_before = self.identifier_map@;
                let name = i.content.clone();
                let id = self.identifiers.push(i, ty);
                self.identifier_map.insert(name, id.0);
                proof {
                    assert(self@ == before.push((i.deep_view(), ty)));
                    assert forall|k: int| 0 <= k < self@.len() implies self.identifier_map@.contains_key(
                        (#[trigger] self@[k]).0.content,
                    ) && self.identifier_map@[self@[k].0.content] == k by {
                        if k < before.len() {
                            assert(self@[k] == before[k]);
                            assert(map_before.contains_key(before[k].0.content));
                        }
                    }
                    assert forall|n: Seq<char>| #[trigger]
                        self.identifier_map@.contains_key(n) implies self.identifier_map@[n]
                        < self@.len() && self@[self.identifier_map@[n] as int].0.content == n by {
                        if n != i.content@ {
                            assert(map_before.contains_key(n));
                            assert(self@[map_before[n] as int] == before[map_before[n] as int]);
                        }
                    }
                }
                Ok(id)
            },
        }
    }

    /// The number of the object that is meant.
    pub fn get_identifier(&self, i: &Identifier) -> (r: Result<IdentifierIdx, NameError<String>>)
        requires
            self.wf(),
        ensures
            result_view(r) == lookup(self@, i.deep_view()),
            r matches Ok(id) ==> id.0 < self@.len(),
    {
        match self.get(i.content.as_str()) {
            Some(id) => Ok(id),
            None => Err(NameError::UnknownIdentifier { name: copy_identifier(i) }),
        }
    }

    /// The number of the object that is meant, which has to be of an expected kind.
    pub fn get_types(&self, i: &Identifier, expected: ExpectedTypes) -> (r: Result<
        IdentifierIdx,
        NameError<String>,
    >)
        requires
            self.wf(),
        ensures
            result_view(r) == lookup_types(self@, i.deep_view(), expected),
            r matches Ok(id) ==> id.0 < self@.len() && expected.allows(self@[id.0 as int].1),
    {
        let id = self.get_identifier(i)?;
        let actual = self.type_of(id);
        if expected.contains(actual) {
            Ok(id)
        } else {
            Err(
                NameError::WrongType {
                    expected,
                    actual,
                    declaration: copy_identifier(self.declaration(id)),
                    used: copy_identifier(i),
                },
            )
        }
    }

    /// The number of the object that is meant, which has to be of a kind.
    pub fn get_type(&self, i: &Identifier, typ: IdentifierType) -> (r: Result<
        IdentifierIdx,
        NameError<String>,
    >)
        requires
            self.wf(),
        ensures
            result_view(r) == lookup_type(self@, i.deep_view(), typ),
            r matches Ok(id) ==> id.0 < self@.len() && self@[id.0 as int].1 == typ,
    {
        proof {
            let list = ExpectedTypes::One(typ).spec_list();
            assert forall|t: IdentifierType| #[trigger] list.contains(t) implies t == typ by {}
        }
        self.get_types(i, ExpectedTypes::One(typ))
    }
}

} // verus!
