//! The words that a `CONFIG` line may hold.
use vstd::prelude::*;

use crate::text::ascii_lower;

verus! {

/// The things that can be configured. Each has its own list of flags.
#[derive(Clone, Copy, Debug, Eq, Hash, PartialEq, Structural)]
pub enum FlagKind {
    /// A geometry in a bottom-level acceleration structure.
    Geometry,
    /// A bottom- or top-level acceleration structure.
    AccelStruct,
    /// A root signature.
    RootSig,
    /// An instance in a top-level acceleration structure.
    TlasBlas,
    /// A pipeline state object or a collection.
    StateObject,
}

/// The names of the flags of a kind. The flag at place `i` is the bit `1 << i`.
pub open spec fn flag_table(kind: FlagKind) -> Seq<Seq<char>> {
    match kind {
        FlagKind::Geometry => seq!["OPAQUE"@, "NO_DUPLICATE_ANYHIT"@],
        FlagKind::AccelStruct => seq![
            "ALLOW_UPDATE"@,
            "ALLOW_COMPACTION"@,
            "PREFER_FAST_TRACE"@,
            "PREFER_FAST_BUILD"@,
            "MINIMIZE_MEMORY"@,
        ],
        FlagKind::RootSig => seq![
            "ALLOW_INPUT_ASSEMBLER_INPUT_LAYOUT"@,
            "DENY_VERTEX_SHADER_ROOT_ACCESS"@,
            "DENY_HULL_SHADER_ROOT_ACCESS"@,
            "DENY_DOMAIN_SHADER_ROOT_ACCESS"@,
            "DENY_GEOMETRY_SHADER_ROOT_ACCESS"@,
            "DENY_PIXEL_SHADER_ROOT_ACCESS"@,
            "ALLOW_STREAM_OUTPUT"@,
            "LOCAL_ROOT_SIGNATURE"@,
            "DENY_AMPLIFICATION_SHADER_ROOT_ACCESS"@,
            "DENY_MESH_SHADER_ROOT_ACCESS"@,
            "CBV_SRV_UAV_HEAP_DIRECTLY_INDEXED"@,
            "SAMPLER_HEAP_DIRECTLY_INDEXED"@,
        ],
        FlagKind::TlasBlas => seq![
            "TRIANGLE_CULL_DISABLE"@,
            "TRIANGLE_FRONT_COUNTERCLOCKWISE"@,
            "FORCE_OPAQUE"@,
            "FORCE_NON_OPAQUE"@,
        ],
        FlagKind::StateObject => seq![
            "LOCAL_DEP_ON_EXTERNAL"@,
            "EXTERNAL_DEP_ON_LOCAL"@,
            "ADD_TO_SO"@,
        ],
    }
}

/// The names of the flags of a kind, in the order of their bits.
pub fn flag_names(kind: FlagKind) -> (names: Vec<&'static str>)
    ensures
        names@.len() == flag_table(kind).len(),
        names@.len() <= 12,
        forall|i: int| 0 <= i < names@.len() ==> (#[trigger] names@[i])@ == flag_table(kind)[i],
{
    match kind {
        FlagKind::Geometry => vec!["OPAQUE", "NO_DUPLICATE_ANYHIT"],
        FlagKind::AccelStruct => vec![
            "ALLOW_UPDATE",
            "ALLOW_COMPACTION",
            "PREFER_FAST_TRACE",
            "PREFER_FAST_BUILD",
            "MINIMIZE_MEMORY",
        ],
        FlagKind::RootSig => vec![
            "ALLOW_INPUT_ASSEMBLER_INPUT_LAYOUT",
            "DENY_VERTEX_SHADER_ROOT_ACCESS",
            "DENY_HULL_SHADER_ROOT_ACCESS",
            "DENY_DOMAIN_SHADER_ROOT_ACCESS",
            "DENY_GEOMETRY_SHADER_ROOT_ACCESS",
            "DENY_PIXEL_SHADER_ROOT_ACCESS",
            "ALLOW_STREAM_OUTPUT",
            "LOCAL_ROOT_SIGNATURE",
            "DENY_AMPLIFICATION_SHADER_ROOT_ACCESS",
            "DENY_MESH_SHADER_ROOT_ACCESS",
            "CBV_SRV_UAV_HEAP_DIRECTLY_INDEXED",
            "SAMPLER_HEAP_DIRECTLY_INDEXED",
        ],
        FlagKind::TlasBlas => vec![
            "TRIANGLE_CULL_DISABLE",
            "TRIANGLE_FRONT_COUNTERCLOCKWISE",
            "FORCE_OPAQUE",
            "FORCE_NON_OPAQUE",
        ],
        FlagKind::StateObject => vec![
            "LOCAL_DEP_ON_EXTERNAL",
            "EXTERNAL_DEP_ON_LOCAL",
            "ADD_TO_SO",
        ],
    }
}

/// A script writes the name of a flag in lower case.
pub open spec fn flag_word(name: Seq<char>) -> Seq<char> {
    name.map_values(|c: char| ascii_lower(c))
}

/// The place in `names`, from `i` on, of the first flag that is written as `word`.
pub open spec fn flag_place(names: Seq<Seq<char>>, word: Seq<char>, i: int) -> Option<int>
    decreases names.len() - i,
{
    if i < 0 || i >= names.len() {
        None
    } else if flag_word(names[i]) == word {
        Some(i)
    } else {
        flag_place(names, word, i + 1)
    }
}

/// The bit of the flag that is written as `word`, if there is one.
pub open spec fn flag_bit(kind: FlagKind, word: Seq<char>) -> Option<u32> {
    match flag_place(flag_table(kind), word, 0) {
        Some(i) => Some(1u32 << (i as u32)),
        None => None,
    }
}

/// A character in lower case, if it is an ASCII letter.
fn lower(c: char) -> (l: char)
    ensures
        l == ascii_lower(c),
{
    match c {
        'A' => 'a',
        'B' => 'b',
        'C' => 'c',
        'D' => 'd',
        'E' => 'e',
        'F' => 'f',
        'G' => 'g',
        'H' => 'h',
        'I' => 'i',
        'J' => 'j',
        'K' => 'k',
        'L' => 'l',
        'M' => 'm',
        'N' => 'n',
        'O' => 'o',
        'P' => 'p',
        'Q' => 'q',
        'R' => 'r',
        'S' => 's',
        'T' => 't',
        'U' => 'u',
        'V' => 'v',
        'W' => 'w',
        'X' => 'x',
        'Y' => 'y',
        'Z' => 'z',
        _ => c,
    }
}

/// Whether a script writes the flag `name` as `word`.
fn is_flag_word(name: &str, word: &str) -> (same: bool)
    ensures
        same == (flag_word(name@) == word@),
{
    let n: usize = name.unicode_len();
    if n != word.unicode_len() {
        assert(flag_word(name@).len() == name@.len());
        return false;
    }
    let mut i: usize = 0;
    while i < n
        invariant
            i <= n,
            n == name@.len(),
            n == word@.len(),
            forall|j: int| 0 <= j < i ==> ascii_lower(#[trigger] name@[j]) == word@[j],
        decreases n - i,
    {
        if lower(name.get_char(i)) != word.get_char(i) {
            assert(flag_word(name@)[i as int] != word@[i as int]);
            return false;
        }
        i += 1;
    }
    assert(flag_word(name@) =~= word@);
    true
}

/// Looks up a flag by the way a script writes it.
pub fn find_flag(kind: FlagKind, word: &str) -> (bit: Option<u32>)
    ensures
        bit == flag_bit(kind, word@),
{
    let names = flag_names(kind);
    let mut i: usize = 0;
    while i < names.len()
        invariant
            i <= names@.len(),
            names@.len() == flag_table(kind).len(),
            names@.len() <= 12,
            forall|j: int| 0 <= j < names@.len() ==> (#[trigger] names@[j])@ == flag_table(kind)[j],
            flag_place(flag_table(kind), word@, 0) == flag_place(
                flag_table(kind),
                word@,
                i as int,
            ),
        decreases names@.len() - i,
    {
        if is_flag_word(names[i], word) {
            return Some(1u32 << (i as u32));
        }
        i += 1;
    }
    None
}

/// The flag `i` of a kind is written as the name `i` in lower case, and is the bit `i`, if no flag
/// before it is written the same.
proof fn lemma_flag_at(kind: FlagKind, i: int, word: Seq<char>)
    requires
        0 <= i < flag_table(kind).len(),
        flag_word(flag_table(kind)[i]) == word,
        forall|j: int| 0 <= j < i ==> flag_word(#[trigger] flag_table(kind)[j]) != word,
    ensures
        flag_bit(kind, word) == Some(1u32 << (i as u32)),
{
    lemma_flag_from(flag_table(kind), word, 0, i);
}

proof fn lemma_flag_from(names: Seq<Seq<char>>, word: Seq<char>, i: int, k: int)
    requires
        0 <= i <= k < names.len(),
        flag_word(names[k]) == word,
        forall|j: int| i <= j < k ==> flag_word(#[trigger] names[j]) != word,
    ensures
        flag_place(names, word, i) == Some(k),
    decreases k - i,
{
    if i < k {
        lemma_flag_from(names, word, i + 1, k);
    }
}

proof fn lemma_lower(name: Seq<char>, word: Seq<char>)
    requires
        name.len() == word.len(),
        forall|i: int| 0 <= i < name.len() ==> ascii_lower(#[trigger] name[i]) == word[i],
    ensures
        flag_word(name) == word,
{
    assert(flag_word(name) =~= word);
}

/// The flags of geometries and their bits.
#[verifier::spinoff_prover]
#[verifier::rlimit(60)]
pub proof fn lemma_geometry_flags()
    ensures
        flag_bit(FlagKind::Geometry, "opaque"@) == Some(1u32),
        flag_bit(FlagKind::Geometry, "no_duplicate_anyhit"@) == Some(2u32),
{
    let kind = FlagKind::Geometry;
    reveal_strlit("OPAQUE");
    reveal_strlit("opaque");
    assert("opaque"@.len() == 6);
    reveal_strlit("NO_DUPLICATE_ANYHIT");
    reveal_strlit("no_duplicate_anyhit");
    assert("no_duplicate_anyhit"@.len() == 19);
    lemma_lower("OPAQUE"@, "opaque"@);
    lemma_lower("NO_DUPLICATE_ANYHIT"@, "no_duplicate_anyhit"@);
    assert(flag_word(flag_table(kind)[0]) == "opaque"@);
    assert(flag_word(flag_table(kind)[1]) == "no_duplicate_anyhit"@);
    lemma_flag_at(kind, 0, "opaque"@);
    assert forall|j: int| 0 <= j < 1 implies flag_word(#[trigger] flag_table(kind)[j]) != "no_duplicate_anyhit"@ by {
        assert(j == 0);
    }
    lemma_flag_at(kind, 1, "no_duplicate_anyhit"@);
    assert(1u32 << 0u32 == 1u32 && 1u32 << 1u32 == 2u32) by (bit_vector);
}

/// The flags of acceleration structures and their bits.
#[verifier::spinoff_prover]
#[verifier::rlimit(60)]
pub proof fn lemma_accel_struct_flags()
    ensures
        flag_bit(FlagKind::AccelStruct, "allow_update"@) == Some(1u32),
        flag_bit(FlagKind::AccelStruct, "allow_compaction"@) == Some(2u32),
        flag_bit(FlagKind::AccelStruct, "prefer_fast_trace"@) == Some(4u32),
        flag_bit(FlagKind::AccelStruct, "prefer_fast_build"@) == Some(8u32),
        flag_bit(FlagKind::AccelStruct, "minimize_memory"@) == Some(16u32),
{
    let kind = FlagKind::AccelStruct;
    reveal_strlit("ALLOW_UPDATE");
    reveal_strlit("allow_update");
    assert("allow_update"@.len() == 12);
    reveal_strlit("ALLOW_COMPACTION");
    reveal_strlit("allow_compaction");
    assert("allow_compaction"@.len() == 16);
    reveal_strlit("PREFER_FAST_TRACE");
    reveal_strlit("prefer_fast_trace");
    assert("prefer_fast_trace"@.len() == 17);
    reveal_strlit("PREFER_FAST_BUILD");
    reveal_strlit("prefer_fast_build");
    assert("prefer_fast_build"@.len() == 17);
    reveal_strlit("MINIMIZE_MEMORY");
    reveal_strlit("minimize_memory");
    assert("minimize_memory"@.len() == 15);
    lemma_lower("ALLOW_UPDATE"@, "allow_update"@);
    lemma_lower("ALLOW_COMPACTION"@, "allow_compaction"@);
    lemma_lower("PREFER_FAST_TRACE"@, "prefer_fast_trace"@);
    lemma_lower("PREFER_FAST_BUILD"@, "prefer_fast_build"@);
    lemma_lower("MINIMIZE_MEMORY"@, "minimize_memory"@);
    assert("prefer_fast_trace"@[12] != "prefer_fast_build"@[12]);
    assert(flag_word(flag_table(kind)[0]) == "allow_update"@);
    assert(flag_word(flag_table(kind)[1]) == "allow_compaction"@);
    assert(flag_word(flag_table(kind)[2]) == "prefer_fast_trace"@);
    assert(flag_word(flag_table(kind)[3]) == "prefer_fast_build"@);
    assert(flag_word(flag_table(kind)[4]) == "minimize_memory"@);
    lemma_flag_at(kind, 0, "allow_update"@);
    assert forall|j: int| 0 <= j < 1 implies flag_word(#[trigger] flag_table(kind)[j]) != "allow_compaction"@ by {
        assert(j == 0);
    }
    lemma_flag_at(kind, 1, "allow_compaction"@);
    assert forall|j: int| 0 <= j < 2 implies flag_word(#[trigger] flag_table(kind)[j]) != "prefer_fast_trace"@ by {
        assert(j == 0 || j == 1);
    }
    lemma_flag_at(kind, 2, "prefer_fast_trace"@);
    assert forall|j: int| 0 <= j < 3 implies flag_word(#[trigger] flag_table(kind)[j]) != "prefer_fast_build"@ by {
        assert(j == 0 || j == 1 || j == 2);
    }
    lemma_flag_at(kind, 3, "prefer_fast_build"@);
    assert forall|j: int| 0 <= j < 4 implies flag_word(#[trigger] flag_table(kind)[j]) != "minimize_memory"@ by {
        assert(j == 0 || j == 1 || j == 2 || j == 3);
    }
    lemma_flag_at(kind, 4, "minimize_memory"@);
    assert(1u32 << 0u32 == 1u32 && 1u32 << 1u32 == 2u32 && 1u32 << 2u32 == 4u32 && 1u32 << 3u32 == 8u32 && 1u32 << 4u32 == 16u32) by (bit_vector);
}

/// The flags of root signatures and their bits.
#[verifier::spinoff_prover]
#[verifier::rlimit(60)]
pub proof fn lemma_root_sig_flags()
    ensures
        flag_bit(FlagKind::RootSig, "allow_input_assembler_input_layout"@) == Some(1u32),
        flag_bit(FlagKind::RootSig, "deny_vertex_shader_root_access"@) == Some(2u32),
        flag_bit(FlagKind::RootSig, "deny_hull_shader_root_access"@) == Some(4u32),
        flag_bit(FlagKind::RootSig, "deny_domain_shader_root_access"@) == Some(8u32),
        flag_bit(FlagKind::RootSig, "deny_geometry_shader_root_access"@) == Some(16u32),
        flag_bit(FlagKind::RootSig, "deny_pixel_shader_root_access"@) == Some(32u32),
        flag_bit(FlagKind::RootSig, "allow_stream_output"@) == Some(64u32),
        flag_bit(FlagKind::RootSig, "local_root_signature"@) == Some(128u32),
        flag_bit(FlagKind::RootSig, "deny_amplification_shader_root_access"@) == Some(256u32),
        flag_bit(FlagKind::RootSig, "deny_mesh_shader_root_access"@) == Some(512u32),
        flag_bit(FlagKind::RootSig, "cbv_srv_uav_heap_directly_indexed"@) == Some(1024u32),
        flag_bit(FlagKind::RootSig, "sampler_heap_directly_indexed"@) == Some(2048u32),
{
    let kind = FlagKind::RootSig;
    reveal_strlit("ALLOW_INPUT_ASSEMBLER_INPUT_LAYOUT");
    reveal_strlit("allow_input_assembler_input_layout");
    assert("allow_input_assembler_input_layout"@.len() == 34);
    reveal_strlit("DENY_VERTEX_SHADER_ROOT_ACCESS");
    reveal_strlit("deny_vertex_shader_root_access");
    assert("deny_vertex_shader_root_access"@.len() == 30);
    reveal_strlit("DENY_HULL_SHADER_ROOT_ACCESS");
    reveal_strlit("deny_hull_shader_root_access");
    assert("deny_hull_shader_root_access"@.len() == 28);
    reveal_strlit("DENY_DOMAIN_SHADER_ROOT_ACCESS");
    reveal_strlit("deny_domain_shader_root_access");
    assert("deny_domain_shader_root_access"@.len() == 30);
    reveal_strlit("DENY_GEOMETRY_SHADER_ROOT_ACCESS");
    reveal_strlit("deny_geometry_shader_root_access");
    assert("deny_geometry_shader_root_access"@.len() == 32);
    reveal_strlit("DENY_PIXEL_SHADER_ROOT_ACCESS");
    reveal_strlit("deny_pixel_shader_root_access");
    assert("deny_pixel_shader_root_access"@.len() == 29);
    reveal_strlit("ALLOW_STREAM_OUTPUT");
    reveal_strlit("allow_stream_output");
    assert("allow_stream_output"@.len() == 19);
    reveal_strlit("LOCAL_ROOT_SIGNATURE");
    reveal_strlit("local_root_signature");
    assert("local_root_signature"@.len() == 20);
    reveal_strlit("DENY_AMPLIFICATION_SHADER_ROOT_ACCESS");
    reveal_strlit("deny_amplification_shader_root_access");
    assert("deny_amplification_shader_root_access"@.len() == 37);
    reveal_strlit("DENY_MESH_SHADER_ROOT_ACCESS");
    reveal_strlit("deny_mesh_shader_root_access");
    assert("deny_mesh_shader_root_access"@.len() == 28);
    reveal_strlit("CBV_SRV_UAV_HEAP_DIRECTLY_INDEXED");
    reveal_strlit("cbv_srv_uav_heap_directly_indexed");
    assert("cbv_srv_uav_heap_directly_indexed"@.len() == 33);
    reveal_strlit("SAMPLER_HEAP_DIRECTLY_INDEXED");
    reveal_strlit("sampler_heap_directly_indexed");
    assert("sampler_heap_directly_indexed"@.len() == 29);
    lemma_lower("ALLOW_INPUT_ASSEMBLER_INPUT_LAYOUT"@, "allow_input_assembler_input_layout"@);
    lemma_lower("DENY_VERTEX_SHADER_ROOT_ACCESS"@, "deny_vertex_shader_root_access"@);
    lemma_lower("DENY_HULL_SHADER_ROOT_ACCESS"@, "deny_hull_shader_root_access"@);
    lemma_lower("DENY_DOMAIN_SHADER_ROOT_ACCESS"@, "deny_domain_shader_root_access"@);
    lemma_lower("DENY_GEOMETRY_SHADER_ROOT_ACCESS"@, "deny_geometry_shader_root_access"@);
    lemma_lower("DENY_PIXEL_SHADER_ROOT_ACCESS"@, "deny_pixel_shader_root_access"@);
    lemma_lower("ALLOW_STREAM_OUTPUT"@, "allow_stream_output"@);
    lemma_lower("LOCAL_ROOT_SIGNATURE"@, "local_root_signature"@);
    lemma_lower("DENY_AMPLIFICATION_SHADER_ROOT_ACCESS"@, "deny_amplification_shader_root_access"@);
    lemma_lower("DENY_MESH_SHADER_ROOT_ACCESS"@, "deny_mesh_shader_root_access"@);
    lemma_lower("CBV_SRV_UAV_HEAP_DIRECTLY_INDEXED"@, "cbv_srv_uav_heap_directly_indexed"@);
    lemma_lower("SAMPLER_HEAP_DIRECTLY_INDEXED"@, "sampler_heap_directly_indexed"@);
    assert("deny_vertex_shader_root_access"@[5] != "deny_domain_shader_root_access"@[5]);
    assert("deny_hull_shader_root_access"@[5] != "deny_mesh_shader_root_access"@[5]);
    assert("deny_pixel_shader_root_access"@[0] != "sampler_heap_directly_indexed"@[0]);
    assert(flag_word(flag_table(kind)[0]) == "allow_input_assembler_input_layout"@);
    assert(flag_word(flag_table(kind)[1]) == "deny_vertex_shader_root_access"@);
    assert(flag_word(flag_table(kind)[2]) == "deny_hull_shader_root_access"@);
    assert(flag_word(flag_table(kind)[3]) == "deny_domain_shader_root_access"@);
    assert(flag_word(flag_table(kind)[4]) == "deny_geometry_shader_root_access"@);
    assert(flag_word(flag_table(kind)[5]) == "deny_pixel_shader_root_access"@);
    assert(flag_word(flag_table(kind)[6]) == "allow_stream_output"@);
    assert(flag_word(flag_table(kind)[7]) == "local_root_signature"@);
    assert(flag_word(flag_table(kind)[8]) == "deny_amplification_shader_root_access"@);
    assert(flag_word(flag_table(kind)[9]) == "deny_mesh_shader_root_access"@);
    assert(flag_word(flag_table(kind)[10]) == "cbv_srv_uav_heap_directly_indexed"@);
    assert(flag_word(flag_table(kind)[11]) == "sampler_heap_directly_indexed"@);
    lemma_flag_at(kind, 0, "allow_input_assembler_input_layout"@);
    assert forall|j: int| 0 <= j < 1 implies flag_word(#[trigger] flag_table(kind)[j]) != "deny_vertex_shader_root_access"@ by {
        assert(j == 0);
    }
    lemma_flag_at(kind, 1, "deny_vertex_shader_root_access"@);
    assert forall|j: int| 0 <= j < 2 implies flag_word(#[trigger] flag_table(kind)[j]) != "deny_hull_shader_root_access"@ by {
        assert(j == 0 || j == 1);
    }
    lemma_flag_at(kind, 2, "deny_hull_shader_root_access"@);
    assert forall|j: int| 0 <= j < 3 implies flag_word(#[trigger] flag_table(kind)[j]) != "deny_domain_shader_root_access"@ by {
        assert(j == 0 || j == 1 || j == 2);
    }
    lemma_flag_at(kind, 3, "deny_domain_shader_root_access"@);
    assert forall|j: int| 0 <= j < 4 implies flag_word(#[trigger] flag_table(kind)[j]) != "deny_geometry_shader_root_access"@ by {
        assert(j == 0 || j == 1 || j == 2 || j == 3);
    }
    lemma_flag_at(kind, 4, "deny_geometry_shader_root_access"@);
    assert forall|j: int| 0 <= j < 5 implies flag_word(#[trigger] flag_table(kind)[j]) != "deny_pixel_shader_root_access"@ by {
        assert(j == 0 || j == 1 || j == 2 || j == 3 || j == 4);
    }
    lemma_flag_at(kind, 5, "deny_pixel_shader_root_access"@);
    assert forall|j: int| 0 <= j < 6 implies flag_word(#[trigger] flag_table(kind)[j]) != "allow_stream_output"@ by {
        assert(j == 0 || j == 1 || j == 2 || j == 3 || j == 4 || j == 5);
    }
    lemma_flag_at(kind, 6, "allow_stream_output"@);
    assert forall|j: int| 0 <= j < 7 implies flag_word(#[trigger] flag_table(kind)[j]) != "local_root_signature"@ by {
        assert(j == 0 || j == 1 || j == 2 || j == 3 || j == 4 || j == 5 || j == 6);
    }
    lemma_flag_at(kind, 7, "local_root_signature"@);
    assert forall|j: int| 0 <= j < 8 implies flag_word(#[trigger] flag_table(kind)[j]) != "deny_amplification_shader_root_access"@ by {
        assert(j == 0 || j == 1 || j == 2 || j == 3 || j == 4 || j == 5 || j == 6 || j == 7);
    }
    lemma_flag_at(kind, 8, "deny_amplification_shader_root_access"@);
    assert forall|j: int| 0 <= j < 9 implies flag_word(#[trigger] flag_table(kind)[j]) != "deny_mesh_shader_root_access"@ by {
        assert(j == 0 || j == 1 || j == 2 || j == 3 || j == 4 || j == 5 || j == 6 || j == 7 || j == 8);
    }
    lemma_flag_at(kind, 9, "deny_mesh_shader_root_access"@);
    assert forall|j: int| 0 <= j < 10 implies flag_word(#[trigger] flag_table(kind)[j]) != "cbv_srv_uav_heap_directly_indexed"@ by {
        assert(j == 0 || j == 1 || j == 2 || j == 3 || j == 4 || j == 5 || j == 6 || j == 7 || j == 8 || j == 9);
    }
    lemma_flag_at(kind, 10, "cbv_srv_uav_heap_directly_indexed"@);
    assert forall|j: int| 0 <= j < 11 implies flag_word(#[trigger] flag_table(kind)[j]) != "sampler_heap_directly_indexed"@ by {
        assert(j == 0 || j == 1 || j == 2 || j == 3 || j == 4 || j == 5 || j == 6 || j == 7 || j == 8 || j == 9 || j == 10);
    }
    lemma_flag_at(kind, 11, "sampler_heap_directly_indexed"@);
    assert(1u32 << 0u32 == 1u32 && 1u32 << 1u32 == 2u32 && 1u32 << 2u32 == 4u32 && 1u32 << 3u32 == 8u32 && 1u32 << 4u32 == 16u32 && 1u32 << 5u32 == 32u32 && 1u32 << 6u32 == 64u32 && 1u32 << 7u32 == 128u32 && 1u32 << 8u32 == 256u32 && 1u32 << 9u32 == 512u32 && 1u32 << 10u32 == 1024u32 && 1u32 << 11u32 == 2048u32) by (bit_vector);
}

/// The flags of instances and their bits.
#[verifier::spinoff_prover]
#[verifier::rlimit(60)]
pub proof fn lemma_instance_flags()
    ensures
        flag_bit(FlagKind::TlasBlas, "triangle_cull_disable"@) == Some(1u32),
        flag_bit(FlagKind::TlasBlas, "triangle_front_counterclockwise"@) == Some(2u32),
        flag_bit(FlagKind::TlasBlas, "force_opaque"@) == Some(4u32),
        flag_bit(FlagKind::TlasBlas, "force_non_opaque"@) == Some(8u32),
{
    let kind = FlagKind::TlasBlas;
    reveal_strlit("TRIANGLE_CULL_DISABLE");
    reveal_strlit("triangle_cull_disable");
    assert("triangle_cull_disable"@.len() == 21);
    reveal_strlit("TRIANGLE_FRONT_COUNTERCLOCKWISE");
    reveal_strlit("triangle_front_counterclockwise");
    assert("triangle_front_counterclockwise"@.len() == 31);
    reveal_strlit("FORCE_OPAQUE");
    reveal_strlit("force_opaque");
    assert("force_opaque"@.len() == 12);
    reveal_strlit("FORCE_NON_OPAQUE");
    reveal_strlit("force_non_opaque");
    assert("force_non_opaque"@.len() == 16);
    lemma_lower("TRIANGLE_CULL_DISABLE"@, "triangle_cull_disable"@);
    lemma_lower("TRIANGLE_FRONT_COUNTERCLOCKWISE"@, "triangle_front_counterclockwise"@);
    lemma_lower("FORCE_OPAQUE"@, "force_opaque"@);
    lemma_lower("FORCE_NON_OPAQUE"@, "force_non_opaque"@);
    assert(flag_word(flag_table(kind)[0]) == "triangle_cull_disable"@);
    assert(flag_word(flag_table(kind)[1]) == "triangle_front_counterclockwise"@);
    assert(flag_word(flag_table(kind)[2]) == "force_opaque"@);
    assert(flag_word(flag_table(kind)[3]) == "force_non_opaque"@);
    lemma_flag_at(kind, 0, "triangle_cull_disable"@);
    assert forall|j: int| 0 <= j < 1 implies flag_word(#[trigger] flag_table(kind)[j]) != "triangle_front_counterclockwise"@ by {
        assert(j == 0);
    }
    lemma_flag_at(kind, 1, "triangle_front_counterclockwise"@);
    assert forall|j: int| 0 <= j < 2 implies flag_word(#[trigger] flag_table(kind)[j]) != "force_opaque"@ by {
        assert(j == 0 || j == 1);
    }
    lemma_flag_at(kind, 2, "force_opaque"@);
    assert forall|j: int| 0 <= j < 3 implies flag_word(#[trigger] flag_table(kind)[j]) != "force_non_opaque"@ by {
        assert(j == 0 || j == 1 || j == 2);
    }
    lemma_flag_at(kind, 3, "force_non_opaque"@);
    assert(1u32 << 0u32 == 1u32 && 1u32 << 1u32 == 2u32 && 1u32 << 2u32 == 4u32 && 1u32 << 3u32 == 8u32) by (bit_vector);
}

/// The flags of state objects and their bits.
#[verifier::spinoff_prover]
#[verifier::rlimit(60)]
pub proof fn lemma_state_object_flags()
    ensures
        flag_bit(FlagKind::StateObject, "local_dep_on_external"@) == Some(1u32),
        flag_bit(FlagKind::StateObject, "external_dep_on_local"@) == Some(2u32),
        flag_bit(FlagKind::StateObject, "add_to_so"@) == Some(4u32),
{
    let kind = FlagKind::StateObject;
    reveal_strlit("LOCAL_DEP_ON_EXTERNAL");
    reveal_strlit("local_dep_on_external");
    assert("local_dep_on_external"@.len() == 21);
    reveal_strlit("EXTERNAL_DEP_ON_LOCAL");
    reveal_strlit("external_dep_on_local");
    assert("external_dep_on_local"@.len() == 21);
    reveal_strlit("ADD_TO_SO");
    reveal_strlit("add_to_so");
    assert("add_to_so"@.len() == 9);
    lemma_lower("LOCAL_DEP_ON_EXTERNAL"@, "local_dep_on_external"@);
    lemma_lower("EXTERNAL_DEP_ON_LOCAL"@, "external_dep_on_local"@);
    lemma_lower("ADD_TO_SO"@, "add_to_so"@);
    assert("local_dep_on_external"@[0] != "external_dep_on_local"@[0]);
    assert(flag_word(flag_table(kind)[0]) == "local_dep_on_external"@);
    assert(flag_word(flag_table(kind)[1]) == "external_dep_on_local"@);
    assert(flag_word(flag_table(kind)[2]) == "add_to_so"@);
    lemma_flag_at(kind, 0, "local_dep_on_external"@);
    assert forall|j: int| 0 <= j < 1 implies flag_word(#[trigger] flag_table(kind)[j]) != "external_dep_on_local"@ by {
        assert(j == 0);
    }
    lemma_flag_at(kind, 1, "external_dep_on_local"@);
    assert forall|j: int| 0 <= j < 2 implies flag_word(#[trigger] flag_table(kind)[j]) != "add_to_so"@ by {
        assert(j == 0 || j == 1);
    }
    lemma_flag_at(kind, 2, "add_to_so"@);
    assert(1u32 << 0u32 == 1u32 && 1u32 << 1u32 == 2u32 && 1u32 << 2u32 == 4u32) by (bit_vector);
}

} // verus!
