//! Index data of the meshes loaded for the ball and the hole.

use vstd::prelude::*;
use vstd::string::StringSliceAdditionalSpecFns;

verus! {

/// The file formats a model is loaded from.
#[derive(Clone, Copy, Debug, PartialEq, Eq, Structural)]
pub enum ModelFormat {
    /// glTF, binary or text.
    Gltf,
    /// Wavefront OBJ.
    Obj,
}

/// An ASCII upper-case letter's lower-case form; every other byte unchanged.
pub open spec fn spec_ascii_lower(b: u8) -> u8 {
    if 65 <= b <= 90 {
        (b + 32) as u8
    } else {
        b
    }
}

/// Whether `s` ends with `suffix`, ASCII letters compared without regard to case (`suffix`
/// being lower case).
pub open spec fn ends_with_ignoring_case(s: Seq<u8>, suffix: Seq<u8>) -> bool {
    &&& suffix.len() <= s.len()
    &&& forall|k: int|
        0 <= k < suffix.len() ==> spec_ascii_lower(#[trigger] s[s.len() - suffix.len() + k])
            == suffix[k]
}

/// The bytes of ".glb".
pub open spec fn glb_suffix() -> Seq<u8> {
    seq![46u8, 103u8, 108u8, 98u8]
}

/// The bytes of ".gltf".
pub open spec fn gltf_suffix() -> Seq<u8> {
    seq![46u8, 103u8, 108u8, 116u8, 102u8]
}

/// A file is read as glTF when its name ends in ".glb" or ".gltf", in any case, and as OBJ
/// otherwise.
pub open spec fn spec_model_format(name: Seq<u8>) -> ModelFormat {
    if ends_with_ignoring_case(name, glb_suffix()) || ends_with_ignoring_case(name, gltf_suffix()) {
        ModelFormat::Gltf
    } else {
        ModelFormat::Obj
    }
}

/// An ASCII lower-case letter's upper-case form; every other byte unchanged.
pub open spec fn spec_ascii_upper(b: u8) -> u8 {
    if 97 <= b <= 122 {
        (b - 32) as u8
    } else {
        b
    }
}

/// Lower-casing sends a letter and its upper-case form to the same byte, lower-case letters and
/// non-letters stay as they are, and no upper-case letter is left.
pub proof fn lemma_ascii_lower_folds_case(b: u8)
    ensures
        spec_ascii_lower(spec_ascii_upper(b)) == spec_ascii_lower(b),
        !(65 <= b <= 90) ==> spec_ascii_lower(b) == b,
        !(65 <= spec_ascii_lower(b) <= 90),
        spec_ascii_upper(spec_ascii_lower(b)) == spec_ascii_upper(b),
{
}

/// The format chosen for a name does not depend on the case of its ASCII letters: a name and
/// its upper-case form are read the same way.
pub proof fn lemma_model_format_ignores_case(name: Seq<u8>)
    ensures
        spec_model_format(name.map_values(|b: u8| spec_ascii_upper(b))) == spec_model_format(name),
{
    let up = name.map_values(|b: u8| spec_ascii_upper(b));
    assert forall|k: int| 0 <= k < name.len() implies spec_ascii_lower(#[trigger] up[k])
        == spec_ascii_lower(name[k]) by {
        lemma_ascii_lower_folds_case(name[k]);
    }
    lemma_ends_with_same_fold(up, name, glb_suffix());
    lemma_ends_with_same_fold(up, name, gltf_suffix());
}

proof fn lemma_ends_with_same_fold(s: Seq<u8>, t: Seq<u8>, suffix: Seq<u8>)
    requires
        s.len() == t.len(),
        forall|k: int| 0 <= k < s.len() ==> spec_ascii_lower(#[trigger] s[k]) == spec_ascii_lower(t[k]),
    ensures
        ends_with_ignoring_case(s, suffix) == ends_with_ignoring_case(t, suffix),
{
    if suffix.len() <= s.len() {
        let d = s.len() - suffix.len();
        if ends_with_ignoring_case(s, suffix) {
            assert forall|k: int| 0 <= k < suffix.len() implies spec_ascii_lower(
                #[trigger] t[t.len() - suffix.len() + k],
            ) == suffix[k] by {
                assert(spec_ascii_lower(s[d + k]) == suffix[k]);
            }
        }
        if ends_with_ignoring_case(t, suffix) {
            assert forall|k: int| 0 <= k < suffix.len() implies spec_ascii_lower(
                #[trigger] s[s.len() - suffix.len() + k],
            ) == suffix[k] by {
                assert(spec_ascii_lower(t[d + k]) == suffix[k]);
            }
        }
    }
}

/// A name ending in ".glb" or ".gltf", in any mix of cases, is read as glTF.
pub proof fn lemma_gltf_names(stem: Seq<u8>)
    ensures
        spec_model_format(stem + glb_suffix()) == ModelFormat::Gltf,
        spec_model_format(stem + gltf_suffix()) == ModelFormat::Gltf,
        spec_model_format((stem + glb_suffix()).map_values(|b: u8| spec_ascii_upper(b)))
            == ModelFormat::Gltf,
        spec_model_format((stem + gltf_suffix()).map_values(|b: u8| spec_ascii_upper(b)))
            == ModelFormat::Gltf,
{
    let a = stem + glb_suffix();
    let b = stem + gltf_suffix();
    assert forall|k: int| 0 <= k < 4 implies spec_ascii_lower(#[trigger] a[a.len() - 4 + k])
        == glb_suffix()[k] by {
        assert(a[a.len() - 4 + k] == glb_suffix()[k]);
    }
    assert forall|k: int| 0 <= k < 5 implies spec_ascii_lower(#[trigger] b[b.len() - 5 + k])
        == gltf_suffix()[k] by {
        assert(b[b.len() - 5 + k] == gltf_suffix()[k]);
    }
    assert(ends_with_ignoring_case(a, glb_suffix()));
    assert(ends_with_ignoring_case(b, gltf_suffix()));
    lemma_model_format_ignores_case(a);
    lemma_model_format_ignores_case(b);
}

fn ascii_lower(b: u8) -> (r: u8)
    ensures
        r == spec_ascii_lower(b),
{
    if 65 <= b && b <= 90 {
        b + 32
    } else {
        b
    }
}

fn ends_with_ci(s: &[u8], suffix: &[u8]) -> (r: bool)
    ensures
        r == ends_with_ignoring_case(s@, suffix@),
{
    let n = s.len();
    let m = suffix.len();
    if m > n {
        return false;
    }
    let mut k: usize = 0;
    while k < m
        invariant
            m <= n,
            n == s@.len(),
            m == suffix@.len(),
            k <= m,
            forall|t: int| 0 <= t < k ==> spec_ascii_lower(#[trigger] s@[n - m + t]) == suffix@[t],
        decreases m - k,
    {
        if ascii_lower(s[n - m + k]) != suffix[k] {
            return false;
        }
        k = k + 1;
    }
    true
}

/// The format a model file is read in, chosen by its name.
pub fn model_format(file_name: &str) -> (f: ModelFormat)
    ensures
        f == spec_model_format(file_name.spec_bytes()),
{
    let bytes = file_name.as_bytes();
    let glb: [u8; 4] = [46, 103, 108, 98];
    let gltf: [u8; 5] = [46, 103, 108, 116, 102];
    assert(glb@ =~= glb_suffix());
    assert(gltf@ =~= gltf_suffix());
    if ends_with_ci(bytes, &glb) || ends_with_ci(bytes, &gltf) {
        ModelFormat::Gltf
    } else {
        ModelFormat::Obj
    }
}

/// The triangles of an index list: the indices taken three at a time; indices left over at the
/// end that make no whole triangle are dropped.
pub fn triangles(indices: &[u32]) -> (t: Vec<[u32; 3]>)
    ensures
        t@.len() == indices@.len() / 3,
        forall|k: int|
            0 <= k < t@.len() ==> (#[trigger] t@[k])@ == seq![
                indices@[3 * k],
                indices@[3 * k + 1],
                indices@[3 * k + 2],
            ],
{
    let len = indices.len();
    let count = len / 3;
    let mut t: Vec<[u32; 3]> = Vec::new();
    let mut k: usize = 0;
    while k < count
        invariant
            len == indices@.len(),
            count == len / 3,
            k <= count,
            t@.len() == k,
            forall|j: int|
                0 <= j < k ==> (#[trigger] t@[j])@ == seq![
                    indices@[3 * j],
                    indices@[3 * j + 1],
                    indices@[3 * j + 2],
                ],
        decreases count - k,
    {
        assert(3 * k + 3 <= len) by (nonlinear_arith)
            requires
                k < count,
                count == len / 3,
        ;
        let tri = [indices[3 * k], indices[3 * k + 1], indices[3 * k + 2]];
        assert(tri@ =~= seq![indices@[3 * k], indices@[3 * k + 1], indices@[3 * k + 2]]);
        t.push(tri);
        k = k + 1;
    }
    t
}

/// The indices `0, 1, ..., n - 1` of a mesh drawn without an index list, with `n` the vertex
/// count taken as a `u32`.
pub fn sequential_indices(vertex_count: usize) -> (v: Vec<u32>)
    ensures
        v@.len() == vertex_count as u32,
        forall|k: int| 0 <= k < v@.len() ==> #[trigger] v@[k] == k,
{
    let n = vertex_count as u32;
    let mut v: Vec<u32> = Vec::new();
    let mut k: u32 = 0;
    while k < n
        invariant
            k <= n,
            v@.len() == k,
            forall|j: int| 0 <= j < k ==> #[trigger] v@[j] == j,
        decreases n - k,
    {
        v.push(k);
        k = k + 1;
    }
    v
}

} // verus!
