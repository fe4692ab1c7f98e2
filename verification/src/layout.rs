//! How the per-instance record of a ball is laid out in the instance vertex buffer.
//!
//! The record holds, in this order, the four columns of the model matrix, the three columns of
//! the normal matrix, two colours and the pattern code; every component is four bytes wide.

use vstd::prelude::*;

verus! {

/// The format of one vertex attribute.
#[derive(Clone, Copy, Debug, PartialEq, Eq, Structural)]
pub enum VertexFormat {
    /// Three 32-bit floats.
    Float32x3,
    /// Four 32-bit floats.
    Float32x4,
    /// One 32-bit unsigned integer.
    Uint32,
}

/// Whether a buffer advances per vertex or per instance.
#[derive(Clone, Copy, Debug, PartialEq, Eq, Structural)]
pub enum StepMode {
    Vertex,
    Instance,
}

/// One attribute: where it starts in the record, the shader location it feeds, its format.
#[derive(Clone, Copy, Debug, PartialEq, Eq, Structural)]
pub struct VertexAttribute {
    pub offset: u64,
    pub shader_location: u32,
    pub format: VertexFormat,
}

/// The layout of one vertex buffer.
pub struct VertexLayout {
    pub array_stride: u64,
    pub step_mode: StepMode,
    pub attributes: Vec<VertexAttribute>,
}

/// The number of bytes an attribute of the format takes.
pub open spec fn spec_format_size(f: VertexFormat) -> nat {
    match f {
        VertexFormat::Float32x3 => 12,
        VertexFormat::Float32x4 => 16,
        VertexFormat::Uint32 => 4,
    }
}

/// The number of bytes an attribute of the format takes.
pub fn format_size(f: VertexFormat) -> (n: u64)
    ensures
        n == spec_format_size(f),
{
    match f {
        VertexFormat::Float32x3 => 12,
        VertexFormat::Float32x4 => 16,
        VertexFormat::Uint32 => 4,
    }
}

/// The shader location of the instance record's first attribute; the model's vertex
/// attributes come before it.
pub const FIRST_INSTANCE_LOCATION: u32 = 5;

/// The formats of the instance record's attributes, in order: model matrix columns, normal
/// matrix columns, first colour, second colour, pattern code.
pub open spec fn instance_formats() -> Seq<VertexFormat> {
    seq![
        VertexFormat::Float32x4,
        VertexFormat::Float32x4,
        VertexFormat::Float32x4,
        VertexFormat::Float32x4,
        VertexFormat::Float32x3,
        VertexFormat::Float32x3,
        VertexFormat::Float32x3,
        VertexFormat::Float32x4,
        VertexFormat::Float32x4,
        VertexFormat::Uint32,
    ]
}

/// Where the `k`-th of the given attributes starts when they are packed one after another.
pub open spec fn packed_offset(formats: Seq<VertexFormat>, k: nat) -> nat
    decreases k,
{
    if k == 0 || k > formats.len() {
        0
    } else {
        packed_offset(formats, (k - 1) as nat) + spec_format_size(formats[k - 1])
    }
}

/// The `k`-th attribute of the instance record.
pub open spec fn instance_attribute(k: int) -> VertexAttribute {
    VertexAttribute {
        offset: packed_offset(instance_formats(), k as nat) as u64,
        shader_location: (FIRST_INSTANCE_LOCATION + k) as u32,
        format: instance_formats()[k],
    }
}

/// The layout of the instance buffer: one record per instance, its attributes packed in order
/// from shader location `FIRST_INSTANCE_LOCATION` on, the stride the size of the record.
pub open spec fn spec_instance_layout_ok(l: VertexLayout) -> bool {
    let formats = instance_formats();
    &&& l.step_mode == StepMode::Instance
    &&& l.array_stride == packed_offset(formats, formats.len())
    &&& l.attributes@.len() == formats.len()
    &&& forall|k: int|
        0 <= k < formats.len() ==> #[trigger] l.attributes@[k] == instance_attribute(k)
}

/// The layout of the per-instance record in the instance vertex buffer.
pub fn instance_raw_layout() -> (l: VertexLayout)
    ensures
        spec_instance_layout_ok(l),
        l.array_stride == 136,
{
    let formats = [
        VertexFormat::Float32x4,
        VertexFormat::Float32x4,
        VertexFormat::Float32x4,
        VertexFormat::Float32x4,
        VertexFormat::Float32x3,
        VertexFormat::Float32x3,
        VertexFormat::Float32x3,
        VertexFormat::Float32x4,
        VertexFormat::Float32x4,
        VertexFormat::Uint32,
    ];
    assert(formats@ =~= instance_formats());
    let mut attributes: Vec<VertexAttribute> = Vec::new();
    let mut offset: u64 = 0;
    let mut k: usize = 0;
    while k < 10
        invariant
            k <= 10,
            formats@ == instance_formats(),
            offset == packed_offset(instance_formats(), k as nat),
            offset <= 16 * k,
            attributes@.len() == k,
            forall|t: int|
                0 <= t < k ==> #[trigger] attributes@[t] == instance_attribute(t),
        decreases 10 - k,
    {
        let format = formats[k];
        attributes.push(
            VertexAttribute {
                offset,
                shader_location: FIRST_INSTANCE_LOCATION + k as u32,
                format,
            },
        );
        offset = offset + format_size(format);
        k = k + 1;
    }
    assert(packed_offset(instance_formats(), 10) == 136) by {
        reveal_with_fuel(packed_offset, 11);
    }
    VertexLayout { array_stride: offset, step_mode: StepMode::Instance, attributes }
}

/// The instance record's attributes tile it: each starts where the one before it ends, the
/// first at the start, and the last ends at the stride.
pub proof fn lemma_instance_layout_packed(l: VertexLayout)
    requires
        spec_instance_layout_ok(l),
    ensures
        l.attributes@[0].offset == 0,
        forall|k: int|
            0 <= k < l.attributes@.len() - 1 ==> #[trigger] l.attributes@[k + 1].offset
                == l.attributes@[k].offset + spec_format_size(l.attributes@[k].format),
        l.attributes@.last().offset + spec_format_size(l.attributes@.last().format)
            == l.array_stride,
        forall|k: int|
            0 <= k < l.attributes@.len() - 1 ==> #[trigger] l.attributes@[k + 1].shader_location
                == l.attributes@[k].shader_location + 1,
{
    let formats = instance_formats();
    assert(packed_offset(formats, 10) == 136) by {
        reveal_with_fuel(packed_offset, 11);
    }
    assert forall|k: int| 0 <= k < l.attributes@.len() - 1 implies #[trigger] l.attributes@[k
        + 1].offset == l.attributes@[k].offset + spec_format_size(l.attributes@[k].format) by {
        assert(l.attributes@[k] == instance_attribute(k));
        assert(l.attributes@[k + 1] == instance_attribute(k + 1));
        assert(packed_offset(formats, (k + 1) as nat) <= 136) by {
            lemma_packed_offset_bounded(k + 1);
        }
    }
    assert(l.attributes@[9] == instance_attribute(9));
    assert(packed_offset(formats, 9) == 132) by {
        reveal_with_fuel(packed_offset, 10);
    }
    assert forall|k: int| 0 <= k < l.attributes@.len() - 1 implies #[trigger] l.attributes@[k
        + 1].shader_location == l.attributes@[k].shader_location + 1 by {
        assert(l.attributes@[k] == instance_attribute(k));
        assert(l.attributes@[k + 1] == instance_attribute(k + 1));
    }
}

proof fn lemma_packed_offset_bounded(k: int)
    requires
        0 <= k <= 10,
    ensures
        packed_offset(instance_formats(), k as nat) <= 16 * k,
    decreases k,
{
    if k > 0 {
        lemma_packed_offset_bounded(k - 1);
    }
}

} // verus!
