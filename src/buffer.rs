use vstd::prelude::*;
use crate::error::RendererError;
use crate::generation_vec::Handle;
use crate::vertex_layout::{AttributeSemantic, VertexAttribute};

verus! {

/// Marker type of buffer handles.
#[derive(Debug, Clone, Copy, PartialEq, Eq)]
pub struct Buffer {}

/// How a buffer will be used; a hint forwarded to the backend.
#[derive(Copy, Clone, Debug, PartialEq, Eq)]
pub enum BufferUsage {
    StaticRead,
    StaticWrite,
    StaticReadWrite,
    StaticCopy,
    DynamicRead,
    DynamicWrite,
    DynamicReadWrite,
    DynamicCopy,
    StreamingRead,
    StreamingWrite,
    StreamingReadWrite,
    StreamingCopy,
}

/// Byte size of `count` elements of `element_size` bytes, or a conversion error when it exceeds
/// `isize::MAX`: backends take buffer sizes as signed values.
pub fn buffer_byte_size(element_size: usize, count: usize) -> (r: Result<usize, RendererError>)
    ensures
        element_size * count <= isize::MAX <==> r is Ok,
        r matches Ok(n) ==> n == element_size * count,
        r matches Err(e) ==> e is ConversionError,
{
    let max = isize::MAX as usize;
    if count == 0 {
        return Ok(0);
    }
    if element_size > max / count {
        proof {
            let q = max / count;
            assert(max == q * count + max % count && max % count < count) by {
                vstd::arithmetic::div_mod::lemma_fundamental_div_mod(max as int, count as int);
            }
            assert(element_size * count >= (q + 1) * count) by (nonlinear_arith)
                requires
                    element_size >= q + 1,
                    count > 0,
            ;
            assert((q + 1) * count == q * count + count) by (nonlinear_arith);
        }
        return Err(
            RendererError::ConversionError {
                error: "buffer size does not fit the backend's signed size".to_owned(),
            },
        );
    }
    proof {
        let q = max / count;
        assert(max == q * count + max % count && max % count >= 0) by {
            vstd::arithmetic::div_mod::lemma_fundamental_div_mod(max as int, count as int);
        }
        assert(element_size * count <= q * count) by (nonlinear_arith)
            requires
                element_size <= q,
                count > 0,
        ;
    }
    Ok(element_size * count)
}

/// The attributes one buffer contributes to a vertex layout, read from `offset` bytes into it.
/// An index buffer has no attributes.
pub struct BufferAttributes {
    pub buffer: Handle<Buffer>,
    pub attributes: Vec<VertexAttribute>,
    pub offset: usize,
}

/// Stride of an interleaved vertex holding `semantics`: the sum of their sizes.
pub open spec fn semantics_stride(semantics: Seq<AttributeSemantic>) -> nat
    decreases semantics.len(),
{
    if semantics.len() == 0 {
        0
    } else {
        (semantics_stride(semantics.drop_last()) + semantics.last().spec_kind().spec_size()) as nat
    }
}

proof fn lemma_stride_bound(semantics: Seq<AttributeSemantic>)
    ensures
        semantics_stride(semantics) <= 16 * semantics.len(),
    decreases semantics.len(),
{
    if semantics.len() > 0 {
        lemma_stride_bound(semantics.drop_last());
    }
}

impl BufferAttributes {
    /// An index buffer's entry: no attributes.
    pub fn with_index(buffer: Handle<Buffer>, buffer_offset: usize) -> (r: Self)
        ensures
            r.buffer == buffer,
            r.offset == buffer_offset,
            r.attributes@.len() == 0,
    {
        BufferAttributes { buffer, attributes: Vec::new(), offset: buffer_offset }
    }

    /// The standard interleaved layout: attributes in the order of `semantics`, each at the sum
    /// of the sizes before it, all with the stride of the whole vertex.
    pub fn with_semantics(
        buffer: Handle<Buffer>,
        buffer_offset: usize,
        semantics: &[AttributeSemantic],
    ) -> (r: Self)
        requires
            16 * semantics@.len() <= usize::MAX,
        ensures
            r.buffer == buffer,
            r.offset == buffer_offset,
            r.attributes@.len() == semantics@.len(),
            forall|k: int|
                0 <= k < semantics@.len() ==> #[trigger] r.attributes@[k] == (VertexAttribute {
                    stride: semantics_stride(semantics@) as usize,
                    semantic: semantics@[k],
                    normalized: false,
                    offset: semantics_stride(semantics@.subrange(0, k)) as usize,
                }),
    {
        let mut stride: usize = 0;
        let mut i: usize = 0;
        while i < semantics.len()
            invariant
                0 <= i <= semantics@.len(),
                16 * semantics@.len() <= usize::MAX,
                stride == semantics_stride(semantics@.subrange(0, i as int)),
            decreases semantics@.len() - i,
        {
            proof {
                assert(semantics@.subrange(0, i + 1).drop_last() =~= semantics@.subrange(0, i as int));
                lemma_stride_bound(semantics@.subrange(0, i + 1));
            }
            stride = stride + semantics[i].kind().size();
            i = i + 1;
        }
        proof {
            assert(semantics@.subrange(0, i as int) =~= semantics@);
        }
        let mut attributes: Vec<VertexAttribute> = Vec::new();
        let mut offset: usize = 0;
        let mut j: usize = 0;
        while j < semantics.len()
            invariant
                0 <= j <= semantics@.len(),
                16 * semantics@.len() <= usize::MAX,
                stride == semantics_stride(semantics@),
                offset == semantics_stride(semantics@.subrange(0, j as int)),
                attributes@.len() == j,
                forall|k: int|
                    0 <= k < j ==> #[trigger] attributes@[k] == (VertexAttribute {
                        stride: semantics_stride(semantics@) as usize,
                        semantic: semantics@[k],
                        normalized: false,
                        offset: semantics_stride(semantics@.subrange(0, k)) as usize,
                    }),
            decreases semantics@.len() - j,
        {
            let semantic = semantics[j];
            proof {
                assert(semantics@.subrange(0, j + 1).drop_last() =~= semantics@.subrange(0, j as int));
                lemma_stride_bound(semantics@.subrange(0, j + 1));
            }
            attributes.push(
                VertexAttribute { stride, semantic, normalized: semantic.normalized(), offset },
            );
            offset = offset + semantic.kind().size();
            j = j + 1;
        }
        BufferAttributes { buffer, attributes, offset: buffer_offset }
    }
}

} // verus!
