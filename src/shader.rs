use vstd::prelude::*;
use vstd::string::StrSliceExecFns;
use crate::error::RendererError;

verus! {

/// Marker type of shader handles.
#[derive(Copy, Clone, Debug, PartialEq, Eq)]
pub struct Shader {}

/// Marker type of shader-program handles.
#[derive(Copy, Clone, Debug, PartialEq, Eq)]
pub struct ShaderProgram {}

/// Element type of a uniform.
#[derive(Copy, Clone, Debug, PartialEq, Eq, Structural)]
pub enum UniformKind {
    F32,
    Sampler2D,
    Mat4,
    Mat3,
    Mat2,
    Vec4,
    Vec3,
    Vec2,
}

impl UniformKind {
    /// Bytes of one element, for the kinds whose data the material blob holds; samplers have none.
    pub open spec fn element_size(self) -> Option<nat> {
        match self {
            UniformKind::F32 => Some(4),
            UniformKind::Vec2 => Some(8),
            UniformKind::Vec3 => Some(12),
            UniformKind::Vec4 => Some(16),
            UniformKind::Mat2 => Some(16),
            UniformKind::Mat3 => Some(36),
            UniformKind::Mat4 => Some(64),
            UniformKind::Sampler2D => None,
        }
    }
}

/// Byte size of a uniform of `count` elements of `kind`; `None` for a sampler, which has no data
/// in the blob, or when the size does not fit in `usize`.
pub fn uniform_size_from_kind(kind: UniformKind, count: usize) -> (r: Option<usize>)
    ensures
        r == (match kind.element_size() {
            Some(e) => if e * count <= usize::MAX {
                Some((e * count) as usize)
            } else {
                None
            },
            None => None,
        }),
{
    let element: usize = match kind {
        UniformKind::F32 => 4,
        UniformKind::Vec2 => 8,
        UniformKind::Vec3 => 12,
        UniformKind::Vec4 => 16,
        UniformKind::Mat2 => 16,
        UniformKind::Mat3 => 36,
        UniformKind::Mat4 => 64,
        UniformKind::Sampler2D => {
            return None;
        },
    };
    element.checked_mul(count)
}

/// One entry of a program's reflected uniform table.
#[derive(Clone, Debug, PartialEq, Eq)]
pub struct UniformDescription {
    pub name: String,
    pub location: u32,
    pub kind: UniformKind,
    pub count: u32,
    pub size: usize,
    pub offset: usize,
}

/// An active uniform as the backend reports it after linking; a negative location marks one
/// that has no binding.
#[derive(Clone, Debug)]
pub struct ActiveUniform {
    pub name: String,
    pub location: i32,
    pub kind: UniformKind,
    pub count: u32,
}

/// A uniform's name without the `[0]` that backends append to array names.
pub open spec fn normalized_name(name: Seq<char>) -> Seq<char> {
    if name.len() >= 3 && name.subrange(name.len() - 3, name.len() as int) == seq!['[', '0', ']'] {
        name.subrange(0, name.len() - 3)
    } else {
        name
    }
}

/// The reported uniforms that have a binding location, in reported order.
pub open spec fn bound_uniforms(reports: Seq<ActiveUniform>) -> Seq<ActiveUniform>
    decreases reports.len(),
{
    if reports.len() == 0 {
        Seq::empty()
    } else if reports.last().location < 0 {
        bound_uniforms(reports.drop_last())
    } else {
        bound_uniforms(reports.drop_last()).push(reports.last())
    }
}

/// Total byte size of `uniforms`, all of which must have sized kinds.
pub open spec fn uniforms_size(uniforms: Seq<ActiveUniform>) -> nat
    decreases uniforms.len(),
{
    if uniforms.len() == 0 {
        0
    } else {
        (uniforms_size(uniforms.drop_last()) + uniforms.last().kind.element_size().unwrap_or(0)
            * uniforms.last().count) as nat
    }
}

/// Whether table entry `d` describes report `u` placed at byte `offset`.
pub open spec fn describes(d: UniformDescription, u: ActiveUniform, offset: nat) -> bool {
    &&& d.name@ == normalized_name(u.name@)
    &&& d.location == u.location as u32
    &&& d.kind == u.kind
    &&& d.count == u.count
    &&& d.size == u.kind.element_size().unwrap_or(0) * u.count
    &&& d.offset == offset
}

/// A program's reflected uniforms and the size of the data blob they lay out.
#[derive(Clone, Debug)]
pub struct UniformLayout {
    pub uniforms: Vec<UniformDescription>,
    pub data_size: usize,
}

impl UniformLayout {
    /// Table order is layout order: each uniform starts where the one before it ends, the first at
    /// byte 0, and the blob ends where the last one ends.
    pub open spec fn wf(&self) -> bool {
        &&& forall|k: int|
            0 <= k < self.uniforms@.len() ==> #[trigger] self.uniforms@[k].offset + self.uniforms@[k].size
                <= self.data_size
        &&& forall|k: int|
            0 < k < self.uniforms@.len() ==> #[trigger] self.uniforms@[k].offset == self.uniforms@[k
                - 1].offset + self.uniforms@[k - 1].size
        &&& self.uniforms@.len() > 0 ==> self.uniforms@[0].offset == 0
        &&& self.uniforms@.len() > 0 ==> self.data_size == self.uniforms@.last().offset
            + self.uniforms@.last().size
        &&& self.uniforms@.len() == 0 ==> self.data_size == 0
    }
}

/// Whether a sampler is among `uniforms`.
pub open spec fn has_sampler(uniforms: Seq<ActiveUniform>) -> bool {
    exists|k: int| 0 <= k < uniforms.len() && (#[trigger] uniforms[k]).kind == UniformKind::Sampler2D
}

proof fn lemma_bound_step(reports: Seq<ActiveUniform>, i: int)
    requires
        0 <= i < reports.len(),
    ensures
        bound_uniforms(reports.subrange(0, i + 1)) == if reports[i].location < 0 {
            bound_uniforms(reports.subrange(0, i))
        } else {
            bound_uniforms(reports.subrange(0, i)).push(reports[i])
        },
{
    assert(reports.subrange(0, i + 1).drop_last() =~= reports.subrange(0, i));
}

proof fn lemma_bound_prefix(reports: Seq<ActiveUniform>, i: int)
    requires
        0 <= i <= reports.len(),
    ensures
        bound_uniforms(reports.subrange(0, i)).len() <= bound_uniforms(reports).len(),
        forall|k: int|
            0 <= k < bound_uniforms(reports.subrange(0, i)).len() ==> #[trigger] bound_uniforms(
                reports.subrange(0, i),
            )[k] == bound_uniforms(reports)[k],
    decreases reports.len() - i,
{
    if i == reports.len() {
        assert(reports.subrange(0, i) =~= reports);
    } else {
        lemma_bound_step(reports, i);
        lemma_bound_prefix(reports, i + 1);
        let a = bound_uniforms(reports.subrange(0, i));
        let b = bound_uniforms(reports.subrange(0, i + 1));
        assert forall|k: int| 0 <= k < a.len() implies #[trigger] a[k] == bound_uniforms(reports)[k] by {
            assert(a[k] == b[k]);
        }
    }
}

proof fn lemma_size_step(uniforms: Seq<ActiveUniform>, k: int)
    requires
        0 <= k < uniforms.len(),
    ensures
        uniforms_size(uniforms.subrange(0, k + 1)) == uniforms_size(uniforms.subrange(0, k))
            + uniforms[k].kind.element_size().unwrap_or(0) * uniforms[k].count,
{
    assert(uniforms.subrange(0, k + 1).drop_last() =~= uniforms.subrange(0, k));
}

proof fn lemma_size_prefix(uniforms: Seq<ActiveUniform>, k: int)
    requires
        0 <= k <= uniforms.len(),
    ensures
        uniforms_size(uniforms.subrange(0, k)) <= uniforms_size(uniforms),
    decreases uniforms.len() - k,
{
    if k == uniforms.len() {
        assert(uniforms.subrange(0, k) =~= uniforms);
    } else {
        lemma_size_step(uniforms, k);
        lemma_size_prefix(uniforms, k + 1);
    }
}

/// Builds a program's uniform table from what the backend reports after linking: reports
/// without a binding location are skipped, names lose a trailing `[0]`, each uniform's size is
/// its element size times its count, and offsets run on in reported order. A sampler is
/// rejected, as is a table whose size does not fit in `usize`.
pub fn reflect_uniforms(reports: &[ActiveUniform]) -> (r: Result<UniformLayout, RendererError>)
    ensures
        r is Ok <==> !has_sampler(bound_uniforms(reports@)) && uniforms_size(bound_uniforms(reports@))
            <= usize::MAX,
        r matches Ok(layout) ==> {
            let bound = bound_uniforms(reports@);
            &&& layout.wf()
            &&& layout.uniforms@.len() == bound.len()
            &&& forall|k: int|
                0 <= k < bound.len() ==> describes(
                    #[trigger] layout.uniforms@[k],
                    bound[k],
                    uniforms_size(bound.subrange(0, k)),
                )
            &&& layout.data_size == uniforms_size(bound)
        },
        r matches Err(e) ==> if has_sampler(bound_uniforms(reports@)) {
            e is FailedToLinkProgram
        } else {
            e is ConversionError
        },
{
    let mut i: usize = 0;
    while i < reports.len()
        invariant
            0 <= i <= reports@.len(),
            !has_sampler(bound_uniforms(reports@.subrange(0, i as int))),
        decreases reports@.len() - i,
    {
        proof {
            lemma_bound_step(reports@, i as int);
        }
        if reports[i].location >= 0 && reports[i].kind == UniformKind::Sampler2D {
            proof {
                lemma_bound_prefix(reports@, i + 1);
                let b = bound_uniforms(reports@.subrange(0, i + 1));
                assert(b[b.len() - 1] == bound_uniforms(reports@)[b.len() - 1]);
            }
            return Err(
                RendererError::FailedToLinkProgram {
                    error: "sampler uniforms are not supported".to_owned(),
                },
            );
        }
        proof {
            let b = bound_uniforms(reports@.subrange(0, i + 1));
            let a = bound_uniforms(reports@.subrange(0, i as int));
            if has_sampler(b) {
                let k = choose|k: int| 0 <= k < b.len() && (#[trigger] b[k]).kind == UniformKind::Sampler2D;
                if k < a.len() {
                    assert(a[k] == b[k]);
                }
            }
        }
        i = i + 1;
    }
    proof {
        assert(reports@.subrange(0, i as int) =~= reports@);
    }
    let ghost bound = bound_uniforms(reports@);
    let mut uniforms: Vec<UniformDescription> = Vec::new();
    let mut total: usize = 0;
    let mut i: usize = 0;
    while i < reports.len()
        invariant
            0 <= i <= reports@.len(),
            bound == bound_uniforms(reports@),
            !has_sampler(bound),
            ({
                let b = bound_uniforms(reports@.subrange(0, i as int));
                &&& uniforms@.len() == b.len()
                &&& total == uniforms_size(b)
                &&& forall|k: int|
                    0 <= k < b.len() ==> describes(#[trigger] uniforms@[k], b[k], uniforms_size(b.subrange(0, k)))
            }),
            forall|k: int|
                0 <= k < uniforms@.len() ==> #[trigger] uniforms@[k].offset + uniforms@[k].size <= total,
            forall|k: int|
                0 < k < uniforms@.len() ==> #[trigger] uniforms@[k].offset == uniforms@[k - 1].offset
                    + uniforms@[k - 1].size,
            uniforms@.len() > 0 ==> uniforms@[0].offset == 0,
            uniforms@.len() > 0 ==> total == uniforms@.last().offset + uniforms@.last().size,
            uniforms@.len() == 0 ==> total == 0,
        decreases reports@.len() - i,
    {
        let ghost a = bound_uniforms(reports@.subrange(0, i as int));
        proof {
            lemma_bound_step(reports@, i as int);
            lemma_bound_prefix(reports@, i + 1);
        }
        let report = &reports[i];
        if report.location >= 0 {
            let ghost b = bound_uniforms(reports@.subrange(0, i + 1));
            proof {
                assert(b[b.len() - 1] == bound[b.len() - 1]);
                if report.kind == UniformKind::Sampler2D {
                    assert(bound[b.len() - 1].kind == UniformKind::Sampler2D);
                }
                lemma_size_step(b, a.len() as int);
                assert(b.subrange(0, a.len() as int) =~= a);
                lemma_size_prefix(bound, b.len() as int);
                lemma_size_prefix(bound, b.len() as int);
                assert(bound.subrange(0, b.len() as int) =~= b);
            }
            let size = match uniform_size_from_kind(report.kind, report.count as usize) {
                Some(size) => size,
                None => {
                    return Err(
                        RendererError::ConversionError {
                            error: "uniform table size does not fit in usize".to_owned(),
                        },
                    );
                },
            };
            if size > usize::MAX - total {
                return Err(
                    RendererError::ConversionError {
                        error: "uniform table size does not fit in usize".to_owned(),
                    },
                );
            }
            let name = normalize_name(&report.name);
            uniforms.push(
                UniformDescription {
                    name,
                    location: report.location as u32,
                    kind: report.kind,
                    count: report.count,
                    size,
                    offset: total,
                },
            );
            total = total + size;
            proof {
                assert forall|k: int| 0 <= k < b.len() implies describes(
                    #[trigger] uniforms@[k],
                    b[k],
                    uniforms_size(b.subrange(0, k)),
                ) by {
                    if k < a.len() {
                        assert(b.subrange(0, k) =~= a.subrange(0, k));
                        assert(b[k] == a[k]);
                    }
                }
            }
        }
        i = i + 1;
    }
    proof {
        assert(reports@.subrange(0, i as int) =~= reports@);
    }
    Ok(UniformLayout { uniforms, data_size: total })
}

/// Where `uniform`'s bytes lie in a blob of `data_len` bytes: from its offset for its size, when
/// that range lies inside the blob.
pub fn uniform_range(uniform: &UniformDescription, data_len: usize) -> (r: Option<(usize, usize)>)
    ensures
        r == if uniform.offset + uniform.size <= data_len {
            Some((uniform.offset, (uniform.offset + uniform.size) as usize))
        } else {
            None::<(usize, usize)>
        },
{
    if uniform.size <= data_len && uniform.offset <= data_len - uniform.size {
        Some((uniform.offset, uniform.offset + uniform.size))
    } else {
        None
    }
}

/// How many elements of `uniform` an upload of `bytes` bytes carries: the whole elements those
/// bytes hold, at most the uniform's count; none for a sampler.
pub fn uploaded_elements(uniform: &UniformDescription, bytes: usize) -> (r: u32)
    ensures
        r == match uniform.kind.element_size() {
            Some(e) => if (bytes as nat) / e < uniform.count {
                ((bytes as nat) / e) as u32
            } else {
                uniform.count
            },
            None => 0,
        },
{
    let element: usize = match uniform.kind {
        UniformKind::F32 => 4,
        UniformKind::Vec2 => 8,
        UniformKind::Vec3 => 12,
        UniformKind::Vec4 => 16,
        UniformKind::Mat2 => 16,
        UniformKind::Mat3 => 36,
        UniformKind::Mat4 => 64,
        UniformKind::Sampler2D => {
            return 0;
        },
    };
    let whole = bytes / element;
    if whole < uniform.count as usize {
        whole as u32
    } else {
        uniform.count
    }
}

fn normalize_name(name: &String) -> (r: String)
    ensures
        r@ == normalized_name(name@),
{
    let s = name.as_str();
    let n = s.unicode_len();
    if n >= 3 && s.get_char(n - 3) == '[' && s.get_char(n - 2) == '0' && s.get_char(n - 1) == ']' {
        let r = s.substring_char(0, n - 3).to_owned();
        proof {
            assert(name@.subrange(n - 3, n as int) =~= seq!['[', '0', ']']);
        }
        r
    } else {
        proof {
            if n >= 3 {
                assert(name@.subrange(n - 3, n as int)[0] == name@[n - 3]);
                assert(name@.subrange(n - 3, n as int)[1] == name@[n - 2]);
                assert(name@.subrange(n - 3, n as int)[2] == name@[n - 1]);
            }
        }
        s.to_owned()
    }
}

} // verus!
