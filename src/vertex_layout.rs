use vstd::prelude::*;
use crate::error::RendererError;

verus! {

/// Marker type of vertex-layout handles.
#[derive(Debug, Clone, Copy, PartialEq, Eq)]
pub struct VertexLayout {}

/// Component layout of one vertex attribute; every component is a 32-bit float.
#[derive(Clone, Copy, Debug, PartialEq, Eq, Structural)]
pub enum VertexAttributeKind {
    F32,
    Vec2,
    Vec3,
    Vec4,
}

impl VertexAttributeKind {
    pub open spec fn spec_components(self) -> u8 {
        match self {
            VertexAttributeKind::F32 => 1,
            VertexAttributeKind::Vec2 => 2,
            VertexAttributeKind::Vec3 => 3,
            VertexAttributeKind::Vec4 => 4,
        }
    }

    /// Byte size: four bytes per component.
    pub open spec fn spec_size(self) -> usize {
        (4 * self.spec_components()) as usize
    }

    /// Number of float components.
    pub fn components(&self) -> (r: u8)
        ensures
            r == self.spec_components(),
    {
        match self {
            VertexAttributeKind::F32 => 1,
            VertexAttributeKind::Vec2 => 2,
            VertexAttributeKind::Vec3 => 3,
            VertexAttributeKind::Vec4 => 4,
        }
    }

    /// Size in bytes.
    pub fn size(&self) -> (r: usize)
        ensures
            r == self.spec_size(),
    {
        self.components() as usize * 4
    }
}

/// What a vertex attribute means; fixes its kind and, through a [`SemanticLocations`] table,
/// its vertex-input location.
#[derive(Clone, Copy, Debug, PartialEq, Eq, Structural)]
pub enum AttributeSemantic {
    Position,
    UV(usize),
    Color(usize),
    Normals(usize),
    Tangent,
    Weights(usize),
    Joints(usize),
    Custom(VertexAttributeKind, usize),
}

impl AttributeSemantic {
    pub open spec fn spec_kind(self) -> VertexAttributeKind {
        match self {
            AttributeSemantic::Position => VertexAttributeKind::Vec3,
            AttributeSemantic::UV(_) => VertexAttributeKind::Vec2,
            AttributeSemantic::Color(_) => VertexAttributeKind::Vec4,
            AttributeSemantic::Normals(_) => VertexAttributeKind::Vec3,
            AttributeSemantic::Weights(_) => VertexAttributeKind::Vec4,
            AttributeSemantic::Joints(_) => VertexAttributeKind::Vec4,
            AttributeSemantic::Custom(kind, _) => kind,
            AttributeSemantic::Tangent => VertexAttributeKind::Vec3,
        }
    }

    /// The kind of the semantic's values.
    pub fn kind(&self) -> (r: VertexAttributeKind)
        ensures
            r == self.spec_kind(),
    {
        match self {
            AttributeSemantic::Position => VertexAttributeKind::Vec3,
            AttributeSemantic::UV(_) => VertexAttributeKind::Vec2,
            AttributeSemantic::Color(_) => VertexAttributeKind::Vec4,
            AttributeSemantic::Normals(_) => VertexAttributeKind::Vec3,
            AttributeSemantic::Weights(_) => VertexAttributeKind::Vec4,
            AttributeSemantic::Joints(_) => VertexAttributeKind::Vec4,
            AttributeSemantic::Custom(kind, _) => *kind,
            AttributeSemantic::Tangent => VertexAttributeKind::Vec3,
        }
    }

    /// Whether the values are normalized integers; all semantics use plain floats.
    pub fn normalized(&self) -> (r: bool)
        ensures
            !r,
    {
        false
    }

    /// The vertex-input location `table` assigns to this semantic: the first slot that holds it.
    pub fn location(&self, table: &SemanticLocations) -> (r: Option<u8>)
        ensures
            r == first_location(table@, *self),
    {
        let mut i: usize = 0;
        while i < 16
            invariant
                0 <= i <= 16,
                table@.len() == 16,
                forall|j: int| 0 <= j < i ==> table@[j] != Some(*self),
            decreases 16 - i,
        {
            if let Some(s) = table.locations[i] {
                if s == *self {
                    proof {
                        lemma_first_location_found(table@, *self, i as int);
                    }
                    return Some(i as u8);
                }
            }
            i = i + 1;
        }
        proof {
            lemma_first_location_absent(table@, *self);
        }
        None
    }

    /// Replaces the whole location table.
    pub fn set_default_locations(table: &mut SemanticLocations, locations: [Option<AttributeSemantic>; 16])
        ensures
            final(table)@ == locations@,
    {
        table.locations = locations;
    }
}

/// The index of the first entry of `table` that holds `s`, if any.
pub open spec fn first_location(table: Seq<Option<AttributeSemantic>>, s: AttributeSemantic) -> Option<u8> {
    if exists|i: int| 0 <= i < table.len() && table[i] == Some(s) {
        let i = choose|i: int|
            0 <= i < table.len() && table[i] == Some(s) && forall|j: int| 0 <= j < i ==> table[j] != Some(s);
        Some(i as u8)
    } else {
        None
    }
}

proof fn lemma_first_location_found(table: Seq<Option<AttributeSemantic>>, s: AttributeSemantic, i: int)
    requires
        0 <= i < table.len(),
        table[i] == Some(s),
        forall|j: int| 0 <= j < i ==> table[j] != Some(s),
    ensures
        first_location(table, s) == Some(i as u8),
{
    let k = choose|k: int|
        0 <= k < table.len() && table[k] == Some(s) && forall|j: int| 0 <= j < k ==> table[j] != Some(s);
    assert(k == i) by {
        if k < i {
            assert(table[k] != Some(s));
        }
        if k > i {
            assert(table[i] != Some(s));
        }
    }
}

proof fn lemma_first_location_absent(table: Seq<Option<AttributeSemantic>>, s: AttributeSemantic)
    requires
        forall|j: int| 0 <= j < table.len() ==> table[j] != Some(s),
    ensures
        first_location(table, s) is None,
{
}

/// The table from semantic to vertex-input location: slot `i` holds the semantic bound at
/// location `i`.
#[derive(Clone, Copy, Debug)]
pub struct SemanticLocations {
    locations: [Option<AttributeSemantic>; 16],
}

impl View for SemanticLocations {
    type V = Seq<Option<AttributeSemantic>>;

    closed spec fn view(&self) -> Seq<Option<AttributeSemantic>> {
        self.locations@
    }
}

impl SemanticLocations {
    /// The table's sixteen slots.
    pub fn locations(&self) -> (r: [Option<AttributeSemantic>; 16])
        ensures
            r@ == self@,
    {
        self.locations
    }
}

impl Default for SemanticLocations {
    /// Position at 0, UV 0-3 at 1-4, Color 0-4 at 5-9, Tangent at 10, Normals 0-2 at 11-13,
    /// Weights 3 at 14 and Joints 0 at 15.
    fn default() -> (r: Self)
        ensures
            r@ == default_locations(),
    {
        SemanticLocations {
            locations: [
                Some(AttributeSemantic::Position),
                Some(AttributeSemantic::UV(0)),
                Some(AttributeSemantic::UV(1)),
                Some(AttributeSemantic::UV(2)),
                Some(AttributeSemantic::UV(3)),
                Some(AttributeSemantic::Color(0)),
                Some(AttributeSemantic::Color(1)),
                Some(AttributeSemantic::Color(2)),
                Some(AttributeSemantic::Color(3)),
                Some(AttributeSemantic::Color(4)),
                Some(AttributeSemantic::Tangent),
                Some(AttributeSemantic::Normals(0)),
                Some(AttributeSemantic::Normals(1)),
                Some(AttributeSemantic::Normals(2)),
                Some(AttributeSemantic::Weights(3)),
                Some(AttributeSemantic::Joints(0)),
            ],
        }
    }
}

pub open spec fn default_locations() -> Seq<Option<AttributeSemantic>> {
    seq![
        Some(AttributeSemantic::Position),
        Some(AttributeSemantic::UV(0)),
        Some(AttributeSemantic::UV(1)),
        Some(AttributeSemantic::UV(2)),
        Some(AttributeSemantic::UV(3)),
        Some(AttributeSemantic::Color(0)),
        Some(AttributeSemantic::Color(1)),
        Some(AttributeSemantic::Color(2)),
        Some(AttributeSemantic::Color(3)),
        Some(AttributeSemantic::Color(4)),
        Some(AttributeSemantic::Tangent),
        Some(AttributeSemantic::Normals(0)),
        Some(AttributeSemantic::Normals(1)),
        Some(AttributeSemantic::Normals(2)),
        Some(AttributeSemantic::Weights(3)),
        Some(AttributeSemantic::Joints(0)),
    ]
}

/// One vertex channel of an interleaved buffer.
#[derive(Clone, Copy, Debug)]
pub struct VertexAttribute {
    pub stride: usize,
    pub semantic: AttributeSemantic,
    pub normalized: bool,
    pub offset: usize,
}

/// A validated vertex attribute, ready for the backend to enable at `location`.
#[derive(Clone, Copy, Debug, PartialEq, Eq)]
pub struct AttributeBinding {
    pub location: u8,
    pub semantic: AttributeSemantic,
    pub components: u8,
    pub normalized: bool,
    pub stride: usize,
    /// Byte offset in the buffer: the buffer's base offset plus the attribute's offset.
    pub offset: usize,
}

/// What binding attribute `a` of a buffer at byte offset `base` gives, with `table` resolving
/// locations and `max` the backend's attribute count.
pub open spec fn check_attribute(
    a: VertexAttribute,
    base: usize,
    table: Seq<Option<AttributeSemantic>>,
    max: u8,
) -> Result<AttributeBinding, RendererError> {
    match first_location(table, a.semantic) {
        None => Err(RendererError::AttributeHasNoLocation { semantic: a.semantic }),
        Some(location) => if location >= max {
            Err(RendererError::AttributeLocationOverMax { location, max, semantic: a.semantic })
        } else if base + a.offset > usize::MAX {
            Err(RendererError::ConversionError { error: vstd::pervasive::arbitrary() })
        } else {
            Ok(
                AttributeBinding {
                    location,
                    semantic: a.semantic,
                    components: a.semantic.spec_kind().spec_components(),
                    normalized: a.normalized,
                    stride: a.stride,
                    offset: (base + a.offset) as usize,
                },
            )
        },
    }
}

/// Binding a list of attributes: every binding in order, or the error of the first attribute
/// that fails.
pub open spec fn check_attributes(
    attrs: Seq<VertexAttribute>,
    base: usize,
    table: Seq<Option<AttributeSemantic>>,
    max: u8,
) -> Result<Seq<AttributeBinding>, RendererError>
    decreases attrs.len(),
{
    if attrs.len() == 0 {
        Ok(Seq::empty())
    } else {
        match check_attributes(attrs.drop_last(), base, table, max) {
            Err(e) => Err(e),
            Ok(bs) => match check_attribute(attrs.last(), base, table, max) {
                Err(e) => Err(e),
                Ok(b) => Ok(bs.push(b)),
            },
        }
    }
}

/// Equal errors, where the message of a conversion error or of a missing resource is not
/// compared.
pub open spec fn same_error(a: RendererError, b: RendererError) -> bool {
    ||| a == b
    ||| (a is ConversionError && b is ConversionError)
    ||| (a is ResourceNotFound && b is ResourceNotFound)
}

proof fn lemma_check_attributes_err_extends(
    attrs: Seq<VertexAttribute>,
    i: int,
    base: usize,
    table: Seq<Option<AttributeSemantic>>,
    max: u8,
)
    requires
        0 <= i <= attrs.len(),
        check_attributes(attrs.subrange(0, i), base, table, max) is Err,
    ensures
        check_attributes(attrs, base, table, max) == check_attributes(attrs.subrange(0, i), base, table, max),
    decreases attrs.len() - i,
{
    if i < attrs.len() {
        let next = attrs.subrange(0, i + 1);
        assert(next.drop_last() =~= attrs.subrange(0, i));
        lemma_check_attributes_err_extends(attrs, i + 1, base, table, max);
    } else {
        assert(attrs.subrange(0, i) =~= attrs);
    }
}

proof fn lemma_check_attributes_prefix_ok(
    attrs: Seq<VertexAttribute>,
    k: int,
    base: usize,
    table: Seq<Option<AttributeSemantic>>,
    max: u8,
)
    requires
        0 <= k <= attrs.len(),
        forall|j: int| 0 <= j < k ==> check_attribute(#[trigger] attrs[j], base, table, max) is Ok,
    ensures
        check_attributes(attrs.subrange(0, k), base, table, max) is Ok,
    decreases k,
{
    if k > 0 {
        assert(attrs.subrange(0, k).drop_last() =~= attrs.subrange(0, k - 1));
        lemma_check_attributes_prefix_ok(attrs, k - 1, base, table, max);
    }
}

/// An attribute whose semantic resolves to a location at or above the backend's attribute count
/// makes binding fail with `AttributeLocationOverMax` for that location, count and semantic,
/// provided the attributes before it bind. ([`bind_attributes`] changes nothing, and a vertex
/// layout whose binding fails is not stored.)
pub proof fn lemma_location_over_max_fails(
    attrs: Seq<VertexAttribute>,
    k: int,
    base: usize,
    table: Seq<Option<AttributeSemantic>>,
    max: u8,
)
    requires
        0 <= k < attrs.len(),
        first_location(table, attrs[k].semantic) matches Some(l) && l >= max,
        forall|j: int| 0 <= j < k ==> check_attribute(#[trigger] attrs[j], base, table, max) is Ok,
    ensures
        check_attributes(attrs, base, table, max) == Err::<Seq<AttributeBinding>, RendererError>(
            RendererError::AttributeLocationOverMax {
                location: first_location(table, attrs[k].semantic)->0,
                max,
                semantic: attrs[k].semantic,
            },
        ),
{
    lemma_check_attributes_prefix_ok(attrs, k, base, table, max);
    assert(attrs.subrange(0, k + 1).drop_last() =~= attrs.subrange(0, k));
    lemma_check_attributes_err_extends(attrs, k + 1, base, table, max);
}

/// Validates `attributes` of a buffer bound at byte offset `offset`: each attribute needs a
/// location in `table` below `max_attributes`. On success, the bindings in order; otherwise the
/// error of the first attribute that fails. Nothing is bound either way: the caller applies the
/// bindings only on success.
pub fn bind_attributes(
    attributes: &[VertexAttribute],
    offset: usize,
    table: &SemanticLocations,
    max_attributes: u8,
) -> (r: Result<Vec<AttributeBinding>, RendererError>)
    ensures
        match r {
            Ok(bs) => check_attributes(attributes@, offset, table@, max_attributes) == Ok::<Seq<AttributeBinding>, RendererError>(bs@),
            Err(e) => check_attributes(attributes@, offset, table@, max_attributes) matches Err(e2)
                && same_error(e, e2),
        },
{
    let mut out: Vec<AttributeBinding> = Vec::new();
    let mut i: usize = 0;
    while i < attributes.len()
        invariant
            0 <= i <= attributes@.len(),
            check_attributes(attributes@.subrange(0, i as int), offset, table@, max_attributes) == Ok::<Seq<AttributeBinding>, RendererError>(out@),
        decreases attributes@.len() - i,
    {
        let a = attributes[i];
        let ghost next = attributes@.subrange(0, i + 1);
        proof {
            assert(next.drop_last() =~= attributes@.subrange(0, i as int));
            assert(next.last() == a);
        }
        match a.semantic.location(table) {
            None => {
                proof {
                    lemma_check_attributes_err_extends(attributes@, i + 1, offset, table@, max_attributes);
                }
                return Err(RendererError::AttributeHasNoLocation { semantic: a.semantic });
            },
            Some(location) => {
                if location >= max_attributes {
                    proof {
                        lemma_check_attributes_err_extends(attributes@, i + 1, offset, table@, max_attributes);
                    }
                    return Err(
                        RendererError::AttributeLocationOverMax {
                            location,
                            max: max_attributes,
                            semantic: a.semantic,
                        },
                    );
                }
                if a.offset > usize::MAX - offset {
                    proof {
                        lemma_check_attributes_err_extends(attributes@, i + 1, offset, table@, max_attributes);
                    }
                    return Err(
                        RendererError::ConversionError {
                            error: "vertex attribute offset does not fit in usize".to_owned(),
                        },
                    );
                }
                out.push(
                    AttributeBinding {
                        location,
                        semantic: a.semantic,
                        components: a.semantic.kind().components(),
                        normalized: a.normalized,
                        stride: a.stride,
                        offset: offset + a.offset,
                    },
                );
            },
        }
        i = i + 1;
    }
    proof {
        assert(attributes@.subrange(0, i as int) =~= attributes@);
    }
    Ok(out)
}

} // verus!
