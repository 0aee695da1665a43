use vstd::prelude::*;

verus! {

/// Whether a mesh buffer holds vertices or indices.
#[derive(Clone, Copy, Debug, PartialEq, Eq)]
pub enum BufferKind {
    Vertex,
    Index,
}

/// Component layout of a mesh-buffer attribute; every component is a 32-bit float.
#[derive(Clone, Copy, Debug, Eq, PartialEq, Structural)]
pub enum AttributeKind {
    F32,
    Vec2,
    Vec3,
    Vec4,
    Mat4,
}

impl AttributeKind {
    pub open spec fn spec_components(self) -> u8 {
        match self {
            AttributeKind::F32 => 1,
            AttributeKind::Vec2 => 2,
            AttributeKind::Vec3 => 3,
            AttributeKind::Vec4 => 4,
            AttributeKind::Mat4 => 16,
        }
    }

    /// Number of float components.
    pub fn components(&self) -> (r: u8)
        ensures
            r == self.spec_components(),
    {
        match self {
            AttributeKind::F32 => 1,
            AttributeKind::Vec2 => 2,
            AttributeKind::Vec3 => 3,
            AttributeKind::Vec4 => 4,
            AttributeKind::Mat4 => 16,
        }
    }

    /// Size in bytes: four per component.
    pub fn size(&self) -> (r: usize)
        ensures
            r == 4 * self.spec_components(),
    {
        self.components() as usize * 4
    }
}

/// What a mesh-buffer attribute means.
#[derive(Clone, Copy, Debug, Eq, PartialEq, Structural)]
pub enum AttributeSemantic {
    Position,
    UV(usize),
    Color(usize),
    Normals(usize),
    Tangent,
    Weights(usize),
    Joints(usize),
    Custom(AttributeKind, usize),
}

impl AttributeSemantic {
    pub open spec fn spec_kind(self) -> AttributeKind {
        match self {
            AttributeSemantic::Position => AttributeKind::Vec3,
            AttributeSemantic::UV(_) => AttributeKind::Vec2,
            AttributeSemantic::Color(_) => AttributeKind::Vec4,
            AttributeSemantic::Normals(_) => AttributeKind::Vec3,
            AttributeSemantic::Weights(_) => AttributeKind::Vec4,
            AttributeSemantic::Joints(_) => AttributeKind::Vec4,
            AttributeSemantic::Custom(kind, _) => kind,
            AttributeSemantic::Tangent => AttributeKind::Vec3,
        }
    }

    /// The kind of the semantic's values.
    pub fn kind(&self) -> (r: AttributeKind)
        ensures
            r == self.spec_kind(),
    {
        match self {
            AttributeSemantic::Position => AttributeKind::Vec3,
            AttributeSemantic::UV(_) => AttributeKind::Vec2,
            AttributeSemantic::Color(_) => AttributeKind::Vec4,
            AttributeSemantic::Normals(_) => AttributeKind::Vec3,
            AttributeSemantic::Weights(_) => AttributeKind::Vec4,
            AttributeSemantic::Joints(_) => AttributeKind::Vec4,
            AttributeSemantic::Custom(kind, _) => *kind,
            AttributeSemantic::Tangent => AttributeKind::Vec3,
        }
    }

    /// The location `table` assigns to this semantic: the first slot that holds it.
    pub fn location(&self, table: &SemanticLocations) -> (r: Option<u8>)
        ensures
            r == first_location(table@, *self),
    {
        let mut i: usize = 0;
        while i < 16
            invariant
                0 <= i <= 16,
                table@.len() == 16,
                forall|j: int| 0 <= j < i ==> table@[j] != Some(*self),
            decreases 16 - i,
        {
            if let Some(s) = table.locations[i] {
                if s == *self {
                    proof {
                        let k = choose|k: int|
                            0 <= k < table@.len() && table@[k] == Some(*self) && forall|j: int|
                                0 <= j < k ==> table@[j] != Some(*self);
                        assert(k == i) by {
                            if k < i {
                                assert(table@[k] != Some(*self));
                            }
                            if k > i {
                                assert(table@[i as int] != Some(*self));
                            }
                        }
                    }
                    return Some(i as u8);
                }
            }
            i = i + 1;
        }
        None
    }

    /// Replaces the whole location table.
    pub fn set_default_locations(table: &mut SemanticLocations, locations: [Option<AttributeSemantic>; 16])
        ensures
            final(table)@ == locations@,
    {
        table.locations = locations;
    }
}

/// The index of the first entry of `table` that holds `s`, if any.
pub open spec fn first_location(table: Seq<Option<AttributeSemantic>>, s: AttributeSemantic) -> Option<u8> {
    if exists|i: int| 0 <= i < table.len() && table[i] == Some(s) {
        let i = choose|i: int|
            0 <= i < table.len() && table[i] == Some(s) && forall|j: int| 0 <= j < i ==> table[j] != Some(s);
        Some(i as u8)
    } else {
        None
    }
}

/// The table from mesh-buffer semantic to location: slot `i` holds the semantic at location `i`.
#[derive(Clone, Copy, Debug)]
pub struct SemanticLocations {
    locations: [Option<AttributeSemantic>; 16],
}

impl View for SemanticLocations {
    type V = Seq<Option<AttributeSemantic>>;

    closed spec fn view(&self) -> Seq<Option<AttributeSemantic>> {
        self.locations@
    }
}

impl SemanticLocations {
    /// The table's sixteen slots.
    pub fn locations(&self) -> (r: [Option<AttributeSemantic>; 16])
        ensures
            r@ == self@,
    {
        self.locations
    }
}

impl Default for SemanticLocations {
    /// Position at 0, UV 0-3 at 1-4, Color 1-4 at 5-8, Tangent at 9, Normals 0-2 at 10-12,
    /// Weights 3 at 13, Joints 0 at 14, and slot 15 free.
    fn default() -> (r: Self)
        ensures
            r@ == seq![
                Some(AttributeSemantic::Position),
                Some(AttributeSemantic::UV(0)),
                Some(AttributeSemantic::UV(1)),
                Some(AttributeSemantic::UV(2)),
                Some(AttributeSemantic::UV(3)),
                Some(AttributeSemantic::Color(1)),
                Some(AttributeSemantic::Color(2)),
                Some(AttributeSemantic::Color(3)),
                Some(AttributeSemantic::Color(4)),
                Some(AttributeSemantic::Tangent),
                Some(AttributeSemantic::Normals(0)),
                Some(AttributeSemantic::Normals(1)),
                Some(AttributeSemantic::Normals(2)),
                Some(AttributeSemantic::Weights(3)),
                Some(AttributeSemantic::Joints(0)),
                None,
            ],
    {
        SemanticLocations {
            locations: [
                Some(AttributeSemantic::Position),
                Some(AttributeSemantic::UV(0)),
                Some(AttributeSemantic::UV(1)),
                Some(AttributeSemantic::UV(2)),
                Some(AttributeSemantic::UV(3)),
                Some(AttributeSemantic::Color(1)),
                Some(AttributeSemantic::Color(2)),
                Some(AttributeSemantic::Color(3)),
                Some(AttributeSemantic::Color(4)),
                Some(AttributeSemantic::Tangent),
                Some(AttributeSemantic::Normals(0)),
                Some(AttributeSemantic::Normals(1)),
                Some(AttributeSemantic::Normals(2)),
                Some(AttributeSemantic::Weights(3)),
                Some(AttributeSemantic::Joints(0)),
                None,
            ],
        }
    }
}

/// One attribute of a mesh buffer.
#[derive(Clone, Copy, Debug)]
pub struct BufferAttribute {
    pub semantic: AttributeSemantic,
    pub normalized: bool,
    pub offset: usize,
}

/// How a mesh buffer will be used; a hint for the backend.
#[derive(Copy, Clone, Debug, PartialEq, Eq)]
pub enum BufferUsage {
    StaticRead,
    StaticWrite,
    StaticReadWrite,
    DynamicRead,
    DynamicWrite,
    DynamicReadWrite,
    StreaminRead,
    StreaminWrite,
    StreaminReadWrite,
}

/// Vertex data with its attribute description.
#[derive(Clone, Debug)]
pub struct MeshBuffer<'a, T> {
    pub stride: usize,
    pub kind: BufferKind,
    pub attributes: Vec<BufferAttribute>,
    pub size: usize,
    pub vertex_count: u32,
    pub data: &'a [T],
    pub usage: BufferUsage,
    pub divisor: usize,
}

impl<'a, T> MeshBuffer<'a, T> {
    /// A static vertex buffer whose only attribute is a position at offset 0: its size is the
    /// data's byte size and its vertex count that size over the 12 bytes of a position.
    pub fn with_position(data: &'a [T]) -> (r: Self)
        requires
            vstd::layout::size_of::<T>() * data@.len() <= usize::MAX,
        ensures
            r.size == vstd::layout::size_of::<T>() * data@.len(),
            r.vertex_count == (r.size / 12) as u32,
            r.kind == BufferKind::Vertex,
            r.usage == BufferUsage::StaticRead,
            r.stride == 0,
            r.divisor == 0,
            r.data@ == data@,
            r.attributes@ == seq![BufferAttribute { semantic: AttributeSemantic::Position, normalized: false, offset: 0 }],
    {
        let attributes = vec![BufferAttribute { semantic: AttributeSemantic::Position, normalized: false, offset: 0 }];
        let element = core::mem::size_of::<T>();
        let size = element * data.len();
        let position_size = AttributeSemantic::Position.kind().size();
        let vertex_count = #[verifier::truncate] ((size / position_size) as u32);
        MeshBuffer {
            stride: 0,
            kind: BufferKind::Vertex,
            usage: BufferUsage::StaticRead,
            attributes,
            size,
            vertex_count,
            data,
            divisor: 0,
        }
    }
}

} // verus!
