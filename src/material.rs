use vstd::prelude::*;
use crate::generation_vec::Handle;
use crate::shader::{ShaderProgram, UniformDescription};

verus! {

/// A shader program plus the packed bytes of its uniforms' values, laid out by the program's
/// uniform table.
#[derive(Clone, Debug, PartialEq, Eq)]
pub struct Material {
    pub program: Handle<ShaderProgram>,
    pub data: Vec<u8>,
}

/// Names the uniform a property sets: by name, or by location.
#[derive(Clone, Copy, Debug)]
pub enum PropertyId<'a> {
    Name(&'a str),
    Location(u32),
}

/// A property's value: 32-bit floats, each given by its IEEE-754 bit pattern (`f32::to_bits`).
#[derive(Clone, Copy, Debug)]
pub enum PropertyValue<'a> {
    F32(&'a [u32]),
}

impl<'a> PropertyValue<'a> {
    pub open spec fn bits(self) -> Seq<u32> {
        match self {
            PropertyValue::F32(values) => values@,
        }
    }
}

/// A value for one uniform of a material.
#[derive(Clone, Copy, Debug)]
pub struct MaterialProperty<'a> {
    pub property: PropertyId<'a>,
    pub value: PropertyValue<'a>,
}

impl<'a> MaterialProperty<'a> {
    pub fn new(property: PropertyId<'a>, value: PropertyValue<'a>) -> (r: Self)
        ensures
            r.property == property,
            r.value == value,
    {
        MaterialProperty { property, value }
    }
}

/// Whether uniform `u` is the one `id` names.
pub open spec fn names_uniform(id: PropertyId, u: UniformDescription) -> bool {
    match id {
        PropertyId::Name(name) => u.name@ == name@,
        PropertyId::Location(location) => u.location == location,
    }
}

/// Index of the first uniform that `id` names, if any.
pub open spec fn find_uniform(uniforms: Seq<UniformDescription>, id: PropertyId) -> Option<int> {
    if exists|k: int| 0 <= k < uniforms.len() && names_uniform(id, #[trigger] uniforms[k]) {
        Some(
            choose|k: int|
                0 <= k < uniforms.len() && names_uniform(id, uniforms[k]) && forall|j: int|
                    0 <= j < k ==> !names_uniform(id, #[trigger] uniforms[j]),
        )
    } else {
        None
    }
}

/// Byte `b` (0 to 3) of `x` in little-endian order.
pub open spec fn le_byte(x: u32, b: int) -> u8 {
    if b == 0 {
        #[verifier::truncate] ((x & 0xff) as u8)
    } else if b == 1 {
        #[verifier::truncate] (((x >> 8u32) & 0xff) as u8)
    } else if b == 2 {
        #[verifier::truncate] (((x >> 16u32) & 0xff) as u8)
    } else {
        #[verifier::truncate] (((x >> 24u32) & 0xff) as u8)
    }
}

/// `data` with the floats `bits` written from byte `offset` on, four little-endian bytes each,
/// as far as whole floats fit in `data`.
pub open spec fn write_floats(data: Seq<u8>, offset: int, bits: Seq<u32>) -> Seq<u8>
    decreases bits.len(),
{
    if bits.len() == 0 {
        data
    } else {
        let d = write_floats(data, offset, bits.drop_last());
        let at = offset + 4 * (bits.len() - 1);
        if 0 <= at && at + 4 <= d.len() {
            d.update(at, le_byte(bits.last(), 0)).update(at + 1, le_byte(bits.last(), 1)).update(
                at + 2,
                le_byte(bits.last(), 2),
            ).update(at + 3, le_byte(bits.last(), 3))
        } else {
            d
        }
    }
}

/// The blob after one property: its floats written at the offset of the uniform it names, or
/// unchanged when it names none.
pub open spec fn apply_property(
    data: Seq<u8>,
    uniforms: Seq<UniformDescription>,
    p: MaterialProperty,
) -> Seq<u8> {
    match find_uniform(uniforms, p.property) {
        Some(k) => write_floats(data, uniforms[k].offset as int, p.value.bits()),
        None => data,
    }
}

/// The blob after `props`, applied first to last.
pub open spec fn apply_properties(
    data: Seq<u8>,
    uniforms: Seq<UniformDescription>,
    props: Seq<MaterialProperty>,
) -> Seq<u8>
    decreases props.len(),
{
    if props.len() == 0 {
        data
    } else {
        apply_property(apply_properties(data, uniforms, props.drop_last()), uniforms, props.last())
    }
}

/// Writing floats keeps the blob's length, and changes no byte before `offset` or at or after
/// `offset + 4 * bits.len()`.
pub proof fn lemma_write_floats_frame(data: Seq<u8>, offset: int, bits: Seq<u32>)
    requires
        0 <= offset,
    ensures
        write_floats(data, offset, bits).len() == data.len(),
        forall|j: int|
            0 <= j < data.len() && (j < offset || j >= offset + 4 * bits.len()) ==> #[trigger] write_floats(
                data,
                offset,
                bits,
            )[j] == data[j],
    decreases bits.len(),
{
    if bits.len() > 0 {
        lemma_write_floats_frame(data, offset, bits.drop_last());
    }
}

/// Writing floats that all fit puts float `k`'s little-endian bytes at `offset + 4 * k`.
pub proof fn lemma_write_floats_content(data: Seq<u8>, offset: int, bits: Seq<u32>)
    requires
        0 <= offset,
        offset + 4 * bits.len() <= data.len(),
    ensures
        forall|k: int, b: int|
            0 <= k < bits.len() && 0 <= b < 4 ==> #[trigger] write_floats(data, offset, bits)[offset + 4 * k
                + b] == le_byte(bits[k], b),
    decreases bits.len(),
{
    if bits.len() > 0 {
        lemma_write_floats_content(data, offset, bits.drop_last());
        lemma_write_floats_frame(data, offset, bits.drop_last());
        let n = bits.len() - 1;
        assert forall|k: int, b: int| 0 <= k < bits.len() && 0 <= b < 4 implies #[trigger] write_floats(
            data,
            offset,
            bits,
        )[offset + 4 * k + b] == le_byte(bits[k], b) by {
            if k < n {
                assert(bits.drop_last()[k] == bits[k]);
            }
        }
    }
}

/// A property that names a uniform and whose floats fit in the blob writes exactly the bytes from
/// that uniform's offset to four bytes per float past it, each float little-endian, and leaves
/// every other byte as it was.
pub proof fn lemma_property_writes_its_range(
    data: Seq<u8>,
    uniforms: Seq<UniformDescription>,
    p: MaterialProperty,
)
    requires
        find_uniform(uniforms, p.property) is Some,
        uniforms[find_uniform(uniforms, p.property)->0].offset + 4 * p.value.bits().len() <= data.len(),
    ensures
        ({
            let off = uniforms[find_uniform(uniforms, p.property)->0].offset as int;
            let out = apply_property(data, uniforms, p);
            &&& out.len() == data.len()
            &&& forall|j: int|
                0 <= j < data.len() && (j < off || j >= off + 4 * p.value.bits().len()) ==> #[trigger] out[j]
                    == data[j]
            &&& forall|k: int, b: int|
                0 <= k < p.value.bits().len() && 0 <= b < 4 ==> #[trigger] out[off + 4 * k + b] == le_byte(
                    p.value.bits()[k],
                    b,
                )
        }),
{
    let off = uniforms[find_uniform(uniforms, p.property)->0].offset as int;
    lemma_write_floats_frame(data, off, p.value.bits());
    lemma_write_floats_content(data, off, p.value.bits());
}

pub(crate) fn write_floats_exec(data: &mut Vec<u8>, offset: usize, bits: &[u32])
    ensures
        final(data)@ == write_floats(old(data)@, offset as int, bits@),
{
    let ghost initial = data@;
    let len = data.len();
    let mut k: usize = 0;
    while k < bits.len()
        invariant
            0 <= k <= bits@.len(),
            len == initial.len(),
            initial == old(data)@,
            data@ == write_floats(initial, offset as int, bits@.subrange(0, k as int)),
            data@.len() == len,
        decreases bits@.len() - k,
    {
        proof {
            assert(bits@.subrange(0, k + 1).drop_last() =~= bits@.subrange(0, k as int));
        }
        if offset > len || k >= (len - offset) / 4 {
            proof {
                lemma_write_floats_stops(initial, offset as int, bits@, k as int);
                assert(bits@.subrange(0, bits@.len() as int) =~= bits@);
                assert(write_floats(initial, offset as int, bits@.subrange(0, bits@.len() as int))
                    == write_floats(initial, offset as int, bits@.subrange(0, k as int)));
            }
            return;
        }
        let at = offset + 4 * k;
        let x = bits[k];
        data.set(at, #[verifier::truncate] ((x & 0xff) as u8));
        data.set(at + 1, #[verifier::truncate] (((x >> 8u32) & 0xff) as u8));
        data.set(at + 2, #[verifier::truncate] (((x >> 16u32) & 0xff) as u8));
        data.set(at + 3, #[verifier::truncate] (((x >> 24u32) & 0xff) as u8));
        k = k + 1;
    }
    proof {
        assert(bits@.subrange(0, k as int) =~= bits@);
    }
}

proof fn lemma_write_floats_stops(data: Seq<u8>, offset: int, bits: Seq<u32>, k: int)
    requires
        0 <= offset,
        0 <= k < bits.len(),
        offset + 4 * k + 4 > data.len(),
    ensures
        forall|m: int|
            k <= m <= bits.len() ==> #[trigger] write_floats(data, offset, bits.subrange(0, m))
                == write_floats(data, offset, bits.subrange(0, k)),
{
    assert forall|m: int| k <= m <= bits.len() implies #[trigger] write_floats(
        data,
        offset,
        bits.subrange(0, m),
    ) == write_floats(data, offset, bits.subrange(0, k)) by {
        lemma_write_floats_stops_at(data, offset, bits, k, m);
    }
}

proof fn lemma_write_floats_stops_at(data: Seq<u8>, offset: int, bits: Seq<u32>, k: int, m: int)
    requires
        0 <= offset,
        0 <= k <= m <= bits.len(),
        offset + 4 * k + 4 > data.len(),
    ensures
        write_floats(data, offset, bits.subrange(0, m)) == write_floats(data, offset, bits.subrange(0, k)),
    decreases m - k,
{
    if m > k {
        lemma_write_floats_stops_at(data, offset, bits, k, m - 1);
        assert(bits.subrange(0, m).drop_last() =~= bits.subrange(0, m - 1));
        lemma_write_floats_frame(data, offset, bits.subrange(0, m - 1));
    }
}

pub(crate) fn find_uniform_exec(uniforms: &[UniformDescription], id: PropertyId) -> (r: Option<usize>)
    ensures
        match r {
            Some(k) => k < uniforms@.len() && find_uniform(uniforms@, id) == Some(k as int),
            None => find_uniform(uniforms@, id) is None,
        },
{
    let name: Option<String> = match id {
        PropertyId::Name(n) => Some(n.to_owned()),
        PropertyId::Location(_) => None,
    };
    let mut k: usize = 0;
    while k < uniforms.len()
        invariant
            0 <= k <= uniforms@.len(),
            forall|j: int| 0 <= j < k ==> !names_uniform(id, #[trigger] uniforms@[j]),
            match id {
                PropertyId::Name(n) => name matches Some(s) && s@ == n@,
                PropertyId::Location(_) => true,
            },
        decreases uniforms@.len() - k,
    {
        let hit = match id {
            PropertyId::Name(_) => match &name {
                Some(s) => uniforms[k].name == *s,
                None => false,
            },
            PropertyId::Location(location) => uniforms[k].location == location,
        };
        if hit {
            proof {
                let c = choose|c: int|
                    0 <= c < uniforms@.len() && names_uniform(id, uniforms@[c]) && forall|j: int|
                        0 <= j < c ==> !names_uniform(id, #[trigger] uniforms@[j]);
                assert(c == k) by {
                    if c < k {
                        assert(!names_uniform(id, uniforms@[c]));
                    }
                    if c > k {
                        assert(!names_uniform(id, uniforms@[k as int]));
                    }
                }
            }
            return Some(k);
        }
        k = k + 1;
    }
    None
}

impl Material {
    /// Applies `properties` in order: each writes its floats at the offset of the uniform it names
    /// in `uniforms`, four little-endian bytes per float, as many floats as it holds (and as fit
    /// in the blob). A property that names no uniform is skipped.
    pub fn update(&mut self, uniforms: &[UniformDescription], properties: &[MaterialProperty])
        ensures
            final(self).program == old(self).program,
            final(self).data@ == apply_properties(old(self).data@, uniforms@, properties@),
    {
        let ghost initial = self.data@;
        let mut i: usize = 0;
        while i < properties.len()
            invariant
                0 <= i <= properties@.len(),
                self.program == old(self).program,
                initial == old(self).data@,
                self.data@ == apply_properties(initial, uniforms@, properties@.subrange(0, i as int)),
            decreases properties@.len() - i,
        {
            proof {
                assert(properties@.subrange(0, i + 1).drop_last() =~= properties@.subrange(0, i as int));
            }
            let prop = properties[i];
            match find_uniform_exec(uniforms, prop.property) {
                Some(k) => match prop.value {
                    PropertyValue::F32(values) => {
                        write_floats_exec(&mut self.data, uniforms[k].offset, values);
                    },
                },
                None => {},
            }
            i = i + 1;
        }
        proof {
            assert(properties@.subrange(0, i as int) =~= properties@);
        }
    }
}

} // verus!
