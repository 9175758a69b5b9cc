//! The ASDU: a header and the information objects that it governs.
//!
//! The header gives the type of the objects, their number, the addressing
//! mode, the cause of transmission and the common address. The objects
//! follow, each as the type's row of the layout table lays it out. With
//! sequential addressing only the first object carries its address; the
//! address of object `i` is the first address plus `i`.
//!
//! An ASDU of a type that the table has no row for keeps the bytes after
//! its header as they came.

use crate::error::AsduError;
use crate::laws::law_asdu_round_trip;
use crate::object::{address_at, address_bytes, read_address, write_address, InformationObject};
use crate::primitive::{append_bytes, bit, byte_of, u16_le};
use crate::profile::{CauseWidth, CommonAddressWidth, Profile};
use crate::type_id::{lemma_element_len, Category, Layout, TypeId};
use vstd::prelude::*;
use vstd::slice::{slice_subrange, slice_to_vec};

verus! {

/// The largest number of objects that one ASDU can announce.
pub const MAX_OBJECTS: u8 = 127;

/// The largest ASDU that fits a frame, in bytes.
pub const MAX_ASDU_LEN: usize = 249;

/// The cause of transmission.
#[derive(Clone, Copy, Debug, PartialEq, Eq, Structural)]
pub struct Cause {
    /// Bit 6: the ASDU was sent for a test.
    pub test: bool,
    /// Bit 7: the confirmation is negative.
    pub negative: bool,
    /// Bits 0 to 5: the cause itself. The protocol defines 1 to 47.
    pub code: u8,
    /// The originator address, on links whose cause field has two bytes.
    pub originator: Option<u8>,
}

/// What follows the header of an ASDU.
#[derive(Clone, Debug, PartialEq, Eq)]
pub enum AsduBody {
    /// The objects of an ASDU of a known type, in the order of the bytes.
    Objects(Vec<InformationObject>),
    /// The bytes of an ASDU of an unknown type, and the number of objects
    /// that its header announces.
    Raw { count: u8, bytes: Vec<u8> },
}

/// An application service data unit.
#[derive(Clone, Debug, PartialEq, Eq)]
pub struct Asdu {
    pub type_id: TypeId,
    /// Whether only the first object carries its address.
    pub sequential: bool,
    pub cause: Cause,
    pub common_address: u16,
    pub body: AsduBody,
}

/// The mathematical value of an [`AsduBody`].
#[verifier::ext_equal]
pub ghost enum BodyView {
    Objects(Seq<InformationObject>),
    Raw { count: u8, bytes: Seq<u8> },
}

/// The mathematical value of an [`Asdu`].
#[verifier::ext_equal]
pub ghost struct AsduView {
    pub type_id: TypeId,
    pub sequential: bool,
    pub cause: Cause,
    pub common_address: u16,
    pub body: BodyView,
}

impl View for AsduBody {
    type V = BodyView;

    open spec fn view(&self) -> BodyView {
        match self {
            AsduBody::Objects(objects) => BodyView::Objects(objects@),
            AsduBody::Raw { count, bytes } => BodyView::Raw { count: *count, bytes: bytes@ },
        }
    }
}

impl View for Asdu {
    type V = AsduView;

    open spec fn view(&self) -> AsduView {
        AsduView {
            type_id: self.type_id,
            sequential: self.sequential,
            cause: self.cause,
            common_address: self.common_address,
            body: self.body@,
        }
    }
}

impl Cause {
    /// Whether the cause can be written under `profile`: the code fits its
    /// 6 bits, and the originator is there exactly if the link sends one.
    pub open spec fn spec_valid(&self, profile: Profile) -> bool {
        &&& self.code < 64
        &&& self.originator is Some <==> profile.cause_width == CauseWidth::Two
    }

    /// The first byte of the cause field.
    pub open spec fn spec_byte(&self) -> u8 {
        (self.code + 64 * bit(self.test) + 128 * bit(self.negative)) as u8
    }

    /// The bytes of the cause field: the cause byte, then the originator
    /// where there is one.
    pub open spec fn spec_bytes(&self) -> Seq<u8> {
        match self.originator {
            Some(originator) => seq![self.spec_byte(), originator],
            None => seq![self.spec_byte()],
        }
    }

    /// The cause that the bytes from `at` on hold under `profile`.
    pub open spec fn spec_read(profile: Profile, s: Seq<u8>, at: int) -> Cause {
        Cause {
            test: (s[at] / 64) % 2 == 1,
            negative: s[at] / 128 == 1,
            code: s[at] % 64,
            originator: match profile.cause_width {
                CauseWidth::One => None,
                CauseWidth::Two => Some(s[at + 1]),
            },
        }
    }

    #[verifier::when_used_as_spec(spec_valid)]
    pub fn valid(&self, profile: Profile) -> (b: bool)
        ensures
            b == self.spec_valid(profile),
    {
        let has_originator = match self.originator {
            Some(_) => true,
            None => false,
        };
        let wants_originator = match profile.cause_width {
            CauseWidth::One => false,
            CauseWidth::Two => true,
        };
        self.code < 64 && has_originator == wants_originator
    }

    /// Reads a cause at `at`.
    pub fn read(profile: &Profile, buf: &[u8], at: usize) -> (c: Cause)
        requires
            at + profile.spec_cause_len() <= buf.len(),
        ensures
            c == Cause::spec_read(*profile, buf@, at as int),
            c.spec_valid(*profile),
    {
        let b: u8 = buf[at];
        let originator = match profile.cause_width {
            CauseWidth::One => None,
            CauseWidth::Two => Some(buf[at + 1]),
        };
        Cause { test: (b / 64) % 2 == 1, negative: b / 128 == 1, code: b % 64, originator }
    }

    /// Appends the bytes of the cause field to `out`.
    pub fn write(&self, out: &mut Vec<u8>)
        requires
            self.code < 64,
        ensures
            final(out)@ == old(out)@ + self.spec_bytes(),
    {
        let ghost before = out@;
        let t: u8 = if self.test {
            64
        } else {
            0
        };
        let n: u8 = if self.negative {
            128
        } else {
            0
        };
        out.push(self.code + t + n);
        match self.originator {
            Some(originator) => {
                out.push(originator);
            },
            None => {},
        }
        assert(out@ =~= before + self.spec_bytes());
    }
}

/// The bytes of a common address under `profile`, low byte first.
pub open spec fn common_address_bytes(address: u16, profile: Profile) -> Seq<u8> {
    match profile.common_address_width {
        CommonAddressWidth::One => seq![byte_of(address as int, 0)],
        CommonAddressWidth::Two => seq![byte_of(address as int, 0), byte_of(address as int, 1)],
    }
}

/// The common address that the bytes from `at` on hold under `profile`.
pub open spec fn common_address_at(profile: Profile, s: Seq<u8>, at: int) -> u16 {
    match profile.common_address_width {
        CommonAddressWidth::One => s[at] as u16,
        CommonAddressWidth::Two => u16_le(s[at], s[at + 1]),
    }
}

/// The variable structure qualifier: the object count in bits 0 to 6, the
/// addressing mode in bit 7.
pub open spec fn qualifier_byte(sequential: bool, count: int) -> u8 {
    (count + 128 * bit(sequential)) as u8
}

/// Bytes of one object: its element, and its address where it carries one.
pub open spec fn object_len(layout: Layout, with_address: bool, profile: Profile) -> int {
    layout.spec_element_len() + (if with_address {
        profile.spec_object_address_len() as int
    } else {
        0
    })
}

/// Bytes of `count` objects. With sequential addressing one address and
/// `count` elements; otherwise `count` times an address and an element.
#[verifier::opaque]
pub open spec fn objects_len(layout: Layout, sequential: bool, count: int, profile: Profile) -> int {
    if sequential {
        profile.spec_object_address_len() + count * layout.spec_element_len()
    } else {
        count * (profile.spec_object_address_len() + layout.spec_element_len())
    }
}

/// Bytes of the first `i` objects of an ASDU.
pub open spec fn objects_offset(layout: Layout, sequential: bool, i: int, profile: Profile) -> int {
    if i == 0 {
        0
    } else {
        objects_len(layout, sequential, i, profile)
    }
}

/// Where the element of object `i` starts, the objects starting at `base`.
#[verifier::opaque]
pub open spec fn element_offset(
    layout: Layout,
    sequential: bool,
    profile: Profile,
    base: int,
    i: int,
) -> int {
    if sequential {
        base + profile.spec_object_address_len() + i * layout.spec_element_len()
    } else {
        base + i * (profile.spec_object_address_len() + layout.spec_element_len())
            + profile.spec_object_address_len()
    }
}

/// The address of object `i`. With sequential addressing it is the address
/// that stands at `base`, plus `i`; otherwise the address that stands
/// before the object's own element.
pub open spec fn object_address_at(
    layout: Layout,
    sequential: bool,
    profile: Profile,
    s: Seq<u8>,
    base: int,
    i: int,
) -> u32 {
    if sequential {
        (address_at(profile, s, base) + i) as u32
    } else {
        address_at(
            profile,
            s,
            element_offset(layout, sequential, profile, base, i)
                - profile.spec_object_address_len(),
        )
    }
}

/// Object `i` of the objects that start at `base`.
pub open spec fn object_at(
    layout: Layout,
    sequential: bool,
    profile: Profile,
    s: Seq<u8>,
    base: int,
    i: int,
) -> InformationObject {
    InformationObject::spec_read_element(
        layout,
        object_address_at(layout, sequential, profile, s, base, i),
        s,
        element_offset(layout, sequential, profile, base, i),
    )
}

/// The `count` objects that start at `base`, in order.
pub open spec fn objects_at(
    layout: Layout,
    sequential: bool,
    count: int,
    profile: Profile,
    s: Seq<u8>,
    base: int,
) -> Seq<InformationObject> {
    Seq::new(count as nat, |i: int| object_at(layout, sequential, profile, s, base, i))
}

/// What the bytes of an ASDU region say.
///
/// A region shorter than the header is truncated. The type is the one that
/// the first byte names. For an unknown type the header is read and the
/// rest is kept as it is. For a known type an object count of zero is an
/// error, and so is a region whose length is not the header's plus that of
/// the objects it announces; otherwise the objects are read in order.
pub open spec fn decode_asdu_spec(s: Seq<u8>, profile: Profile) -> Result<AsduView, AsduError> {
    let header = profile.spec_header_len() as int;
    if s.len() < header {
        Err(AsduError::Truncated)
    } else {
        let type_id = TypeId::spec_from_code(s[0]);
        let sequential = s[1] / 128 == 1;
        let count = s[1] % 128;
        let cause = Cause::spec_read(profile, s, 2);
        let common_address = common_address_at(profile, s, 2 + profile.spec_cause_len());
        match type_id.spec_layout() {
            None => Ok(
                AsduView {
                    type_id,
                    sequential,
                    cause,
                    common_address,
                    body: BodyView::Raw { count, bytes: s.skip(header) },
                },
            ),
            Some(layout) => if count == 0 {
                Err(AsduError::ZeroObjects)
            } else if s.len() != header + objects_len(layout, sequential, count as int, profile) {
                Err(AsduError::Truncated)
            } else {
                Ok(
                    AsduView {
                        type_id,
                        sequential,
                        cause,
                        common_address,
                        body: BodyView::Objects(
                            objects_at(layout, sequential, count as int, profile, s, header),
                        ),
                    },
                )
            },
        }
    }
}

/// Whether the bytes of an ASDU region hold nothing but the ASDU: in every
/// object of a known type, the bits that its row does not use are clear.
/// Of an unknown type every byte is kept, so that nothing can be lost.
pub open spec fn asdu_is_canonical(s: Seq<u8>, profile: Profile) -> bool {
    let sequential = s[1] / 128 == 1;
    let count = s[1] % 128;
    let header = profile.spec_header_len() as int;
    match TypeId::spec_from_code(s[0]).spec_layout() {
        None => true,
        Some(layout) => forall|i: int|
            0 <= i < count ==> InformationObject::element_is_canonical(
                layout,
                s,
                #[trigger] element_offset(layout, sequential, profile, header, i),
            ),
    }
}

/// The bytes of one object: its address where it carries one, then its
/// element.
#[verifier::opaque]
pub open spec fn object_bytes(
    o: InformationObject,
    layout: Layout,
    with_address: bool,
    profile: Profile,
) -> Seq<u8> {
    (if with_address {
        address_bytes(o.address, profile)
    } else {
        Seq::empty()
    }) + o.spec_element_bytes(layout)
}

/// The bytes of the objects of an ASDU, in order. With sequential
/// addressing only the first carries its address.
pub open spec fn objects_bytes(
    objects: Seq<InformationObject>,
    layout: Layout,
    sequential: bool,
    profile: Profile,
) -> Seq<u8>
    decreases objects.len(),
{
    if objects.len() == 0 {
        Seq::empty()
    } else {
        objects_bytes(objects.drop_last(), layout, sequential, profile) + object_bytes(
            objects.last(),
            layout,
            !sequential || objects.len() == 1,
            profile,
        )
    }
}

impl AsduView {
    /// The number of objects: how many there are, or for an unknown type
    /// how many the header announces.
    pub open spec fn count(self) -> int {
        match self.body {
            BodyView::Objects(objects) => objects.len() as int,
            BodyView::Raw { count, .. } => count as int,
        }
    }

    /// Bytes of what follows the header.
    pub open spec fn body_len(self, profile: Profile) -> int {
        match self.body {
            BodyView::Objects(objects) => match self.type_id.spec_layout() {
                Some(layout) => objects_len(
                    layout,
                    self.sequential,
                    objects.len() as int,
                    profile,
                ),
                None => 0,
            },
            BodyView::Raw { bytes, .. } => bytes.len() as int,
        }
    }

    /// Bytes of the whole ASDU.
    pub open spec fn encoded_len(self, profile: Profile) -> int {
        profile.spec_header_len() + self.body_len(profile)
    }

    /// Whether the addresses of `objects` can be sent in the addressing
    /// mode: each fits the profile's width where each is sent; where only
    /// the first is sent, it fits and the others follow it one by one.
    pub open spec fn addresses_valid(
        objects: Seq<InformationObject>,
        sequential: bool,
        profile: Profile,
    ) -> bool {
        if sequential {
            &&& objects.len() > 0 ==> objects[0].address < profile.object_address_limit()
            &&& forall|i: int|
                0 <= i < objects.len() ==> (#[trigger] objects[i]).address == objects[0].address
                    + i
        } else {
            forall|i: int|
                0 <= i < objects.len() ==> (#[trigger] objects[i]).address
                    < profile.object_address_limit()
        }
    }

    /// Whether the ASDU can be written under `profile`.
    ///
    /// The type names itself in the one way there is, the cause and the
    /// common address fit their fields, and the whole fits a frame. An
    /// ASDU of a known type holds 1 to 127 objects that fit the type's row,
    /// with addresses that the addressing mode can send. An ASDU of an
    /// unknown type holds raw bytes and announces up to 127 objects.
    pub open spec fn valid(self, profile: Profile) -> bool {
        &&& self.type_id.spec_valid()
        &&& self.cause.spec_valid(profile)
        &&& self.common_address < profile.common_address_limit()
        &&& self.encoded_len(profile) <= MAX_ASDU_LEN
        &&& match self.body {
            BodyView::Objects(objects) => {
                &&& self.type_id.spec_layout() is Some
                &&& 1 <= objects.len() <= MAX_OBJECTS
                &&& forall|i: int|
                    0 <= i < objects.len() ==> (#[trigger] objects[i]).spec_fits(
                        self.type_id.spec_layout()->0,
                    )
                &&& Self::addresses_valid(objects, self.sequential, profile)
            },
            BodyView::Raw { count, .. } => {
                &&& self.type_id.spec_layout() is None
                &&& count <= MAX_OBJECTS
            },
        }
    }

    /// The category of the objects, or `None` for an unknown type.
    pub open spec fn category(self) -> Option<Category> {
        match self.type_id.spec_layout() {
            Some(layout) => Some(layout.category),
            None => None,
        }
    }

    /// The objects of category `expected`.
    ///
    /// Where the type of the ASDU is not of that category, the answer is
    /// `TypeMismatch`. Otherwise it is the objects whose payload is of the
    /// category, in order; an ASDU that was decoded, or that is valid, has
    /// no others.
    pub open spec fn objects_of(self, expected: Category) -> Result<
        Seq<InformationObject>,
        AsduError,
    > {
        if self.category() != Some(expected) {
            Err(AsduError::TypeMismatch)
        } else {
            match self.body {
                BodyView::Objects(objects) => Ok(
                    objects.filter(|o: InformationObject| o.payload.spec_category() == expected),
                ),
                BodyView::Raw { .. } => Ok(Seq::empty()),
            }
        }
    }

    /// The bytes of the header: type, variable structure qualifier, cause
    /// of transmission, common address.
    pub open spec fn header_bytes(self, profile: Profile) -> Seq<u8> {
        seq![self.type_id.spec_code(), qualifier_byte(self.sequential, self.count())]
            + self.cause.spec_bytes() + common_address_bytes(self.common_address, profile)
    }

    /// The bytes of what follows the header.
    pub open spec fn body_bytes(self, profile: Profile) -> Seq<u8> {
        match self.body {
            BodyView::Objects(objects) => match self.type_id.spec_layout() {
                Some(layout) => objects_bytes(objects, layout, self.sequential, profile),
                None => Seq::empty(),
            },
            BodyView::Raw { bytes, .. } => bytes,
        }
    }

    /// The bytes of the ASDU.
    pub open spec fn bytes(self, profile: Profile) -> Seq<u8> {
        self.header_bytes(profile) + self.body_bytes(profile)
    }
}

/// Reads a common address at `at`.
pub fn read_common_address(profile: &Profile, buf: &[u8], at: usize) -> (a: u16)
    requires
        at + profile.spec_common_address_len() <= buf.len(),
    ensures
        a == common_address_at(*profile, buf@, at as int),
        a < profile.common_address_limit(),
{
    match profile.common_address_width {
        CommonAddressWidth::One => buf[at] as u16,
        CommonAddressWidth::Two => buf[at] as u16 + 256 * (buf[at + 1] as u16),
    }
}

/// Appends the bytes of a common address to `out`.
pub fn write_common_address(address: u16, profile: &Profile, out: &mut Vec<u8>)
    requires
        address < profile.common_address_limit(),
    ensures
        final(out)@ == old(out)@ + common_address_bytes(address, *profile),
{
    let ghost before = out@;
    match profile.common_address_width {
        CommonAddressWidth::One => {
            out.push(address as u8);
        },
        CommonAddressWidth::Two => {
            out.push((address % 256) as u8);
            out.push((address / 256) as u8);
        },
    }
    assert(out@ =~= before + common_address_bytes(address, *profile));
}

/// Products of an index and a stride: the next one is one stride further,
/// and none goes beyond the product of the count.
pub proof fn lemma_stride(i: int, n: int, stride: int)
    by (nonlinear_arith)
    requires
        0 <= i < n,
        0 <= stride,
    ensures
        0 <= i * stride,
        (i + 1) * stride == i * stride + stride,
        (i + 1) * stride <= n * stride,
{
}

/// Bounds of the bytes of `count` objects.
pub proof fn lemma_objects_len_bounds(
    layout: Layout,
    sequential: bool,
    count: int,
    profile: Profile,
)
    requires
        0 <= count <= 127,
    ensures
        0 <= objects_len(layout, sequential, count, profile) <= 127 * 15,
        count >= 1 ==> objects_len(layout, sequential, count, profile) >= 1,
        objects_len(layout, sequential, count, profile) == (if sequential {
            profile.spec_object_address_len() + count * layout.spec_element_len()
        } else {
            count * (profile.spec_object_address_len() + layout.spec_element_len())
        }),
{
    reveal(objects_len);
    let e = layout.spec_element_len() as int;
    let a = profile.spec_object_address_len() as int;
    lemma_element_len(layout);
    assert(1 <= e <= 12);
    assert(1 <= a <= 3);
    assert(0 <= count * e <= 127 * 12) by (nonlinear_arith)
        requires
            0 <= count <= 127,
            1 <= e <= 12,
    ;
    assert(0 <= count * (a + e) <= 127 * 15) by (nonlinear_arith)
        requires
            0 <= count <= 127,
            1 <= a + e <= 15,
    ;
    if count >= 1 {
        assert(count * (a + e) >= 1) by (nonlinear_arith)
            requires
                count >= 1,
                a + e >= 1,
        ;
    }
}

/// How the offsets of the objects follow each other: the bytes before
/// object `i + 1` are those before object `i` and object `i` itself, and
/// the element of object `i` stands behind its address, if it carries one.
pub proof fn lemma_offset_step(
    layout: Layout,
    sequential: bool,
    profile: Profile,
    base: int,
    i: int,
)
    requires
        0 <= i,
    ensures
        0 <= objects_offset(layout, sequential, i, profile),
        objects_offset(layout, sequential, i + 1, profile) == objects_offset(
            layout,
            sequential,
            i,
            profile,
        ) + object_len(layout, !sequential || i == 0, profile),
        element_offset(layout, sequential, profile, base, i) == base + objects_offset(
            layout,
            sequential,
            i,
            profile,
        ) + (if !sequential || i == 0 {
            profile.spec_object_address_len() as int
        } else {
            0
        }),
        element_offset(layout, sequential, profile, base, i) == (if sequential {
            base + profile.spec_object_address_len() + i * layout.spec_element_len()
        } else {
            base + i * (profile.spec_object_address_len() + layout.spec_element_len())
                + profile.spec_object_address_len()
        }),
{
    reveal(objects_len);
    reveal(element_offset);
    let e = layout.spec_element_len() as int;
    let a = profile.spec_object_address_len() as int;
    lemma_stride(i, i + 1, e);
    lemma_stride(i, i + 1, a + e);
}

/// Reads the `count` objects that start at `base`.
fn read_objects(
    layout: Layout,
    sequential: bool,
    count: u8,
    profile: &Profile,
    buf: &[u8],
    base: usize,
) -> (objects: Vec<InformationObject>)
    requires
        1 <= count <= 127,
        base + objects_len(layout, sequential, count as int, *profile) == buf.len(),
    ensures
        objects@ == objects_at(layout, sequential, count as int, *profile, buf@, base as int),
        forall|i: int| 0 <= i < objects@.len() ==> (#[trigger] objects@[i]).spec_fits(layout),
{
    let address_len: usize = profile.object_address_len();
    let element_len: usize = layout.element_len();
    let n: usize = count as usize;
    proof {
        lemma_objects_len_bounds(layout, sequential, count as int, *profile);
    }
    let ghost total = objects_len(layout, sequential, count as int, *profile);
    let first: u32 = if sequential {
        read_address(profile, buf, base)
    } else {
        0
    };
    let mut objects: Vec<InformationObject> = Vec::new();
    let mut i: usize = 0;
    let mut at: usize = base;
    while i < n
        invariant
            i <= n,
            n == count,
            1 <= count <= 127,
            address_len == profile.spec_object_address_len(),
            element_len == layout.spec_element_len(),
            base + total == buf.len(),
            total == (if sequential {
                address_len + n * element_len
            } else {
                n * (address_len + element_len)
            }),
            sequential ==> first == address_at(*profile, buf@, base as int),
            at == (if sequential {
                base + i * element_len
            } else {
                base + i * (address_len + element_len)
            }),
            objects@.len() == i,
            forall|k: int|
                0 <= k < i ==> #[trigger] objects@[k] == object_at(
                    layout,
                    sequential,
                    *profile,
                    buf@,
                    base as int,
                    k,
                ),
            forall|k: int| 0 <= k < i ==> (#[trigger] objects@[k]).spec_fits(layout),
        decreases n - i,
    {
        proof {
            lemma_stride(i as int, n as int, element_len as int);
            lemma_stride(i as int, n as int, (address_len + element_len) as int);
            lemma_offset_step(layout, sequential, *profile, base as int, i as int);
        }
        let o = if sequential {
            InformationObject::read_element(layout, first + i as u32, buf, at + address_len)
        } else {
            let address = read_address(profile, buf, at);
            InformationObject::read_element(layout, address, buf, at + address_len)
        };
        objects.push(o);
        at = at + (if sequential {
            element_len
        } else {
            address_len + element_len
        });
        i = i + 1;
    }
    assert(objects@ =~= objects_at(layout, sequential, count as int, *profile, buf@, base as int));
    objects
}

/// Reads an ASDU from the bytes of its region.
///
/// `buf` is the region and nothing else: the caller has cut it out of the
/// frame. The result is the one that [`decode_asdu_spec`] gives.
pub fn decode_asdu(buf: &[u8], profile: &Profile) -> (r: Result<Asdu, AsduError>)
    ensures
        match r {
            Ok(asdu) => decode_asdu_spec(buf@, *profile) == Ok::<AsduView, AsduError>(asdu@),
            Err(e) => decode_asdu_spec(buf@, *profile) == Err::<AsduView, AsduError>(e),
        },
{
    let header: usize = profile.header_len();
    if buf.len() < header {
        return Err(AsduError::Truncated);
    }
    let type_id = TypeId::from_code(buf[0]);
    let sequential: bool = buf[1] / 128 == 1;
    let count: u8 = buf[1] % 128;
    let cause = Cause::read(profile, buf, 2);
    let common_address: u16 = read_common_address(profile, buf, 2 + profile.cause_len());
    match type_id.layout() {
        None => {
            let bytes = slice_to_vec(slice_subrange(buf, header, buf.len()));
            assert(bytes@ =~= buf@.skip(header as int));
            Ok(
                Asdu {
                    type_id,
                    sequential,
                    cause,
                    common_address,
                    body: AsduBody::Raw { count, bytes },
                },
            )
        },
        Some(layout) => {
            if count == 0 {
                return Err(AsduError::ZeroObjects);
            }
            let address_len: usize = profile.object_address_len();
            let element_len: usize = layout.element_len();
            let n: usize = count as usize;
            proof {
                lemma_objects_len_bounds(layout, sequential, count as int, *profile);
                assert(n * element_len <= 127 * 12) by (nonlinear_arith)
                    requires
                        n <= 127,
                        element_len <= 12,
                ;
                assert(n * (address_len + element_len) <= 127 * 15) by (nonlinear_arith)
                    requires
                        n <= 127,
                        address_len + element_len <= 15,
                ;
            }
            let expected: usize = if sequential {
                address_len + n * element_len
            } else {
                n * (address_len + element_len)
            };
            if buf.len() - header != expected {
                return Err(AsduError::Truncated);
            }
            let objects = read_objects(layout, sequential, count, profile, buf, header);
            Ok(
                Asdu {
                    type_id,
                    sequential,
                    cause,
                    common_address,
                    body: AsduBody::Objects(objects),
                },
            )
        },
    }
}

/// The bytes of the objects grow by one object's bytes with each object.
pub proof fn lemma_objects_bytes_step(
    objects: Seq<InformationObject>,
    i: int,
    layout: Layout,
    sequential: bool,
    profile: Profile,
)
    requires
        0 <= i < objects.len(),
    ensures
        objects_bytes(objects.take(i + 1), layout, sequential, profile) == objects_bytes(
            objects.take(i),
            layout,
            sequential,
            profile,
        ) + object_bytes(objects[i], layout, !sequential || i == 0, profile),
{
    let t = objects.take(i + 1);
    assert(t.drop_last() =~= objects.take(i));
    assert(t.last() == objects[i]);
    assert(t.len() == i + 1);
}

/// Whether the objects fit the row and their addresses can be sent.
fn objects_valid(
    objects: &Vec<InformationObject>,
    layout: Layout,
    sequential: bool,
    profile: &Profile,
) -> (b: bool)
    ensures
        b == ((forall|i: int|
            0 <= i < objects@.len() ==> (#[trigger] objects@[i]).spec_fits(layout))
            && AsduView::addresses_valid(objects@, sequential, *profile)),
{
    let limit: u32 = profile.object_address_bound();
    let n: usize = objects.len();
    if sequential && n > 0 && objects[0].address >= limit {
        return false;
    }
    let mut i: usize = 0;
    while i < n
        invariant
            i <= n,
            n == objects@.len(),
            limit == profile.object_address_limit(),
            sequential && n > 0 ==> objects@[0].address < limit,
            forall|k: int| 0 <= k < i ==> (#[trigger] objects@[k]).spec_fits(layout),
            sequential ==> forall|k: int|
                0 <= k < i ==> (#[trigger] objects@[k]).address == objects@[0].address + k,
            !sequential ==> forall|k: int| 0 <= k < i ==> (#[trigger] objects@[k]).address < limit,
        decreases n - i,
    {
        let o = &objects[i];
        if !o.fits(layout) {
            return false;
        }
        if sequential {
            let first: u32 = objects[0].address;
            if o.address < first || (o.address - first) as usize != i {
                return false;
            }
        } else if o.address >= limit {
            return false;
        }
        i = i + 1;
    }
    true
}

/// Appends the bytes of the objects to `out`.
fn write_objects(
    objects: &Vec<InformationObject>,
    layout: Layout,
    sequential: bool,
    profile: &Profile,
    out: &mut Vec<u8>,
)
    requires
        forall|k: int| 0 <= k < objects@.len() ==> (#[trigger] objects@[k]).spec_fits(layout),
        AsduView::addresses_valid(objects@, sequential, *profile),
    ensures
        final(out)@ == old(out)@ + objects_bytes(objects@, layout, sequential, *profile),
{
    let ghost before = out@;
    let n: usize = objects.len();
    let mut i: usize = 0;
    assert(out@ =~= before + objects_bytes(objects@.take(0), layout, sequential, *profile));
    while i < n
        invariant
            i <= n,
            n == objects@.len(),
            forall|k: int| 0 <= k < objects@.len() ==> (#[trigger] objects@[k]).spec_fits(layout),
            AsduView::addresses_valid(objects@, sequential, *profile),
            out@ == before + objects_bytes(objects@.take(i as int), layout, sequential, *profile),
        decreases n - i,
    {
        let o = &objects[i];
        write_object(o, layout, !sequential || i == 0, profile, out);
        proof {
            lemma_objects_bytes_step(objects@, i as int, layout, sequential, *profile);
            assert(out@ =~= before + objects_bytes(
                objects@.take(i + 1),
                layout,
                sequential,
                *profile,
            ));
        }
        i = i + 1;
    }
    assert(objects@.take(n as int) =~= objects@);
}

/// Appends the bytes of one object to `out`.
fn write_object(
    o: &InformationObject,
    layout: Layout,
    with_address: bool,
    profile: &Profile,
    out: &mut Vec<u8>,
)
    requires
        o.spec_fits(layout),
        with_address ==> o.address < profile.object_address_limit(),
    ensures
        final(out)@ == old(out)@ + object_bytes(*o, layout, with_address, *profile),
{
    reveal(object_bytes);
    let ghost before = out@;
    if with_address {
        write_address(o.address, profile, out);
    }
    o.write_element(layout, out);
    assert(out@ =~= before + object_bytes(*o, layout, with_address, *profile));
}

impl Asdu {
    /// The number of objects: how many there are, or for an unknown type
    /// how many the header announces.
    pub fn object_count(&self) -> (n: usize)
        ensures
            n == self@.count(),
    {
        match &self.body {
            AsduBody::Objects(objects) => objects.len(),
            AsduBody::Raw { count, .. } => *count as usize,
        }
    }

    /// The category of the objects, or `None` for an unknown type.
    pub fn category(&self) -> (c: Option<Category>)
        ensures
            c == self@.category(),
    {
        match self.type_id.layout() {
            Some(layout) => Some(layout.category),
            None => None,
        }
    }

    /// The objects of category `expected`, or `TypeMismatch` where the type
    /// of the ASDU is of another category or unknown.
    pub fn objects_of(&self, expected: Category) -> (r: Result<Vec<InformationObject>, AsduError>)
        ensures
            match r {
                Ok(objects) => self@.objects_of(expected) == Ok::<
                    Seq<InformationObject>,
                    AsduError,
                >(objects@),
                Err(e) => self@.objects_of(expected) == Err::<Seq<InformationObject>, AsduError>(e),
            },
    {
        match self.category() {
            Some(c) => {
                if c != expected {
                    return Err(AsduError::TypeMismatch);
                }
            },
            None => {
                return Err(AsduError::TypeMismatch);
            },
        }
        let mut out: Vec<InformationObject> = Vec::new();
        match &self.body {
            AsduBody::Objects(objects) => {
                let ghost keep = |o: InformationObject| o.payload.spec_category() == expected;
                let n: usize = objects.len();
                let mut i: usize = 0;
                proof {
                    reveal(Seq::filter);
                    assert(objects@.take(0).filter(keep) =~= Seq::<InformationObject>::empty());
                }
                while i < n
                    invariant
                        i <= n,
                        n == objects@.len(),
                        keep == (|o: InformationObject| o.payload.spec_category() == expected),
                        out@ == objects@.take(i as int).filter(keep),
                    decreases n - i,
                {
                    let o = objects[i];
                    proof {
                        reveal(Seq::filter);
                        assert(objects@.take(i + 1).drop_last() =~= objects@.take(i as int));
                        assert(objects@.take(i + 1).last() == o);
                    }
                    if o.payload.category() == expected {
                        out.push(o);
                    }
                    i = i + 1;
                }
                proof {
                    assert(objects@.take(n as int) =~= objects@);
                }
                Ok(out)
            },
            AsduBody::Raw { .. } => Ok(out),
        }
    }

    /// Whether the ASDU can be written under `profile`.
    pub fn is_valid(&self, profile: &Profile) -> (b: bool)
        ensures
            b == self@.valid(*profile),
    {
        if !self.type_id.valid() || !self.cause.valid(*profile) || self.common_address as u32
            >= profile.common_address_bound() {
            return false;
        }
        let header: usize = profile.header_len();
        match &self.body {
            AsduBody::Objects(objects) => {
                let n: usize = objects.len();
                match self.type_id.layout() {
                    None => false,
                    Some(layout) => {
                        if n < 1 || n > 127 {
                            return false;
                        }
                        let address_len: usize = profile.object_address_len();
                        let element_len: usize = layout.element_len();
                        proof {
                            lemma_objects_len_bounds(layout, self.sequential, n as int, *profile);
                            assert(n * element_len <= 127 * 12) by (nonlinear_arith)
                                requires
                                    n <= 127,
                                    element_len <= 12,
                            ;
                            assert(n * (address_len + element_len) <= 127 * 15)
                                by (nonlinear_arith)
                                requires
                                    n <= 127,
                                    address_len + element_len <= 15,
                            ;
                        }
                        let body_len: usize = if self.sequential {
                            address_len + n * element_len
                        } else {
                            n * (address_len + element_len)
                        };
                        if header + body_len > MAX_ASDU_LEN {
                            return false;
                        }
                        objects_valid(objects, layout, self.sequential, profile)
                    },
                }
            },
            AsduBody::Raw { count, bytes } => {
                match self.type_id.layout() {
                    Some(_) => false,
                    None => *count <= MAX_OBJECTS && bytes.len() <= MAX_ASDU_LEN - header,
                }
            },
        }
    }

    /// The number of bytes that the ASDU takes on the wire.
    pub fn encoded_len(&self, profile: &Profile) -> (n: usize)
        requires
            self@.valid(*profile),
        ensures
            n == self@.encoded_len(*profile),
            n <= MAX_ASDU_LEN,
    {
        let header: usize = profile.header_len();
        match &self.body {
            AsduBody::Objects(objects) => {
                let layout = self.type_id.layout().unwrap();
                let n: usize = objects.len();
                let address_len: usize = profile.object_address_len();
                let element_len: usize = layout.element_len();
                proof {
                    lemma_objects_len_bounds(layout, self.sequential, n as int, *profile);
                    assert(n * element_len <= 127 * 12) by (nonlinear_arith)
                        requires
                            n <= 127,
                            element_len <= 12,
                    ;
                    assert(n * (address_len + element_len) <= 127 * 15) by (nonlinear_arith)
                        requires
                            n <= 127,
                            address_len + element_len <= 15,
                    ;
                }
                if self.sequential {
                    header + address_len + n * element_len
                } else {
                    header + n * (address_len + element_len)
                }
            },
            AsduBody::Raw { bytes, .. } => header + bytes.len(),
        }
    }

    /// Appends the bytes of the ASDU to `out`.
    pub fn write(&self, profile: &Profile, out: &mut Vec<u8>)
        requires
            self@.valid(*profile),
        ensures
            final(out)@ == old(out)@ + self@.bytes(*profile),
    {
        let ghost before = out@;
        self.write_header(profile, out);
        let ghost with_header = out@;
        match &self.body {
            AsduBody::Objects(objects) => {
                let layout = self.type_id.layout().unwrap();
                write_objects(objects, layout, self.sequential, profile, out);
            },
            AsduBody::Raw { bytes, .. } => {
                append_bytes(out, bytes.as_slice());
            },
        }
        assert(out@ == with_header + self@.body_bytes(*profile));
        assert(out@ =~= before + self@.bytes(*profile));
    }

    /// Appends the bytes of the header to `out`.
    fn write_header(&self, profile: &Profile, out: &mut Vec<u8>)
        requires
            self.cause.code < 64,
            self.common_address < profile.common_address_limit(),
            self@.count() <= 127,
        ensures
            final(out)@ == old(out)@ + self@.header_bytes(*profile),
    {
        let ghost before = out@;
        let count: usize = self.object_count();
        out.push(self.type_id.code());
        out.push(
            (count + if self.sequential {
                128
            } else {
                0
            }) as u8,
        );
        self.cause.write(out);
        write_common_address(self.common_address, profile, out);
        assert(out@ =~= before + self@.header_bytes(*profile));
    }

    /// The bytes of the ASDU, or `None` where it cannot be written under
    /// `profile`. The bytes decode to the ASDU.
    pub fn encode(&self, profile: &Profile) -> (r: Option<Vec<u8>>)
        ensures
            r is Some <==> self@.valid(*profile),
            r is Some ==> r->0@ == self@.bytes(*profile),
            r is Some ==> r->0@.len() == self@.encoded_len(*profile),
            r is Some ==> decode_asdu_spec(r->0@, *profile) == Ok::<AsduView, AsduError>(self@),
    {
        if !self.is_valid(profile) {
            return None;
        }
        let mut out: Vec<u8> = Vec::new();
        self.write(profile, &mut out);
        proof {
            assert(out@ =~= self@.bytes(*profile));
            law_asdu_round_trip(self@, *profile);
        }
        Some(out)
    }
}

} // verus!
