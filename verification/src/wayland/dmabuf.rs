//! Allocating GPU buffers for the compositor to render captures into.
//!
//! With a dmabuf the compositor renders into the buffer the application will read, and no pixel
//! is touched by a CPU. The client of the capture protocol provides the buffer, so it is this
//! program that allocates, on the render node the compositor named.

use crate::list::{first, lemma_filter_step, position};
use crate::text::{glue, hexadecimal, write_decimal, write_hexadecimal};
use crate::wayland::drm::drm_format_is_known;
use crate::wayland::drm::{is_invalid_modifier, knows_drm_format};
use vstd::arithmetic::div_mod::lemma_fundamental_div_mod_converse;
use vstd::prelude::*;

verus! {

/// The device buffers are allocated on.
#[derive(Debug, Clone, Copy, PartialEq, Eq, Structural)]
pub struct Allocator {
    /// The `dev_t` this was opened for, so a session naming a different GPU is not silently
    /// served from the wrong one.
    pub device_id: u64,
}

impl Allocator {
    /// Whether this allocator is for the device a session named.
    pub fn serves(&self, device_id: u64) -> (serves: bool)
        ensures
            serves == (self.device_id == device_id),
    {
        self.device_id == device_id
    }
}

/// The number that eight bytes are, the lowest first.
pub open spec fn lowest_first(bytes: Seq<u8>) -> int {
    bytes[0] + bytes[1] * 0x100 + bytes[2] * 0x1_0000 + bytes[3] * 0x100_0000 + bytes[4]
        * 0x1_0000_0000 + bytes[5] * 0x100_0000_0000 + bytes[6] * 0x1_0000_0000_0000 + bytes[7]
        * 0x100_0000_0000_0000
}

/// The number that eight bytes are, on a machine of this byte order.
pub open spec fn number_of(bytes: Seq<u8>, big_endian: bool) -> int {
    if big_endian {
        lowest_first(bytes.reverse())
    } else {
        lowest_first(bytes)
    }
}

/// The number in the eight bytes from `at` on.
fn number_at(bytes: &[u8], at: usize, big_endian: bool) -> (number: u64)
    requires
        at + 8 <= bytes@.len(),
    ensures
        number == number_of(bytes@.subrange(at as int, at + 8), big_endian),
{
    let (b0, b1, b2, b3) = (
        bytes[at] as u64,
        bytes[at + 1] as u64,
        bytes[at + 2] as u64,
        bytes[at + 3] as u64,
    );
    let (b4, b5, b6, b7) = (
        bytes[at + 4] as u64,
        bytes[at + 5] as u64,
        bytes[at + 6] as u64,
        bytes[at + 7] as u64,
    );
    if big_endian {
        b7 + b6 * 0x100 + b5 * 0x1_0000 + b4 * 0x100_0000 + b3 * 0x1_0000_0000 + b2
            * 0x100_0000_0000 + b1 * 0x1_0000_0000_0000 + b0 * 0x100_0000_0000_0000
    } else {
        b0 + b1 * 0x100 + b2 * 0x1_0000 + b3 * 0x100_0000 + b4 * 0x1_0000_0000 + b5
            * 0x100_0000_0000 + b6 * 0x1_0000_0000_0000 + b7 * 0x100_0000_0000_0000
    }
}

/// The device a session names, which it sends as the bytes of a `dev_t`.
pub fn device_from(bytes: &[u8], big_endian: bool) -> (device: Option<u64>)
    ensures
        match device {
            Some(device) => bytes@.len() == 8 && device == number_of(bytes@, big_endian),
            None => bytes@.len() != 8,
        },
{
    if bytes.len() != 8 {
        return None;
    }
    assert(bytes@.subrange(0, 8) =~= bytes@);
    Some(number_at(bytes, 0, big_endian))
}

/// The layouts a session offers, which it sends as an array of eight bytes each. What is left
/// over at the end is not one.
pub fn modifiers_from(bytes: &[u8], big_endian: bool) -> (modifiers: Vec<u64>)
    ensures
        modifiers@.len() == bytes@.len() / 8,
        forall|i: int|
            0 <= i < modifiers@.len() ==> #[trigger] modifiers@[i] == number_of(
                bytes@.subrange(i * 8, i * 8 + 8),
                big_endian,
            ),
{
    let length = bytes.len();
    let count = length / 8;
    let mut modifiers: Vec<u64> = Vec::new();
    let mut i: usize = 0;
    while i < count
        invariant
            i <= count,
            length == bytes@.len(),
            count == length / 8,
            modifiers@.len() == i,
            forall|j: int|
                0 <= j < i ==> #[trigger] modifiers@[j] == number_of(
                    bytes@.subrange(j * 8, j * 8 + 8),
                    big_endian,
                ),
        decreases count - i,
    {
        modifiers.push(number_at(bytes, i * 8, big_endian));
        i += 1;
    }
    modifiers
}

/// One plane of an allocated buffer.
#[derive(Debug, Clone, Copy, PartialEq, Eq, Structural)]
pub struct Plane {
    pub offset: u32,
    pub stride: u32,
}

/// A buffer the compositor can render into.
#[derive(Debug)]
pub struct Buffer {
    pub width: i32,
    pub height: i32,
    /// The layout the driver actually chose.
    pub modifier: u64,
    /// Almost always one for 32-bit RGB, but the format does not promise it.
    pub planes: Vec<Plane>,
}

/// What to ask the driver for.
#[derive(Debug)]
pub struct Allocation {
    pub fourcc: u32,
    /// The layouts to choose from. Empty means the driver's own, and then a linear one.
    pub modifiers: Vec<u64>,
    /// Whether the buffer is asked for without naming layouts.
    pub linear: bool,
}

/// One plane as the protocol is told about it.
#[derive(Debug, Clone, Copy, PartialEq, Eq, Structural)]
pub struct PlaneParams {
    pub index: u32,
    pub offset: u32,
    pub stride: u32,
    pub modifier_hi: u32,
    pub modifier_lo: u32,
}

/// The modifiers that name a layout.
pub open spec fn names_a_layout() -> spec_fn(u64) -> bool {
    |m: u64| m != 0x00ff_ffff_ffff_ffff
}

/// What an unknown format is answered with.
pub open spec fn unknown_format(fourcc: u32) -> Seq<char> {
    "the compositor offered an unknown format 0x"@ + hexadecimal(fourcc as nat)
}

/// Whether this is what is to be asked of the driver, where `known` says whether the format has
/// a name.
pub open spec fn is_allocation(
    fourcc: u32,
    known: bool,
    modifiers: Seq<u64>,
    plan: Result<Allocation, String>,
) -> bool {
    match plan {
        Ok(allocation) => {
            &&& known
            &&& allocation.fourcc == fourcc
            &&& allocation.modifiers@ == modifiers.filter(names_a_layout())
            &&& allocation.linear == (allocation.modifiers@.len() == 0)
        },
        Err(why) => !known && why@ == unknown_format(fourcc),
    }
}

/// Work out what to ask the driver for.
///
/// The layouts are what the compositor offered for this format. They go to the driver as a set,
/// so that it picks the best one both understand. Where none is usable the buffer is linear, and
/// the compositor may still refuse it.
pub fn allocate(fourcc: u32, modifiers: &[u64]) -> (plan: Result<Allocation, String>)
    ensures
        is_allocation(fourcc, drm_format_is_known(fourcc), modifiers@, plan),
{
    let known = knows_drm_format(fourcc);
    plan_allocation(fourcc, known, modifiers)
}

/// Work out what to ask the driver for, where `known` says whether the format has a name.
pub fn plan_allocation(fourcc: u32, known: bool, modifiers: &[u64]) -> (plan: Result<
    Allocation,
    String,
>)
    ensures
        is_allocation(fourcc, known, modifiers@, plan),
{
    if !known {
        return Err(
            glue(
                "the compositor offered an unknown format 0x",
                write_hexadecimal(fourcc as u64).as_str(),
            ),
        );
    }
    let mut usable: Vec<u64> = Vec::new();
    let mut i: usize = 0;
    assert(modifiers@.take(0).filter(names_a_layout()) =~= Seq::<u64>::empty()) by {
        reveal(Seq::filter);
    }
    while i < modifiers.len()
        invariant
            i <= modifiers.len(),
            usable@ == modifiers@.take(i as int).filter(names_a_layout()),
        decreases modifiers.len() - i,
    {
        proof {
            lemma_filter_step(modifiers@, names_a_layout(), i as int);
        }
        if !is_invalid_modifier(modifiers[i]) {
            usable.push(modifiers[i]);
        }
        i += 1;
    }
    assert(modifiers@.take(i as int) =~= modifiers@);
    let linear = usable.len() == 0;
    Ok(Allocation { fourcc, modifiers: usable, linear })
}

/// What the protocol is told about plane `index` of a buffer with this layout.
pub open spec fn plane_params(modifier: u64, index: int, plane: Plane) -> PlaneParams {
    PlaneParams {
        index: index as u32,
        offset: plane.offset,
        stride: plane.stride,
        modifier_hi: (modifier / 0x1_0000_0000) as u32,
        modifier_lo: (modifier % 0x1_0000_0000) as u32,
    }
}

/// Describe every plane to the compositor, in order.
pub fn describe_planes(modifier: u64, planes: &[Plane]) -> (params: Vec<PlaneParams>)
    requires
        planes@.len() <= u32::MAX,
    ensures
        params@.len() == planes@.len(),
        forall|i: int|
            0 <= i < planes@.len() ==> #[trigger] params@[i] == plane_params(
                modifier,
                i,
                planes@[i],
            ),
{
    let mut params: Vec<PlaneParams> = Vec::new();
    let mut i: usize = 0;
    while i < planes.len()
        invariant
            i <= planes.len(),
            planes@.len() <= u32::MAX,
            params@.len() == i,
            forall|j: int|
                0 <= j < i ==> #[trigger] params@[j] == plane_params(modifier, j, planes@[j]),
        decreases planes.len() - i,
    {
        params.push(
            PlaneParams {
                index: i as u32,
                offset: planes[i].offset,
                stride: planes[i].stride,
                modifier_hi: (modifier / 0x1_0000_0000) as u32,
                modifier_lo: (modifier % 0x1_0000_0000) as u32,
            },
        );
        i += 1;
    }
    params
}

/// The two halves that the protocol is told make up the layout again.
pub proof fn a_modifier_survives_being_split(modifier: u64, index: int, plane: Plane)
    ensures
        plane_params(modifier, index, plane).modifier_hi * 0x1_0000_0000 + plane_params(
            modifier,
            index,
            plane,
        ).modifier_lo == modifier,
{
}

/// A buffer as it was allocated: the size asked for, and the layout and planes the driver chose.
pub fn allocated(width: u32, height: u32, modifier: u64, planes: Vec<Plane>) -> (buffer: Buffer)
    ensures
        buffer.width == width as i32,
        buffer.height == height as i32,
        buffer.modifier == modifier,
        buffer.planes == planes,
{
    Buffer {
        width: #[verifier::truncate] (width as i32),
        height: #[verifier::truncate] (height as i32),
        modifier,
        planes,
    }
}

/// One entry of the device directory: its path, and the device it is, where that could be read.
#[derive(Debug)]
pub struct Node {
    pub path: Vec<u8>,
    pub rdev: Option<u64>,
}

/// The nodes that are this device.
pub open spec fn is_device(device_id: u64) -> spec_fn(Node) -> bool {
    |n: Node| n.rdev == Some(device_id)
}

/// Find the DRM node with this `dev_t`.
///
/// By number rather than by name: which name belongs to which GPU is not fixed across boots.
pub fn node_path(nodes: &[Node], device_id: u64) -> (found: Result<usize, String>)
    ensures
        match found {
            Ok(i) => i < nodes.len() && first(nodes@, is_device(device_id)) == Some(i as int),
            Err(why) => first(nodes@, is_device(device_id)) is None && why@
                == "no DRM node with device id "@ + crate::text::decimal(device_id as nat)
                + "; the compositor named a GPU this process cannot see"@,
        },
{
    let test = |n: &Node| -> (r: bool)
        ensures
            r == (n.rdev == Some(device_id)),
        {
            match n.rdev {
                Some(rdev) => rdev == device_id,
                None => false,
            }
        };
    match position(nodes, test, Ghost(is_device(device_id))) {
        Some(i) => Ok(i),
        None => Err(
            crate::text::glue3(
                "no DRM node with device id ",
                write_decimal(device_id).as_str(),
                "; the compositor named a GPU this process cannot see",
            ),
        ),
    }
}

/// Byte `k` of a number is the digit it has there in base 256, counted from the lowest on a
/// machine that puts the lowest byte first, and from the highest on one that puts the highest
/// first.
pub proof fn a_number_is_its_bytes(bytes: Seq<u8>, big_endian: bool)
    requires
        bytes.len() == 8,
    ensures
        ({
            let n = number_of(bytes, big_endian);
            let at = |k: int| bytes[if big_endian {
                7 - k
            } else {
                k
            }] as int;
            &&& 0 <= n < 0x1_0000_0000_0000_0000
            &&& n % 0x100 == at(0)
            &&& n / 0x100 % 0x100 == at(1)
            &&& n / 0x1_0000 % 0x100 == at(2)
            &&& n / 0x100_0000 % 0x100 == at(3)
            &&& n / 0x1_0000_0000 % 0x100 == at(4)
            &&& n / 0x100_0000_0000 % 0x100 == at(5)
            &&& n / 0x1_0000_0000_0000 % 0x100 == at(6)
            &&& n / 0x100_0000_0000_0000 % 0x100 == at(7)
        }),
{
    let b = |k: int| bytes[if big_endian {
        7 - k
    } else {
        k
    }] as int;
    let n = number_of(bytes, big_endian);
    let m7 = b(7);
    let m6 = b(6) + 0x100 * m7;
    let m5 = b(5) + 0x100 * m6;
    let m4 = b(4) + 0x100 * m5;
    let m3 = b(3) + 0x100 * m4;
    let m2 = b(2) + 0x100 * m3;
    let m1 = b(1) + 0x100 * m2;
    assert(n == b(0) + 0x100 * m1);
    let r2 = b(0) + 0x100 * b(1);
    let r3 = r2 + 0x1_0000 * b(2);
    let r4 = r3 + 0x100_0000 * b(3);
    let r5 = r4 + 0x1_0000_0000 * b(4);
    let r6 = r5 + 0x100_0000_0000 * b(5);
    let r7 = r6 + 0x1_0000_0000_0000 * b(6);
    lemma_fundamental_div_mod_converse(n, 0x100, m1, b(0));
    lemma_fundamental_div_mod_converse(n, 0x1_0000, m2, r2);
    lemma_fundamental_div_mod_converse(n, 0x100_0000, m3, r3);
    lemma_fundamental_div_mod_converse(n, 0x1_0000_0000, m4, r4);
    lemma_fundamental_div_mod_converse(n, 0x100_0000_0000, m5, r5);
    lemma_fundamental_div_mod_converse(n, 0x1_0000_0000_0000, m6, r6);
    lemma_fundamental_div_mod_converse(n, 0x100_0000_0000_0000, m7, r7);
    lemma_fundamental_div_mod_converse(m1, 0x100, m2, b(1));
    lemma_fundamental_div_mod_converse(m2, 0x100, m3, b(2));
    lemma_fundamental_div_mod_converse(m3, 0x100, m4, b(3));
    lemma_fundamental_div_mod_converse(m4, 0x100, m5, b(4));
    lemma_fundamental_div_mod_converse(m5, 0x100, m6, b(5));
    lemma_fundamental_div_mod_converse(m6, 0x100, m7, b(6));
    lemma_fundamental_div_mod_converse(m7, 0x100, 0, b(7));
}

/// The same bytes read the other way round are the same number on a machine of the other order.
pub proof fn the_other_order_reads_backwards(bytes: Seq<u8>)
    requires
        bytes.len() == 8,
    ensures
        number_of(bytes, true) == number_of(bytes.reverse(), false),
        number_of(bytes, false) == number_of(bytes.reverse(), true),
{
    assert(bytes.reverse().reverse() =~= bytes);
}

/// What the driver is asked for is a buffer in the compositor's own format, with every layout that
/// was offered except the one that names none; and without layouts where nothing is left.
pub proof fn the_driver_is_asked_for_what_was_offered(
    fourcc: u32,
    known: bool,
    modifiers: Seq<u64>,
    plan: Result<Allocation, String>,
    i: int,
)
    requires
        is_allocation(fourcc, known, modifiers, plan),
        0 <= i < modifiers.len(),
    ensures
        plan is Ok <==> known,
        plan matches Ok(asked) ==> {
            &&& asked.fourcc == fourcc
            &&& modifiers[i] != 72057594037927935u64 <==> asked.modifiers@.contains(modifiers[i])
            &&& modifiers[i] != 72057594037927935u64 ==> !asked.linear
            &&& asked.linear <==> forall|j: int|
                0 <= j < modifiers.len() ==> #[trigger] modifiers[j] == 72057594037927935u64
        },
{
    let p = names_a_layout();
    crate::list::lemma_filter_members(modifiers, p);
    if plan is Ok {
        let kept = modifiers.filter(p);
        if kept.contains(modifiers[i]) {
            let k = choose|k: int| 0 <= k < kept.len() && kept[k] == modifiers[i];
            assert(p(kept[k]));
        }
        if kept.len() == 0 {
            assert forall|j: int| 0 <= j < modifiers.len() implies #[trigger] modifiers[j]
                == 72057594037927935u64 by {
                if p(modifiers[j]) {
                    assert(kept.contains(modifiers[j]));
                }
            }
        } else {
            assert(p(kept[0]));
            assert(modifiers.contains(kept[0]));
        }
    }
}

/// Each plane is described under its own number, with its own offset and stride.
pub proof fn a_plane_is_described_as_it_is(modifier: u64, index: int, plane: Plane)
    requires
        0 <= index <= u32::MAX,
    ensures
        plane_params(modifier, index, plane).index == index,
        plane_params(modifier, index, plane).offset == plane.offset,
        plane_params(modifier, index, plane).stride == plane.stride,
        plane_params(modifier, index, plane).modifier_hi == modifier / 4294967296,
        plane_params(modifier, index, plane).modifier_lo == modifier % 4294967296,
{
}

/// The node that is found is the first with that number, and there is one where any has it.
pub proof fn a_device_is_found_by_its_number(nodes: Seq<Node>, device_id: u64, i: int)
    requires
        0 <= i < nodes.len(),
    ensures
        nodes[i].rdev == Some(device_id) ==> first(nodes, is_device(device_id)) is Some,
        first(nodes, is_device(device_id)) == Some(i) <==> nodes[i].rdev == Some(device_id) && (
        forall|j: int| 0 <= j < i ==> (#[trigger] nodes[j]).rdev != Some(device_id)),
{
    let p = is_device(device_id);
    crate::list::lemma_first(nodes, p);
    if nodes[i].rdev == Some(device_id) {
        assert(p(nodes[i]));
        crate::list::lemma_first_exists(nodes, p, i);
        if forall|j: int| 0 <= j < i ==> (#[trigger] nodes[j]).rdev != Some(device_id) {
            assert forall|j: int| 0 <= j < i implies !p(#[trigger] nodes[j]) by {}
            crate::list::lemma_first_is(nodes, p, i);
        }
    }
    if first(nodes, p) == Some(i) {
        assert forall|j: int| 0 <= j < i implies (#[trigger] nodes[j]).rdev != Some(
            device_id,
        ) by {
            assert(!p(nodes[j]));
        }
    }
}

/// The layouts keep the compositor's order of preference: one more at the end of the offer is one
/// more at the end of what the driver is asked, unless it names none.
pub proof fn the_layouts_keep_their_order(
    fourcc: u32,
    modifiers: Seq<u64>,
    more: u64,
    plan: Allocation,
    longer: Allocation,
)
    requires
        is_allocation(fourcc, true, modifiers, Ok(plan)),
        is_allocation(fourcc, true, modifiers.push(more), Ok(longer)),
    ensures
        more != 72057594037927935u64 ==> longer.modifiers@ == plan.modifiers@.push(more),
        more == 72057594037927935u64 ==> longer.modifiers@ == plan.modifiers@,
{
    let all = modifiers.push(more);
    lemma_filter_step(all, names_a_layout(), modifiers.len() as int);
    assert(all.take(modifiers.len() as int) =~= modifiers);
    assert(all.take(modifiers.len() as int + 1) =~= all);
}

/// A format without a name is refused by its number.
pub proof fn an_unknown_format_is_named_by_number(
    fourcc: u32,
    modifiers: Seq<u64>,
    plan: Result<Allocation, String>,
)
    requires
        is_allocation(fourcc, false, modifiers, plan),
    ensures
        plan matches Err(why) && why@ == "the compositor offered an unknown format 0x"@
            + hexadecimal(fourcc as nat),
{
}

} // verus!
