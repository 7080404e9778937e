//! The fixed-capacity `heapless` collections the dashboard fills: packet
//! buffers, short texts, the LED command queue, the sensor readings and
//! the WiFi networks. Their contents are named per capacity, and each
//! operation used here states what it does to them, as the `heapless`
//! source does it: an item that does not fit is refused and the
//! collection is left as it was.

use vstd::prelude::*;
use vstd::string::StringSliceAdditionalSpecFns;
use vstd::utf8::encode_utf8;

use crate::led::LedCommand;
use crate::state::SensorReading;
use crate::wifi::WifiCredential;

verus! {

#[verifier::external_type_specification]
#[verifier::external_body]
#[verifier::reject_recursive_types(T)]
pub struct ExHeaplessVec<T, const N: usize>(heapless::Vec<T, N>);

#[verifier::external_type_specification]
#[verifier::external_body]
pub struct ExHeaplessString<const N: usize>(heapless::String<N>);

#[verifier::external_type_specification]
#[verifier::external_body]
#[verifier::reject_recursive_types(T)]
pub struct ExHeaplessQueue<T, const N: usize>(heapless::spsc::Queue<T, N>);

/// `buf` after pushing `b` into a buffer of capacity `cap`: appended when
/// there is room, unchanged when it is full.
pub open spec fn push_capped(buf: Seq<u8>, b: u8, cap: int) -> Seq<u8> {
    if buf.len() < cap {
        buf.push(b)
    } else {
        buf
    }
}

/// `buf` after extending a buffer of capacity `cap` by `more`: all of it
/// when it fits, nothing otherwise.
pub open spec fn extend_capped(buf: Seq<u8>, more: Seq<u8>, cap: int) -> Seq<u8> {
    if buf.len() + more.len() > cap {
        buf
    } else {
        buf + more
    }
}

// ---------------------------------------------------------------------
// Byte buffers of 256, 128 and 4 bytes.

/// The bytes held by a 256-byte buffer.
pub uninterp spec fn bytes256(v: heapless::Vec<u8, 256>) -> Seq<u8>;

/// The bytes held by a 128-byte buffer.
pub uninterp spec fn bytes128(v: heapless::Vec<u8, 128>) -> Seq<u8>;

/// The bytes held by a 4-byte buffer.
pub uninterp spec fn bytes4(v: heapless::Vec<u8, 4>) -> Seq<u8>;

/// `heapless::Vec::<u8, 256>::new`: an empty buffer.
#[verifier::external_body]
pub(crate) fn buf256_new() -> (res: heapless::Vec<u8, 256>)
    ensures
        bytes256(res) == Seq::<u8>::empty(),
{
    heapless::Vec::new()
}

/// `heapless::Vec::push` on a 256-byte buffer: appends `b` when fewer than
/// 256 bytes are held, and otherwise hands it back unchanged.
#[verifier::external_body]
pub(crate) fn buf256_push(v: &mut heapless::Vec<u8, 256>, b: u8) -> (res: Result<(), u8>)
    ensures
        bytes256(*final(v)) == push_capped(bytes256(*old(v)), b, 256),
        res is Ok <==> bytes256(*old(v)).len() < 256,
{
    v.push(b)
}

/// `heapless::Vec::extend_from_slice` on a 256-byte buffer: appends all of
/// `more` when it fits, and nothing otherwise.
#[verifier::external_body]
pub(crate) fn buf256_extend(v: &mut heapless::Vec<u8, 256>, more: &[u8]) -> (res: Result<(), ()>)
    ensures
        bytes256(*final(v)) == extend_capped(bytes256(*old(v)), more@, 256),
        res is Ok <==> bytes256(*old(v)).len() + more@.len() <= 256,
{
    v.extend_from_slice(more)
}

/// `heapless::Vec::as_slice` on a 256-byte buffer: the bytes it holds,
/// never more than 256.
#[verifier::external_body]
pub(crate) fn buf256_as_slice(v: &heapless::Vec<u8, 256>) -> (res: &[u8])
    ensures
        res@ == bytes256(*v),
        res@.len() <= 256,
{
    v.as_slice()
}

/// `heapless::Vec::<u8, 128>::new`: an empty buffer.
#[verifier::external_body]
pub(crate) fn buf128_new() -> (res: heapless::Vec<u8, 128>)
    ensures
        bytes128(res) == Seq::<u8>::empty(),
{
    heapless::Vec::new()
}

/// `heapless::Vec::extend_from_slice` on a 128-byte buffer: appends all of
/// `more` when it fits, and nothing otherwise.
#[verifier::external_body]
pub(crate) fn buf128_extend(v: &mut heapless::Vec<u8, 128>, more: &[u8]) -> (res: Result<(), ()>)
    ensures
        bytes128(*final(v)) == extend_capped(bytes128(*old(v)), more@, 128),
        res is Ok <==> bytes128(*old(v)).len() + more@.len() <= 128,
{
    v.extend_from_slice(more)
}

/// `heapless::Vec::<u8, 4>::new`: an empty buffer.
#[verifier::external_body]
pub(crate) fn buf4_new() -> (res: heapless::Vec<u8, 4>)
    ensures
        bytes4(res) == Seq::<u8>::empty(),
{
    heapless::Vec::new()
}

/// `heapless::Vec::push` on a 4-byte buffer: appends `b` when fewer than
/// four bytes are held, and otherwise hands it back unchanged.
#[verifier::external_body]
pub(crate) fn buf4_push(v: &mut heapless::Vec<u8, 4>, b: u8) -> (res: Result<(), u8>)
    ensures
        bytes4(*final(v)) == push_capped(bytes4(*old(v)), b, 4),
        res is Ok <==> bytes4(*old(v)).len() < 4,
{
    v.push(b)
}

/// `heapless::Vec::extend_from_slice` on a 4-byte buffer: appends all of
/// `more` when it fits, and nothing otherwise.
#[verifier::external_body]
pub(crate) fn buf4_extend(v: &mut heapless::Vec<u8, 4>, more: &[u8]) -> (res: Result<(), ()>)
    ensures
        bytes4(*final(v)) == extend_capped(bytes4(*old(v)), more@, 4),
        res is Ok <==> bytes4(*old(v)).len() + more@.len() <= 4,
{
    v.extend_from_slice(more)
}

/// `heapless::Vec::as_slice` on a 4-byte buffer: the bytes it holds,
/// never more than four.
#[verifier::external_body]
pub(crate) fn buf4_as_slice(v: &heapless::Vec<u8, 4>) -> (res: &[u8])
    ensures
        res@ == bytes4(*v),
        res@.len() <= 4,
{
    v.as_slice()
}

// ---------------------------------------------------------------------
// Texts of 128, 32 and 16 bytes.

/// The text held by a 128-byte string.
pub uninterp spec fn text128(s: heapless::String<128>) -> Seq<char>;

/// The text held by a 32-byte string.
pub uninterp spec fn text32(s: heapless::String<32>) -> Seq<char>;

/// The text held by a 16-byte string.
pub uninterp spec fn text16(s: heapless::String<16>) -> Seq<char>;

/// The text held by a 64-byte string.
pub uninterp spec fn text64(s: heapless::String<64>) -> Seq<char>;

/// The text held by an 8-byte string.
pub uninterp spec fn text8(s: heapless::String<8>) -> Seq<char>;

/// `heapless::String::<128>::new`: an empty string.
#[verifier::external_body]
pub(crate) fn str128_new() -> (res: heapless::String<128>)
    ensures
        text128(res) == Seq::<char>::empty(),
{
    heapless::String::new()
}

/// `heapless::String::push` on a 128-byte string: appends `c` when the
/// UTF-8 encoding of the result fits in 128 bytes, and otherwise leaves
/// the string as it was and reports an error.
#[verifier::external_body]
pub(crate) fn str128_push(s: &mut heapless::String<128>, c: char) -> (res: Result<(), ()>)
    ensures
        encode_utf8(text128(*old(s)).push(c)).len() <= 128 ==> text128(*final(s)) == text128(
            *old(s),
        ).push(c),
        encode_utf8(text128(*old(s)).push(c)).len() > 128 ==> text128(*final(s)) == text128(*old(s)),
        res is Ok <==> encode_utf8(text128(*old(s)).push(c)).len() <= 128,
{
    s.push(c)
}

/// `heapless::String::push_str` on a 128-byte string: appends all of `t`
/// when the bytes fit, and nothing otherwise.
#[verifier::external_body]
pub(crate) fn str128_push_str(s: &mut heapless::String<128>, t: &str) -> (res: Result<(), ()>)
    ensures
        encode_utf8(text128(*old(s))).len() + t.spec_bytes().len() <= 128 ==> text128(*final(s))
            == text128(*old(s)) + t@,
        encode_utf8(text128(*old(s))).len() + t.spec_bytes().len() > 128 ==> text128(*final(s))
            == text128(*old(s)),
        res is Ok <==> encode_utf8(text128(*old(s))).len() + t.spec_bytes().len() <= 128,
{
    s.push_str(t)
}

/// `heapless::String::as_str` on a 128-byte string: the text it holds.
#[verifier::external_body]
pub(crate) fn str128_as_str(s: &heapless::String<128>) -> (res: &str)
    ensures
        res@ == text128(*s),
{
    s.as_str()
}

/// `heapless::String::<32>::new`: an empty string.
#[verifier::external_body]
pub(crate) fn str32_new() -> (res: heapless::String<32>)
    ensures
        text32(res) == Seq::<char>::empty(),
{
    heapless::String::new()
}

/// `heapless::String::<32>::try_from(&str)`: a copy of `t` when its bytes
/// fit in 32, an error otherwise.
#[verifier::external_body]
pub(crate) fn str32_try_from(t: &str) -> (res: Result<heapless::String<32>, ()>)
    ensures
        res is Ok <==> t.spec_bytes().len() <= 32,
        res matches Ok(s) ==> text32(s) == t@,
{
    heapless::String::try_from(t)
}

/// `heapless::String::as_str` on a 32-byte string: the text it holds.
#[verifier::external_body]
pub(crate) fn str32_as_str(s: &heapless::String<32>) -> (res: &str)
    ensures
        res@ == text32(*s),
{
    s.as_str()
}

/// `heapless::String::<16>::new`: an empty string.
#[verifier::external_body]
pub(crate) fn str16_new() -> (res: heapless::String<16>)
    ensures
        text16(res) == Seq::<char>::empty(),
{
    heapless::String::new()
}

/// `heapless::String::<16>::try_from(&str)`: a copy of `t` when its bytes
/// fit in 16, an error otherwise.
#[verifier::external_body]
pub(crate) fn str16_try_from(t: &str) -> (res: Result<heapless::String<16>, ()>)
    ensures
        res is Ok <==> t.spec_bytes().len() <= 16,
        res matches Ok(s) ==> text16(s) == t@,
{
    heapless::String::try_from(t)
}

/// `heapless::String::<64>::new`: an empty string.
#[verifier::external_body]
pub(crate) fn str64_new() -> (res: heapless::String<64>)
    ensures
        text64(res) == Seq::<char>::empty(),
{
    heapless::String::new()
}

/// `heapless::String::<64>::try_from(&str)`: a copy of `t` when its bytes
/// fit in 64, an error otherwise.
#[verifier::external_body]
pub(crate) fn str64_try_from(t: &str) -> (res: Result<heapless::String<64>, ()>)
    ensures
        res is Ok <==> t.spec_bytes().len() <= 64,
        res matches Ok(s) ==> text64(s) == t@,
{
    heapless::String::try_from(t)
}

/// `heapless::String::<8>::new`: an empty string.
#[verifier::external_body]
pub(crate) fn str8_new() -> (res: heapless::String<8>)
    ensures
        text8(res) == Seq::<char>::empty(),
{
    heapless::String::new()
}

/// `heapless::String::<8>::try_from(&str)`: a copy of `t` when its bytes
/// fit in 8, an error otherwise.
#[verifier::external_body]
pub(crate) fn str8_try_from(t: &str) -> (res: Result<heapless::String<8>, ()>)
    ensures
        res is Ok <==> t.spec_bytes().len() <= 8,
        res matches Ok(s) ==> text8(s) == t@,
{
    heapless::String::try_from(t)
}

/// `Clone::clone` on a `heapless::String`, which the derived `Clone` of a
/// sensor reading calls. Nothing is claimed of the copy here; what a copy
/// of all readings holds is stated by `readings_clone`.
pub assume_specification<const N: usize>[ <heapless::String<N> as Clone>::clone ](s: &heapless::String<N>) -> heapless::String<N>;

// ---------------------------------------------------------------------
// The LED command queue.

/// The commands waiting in the LED queue, oldest first.
pub uninterp spec fn queued(q: heapless::spsc::Queue<LedCommand, 8>) -> Seq<LedCommand>;

/// `heapless::spsc::Queue::<_, 8>::new`: an empty queue.
#[verifier::external_body]
pub(crate) fn queue_new() -> (res: heapless::spsc::Queue<LedCommand, 8>)
    ensures
        queued(res) == Seq::<LedCommand>::empty(),
{
    heapless::spsc::Queue::new()
}

/// `heapless::spsc::Queue::enqueue`: the queue of 8 slots holds at most
/// seven commands; a command is appended while fewer are waiting, and
/// handed back otherwise.
#[verifier::external_body]
pub(crate) fn queue_enqueue(q: &mut heapless::spsc::Queue<LedCommand, 8>, cmd: LedCommand) -> (res: Result<(), LedCommand>)
    ensures
        queued(*old(q)).len() < 7 ==> queued(*final(q)) == queued(*old(q)).push(cmd),
        queued(*old(q)).len() >= 7 ==> queued(*final(q)) == queued(*old(q)),
        res is Ok <==> queued(*old(q)).len() < 7,
{
    q.enqueue(cmd)
}

/// `heapless::spsc::Queue::dequeue`: the oldest command, removed, or
/// `None` when the queue is empty.
#[verifier::external_body]
pub(crate) fn queue_dequeue(q: &mut heapless::spsc::Queue<LedCommand, 8>) -> (res: Option<LedCommand>)
    ensures
        queued(*old(q)).len() == 0 ==> res is None && queued(*final(q)) == queued(*old(q)),
        queued(*old(q)).len() > 0 ==> res == Some(queued(*old(q))[0]) && queued(*final(q)) == queued(
            *old(q),
        ).drop_first(),
{
    q.dequeue()
}

/// `heapless::spsc::Queue::len`: how many commands are waiting.
#[verifier::external_body]
pub(crate) fn queue_len(q: &heapless::spsc::Queue<LedCommand, 8>) -> (res: usize)
    ensures
        res == queued(*q).len(),
{
    q.len()
}

// ---------------------------------------------------------------------
// The sensor readings.

/// The label and value texts of the readings, in order.
pub uninterp spec fn readings(v: heapless::Vec<SensorReading, 8>) -> Seq<(Seq<char>, Seq<char>)>;

/// `heapless::Vec::<SensorReading, 8>::new`: no readings.
#[verifier::external_body]
pub(crate) fn readings_new() -> (res: heapless::Vec<SensorReading, 8>)
    ensures
        readings(res) == Seq::<(Seq<char>, Seq<char>)>::empty(),
{
    heapless::Vec::new()
}

/// `heapless::Vec::len` on the readings.
#[verifier::external_body]
pub(crate) fn readings_len(v: &heapless::Vec<SensorReading, 8>) -> (res: usize)
    ensures
        res == readings(*v).len(),
{
    v.len()
}

/// Indexing the readings: reading `i`.
#[verifier::external_body]
pub(crate) fn reading_at(v: &heapless::Vec<SensorReading, 8>, i: usize) -> (res: &SensorReading)
    requires
        i < readings(*v).len(),
    ensures
        (text32(res.label), text16(res.value)) == readings(*v)[i as int],
{
    &v[i]
}

/// Assigning the value of reading `i` through mutable indexing.
#[verifier::external_body]
pub(crate) fn readings_set_value(v: &mut heapless::Vec<SensorReading, 8>, i: usize, value: heapless::String<16>)
    requires
        i < readings(*old(v)).len(),
    ensures
        readings(*final(v)) == readings(*old(v)).update(
            i as int,
            (readings(*old(v))[i as int].0, text16(value)),
        ),
{
    v[i].value = value;
}

/// `heapless::Vec::push` on the readings: appended while fewer than eight
/// are held, handed back otherwise.
#[verifier::external_body]
pub(crate) fn readings_push(v: &mut heapless::Vec<SensorReading, 8>, r: SensorReading) -> (res: Result<(), SensorReading>)
    ensures
        readings(*old(v)).len() < 8 ==> readings(*final(v)) == readings(*old(v)).push(
            (text32(r.label), text16(r.value)),
        ),
        readings(*old(v)).len() >= 8 ==> readings(*final(v)) == readings(*old(v)),
        res is Ok <==> readings(*old(v)).len() < 8,
{
    v.push(r)
}

/// `Clone::clone` on the readings: the same labels and values.
#[verifier::external_body]
pub(crate) fn readings_clone(v: &heapless::Vec<SensorReading, 8>) -> (res: heapless::Vec<SensorReading, 8>)
    ensures
        readings(res) == readings(*v),
{
    v.clone()
}

// ---------------------------------------------------------------------
// The WiFi networks to try.

/// The networks held, in order.
pub uninterp spec fn networks(v: heapless::Vec<WifiCredential, 3>) -> Seq<WifiCredential>;

/// `heapless::Vec::<WifiCredential, 3>::new`: no networks.
#[verifier::external_body]
pub(crate) fn networks_new() -> (res: heapless::Vec<WifiCredential, 3>)
    ensures
        networks(res) == Seq::<WifiCredential>::empty(),
{
    heapless::Vec::new()
}

/// `heapless::Vec::push` on the networks: appended while fewer than three
/// are held, handed back otherwise.
#[verifier::external_body]
pub(crate) fn networks_push(v: &mut heapless::Vec<WifiCredential, 3>, c: WifiCredential) -> (res: Result<(), WifiCredential>)
    ensures
        networks(*old(v)).len() < 3 ==> networks(*final(v)) == networks(*old(v)).push(c),
        networks(*old(v)).len() >= 3 ==> networks(*final(v)) == networks(*old(v)),
        res is Ok <==> networks(*old(v)).len() < 3,
{
    v.push(c)
}

} // verus!
