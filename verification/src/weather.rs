//! The weather snapshot and its wire format.
//!
//! Temperatures are carried as the IEEE-754 bit pattern of the `f32` value
//! (what `f32::to_bits` gives): the wire format writes exactly those bits in
//! big-endian order, so the format is a function of integers only.
use crate::codec::{
    lemma_i64_bytes_roundtrip, lemma_i64_roundtrip, lemma_u32_bytes_roundtrip, lemma_u32_roundtrip,
    be_i64, be_u32, from_be_i64, from_be_u32, i64_from_be_bytes, i64_to_be_bytes, u32_from_be_bytes,
    u32_to_be_bytes,
};
use vstd::prelude::*;

verus! {

/// Number of hourly forecasts in a snapshot.
pub const HOURLIES: usize = 10;

/// Number of daily forecasts in a snapshot.
pub const DAILIES: usize = 6;

/// Size in bytes of an encoded [`CurrentWeather`].
pub const CURRENT_BYTESIZE: usize = 8;

/// Size in bytes of an encoded [`HourlyWeather`].
pub const HOURLY_BYTESIZE: usize = 16;

/// Size in bytes of an encoded [`DailyWeather`].
pub const DAILY_BYTESIZE: usize = 24;

/// Offset of the first hourly record in an encoded [`Weather`].
pub const HOURLY_OFFSET: usize = 8;

/// Offset of the first daily record in an encoded [`Weather`].
pub const DAILY_OFFSET: usize = 168;

/// Size in bytes of an encoded [`Weather`].
pub const WEATHER_BYTESIZE: usize = CURRENT_BYTESIZE + HOURLY_BYTESIZE * HOURLIES + DAILY_BYTESIZE
    * DAILIES;

/// The weather right now.
#[derive(Debug, Clone, Copy)]
pub struct CurrentWeather {
    /// Temperature in °C, as the bits of an `f32`.
    pub t_bits: u32,
    /// WMO weather code.
    pub code: u8,
}

/// The forecast for one hour.
#[derive(Debug, Clone, Copy)]
pub struct HourlyWeather {
    /// Start of the hour, as a UNIX timestamp.
    pub time: i64,
    /// Temperature in °C, as the bits of an `f32`.
    pub t_bits: u32,
    /// WMO weather code.
    pub code: u8,
}

/// The forecast for one day.
#[derive(Debug, Clone, Copy)]
pub struct DailyWeather {
    /// Start of the day, as a UNIX timestamp.
    pub time: i64,
    /// Lowest temperature in °C, as the bits of an `f32`.
    pub t_min_bits: u32,
    /// Highest temperature in °C, as the bits of an `f32`.
    pub t_max_bits: u32,
    /// WMO weather code.
    pub code: u8,
}

/// A full snapshot: the current weather, the next hours and the next days.
#[derive(Debug, Clone, Copy)]
pub struct Weather {
    pub current: CurrentWeather,
    pub hourly: [HourlyWeather; HOURLIES],
    pub daily: [DailyWeather; DAILIES],
}

/// Whether the `f32` with bits `x` is a NaN: all exponent bits set and a
/// non-zero mantissa.
pub open spec fn is_nan_bits(x: u32) -> bool {
    x & 0x7fff_ffffu32 > 0x7f80_0000u32
}

/// `f32` equality on bit patterns: a NaN equals nothing, the two zeros are
/// equal, and any other values are equal when their bits are.
pub open spec fn f32_bits_eq(a: u32, b: u32) -> bool {
    !is_nan_bits(a) && !is_nan_bits(b) && (a == b || (a & 0x7fff_ffffu32 == 0u32 && b
        & 0x7fff_ffffu32 == 0u32))
}

/// Whether the `f32` values with bits `a` and `b` compare equal (`==`).
pub fn f32_bits_equal(a: u32, b: u32) -> (r: bool)
    ensures
        r == f32_bits_eq(a, b),
{
    let a_nan = a & 0x7fff_ffffu32 > 0x7f80_0000u32;
    let b_nan = b & 0x7fff_ffffu32 > 0x7f80_0000u32;
    !a_nan && !b_nan && (a == b || (a & 0x7fff_ffffu32 == 0u32 && b & 0x7fff_ffffu32 == 0u32))
}

impl CurrentWeather {
    /// Whether `==` holds: field by field, temperatures compared as `f32`
    /// values.
    pub open spec fn compares_equal(self, other: Self) -> bool {
        f32_bits_eq(self.t_bits, other.t_bits) && self.code == other.code
    }
}

impl HourlyWeather {
    /// Whether `==` holds: field by field, temperatures compared as `f32`
    /// values.
    pub open spec fn compares_equal(self, other: Self) -> bool {
        self.time == other.time && f32_bits_eq(self.t_bits, other.t_bits) && self.code == other.code
    }
}

impl DailyWeather {
    /// Whether `==` holds: field by field, temperatures compared as `f32`
    /// values.
    pub open spec fn compares_equal(self, other: Self) -> bool {
        self.time == other.time && f32_bits_eq(self.t_min_bits, other.t_min_bits) && f32_bits_eq(self.t_max_bits, other.t_max_bits) && self.code == other.code
    }
}

impl Weather {
    /// Whether `==` holds: record by record.
    pub open spec fn compares_equal(self, other: Self) -> bool {
        &&& self.current.compares_equal(other.current)
        &&& forall|i: int|
            0 <= i < HOURLIES ==> #[trigger] self.hourly[i].compares_equal(other.hourly[i])
        &&& forall|i: int| 0 <= i < DAILIES ==> #[trigger] self.daily[i].compares_equal(other.daily[i])
    }
}

impl PartialEq for CurrentWeather {
    /// Field by field, temperatures compared as `f32` values.
    fn eq(&self, other: &Self) -> (r: bool) {
        f32_bits_equal(self.t_bits, other.t_bits) && self.code == other.code
    }
}

impl vstd::std_specs::cmp::PartialEqSpecImpl for CurrentWeather {
    open spec fn obeys_eq_spec() -> bool {
        true
    }

    open spec fn eq_spec(&self, other: &Self) -> bool {
        self.compares_equal(*other)
    }
}

impl PartialEq for HourlyWeather {
    /// Field by field, temperatures compared as `f32` values.
    fn eq(&self, other: &Self) -> (r: bool) {
        self.time == other.time && f32_bits_equal(self.t_bits, other.t_bits) && self.code
            == other.code
    }
}

impl vstd::std_specs::cmp::PartialEqSpecImpl for HourlyWeather {
    open spec fn obeys_eq_spec() -> bool {
        true
    }

    open spec fn eq_spec(&self, other: &Self) -> bool {
        self.compares_equal(*other)
    }
}

impl PartialEq for DailyWeather {
    /// Field by field, temperatures compared as `f32` values.
    fn eq(&self, other: &Self) -> (r: bool) {
        self.time == other.time && f32_bits_equal(self.t_min_bits, other.t_min_bits)
            && f32_bits_equal(self.t_max_bits, other.t_max_bits) && self.code == other.code
    }
}

impl vstd::std_specs::cmp::PartialEqSpecImpl for DailyWeather {
    open spec fn obeys_eq_spec() -> bool {
        true
    }

    open spec fn eq_spec(&self, other: &Self) -> bool {
        self.compares_equal(*other)
    }
}

impl PartialEq for Weather {
    /// Record by record, as the derived comparison of the records does.
    fn eq(&self, other: &Self) -> (r: bool) {
        if !self.current.eq(&other.current) {
            return false;
        }
        for i in 0..HOURLIES
            invariant
                forall|j: int| 0 <= j < i ==> #[trigger] self.hourly[j].compares_equal(other.hourly[j]),
        {
            if !self.hourly[i].eq(&other.hourly[i]) {
                return false;
            }
        }
        for i in 0..DAILIES
            invariant
                forall|j: int| 0 <= j < HOURLIES ==> #[trigger] self.hourly[j].compares_equal(
                    other.hourly[j],
                ),
                forall|j: int| 0 <= j < i ==> #[trigger] self.daily[j].compares_equal(other.daily[j]),
        {
            if !self.daily[i].eq(&other.daily[i]) {
                return false;
            }
        }
        true
    }
}

impl vstd::std_specs::cmp::PartialEqSpecImpl for Weather {
    open spec fn obeys_eq_spec() -> bool {
        true
    }

    open spec fn eq_spec(&self, other: &Self) -> bool {
        self.compares_equal(*other)
    }
}

/// Whether the bytes at `from..to` of `b` are all zero.
pub open spec fn zero_between(b: Seq<u8>, from: int, to: int) -> bool {
    forall|i: int| from <= i < to ==> b[i] == 0u8
}

impl CurrentWeather {
    pub const BYTESIZE: usize = CURRENT_BYTESIZE;

    /// Layout: temperature bits (4 bytes, big-endian), code, 3 zero bytes.
    pub open spec fn spec_serialize(self) -> Seq<u8> {
        be_u32(self.t_bits) + seq![self.code, 0u8, 0u8, 0u8]
    }

    pub open spec fn spec_deserialize(b: Seq<u8>) -> CurrentWeather {
        CurrentWeather { t_bits: from_be_u32(b.subrange(0, 4)), code: b[4] }
    }

    /// Whether `b` has the shape of an encoded value: the right size and
    /// zero padding.
    pub open spec fn well_padded(b: Seq<u8>) -> bool {
        b.len() == CURRENT_BYTESIZE && zero_between(b, 5, 8)
    }

    pub fn serialize(self) -> (buf: [u8; CURRENT_BYTESIZE])
        ensures
            buf@ == self.spec_serialize(),
    {
        let t = u32_to_be_bytes(self.t_bits);
        let buf = [t[0], t[1], t[2], t[3], self.code, 0, 0, 0];
        assert(buf@ =~= self.spec_serialize());
        buf
    }

    pub fn deserialize(buf: [u8; CURRENT_BYTESIZE]) -> (w: Self)
        ensures
            w == Self::spec_deserialize(buf@),
    {
        let t_bits = u32_from_be_bytes(buf[0], buf[1], buf[2], buf[3]);
        assert(buf@.subrange(0, 4) =~= seq![buf[0], buf[1], buf[2], buf[3]]);
        CurrentWeather { t_bits, code: buf[4] }
    }
}

impl HourlyWeather {
    pub const BYTESIZE: usize = HOURLY_BYTESIZE;

    /// Layout: time (8 bytes, big-endian two's complement), temperature bits
    /// (4 bytes, big-endian), code, 3 zero bytes.
    pub open spec fn spec_serialize(self) -> Seq<u8> {
        be_i64(self.time) + be_u32(self.t_bits) + seq![self.code, 0u8, 0u8, 0u8]
    }

    pub open spec fn spec_deserialize(b: Seq<u8>) -> HourlyWeather {
        HourlyWeather {
            time: from_be_i64(b.subrange(0, 8)),
            t_bits: from_be_u32(b.subrange(8, 12)),
            code: b[12],
        }
    }

    pub open spec fn well_padded(b: Seq<u8>) -> bool {
        b.len() == HOURLY_BYTESIZE && zero_between(b, 13, 16)
    }

    pub fn serialize(self) -> (buf: [u8; HOURLY_BYTESIZE])
        ensures
            buf@ == self.spec_serialize(),
    {
        let time = i64_to_be_bytes(self.time);
        let t = u32_to_be_bytes(self.t_bits);
        let buf = [
            time[0],
            time[1],
            time[2],
            time[3],
            time[4],
            time[5],
            time[6],
            time[7],
            t[0],
            t[1],
            t[2],
            t[3],
            self.code,
            0,
            0,
            0,
        ];
        assert(buf@ =~= self.spec_serialize());
        buf
    }

    pub fn deserialize(buf: [u8; HOURLY_BYTESIZE]) -> (w: Self)
        ensures
            w == Self::spec_deserialize(buf@),
    {
        let time = i64_from_be_bytes(
            buf[0],
            buf[1],
            buf[2],
            buf[3],
            buf[4],
            buf[5],
            buf[6],
            buf[7],
        );
        let t_bits = u32_from_be_bytes(buf[8], buf[9], buf[10], buf[11]);
        assert(buf@.subrange(0, 8) =~= seq![
            buf[0],
            buf[1],
            buf[2],
            buf[3],
            buf[4],
            buf[5],
            buf[6],
            buf[7],
        ]);
        assert(buf@.subrange(8, 12) =~= seq![buf[8], buf[9], buf[10], buf[11]]);
        HourlyWeather { time, t_bits, code: buf[12] }
    }
}

impl DailyWeather {
    pub const BYTESIZE: usize = DAILY_BYTESIZE;

    /// Layout: time (8 bytes, big-endian two's complement), lowest and
    /// highest temperature bits (4 bytes each, big-endian), code, 7 zero
    /// bytes.
    pub open spec fn spec_serialize(self) -> Seq<u8> {
        be_i64(self.time) + be_u32(self.t_min_bits) + be_u32(self.t_max_bits) + seq![
            self.code,
            0u8,
            0u8,
            0u8,
            0u8,
            0u8,
            0u8,
            0u8,
        ]
    }

    pub open spec fn spec_deserialize(b: Seq<u8>) -> DailyWeather {
        DailyWeather {
            time: from_be_i64(b.subrange(0, 8)),
            t_min_bits: from_be_u32(b.subrange(8, 12)),
            t_max_bits: from_be_u32(b.subrange(12, 16)),
            code: b[16],
        }
    }

    pub open spec fn well_padded(b: Seq<u8>) -> bool {
        b.len() == DAILY_BYTESIZE && zero_between(b, 17, 24)
    }

    pub fn serialize(self) -> (buf: [u8; DAILY_BYTESIZE])
        ensures
            buf@ == self.spec_serialize(),
    {
        let time = i64_to_be_bytes(self.time);
        let lo = u32_to_be_bytes(self.t_min_bits);
        let hi = u32_to_be_bytes(self.t_max_bits);
        let buf = [
            time[0],
            time[1],
            time[2],
            time[3],
            time[4],
            time[5],
            time[6],
            time[7],
            lo[0],
            lo[1],
            lo[2],
            lo[3],
            hi[0],
            hi[1],
            hi[2],
            hi[3],
            self.code,
            0,
            0,
            0,
            0,
            0,
            0,
            0,
        ];
        assert(buf@ =~= self.spec_serialize());
        buf
    }

    pub fn deserialize(buf: [u8; DAILY_BYTESIZE]) -> (w: Self)
        ensures
            w == Self::spec_deserialize(buf@),
    {
        let time = i64_from_be_bytes(
            buf[0],
            buf[1],
            buf[2],
            buf[3],
            buf[4],
            buf[5],
            buf[6],
            buf[7],
        );
        let t_min_bits = u32_from_be_bytes(buf[8], buf[9], buf[10], buf[11]);
        let t_max_bits = u32_from_be_bytes(buf[12], buf[13], buf[14], buf[15]);
        assert(buf@.subrange(0, 8) =~= seq![
            buf[0],
            buf[1],
            buf[2],
            buf[3],
            buf[4],
            buf[5],
            buf[6],
            buf[7],
        ]);
        assert(buf@.subrange(8, 12) =~= seq![buf[8], buf[9], buf[10], buf[11]]);
        assert(buf@.subrange(12, 16) =~= seq![buf[12], buf[13], buf[14], buf[15]]);
        DailyWeather { time, t_min_bits, t_max_bits, code: buf[16] }
    }
}


/// The encodings of `s`, one after the other.
pub open spec fn hourly_block(s: Seq<HourlyWeather>) -> Seq<u8>
    decreases s.len(),
{
    if s.len() == 0 {
        Seq::empty()
    } else {
        hourly_block(s.drop_last()) + s.last().spec_serialize()
    }
}

/// The encodings of `s`, one after the other.
pub open spec fn daily_block(s: Seq<DailyWeather>) -> Seq<u8>
    decreases s.len(),
{
    if s.len() == 0 {
        Seq::empty()
    } else {
        daily_block(s.drop_last()) + s.last().spec_serialize()
    }
}

proof fn lemma_hourly_block(s: Seq<HourlyWeather>)
    ensures
        hourly_block(s).len() == 16 * s.len(),
        forall|i: int|
            0 <= i < s.len() ==> #[trigger] hourly_block(s).subrange(16 * i, 16 * i + 16)
                == s[i].spec_serialize(),
    decreases s.len(),
{
    if s.len() > 0 {
        let p = s.drop_last();
        lemma_hourly_block(p);
        let b = hourly_block(s);
        assert(b == hourly_block(p) + s.last().spec_serialize());
        assert forall|i: int| 0 <= i < s.len() implies #[trigger] b.subrange(16 * i, 16 * i + 16)
            == s[i].spec_serialize() by {
            if i < s.len() - 1 {
                assert(b.subrange(16 * i, 16 * i + 16) =~= hourly_block(p).subrange(
                    16 * i,
                    16 * i + 16,
                ));
                assert(p[i] == s[i]);
            } else {
                assert(b.subrange(16 * i, 16 * i + 16) =~= s.last().spec_serialize());
            }
        }
    }
}

proof fn lemma_daily_block(s: Seq<DailyWeather>)
    ensures
        daily_block(s).len() == 24 * s.len(),
        forall|i: int|
            0 <= i < s.len() ==> #[trigger] daily_block(s).subrange(24 * i, 24 * i + 24)
                == s[i].spec_serialize(),
    decreases s.len(),
{
    if s.len() > 0 {
        let p = s.drop_last();
        lemma_daily_block(p);
        let b = daily_block(s);
        assert(b == daily_block(p) + s.last().spec_serialize());
        assert forall|i: int| 0 <= i < s.len() implies #[trigger] b.subrange(24 * i, 24 * i + 24)
            == s[i].spec_serialize() by {
            if i < s.len() - 1 {
                assert(b.subrange(24 * i, 24 * i + 24) =~= daily_block(p).subrange(
                    24 * i,
                    24 * i + 24,
                ));
                assert(p[i] == s[i]);
            } else {
                assert(b.subrange(24 * i, 24 * i + 24) =~= s.last().spec_serialize());
            }
        }
    }
}

/// The `i`-th hourly record of an encoded snapshot `b`.
pub open spec fn hourly_at(b: Seq<u8>, i: int) -> HourlyWeather {
    HourlyWeather::spec_deserialize(
        b.subrange(HOURLY_OFFSET + 16 * i, HOURLY_OFFSET + 16 * i + 16),
    )
}

/// The `i`-th daily record of an encoded snapshot `b`.
pub open spec fn daily_at(b: Seq<u8>, i: int) -> DailyWeather {
    DailyWeather::spec_deserialize(b.subrange(DAILY_OFFSET + 24 * i, DAILY_OFFSET + 24 * i + 24))
}

impl Weather {
    pub const HOURLIES: usize = HOURLIES;

    pub const DAILIES: usize = DAILIES;

    pub const BYTESIZE: usize = WEATHER_BYTESIZE;

    /// Layout: the current weather, then each hourly record in order, then
    /// each daily record in order.
    pub open spec fn spec_serialize(self) -> Seq<u8> {
        self.current.spec_serialize() + hourly_block(self.hourly@) + daily_block(self.daily@)
    }

    /// Whether every record of `self` is the one encoded at its place in `b`.
    pub open spec fn decodes_from(self, b: Seq<u8>) -> bool {
        &&& self.current == CurrentWeather::spec_deserialize(b.subrange(0, 8))
        &&& forall|i: int| 0 <= i < HOURLIES ==> #[trigger] self.hourly[i] == hourly_at(b, i)
        &&& forall|i: int| 0 <= i < DAILIES ==> #[trigger] self.daily[i] == daily_at(b, i)
    }

    /// Whether `b` has the shape of an encoded snapshot: the right size and
    /// zero padding in every record.
    pub open spec fn well_padded(b: Seq<u8>) -> bool {
        &&& b.len() == WEATHER_BYTESIZE
        &&& CurrentWeather::well_padded(b.subrange(0, 8))
        &&& forall|i: int|
            0 <= i < HOURLIES ==> #[trigger] HourlyWeather::well_padded(
                b.subrange(HOURLY_OFFSET + 16 * i, HOURLY_OFFSET + 16 * i + 16),
            )
        &&& forall|i: int|
            0 <= i < DAILIES ==> #[trigger] DailyWeather::well_padded(
                b.subrange(DAILY_OFFSET + 24 * i, DAILY_OFFSET + 24 * i + 24),
            )
    }

    pub fn serialize(self) -> (buf: [u8; WEATHER_BYTESIZE])
        ensures
            buf@ == self.spec_serialize(),
    {
        let mut buf = [0u8; WEATHER_BYTESIZE];
        let current = self.current.serialize();
        write_at(&mut buf, 0, current.as_slice());
        assert(buf@.subrange(0, HOURLY_OFFSET as int) =~= self.current.spec_serialize()
            + hourly_block(self.hourly@.take(0)));
        for i in 0..HOURLIES
            invariant
                buf@.len() == WEATHER_BYTESIZE,
                buf@.subrange(0, HOURLY_OFFSET + 16 * i) == self.current.spec_serialize()
                    + hourly_block(self.hourly@.take(i as int)),
        {
            let rec = self.hourly[i].serialize();
            let off = HOURLY_OFFSET + HOURLY_BYTESIZE * i;
            let ghost before = buf@;
            write_at(&mut buf, off, rec.as_slice());
            assert(self.hourly@.take(i + 1).drop_last() =~= self.hourly@.take(i as int));
            assert(buf@.subrange(0, off + 16) =~= before.subrange(0, off as int) + rec@);
        }
        assert(self.hourly@.take(HOURLIES as int) =~= self.hourly@);
        assert(buf@.subrange(0, DAILY_OFFSET as int) =~= self.current.spec_serialize()
            + hourly_block(self.hourly@) + daily_block(self.daily@.take(0)));
        for i in 0..DAILIES
            invariant
                buf@.len() == WEATHER_BYTESIZE,
                buf@.subrange(0, DAILY_OFFSET + 24 * i) == self.current.spec_serialize()
                    + hourly_block(self.hourly@) + daily_block(self.daily@.take(i as int)),
        {
            let rec = self.daily[i].serialize();
            let off = DAILY_OFFSET + DAILY_BYTESIZE * i;
            let ghost before = buf@;
            write_at(&mut buf, off, rec.as_slice());
            assert(self.daily@.take(i + 1).drop_last() =~= self.daily@.take(i as int));
            assert(buf@.subrange(0, off + 24) =~= before.subrange(0, off as int) + rec@);
        }
        assert(self.daily@.take(DAILIES as int) =~= self.daily@);
        assert(buf@ =~= buf@.subrange(0, WEATHER_BYTESIZE as int));
        buf
    }

    pub fn deserialize(buf: [u8; WEATHER_BYTESIZE]) -> (w: Self)
        ensures
            w.decodes_from(buf@),
    {
        let current = CurrentWeather::deserialize(chunk8(&buf, 0));
        let mut hourly = [HourlyWeather { time: 0, t_bits: 0, code: 0 };HOURLIES];
        for i in 0..HOURLIES
            invariant
                forall|j: int| 0 <= j < i ==> #[trigger] hourly[j] == hourly_at(buf@, j),
        {
            hourly[i] = HourlyWeather::deserialize(chunk16(&buf, HOURLY_OFFSET + HOURLY_BYTESIZE * i));
        }
        let mut daily = [DailyWeather { time: 0, t_min_bits: 0, t_max_bits: 0, code: 0 };DAILIES];
        for i in 0..DAILIES
            invariant
                forall|j: int| 0 <= j < i ==> #[trigger] daily[j] == daily_at(buf@, j),
        {
            daily[i] = DailyWeather::deserialize(chunk24(&buf, DAILY_OFFSET + DAILY_BYTESIZE * i));
        }
        Weather { current, hourly, daily }
    }
}

/// Copies `src` into `buf` at `off`.
fn write_at(buf: &mut [u8; WEATHER_BYTESIZE], off: usize, src: &[u8])
    requires
        off + src@.len() <= WEATHER_BYTESIZE,
    ensures
        final(buf)@ == old(buf)@.subrange(0, off as int) + src@ + old(buf)@.subrange(
            off + src@.len(),
            WEATHER_BYTESIZE as int,
        ),
{
    let n = src.len();
    for k in 0..n
        invariant
            n == src@.len(),
            off + n <= WEATHER_BYTESIZE,
            buf@.len() == WEATHER_BYTESIZE,
            forall|j: int| 0 <= j < off ==> buf@[j] == old(buf)@[j],
            forall|j: int| off + n <= j < WEATHER_BYTESIZE ==> buf@[j] == old(buf)@[j],
            forall|j: int| 0 <= j < k ==> buf@[off + j] == src@[j],
    {
        buf[off + k] = src[k];
    }
    assert(buf@ =~= old(buf)@.subrange(0, off as int) + src@ + old(buf)@.subrange(
        off + src@.len(),
        WEATHER_BYTESIZE as int,
    ));
}

/// `buf[off..off + 8]`.
fn chunk8(buf: &[u8; WEATHER_BYTESIZE], off: usize) -> (r: [u8; 8])
    requires
        off + 8 <= WEATHER_BYTESIZE,
    ensures
        r@ == buf@.subrange(off as int, off + 8),
{
    let mut r = [0u8; 8];
    for k in 0..8
        invariant
            off + 8 <= WEATHER_BYTESIZE,
            forall|j: int| 0 <= j < k ==> r@[j] == buf@[off + j],
    {
        r[k] = buf[off + k];
    }
    assert(r@ =~= buf@.subrange(off as int, off + 8));
    r
}

/// `buf[off..off + 16]`.
fn chunk16(buf: &[u8; WEATHER_BYTESIZE], off: usize) -> (r: [u8; 16])
    requires
        off + 16 <= WEATHER_BYTESIZE,
    ensures
        r@ == buf@.subrange(off as int, off + 16),
{
    let mut r = [0u8; 16];
    for k in 0..16
        invariant
            off + 16 <= WEATHER_BYTESIZE,
            forall|j: int| 0 <= j < k ==> r@[j] == buf@[off + j],
    {
        r[k] = buf[off + k];
    }
    assert(r@ =~= buf@.subrange(off as int, off + 16));
    r
}

/// `buf[off..off + 24]`.
fn chunk24(buf: &[u8; WEATHER_BYTESIZE], off: usize) -> (r: [u8; 24])
    requires
        off + 24 <= WEATHER_BYTESIZE,
    ensures
        r@ == buf@.subrange(off as int, off + 24),
{
    let mut r = [0u8; 24];
    for k in 0..24
        invariant
            off + 24 <= WEATHER_BYTESIZE,
            forall|j: int| 0 <= j < k ==> r@[j] == buf@[off + j],
    {
        r[k] = buf[off + k];
    }
    assert(r@ =~= buf@.subrange(off as int, off + 24));
    r
}


/// Decoding the encoding of a current-weather record gives the record back.
pub proof fn theorem_current_roundtrip(w: CurrentWeather)
    ensures
        CurrentWeather::spec_deserialize(w.spec_serialize()) == w,
{
    let b = w.spec_serialize();
    assert(b.subrange(0, 4) =~= be_u32(w.t_bits));
    lemma_u32_roundtrip(w.t_bits);
}

/// Encoding the current-weather record decoded from well-padded bytes gives
/// those bytes back.
pub proof fn theorem_current_bytes_roundtrip(b: Seq<u8>)
    requires
        CurrentWeather::well_padded(b),
    ensures
        CurrentWeather::spec_deserialize(b).spec_serialize() == b,
{
    lemma_u32_bytes_roundtrip(b.subrange(0, 4));
    assert(CurrentWeather::spec_deserialize(b).spec_serialize() =~= b);
}

/// Decoding the encoding of an hourly record gives the record back.
pub proof fn theorem_hourly_roundtrip(w: HourlyWeather)
    ensures
        HourlyWeather::spec_deserialize(w.spec_serialize()) == w,
{
    let b = w.spec_serialize();
    assert(b.subrange(0, 8) =~= be_i64(w.time));
    assert(b.subrange(8, 12) =~= be_u32(w.t_bits));
    lemma_i64_roundtrip(w.time);
    lemma_u32_roundtrip(w.t_bits);
}

/// Encoding the hourly record decoded from well-padded bytes gives those
/// bytes back.
pub proof fn theorem_hourly_bytes_roundtrip(b: Seq<u8>)
    requires
        HourlyWeather::well_padded(b),
    ensures
        HourlyWeather::spec_deserialize(b).spec_serialize() == b,
{
    lemma_i64_bytes_roundtrip(b.subrange(0, 8));
    lemma_u32_bytes_roundtrip(b.subrange(8, 12));
    assert(HourlyWeather::spec_deserialize(b).spec_serialize() =~= b);
}

/// Decoding the encoding of a daily record gives the record back.
pub proof fn theorem_daily_roundtrip(w: DailyWeather)
    ensures
        DailyWeather::spec_deserialize(w.spec_serialize()) == w,
{
    let b = w.spec_serialize();
    assert(b.subrange(0, 8) =~= be_i64(w.time));
    assert(b.subrange(8, 12) =~= be_u32(w.t_min_bits));
    assert(b.subrange(12, 16) =~= be_u32(w.t_max_bits));
    lemma_i64_roundtrip(w.time);
    lemma_u32_roundtrip(w.t_min_bits);
    lemma_u32_roundtrip(w.t_max_bits);
}

/// Encoding the daily record decoded from well-padded bytes gives those
/// bytes back.
pub proof fn theorem_daily_bytes_roundtrip(b: Seq<u8>)
    requires
        DailyWeather::well_padded(b),
    ensures
        DailyWeather::spec_deserialize(b).spec_serialize() == b,
{
    lemma_i64_bytes_roundtrip(b.subrange(0, 8));
    lemma_u32_bytes_roundtrip(b.subrange(8, 12));
    lemma_u32_bytes_roundtrip(b.subrange(12, 16));
    assert(DailyWeather::spec_deserialize(b).spec_serialize() =~= b);
}

/// The encoding of a snapshot is `Weather::BYTESIZE` bytes long.
pub proof fn theorem_weather_size(w: Weather)
    ensures
        w.spec_serialize().len() == WEATHER_BYTESIZE,
{
    lemma_hourly_block(w.hourly@);
    lemma_daily_block(w.daily@);
}

/// Decoding the encoding of a snapshot gives the snapshot back: the only
/// snapshot that decodes from `w`'s bytes is `w`.
pub proof fn theorem_weather_roundtrip(w: Weather, d: Weather)
    requires
        d.decodes_from(w.spec_serialize()),
    ensures
        d == w,
{
    theorem_weather_roundtrip_decodes(w);
    assert(d.hourly =~= w.hourly);
    assert(d.daily =~= w.daily);
}

proof fn lemma_hourly_block_from_bytes(w: Weather, b: Seq<u8>, n: int)
    requires
        Weather::well_padded(b),
        w.decodes_from(b),
        0 <= n <= HOURLIES,
    ensures
        hourly_block(w.hourly@.take(n)) == b.subrange(
            HOURLY_OFFSET as int,
            HOURLY_OFFSET + 16 * n,
        ),
    decreases n,
{
    if n == 0 {
        assert(hourly_block(w.hourly@.take(0)) =~= b.subrange(
            HOURLY_OFFSET as int,
            HOURLY_OFFSET as int,
        ));
    } else {
        let k = n - 1;
        lemma_hourly_block_from_bytes(w, b, k);
        assert(w.hourly@.take(n).drop_last() =~= w.hourly@.take(k));
        let chunk = b.subrange(HOURLY_OFFSET + 16 * k, HOURLY_OFFSET + 16 * k + 16);
        assert(HourlyWeather::well_padded(chunk));
        theorem_hourly_bytes_roundtrip(chunk);
        assert(w.hourly[k] == hourly_at(b, k));
        assert(w.hourly@.take(n).last() == w.hourly[k]);
        assert(b.subrange(HOURLY_OFFSET as int, HOURLY_OFFSET + 16 * n) =~= b.subrange(
            HOURLY_OFFSET as int,
            HOURLY_OFFSET + 16 * k,
        ) + chunk);
    }
}

proof fn lemma_daily_block_from_bytes(w: Weather, b: Seq<u8>, n: int)
    requires
        Weather::well_padded(b),
        w.decodes_from(b),
        0 <= n <= DAILIES,
    ensures
        daily_block(w.daily@.take(n)) == b.subrange(DAILY_OFFSET as int, DAILY_OFFSET + 24 * n),
    decreases n,
{
    if n == 0 {
        assert(daily_block(w.daily@.take(0)) =~= b.subrange(
            DAILY_OFFSET as int,
            DAILY_OFFSET as int,
        ));
    } else {
        let k = n - 1;
        lemma_daily_block_from_bytes(w, b, k);
        assert(w.daily@.take(n).drop_last() =~= w.daily@.take(k));
        let chunk = b.subrange(DAILY_OFFSET + 24 * k, DAILY_OFFSET + 24 * k + 24);
        assert(DailyWeather::well_padded(chunk));
        theorem_daily_bytes_roundtrip(chunk);
        assert(w.daily[k] == daily_at(b, k));
        assert(w.daily@.take(n).last() == w.daily[k]);
        assert(b.subrange(DAILY_OFFSET as int, DAILY_OFFSET + 24 * n) =~= b.subrange(
            DAILY_OFFSET as int,
            DAILY_OFFSET + 24 * k,
        ) + chunk);
    }
}

/// Encoding the snapshot decoded from well-padded bytes gives those bytes
/// back.
pub proof fn theorem_weather_bytes_roundtrip(b: Seq<u8>, w: Weather)
    requires
        Weather::well_padded(b),
        w.decodes_from(b),
    ensures
        w.spec_serialize() == b,
{
    theorem_current_bytes_roundtrip(b.subrange(0, 8));
    lemma_hourly_block_from_bytes(w, b, HOURLIES as int);
    lemma_daily_block_from_bytes(w, b, DAILIES as int);
    assert(w.hourly@.take(HOURLIES as int) =~= w.hourly@);
    assert(w.daily@.take(DAILIES as int) =~= w.daily@);
    assert(w.spec_serialize() =~= b.subrange(0, 8) + b.subrange(
        HOURLY_OFFSET as int,
        DAILY_OFFSET as int,
    ) + b.subrange(DAILY_OFFSET as int, WEATHER_BYTESIZE as int));
    assert(w.spec_serialize() =~= b);
}

/// Two snapshots with the same encoding are equal.
pub proof fn theorem_weather_encoding_injective(w1: Weather, w2: Weather)
    requires
        w1.spec_serialize() == w2.spec_serialize(),
    ensures
        w1 == w2,
{
    theorem_weather_roundtrip_decodes(w1);
    theorem_weather_roundtrip(w2, w1);
}

/// A snapshot decodes from its own encoding.
pub proof fn theorem_weather_roundtrip_decodes(w: Weather)
    ensures
        w.decodes_from(w.spec_serialize()),
{
    let b = w.spec_serialize();
    let h = hourly_block(w.hourly@);
    let dl = daily_block(w.daily@);
    lemma_hourly_block(w.hourly@);
    lemma_daily_block(w.daily@);
    assert(b.subrange(0, 8) =~= w.current.spec_serialize());
    theorem_current_roundtrip(w.current);
    assert forall|i: int| 0 <= i < HOURLIES implies #[trigger] w.hourly[i] == hourly_at(b, i) by {
        assert(b.subrange(HOURLY_OFFSET + 16 * i, HOURLY_OFFSET + 16 * i + 16) =~= h.subrange(
            16 * i,
            16 * i + 16,
        ));
        assert(h.subrange(16 * i, 16 * i + 16) == w.hourly@[i].spec_serialize());
        theorem_hourly_roundtrip(w.hourly[i]);
    }
    assert forall|i: int| 0 <= i < DAILIES implies #[trigger] w.daily[i] == daily_at(b, i) by {
        assert(b.subrange(DAILY_OFFSET + 24 * i, DAILY_OFFSET + 24 * i + 24) =~= dl.subrange(
            24 * i,
            24 * i + 24,
        ));
        assert(dl.subrange(24 * i, 24 * i + 24) == w.daily@[i].spec_serialize());
        theorem_daily_roundtrip(w.daily[i]);
    }
}

} // verus!
