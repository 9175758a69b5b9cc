//! Time tags: the three-byte and the seven-byte packed timestamp.

use crate::primitive::{
    bit,
    byte_of,
    bytes16,
    lemma_u16_write_back,
    read_u16,
    u16_le,
    write_u16,
};
use vstd::prelude::*;

verus! {

/// The three-byte time tag: time within the hour.
#[derive(Clone, Copy, Debug, PartialEq, Eq, Structural)]
pub struct Cp24 {
    /// Milliseconds within the minute, 0 to 59999 in a tag that is in order.
    pub millis: u16,
    /// Minute of the hour, in 6 bits.
    pub minute: u8,
    /// The sender does not vouch for the time.
    pub invalid: bool,
}

/// The seven-byte time tag: date and time.
#[derive(Clone, Copy, Debug, PartialEq, Eq, Structural)]
pub struct Cp56 {
    /// Milliseconds within the minute, 0 to 59999 in a tag that is in order.
    pub millis: u16,
    /// Minute of the hour, in 6 bits.
    pub minute: u8,
    /// The sender does not vouch for the time.
    pub invalid: bool,
    /// Hour of the day, in 5 bits.
    pub hour: u8,
    /// The time is summer time.
    pub summer_time: bool,
    /// Day of the month, in 5 bits.
    pub day: u8,
    /// Day of the week, in 3 bits; 0 where it is not used.
    pub weekday: u8,
    /// Month, in 4 bits.
    pub month: u8,
    /// Year of the century, in 7 bits.
    pub year: u8,
}

/// Which time tag the objects of a type carry.
#[derive(Clone, Copy, Debug, PartialEq, Eq, Structural)]
pub enum TimeClass {
    /// No time tag.
    Untagged,
    /// The three-byte tag.
    Short,
    /// The seven-byte tag.
    Long,
}

/// The time tag of one information object.
#[derive(Clone, Copy, Debug, PartialEq, Eq, Structural)]
pub enum Timestamp {
    Untagged,
    Short(Cp24),
    Long(Cp56),
}

impl Cp24 {
    /// Whether the minute fits its 6 bits.
    pub open spec fn spec_valid(&self) -> bool {
        self.minute < 64
    }

    /// The three bytes of the tag: the milliseconds, low byte first, then
    /// the minute in bits 0 to 5 and the invalid flag in bit 7.
    pub open spec fn spec_bytes(&self) -> Seq<u8> {
        seq![
            byte_of(self.millis as int, 0),
            byte_of(self.millis as int, 1),
            (self.minute + 128 * bit(self.invalid)) as u8,
        ]
    }

    /// The tag that the three bytes from `at` on hold. Bit 6 of the third
    /// byte is not looked at.
    pub open spec fn spec_read(s: Seq<u8>, at: int) -> Cp24 {
        Cp24 {
            millis: u16_le(s[at], s[at + 1]),
            minute: s[at + 2] % 64,
            invalid: s[at + 2] / 128 == 1,
        }
    }

    #[verifier::when_used_as_spec(spec_valid)]
    pub fn valid(&self) -> (b: bool)
        ensures
            b == self.spec_valid(),
    {
        self.minute < 64
    }

    /// Reads a tag from the three bytes at `at`.
    pub fn read(buf: &[u8], at: usize) -> (t: Cp24)
        requires
            at + 3 <= buf.len(),
        ensures
            t == Cp24::spec_read(buf@, at as int),
            t.spec_valid(),
    {
        let b2: u8 = buf[at + 2];
        Cp24 { millis: read_u16(buf, at), minute: b2 % 64, invalid: b2 / 128 == 1 }
    }

    /// Appends the three bytes of the tag to `out`.
    pub fn write(&self, out: &mut Vec<u8>)
        requires
            self.spec_valid(),
        ensures
            final(out)@ == old(out)@ + self.spec_bytes(),
    {
        let ghost before = out@;
        write_u16(self.millis, out);
        let flag: u8 = if self.invalid {
            128
        } else {
            0
        };
        out.push(self.minute + flag);
        assert(out@ =~= before + self.spec_bytes());
    }
}

impl Cp56 {
    /// Whether each field fits its bits.
    pub open spec fn spec_valid(&self) -> bool {
        &&& self.minute < 64
        &&& self.hour < 32
        &&& self.day < 32
        &&& self.weekday < 8
        &&& self.month < 16
        &&& self.year < 128
    }

    /// The seven bytes of the tag: the three of the short tag, then the
    /// hour in bits 0 to 4 with the summer-time flag in bit 7, the day of
    /// the month in bits 0 to 4 with the day of the week in bits 5 to 7,
    /// the month, and the year.
    pub open spec fn spec_bytes(&self) -> Seq<u8> {
        seq![
            byte_of(self.millis as int, 0),
            byte_of(self.millis as int, 1),
            (self.minute + 128 * bit(self.invalid)) as u8,
            (self.hour + 128 * bit(self.summer_time)) as u8,
            (self.day + 32 * self.weekday) as u8,
            self.month,
            self.year,
        ]
    }

    /// The tag that the seven bytes from `at` on hold. Bits that the tag
    /// does not use are not looked at.
    pub open spec fn spec_read(s: Seq<u8>, at: int) -> Cp56 {
        Cp56 {
            millis: u16_le(s[at], s[at + 1]),
            minute: s[at + 2] % 64,
            invalid: s[at + 2] / 128 == 1,
            hour: s[at + 3] % 32,
            summer_time: s[at + 3] / 128 == 1,
            day: s[at + 4] % 32,
            weekday: s[at + 4] / 32,
            month: s[at + 5] % 16,
            year: s[at + 6] % 128,
        }
    }

    #[verifier::when_used_as_spec(spec_valid)]
    pub fn valid(&self) -> (b: bool)
        ensures
            b == self.spec_valid(),
    {
        self.minute < 64 && self.hour < 32 && self.day < 32 && self.weekday < 8 && self.month < 16
            && self.year < 128
    }

    /// Reads a tag from the seven bytes at `at`.
    pub fn read(buf: &[u8], at: usize) -> (t: Cp56)
        requires
            at + 7 <= buf.len(),
        ensures
            t == Cp56::spec_read(buf@, at as int),
            t.spec_valid(),
    {
        let b2: u8 = buf[at + 2];
        let b3: u8 = buf[at + 3];
        let b4: u8 = buf[at + 4];
        Cp56 {
            millis: read_u16(buf, at),
            minute: b2 % 64,
            invalid: b2 / 128 == 1,
            hour: b3 % 32,
            summer_time: b3 / 128 == 1,
            day: b4 % 32,
            weekday: b4 / 32,
            month: buf[at + 5] % 16,
            year: buf[at + 6] % 128,
        }
    }

    /// Appends the seven bytes of the tag to `out`.
    pub fn write(&self, out: &mut Vec<u8>)
        requires
            self.spec_valid(),
        ensures
            final(out)@ == old(out)@ + self.spec_bytes(),
    {
        let ghost before = out@;
        write_u16(self.millis, out);
        let invalid_flag: u8 = if self.invalid {
            128
        } else {
            0
        };
        let summer_flag: u8 = if self.summer_time {
            128
        } else {
            0
        };
        out.push(self.minute + invalid_flag);
        out.push(self.hour + summer_flag);
        out.push(self.day + 32 * self.weekday);
        out.push(self.month);
        out.push(self.year);
        assert(out@ =~= before + self.spec_bytes());
    }
}

impl TimeClass {
    /// Bytes of a tag of this class: 0, 3 or 7.
    pub open spec fn spec_len(&self) -> usize {
        match self {
            TimeClass::Untagged => 0,
            TimeClass::Short => 3,
            TimeClass::Long => 7,
        }
    }

    #[verifier::when_used_as_spec(spec_len)]
    pub fn len(&self) -> (n: usize)
        ensures
            n == self.spec_len(),
    {
        match self {
            TimeClass::Untagged => 0,
            TimeClass::Short => 3,
            TimeClass::Long => 7,
        }
    }
}

impl Timestamp {
    /// The class of this tag.
    pub open spec fn spec_class(&self) -> TimeClass {
        match self {
            Timestamp::Untagged => TimeClass::Untagged,
            Timestamp::Short(_) => TimeClass::Short,
            Timestamp::Long(_) => TimeClass::Long,
        }
    }

    /// Whether each field of the tag fits its bits.
    pub open spec fn spec_valid(&self) -> bool {
        match self {
            Timestamp::Untagged => true,
            Timestamp::Short(t) => t.spec_valid(),
            Timestamp::Long(t) => t.spec_valid(),
        }
    }

    /// The bytes of the tag: none, three or seven.
    pub open spec fn spec_bytes(&self) -> Seq<u8> {
        match self {
            Timestamp::Untagged => Seq::empty(),
            Timestamp::Short(t) => t.spec_bytes(),
            Timestamp::Long(t) => t.spec_bytes(),
        }
    }

    /// The tag of class `class` that the bytes from `at` on hold.
    pub open spec fn spec_read(class: TimeClass, s: Seq<u8>, at: int) -> Timestamp {
        match class {
            TimeClass::Untagged => Timestamp::Untagged,
            TimeClass::Short => Timestamp::Short(Cp24::spec_read(s, at)),
            TimeClass::Long => Timestamp::Long(Cp56::spec_read(s, at)),
        }
    }

    /// Whether the bytes from `at` on hold a tag of class `class` and
    /// nothing else: the bits that the tag does not use are clear.
    ///
    /// Those are bit 6 of the minute byte and, in the long tag, bits 5 and
    /// 6 of the hour byte, the high half of the month byte and bit 7 of the
    /// year byte.
    pub open spec fn bytes_are_canonical(class: TimeClass, s: Seq<u8>, at: int) -> bool {
        match class {
            TimeClass::Untagged => true,
            TimeClass::Short => (s[at + 2] / 64) % 2 == 0,
            TimeClass::Long => {
                &&& (s[at + 2] / 64) % 2 == 0
                &&& (s[at + 3] / 32) % 4 == 0
                &&& s[at + 5] / 16 == 0
                &&& s[at + 6] / 128 == 0
            },
        }
    }

    #[verifier::when_used_as_spec(spec_class)]
    pub fn class(&self) -> (c: TimeClass)
        ensures
            c == self.spec_class(),
    {
        match self {
            Timestamp::Untagged => TimeClass::Untagged,
            Timestamp::Short(_) => TimeClass::Short,
            Timestamp::Long(_) => TimeClass::Long,
        }
    }

    #[verifier::when_used_as_spec(spec_valid)]
    pub fn valid(&self) -> (b: bool)
        ensures
            b == self.spec_valid(),
    {
        match self {
            Timestamp::Untagged => true,
            Timestamp::Short(t) => t.valid(),
            Timestamp::Long(t) => t.valid(),
        }
    }

    /// Reads a tag of class `class` at `at`.
    pub fn read(class: TimeClass, buf: &[u8], at: usize) -> (t: Timestamp)
        requires
            at + class.spec_len() <= buf.len(),
        ensures
            t == Timestamp::spec_read(class, buf@, at as int),
            t.spec_valid(),
            t.spec_class() == class,
    {
        match class {
            TimeClass::Untagged => Timestamp::Untagged,
            TimeClass::Short => Timestamp::Short(Cp24::read(buf, at)),
            TimeClass::Long => Timestamp::Long(Cp56::read(buf, at)),
        }
    }

    /// Appends the bytes of the tag to `out`.
    pub fn write(&self, out: &mut Vec<u8>)
        requires
            self.spec_valid(),
        ensures
            final(out)@ == old(out)@ + self.spec_bytes(),
    {
        match self {
            Timestamp::Untagged => {
                assert(out@ =~= old(out)@ + self.spec_bytes());
            },
            Timestamp::Short(t) => t.write(out),
            Timestamp::Long(t) => t.write(out),
        }
    }
}

/// Whatever is read as a time tag of a class is a valid tag of that class.
pub proof fn lemma_timestamp_read_is_valid(class: TimeClass, s: Seq<u8>, at: int)
    ensures
        Timestamp::spec_read(class, s, at).spec_class() == class,
        Timestamp::spec_read(class, s, at).spec_valid(),
{
}

/// A time tag that was read from canonical bytes is written back as those
/// bytes.
pub proof fn lemma_timestamp_write_back(class: TimeClass, s: Seq<u8>, at: int)
    requires
        0 <= at,
        at + class.spec_len() <= s.len(),
        Timestamp::bytes_are_canonical(class, s, at),
    ensures
        Timestamp::spec_read(class, s, at).spec_bytes() == s.subrange(at, at + class.spec_len()),
{
    let out = Timestamp::spec_read(class, s, at).spec_bytes();
    match class {
        TimeClass::Untagged => {
            assert(out =~= s.subrange(at, at));
        },
        TimeClass::Short => {
            lemma_u16_write_back(s[at], s[at + 1]);
            let m = bytes16(u16_le(s[at], s[at + 1]));
            assert(m[0] == s[at] && m[1] == s[at + 1]);
            assert(out =~= seq![s[at], s[at + 1], s[at + 2]]);
            assert(s.subrange(at, at + 3) =~= seq![s[at], s[at + 1], s[at + 2]]);
        },
        TimeClass::Long => {
            lemma_u16_write_back(s[at], s[at + 1]);
            let m = bytes16(u16_le(s[at], s[at + 1]));
            assert(m[0] == s[at] && m[1] == s[at + 1]);
            assert(out =~= seq![
                s[at],
                s[at + 1],
                s[at + 2],
                s[at + 3],
                s[at + 4],
                s[at + 5],
                s[at + 6],
            ]);
            assert(s.subrange(at, at + 7) =~= seq![
                s[at],
                s[at + 1],
                s[at + 2],
                s[at + 3],
                s[at + 4],
                s[at + 5],
                s[at + 6],
            ]);
        },
    }
}

/// A time tag that was written is read back as it was, wherever its bytes
/// stand in a sequence.
pub proof fn lemma_timestamp_round_trip(t: Timestamp, s: Seq<u8>, at: int)
    requires
        t.spec_valid(),
        0 <= at,
        at + t.spec_bytes().len() <= s.len(),
        s.subrange(at, at + t.spec_bytes().len()) == t.spec_bytes(),
    ensures
        t.spec_bytes().len() == t.spec_class().spec_len(),
        Timestamp::spec_read(t.spec_class(), s, at) == t,
{
    let b = t.spec_bytes();
    let n = b.len() as int;
    assert forall|k: int| 0 <= k < n implies s[at + k] == b[k] by {
        assert(s.subrange(at, at + n)[k] == s[at + k]);
    }
    match t {
        Timestamp::Untagged => {},
        Timestamp::Short(c) => {
            assert(s[at] == b[0] && s[at + 1] == b[1] && s[at + 2] == b[2]);
        },
        Timestamp::Long(c) => {
            assert(s[at] == b[0] && s[at + 1] == b[1] && s[at + 2] == b[2] && s[at + 3] == b[3]
                && s[at + 4] == b[4] && s[at + 5] == b[5] && s[at + 6] == b[6]);
        },
    }
}

} // verus!
