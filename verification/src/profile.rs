//! Link-profile parameters.
//!
//! The widths of three ASDU fields are not fixed by the protocol; both ends
//! of a link agree on them. A [`Profile`] carries them into every encode and
//! decode call, so that one process can serve links of different profiles.

use vstd::prelude::*;

verus! {

/// Width of the cause-of-transmission field.
#[derive(Clone, Copy, Debug, PartialEq, Eq, Structural)]
pub enum CauseWidth {
    /// One byte: the cause alone.
    One,
    /// Two bytes: the cause, then the originator address.
    Two,
}

/// Width of the common address.
#[derive(Clone, Copy, Debug, PartialEq, Eq, Structural)]
pub enum CommonAddressWidth {
    One,
    /// Two bytes, little-endian.
    Two,
}

/// Width of an information object address.
#[derive(Clone, Copy, Debug, PartialEq, Eq, Structural)]
pub enum ObjectAddressWidth {
    One,
    /// Two bytes, little-endian.
    Two,
    /// Three bytes, little-endian.
    Three,
}

/// The field widths that a link uses.
#[derive(Clone, Copy, Debug, PartialEq, Eq, Structural)]
pub struct Profile {
    pub cause_width: CauseWidth,
    pub common_address_width: CommonAddressWidth,
    pub object_address_width: ObjectAddressWidth,
}

impl Profile {
    /// Bytes of the cause-of-transmission field: 1 or 2.
    pub open spec fn spec_cause_len(&self) -> usize {
        match self.cause_width {
            CauseWidth::One => 1,
            CauseWidth::Two => 2,
        }
    }

    /// Bytes of the common address: 1 or 2.
    pub open spec fn spec_common_address_len(&self) -> usize {
        match self.common_address_width {
            CommonAddressWidth::One => 1,
            CommonAddressWidth::Two => 2,
        }
    }

    /// Bytes of an information object address: 1, 2 or 3.
    pub open spec fn spec_object_address_len(&self) -> usize {
        match self.object_address_width {
            ObjectAddressWidth::One => 1,
            ObjectAddressWidth::Two => 2,
            ObjectAddressWidth::Three => 3,
        }
    }

    /// Bytes of the ASDU header: type identification, variable structure
    /// qualifier, cause of transmission and common address.
    pub open spec fn spec_header_len(&self) -> usize {
        (2 + self.spec_cause_len() + self.spec_common_address_len()) as usize
    }

    /// The first value that an information object address of this width
    /// cannot hold.
    pub open spec fn object_address_limit(self) -> nat {
        match self.object_address_width {
            ObjectAddressWidth::One => 0x100,
            ObjectAddressWidth::Two => 0x1_0000,
            ObjectAddressWidth::Three => 0x100_0000,
        }
    }

    /// The first value that a common address of this width cannot hold.
    pub open spec fn common_address_limit(self) -> nat {
        match self.common_address_width {
            CommonAddressWidth::One => 0x100,
            CommonAddressWidth::Two => 0x1_0000,
        }
    }

    /// The profile that IEC 60870-5-104 prescribes: a two-byte cause, a
    /// two-byte common address and three-byte object addresses.
    pub fn standard() -> (p: Profile)
        ensures
            p == (Profile {
                cause_width: CauseWidth::Two,
                common_address_width: CommonAddressWidth::Two,
                object_address_width: ObjectAddressWidth::Three,
            }),
    {
        Profile {
            cause_width: CauseWidth::Two,
            common_address_width: CommonAddressWidth::Two,
            object_address_width: ObjectAddressWidth::Three,
        }
    }

    /// A profile from its three widths in bytes, where each is one that the
    /// protocol allows: 1 or 2 for the cause and for the common address,
    /// 1 to 3 for the object address.
    pub fn new(cause_len: u8, common_address_len: u8, object_address_len: u8) -> (r: Option<
        Profile,
    >)
        ensures
            r is Some <==> 1 <= cause_len <= 2 && 1 <= common_address_len <= 2 && 1
                <= object_address_len <= 3,
            r is Some ==> r->0.spec_cause_len() == cause_len
                && r->0.spec_common_address_len() == common_address_len
                && r->0.spec_object_address_len() == object_address_len,
    {
        let cause_width = if cause_len == 1 {
            CauseWidth::One
        } else if cause_len == 2 {
            CauseWidth::Two
        } else {
            return None;
        };
        let common_address_width = if common_address_len == 1 {
            CommonAddressWidth::One
        } else if common_address_len == 2 {
            CommonAddressWidth::Two
        } else {
            return None;
        };
        let object_address_width = if object_address_len == 1 {
            ObjectAddressWidth::One
        } else if object_address_len == 2 {
            ObjectAddressWidth::Two
        } else if object_address_len == 3 {
            ObjectAddressWidth::Three
        } else {
            return None;
        };
        Some(Profile { cause_width, common_address_width, object_address_width })
    }

    /// The first value that an object address of this width cannot hold.
    pub fn object_address_bound(&self) -> (n: u32)
        ensures
            n == self.object_address_limit(),
    {
        match self.object_address_width {
            ObjectAddressWidth::One => 0x100,
            ObjectAddressWidth::Two => 0x1_0000,
            ObjectAddressWidth::Three => 0x100_0000,
        }
    }

    /// The first value that a common address of this width cannot hold.
    pub fn common_address_bound(&self) -> (n: u32)
        ensures
            n == self.common_address_limit(),
    {
        match self.common_address_width {
            CommonAddressWidth::One => 0x100,
            CommonAddressWidth::Two => 0x1_0000,
        }
    }

    #[verifier::when_used_as_spec(spec_cause_len)]
    pub fn cause_len(&self) -> (n: usize)
        ensures
            n == self.spec_cause_len(),
    {
        match self.cause_width {
            CauseWidth::One => 1,
            CauseWidth::Two => 2,
        }
    }

    #[verifier::when_used_as_spec(spec_common_address_len)]
    pub fn common_address_len(&self) -> (n: usize)
        ensures
            n == self.spec_common_address_len(),
    {
        match self.common_address_width {
            CommonAddressWidth::One => 1,
            CommonAddressWidth::Two => 2,
        }
    }

    #[verifier::when_used_as_spec(spec_object_address_len)]
    pub fn object_address_len(&self) -> (n: usize)
        ensures
            n == self.spec_object_address_len(),
    {
        match self.object_address_width {
            ObjectAddressWidth::One => 1,
            ObjectAddressWidth::Two => 2,
            ObjectAddressWidth::Three => 3,
        }
    }

    #[verifier::when_used_as_spec(spec_header_len)]
    pub fn header_len(&self) -> (n: usize)
        ensures
            n == self.spec_header_len(),
    {
        2 + self.cause_len() + self.common_address_len()
    }
}

impl Default for Profile {
    fn default() -> (p: Profile)
        ensures
            p == (Profile {
                cause_width: CauseWidth::Two,
                common_address_width: CommonAddressWidth::Two,
                object_address_width: ObjectAddressWidth::Three,
            }),
    {
        Profile::standard()
    }
}

} // verus!
