//! Type identifications and the layout table.
//!
//! Every type that the codec knows has one row: the category of its
//! objects, whether a quality descriptor goes with the value, and the class
//! of its time tag. The row alone fixes how many bytes an object takes and
//! how they are read, so that decoding and encoding never branch on the
//! type again.
//!
//! Monitored values come without a time tag, with the three-byte tag or
//! with the seven-byte tag. Commands come without a tag or with the
//! three-byte tag. Bytes that name no row are kept as `Unknown`.

use crate::time::TimeClass;
use vstd::prelude::*;

verus! {

/// The type identification of an ASDU.
#[allow(non_camel_case_types)]
#[derive(Clone, Copy, Debug, PartialEq, Eq, Structural)]
pub enum TypeId {
    /// 1: single-point information.
    M_SP_NA_1,
    /// 2: single-point information with the short time tag.
    M_SP_TA_1,
    /// 3: double-point information.
    M_DP_NA_1,
    /// 4: double-point information with the short time tag.
    M_DP_TA_1,
    /// 9: measured value, normalized.
    M_ME_NA_1,
    /// 10: measured value, normalized, with the short time tag.
    M_ME_TA_1,
    /// 11: measured value, scaled.
    M_ME_NB_1,
    /// 12: measured value, scaled, with the short time tag.
    M_ME_TB_1,
    /// 13: measured value, short floating point.
    M_ME_NC_1,
    /// 14: measured value, short floating point, with the short time tag.
    M_ME_TC_1,
    /// 15: integrated totals.
    M_IT_NA_1,
    /// 16: integrated totals with the short time tag.
    M_IT_TA_1,
    /// 21: measured value, normalized, without quality descriptor.
    M_ME_ND_1,
    /// 30: single-point information with the long time tag.
    M_SP_TB_1,
    /// 31: double-point information with the long time tag.
    M_DP_TB_1,
    /// 34: measured value, normalized, with the long time tag.
    M_ME_TD_1,
    /// 35: measured value, scaled, with the long time tag.
    M_ME_TE_1,
    /// 36: measured value, short floating point, with the long time tag.
    M_ME_TF_1,
    /// 37: integrated totals with the long time tag.
    M_IT_TB_1,
    /// 45: single command.
    C_SC_NA_1,
    /// 46: double command.
    C_DC_NA_1,
    /// 48: set-point command, normalized value.
    C_SE_NA_1,
    /// 49: set-point command, scaled value.
    C_SE_NB_1,
    /// 50: set-point command, short floating point.
    C_SE_NC_1,
    /// 51: bit string of 32 bits, as a command.
    C_BO_NA_1,
    /// 58: single command with a time tag.
    C_SC_TA_1,
    /// 59: double command with a time tag.
    C_DC_TA_1,
    /// 61: set-point command, normalized value, with a time tag.
    C_SE_TA_1,
    /// 62: set-point command, scaled value, with a time tag.
    C_SE_TB_1,
    /// 63: set-point command, short floating point, with a time tag.
    C_SE_TC_1,
    /// 64: bit string of 32 bits, as a command, with a time tag.
    C_BO_TA_1,
    /// 70: end of initialization.
    M_EI_NA_1,
    /// 100: interrogation command.
    C_IC_NA_1,
    /// 101: counter interrogation command.
    C_CI_NA_1,
    /// 105: reset process command.
    C_RP_NA_1,
    /// A type that the table has no row for, with its byte.
    Unknown(u8),
}

/// What the objects of a type hold.
#[derive(Clone, Copy, Debug, PartialEq, Eq, Structural)]
pub enum Category {
    /// A one-bit status with its quality in the same byte.
    SinglePoint,
    /// A two-bit status with its quality in the same byte.
    DoublePoint,
    /// A 16-bit signed value that stands for a fraction of 32768.
    Normalized,
    /// A 16-bit signed value.
    Scaled,
    /// A 32-bit IEEE-754 value.
    Float,
    /// A 32-bit signed counter and a byte with its sequence number and
    /// quality flags.
    IntegratedTotal,
    /// A one-bit command with its qualifier in the same byte.
    SingleCommand,
    /// A two-bit command with its qualifier in the same byte.
    DoubleCommand,
    /// A normalized set point and its qualifier.
    SetpointNormalized,
    /// A scaled set point and its qualifier.
    SetpointScaled,
    /// A floating-point set point and its qualifier.
    SetpointFloat,
    /// 32 bits to be set.
    Bitstring32Command,
    /// A qualifier of interrogation.
    Interrogation,
    /// A qualifier of counter interrogation.
    CounterInterrogation,
    /// A qualifier of reset process.
    ResetProcess,
    /// A cause of initialization.
    EndOfInit,
}

/// The row of one type in the layout table.
#[derive(Clone, Copy, Debug, PartialEq, Eq, Structural)]
pub struct Layout {
    pub category: Category,
    /// Whether the objects carry a quality descriptor. A measured value
    /// without one is followed by no quality byte.
    pub quality: bool,
    pub time: TimeClass,
}

impl Category {
    /// Bytes of the value part of an object of this category, the quality
    /// or qualifier included, the address and the time tag not.
    pub open spec fn spec_value_len(&self, quality: bool) -> usize {
        match self {
            Category::SinglePoint => 1,
            Category::DoublePoint => 1,
            Category::Normalized => if quality {
                3
            } else {
                2
            },
            Category::Scaled => if quality {
                3
            } else {
                2
            },
            Category::Float => if quality {
                5
            } else {
                4
            },
            Category::IntegratedTotal => 5,
            Category::SingleCommand => 1,
            Category::DoubleCommand => 1,
            Category::SetpointNormalized => 3,
            Category::SetpointScaled => 3,
            Category::SetpointFloat => 5,
            Category::Bitstring32Command => 4,
            Category::Interrogation => 1,
            Category::CounterInterrogation => 1,
            Category::ResetProcess => 1,
            Category::EndOfInit => 1,
        }
    }

    #[verifier::when_used_as_spec(spec_value_len)]
    pub fn value_len(&self, quality: bool) -> (n: usize)
        ensures
            n == self.spec_value_len(quality),
    {
        match self {
            Category::SinglePoint => 1,
            Category::DoublePoint => 1,
            Category::Normalized => if quality {
                3
            } else {
                2
            },
            Category::Scaled => if quality {
                3
            } else {
                2
            },
            Category::Float => if quality {
                5
            } else {
                4
            },
            Category::IntegratedTotal => 5,
            Category::SingleCommand => 1,
            Category::DoubleCommand => 1,
            Category::SetpointNormalized => 3,
            Category::SetpointScaled => 3,
            Category::SetpointFloat => 5,
            Category::Bitstring32Command => 4,
            Category::Interrogation => 1,
            Category::CounterInterrogation => 1,
            Category::ResetProcess => 1,
            Category::EndOfInit => 1,
        }
    }
}

impl Layout {
    /// Bytes of the value part of one object.
    pub open spec fn spec_value_len(&self) -> usize {
        self.category.spec_value_len(self.quality)
    }

    /// Bytes of one object without its address: the value part and the
    /// time tag.
    #[verifier::opaque]
    pub open spec fn spec_element_len(&self) -> usize {
        (self.category.spec_value_len(self.quality) + self.time.spec_len()) as usize
    }

    #[verifier::when_used_as_spec(spec_value_len)]
    pub fn value_len(&self) -> (n: usize)
        ensures
            n == self.spec_value_len(),
    {
        self.category.value_len(self.quality)
    }

    #[verifier::when_used_as_spec(spec_element_len)]
    pub fn element_len(&self) -> (n: usize)
        ensures
            n == self.spec_element_len(),
            1 <= n <= 12,
    {
        reveal(Layout::spec_element_len);
        self.category.value_len(self.quality) + self.time.len()
    }
}

impl TypeId {
    /// The byte of this type.
    pub open spec fn spec_code(&self) -> u8 {
        match self {
            TypeId::M_SP_NA_1 => 1,
            TypeId::M_SP_TA_1 => 2,
            TypeId::M_DP_NA_1 => 3,
            TypeId::M_DP_TA_1 => 4,
            TypeId::M_ME_NA_1 => 9,
            TypeId::M_ME_TA_1 => 10,
            TypeId::M_ME_NB_1 => 11,
            TypeId::M_ME_TB_1 => 12,
            TypeId::M_ME_NC_1 => 13,
            TypeId::M_ME_TC_1 => 14,
            TypeId::M_IT_NA_1 => 15,
            TypeId::M_IT_TA_1 => 16,
            TypeId::M_ME_ND_1 => 21,
            TypeId::M_SP_TB_1 => 30,
            TypeId::M_DP_TB_1 => 31,
            TypeId::M_ME_TD_1 => 34,
            TypeId::M_ME_TE_1 => 35,
            TypeId::M_ME_TF_1 => 36,
            TypeId::M_IT_TB_1 => 37,
            TypeId::C_SC_NA_1 => 45,
            TypeId::C_DC_NA_1 => 46,
            TypeId::C_SE_NA_1 => 48,
            TypeId::C_SE_NB_1 => 49,
            TypeId::C_SE_NC_1 => 50,
            TypeId::C_BO_NA_1 => 51,
            TypeId::C_SC_TA_1 => 58,
            TypeId::C_DC_TA_1 => 59,
            TypeId::C_SE_TA_1 => 61,
            TypeId::C_SE_TB_1 => 62,
            TypeId::C_SE_TC_1 => 63,
            TypeId::C_BO_TA_1 => 64,
            TypeId::M_EI_NA_1 => 70,
            TypeId::C_IC_NA_1 => 100,
            TypeId::C_CI_NA_1 => 101,
            TypeId::C_RP_NA_1 => 105,
            TypeId::Unknown(b) => *b,
        }
    }

    /// The type that a byte names: its row's type where the table has one,
    /// and `Unknown` with the byte otherwise.
    pub open spec fn spec_from_code(b: u8) -> TypeId {
        if b == 1 {
            TypeId::M_SP_NA_1
        } else if b == 2 {
            TypeId::M_SP_TA_1
        } else if b == 3 {
            TypeId::M_DP_NA_1
        } else if b == 4 {
            TypeId::M_DP_TA_1
        } else if b == 9 {
            TypeId::M_ME_NA_1
        } else if b == 10 {
            TypeId::M_ME_TA_1
        } else if b == 11 {
            TypeId::M_ME_NB_1
        } else if b == 12 {
            TypeId::M_ME_TB_1
        } else if b == 13 {
            TypeId::M_ME_NC_1
        } else if b == 14 {
            TypeId::M_ME_TC_1
        } else if b == 15 {
            TypeId::M_IT_NA_1
        } else if b == 16 {
            TypeId::M_IT_TA_1
        } else if b == 21 {
            TypeId::M_ME_ND_1
        } else if b == 30 {
            TypeId::M_SP_TB_1
        } else if b == 31 {
            TypeId::M_DP_TB_1
        } else if b == 34 {
            TypeId::M_ME_TD_1
        } else if b == 35 {
            TypeId::M_ME_TE_1
        } else if b == 36 {
            TypeId::M_ME_TF_1
        } else if b == 37 {
            TypeId::M_IT_TB_1
        } else if b == 45 {
            TypeId::C_SC_NA_1
        } else if b == 46 {
            TypeId::C_DC_NA_1
        } else if b == 48 {
            TypeId::C_SE_NA_1
        } else if b == 49 {
            TypeId::C_SE_NB_1
        } else if b == 50 {
            TypeId::C_SE_NC_1
        } else if b == 51 {
            TypeId::C_BO_NA_1
        } else if b == 58 {
            TypeId::C_SC_TA_1
        } else if b == 59 {
            TypeId::C_DC_TA_1
        } else if b == 61 {
            TypeId::C_SE_TA_1
        } else if b == 62 {
            TypeId::C_SE_TB_1
        } else if b == 63 {
            TypeId::C_SE_TC_1
        } else if b == 64 {
            TypeId::C_BO_TA_1
        } else if b == 70 {
            TypeId::M_EI_NA_1
        } else if b == 100 {
            TypeId::C_IC_NA_1
        } else if b == 101 {
            TypeId::C_CI_NA_1
        } else if b == 105 {
            TypeId::C_RP_NA_1
        } else {
            TypeId::Unknown(b)
        }
    }

    /// The row of this type, or `None` for an unknown type.
    pub open spec fn spec_layout(&self) -> Option<Layout> {
        match self {
            TypeId::M_SP_NA_1 => Some(Layout { category: Category::SinglePoint, quality: true, time: TimeClass::Untagged }),
            TypeId::M_SP_TA_1 => Some(Layout { category: Category::SinglePoint, quality: true, time: TimeClass::Short }),
            TypeId::M_DP_NA_1 => Some(Layout { category: Category::DoublePoint, quality: true, time: TimeClass::Untagged }),
            TypeId::M_DP_TA_1 => Some(Layout { category: Category::DoublePoint, quality: true, time: TimeClass::Short }),
            TypeId::M_ME_NA_1 => Some(Layout { category: Category::Normalized, quality: true, time: TimeClass::Untagged }),
            TypeId::M_ME_TA_1 => Some(Layout { category: Category::Normalized, quality: true, time: TimeClass::Short }),
            TypeId::M_ME_NB_1 => Some(Layout { category: Category::Scaled, quality: true, time: TimeClass::Untagged }),
            TypeId::M_ME_TB_1 => Some(Layout { category: Category::Scaled, quality: true, time: TimeClass::Short }),
            TypeId::M_ME_NC_1 => Some(Layout { category: Category::Float, quality: true, time: TimeClass::Untagged }),
            TypeId::M_ME_TC_1 => Some(Layout { category: Category::Float, quality: true, time: TimeClass::Short }),
            TypeId::M_IT_NA_1 => Some(Layout { category: Category::IntegratedTotal, quality: true, time: TimeClass::Untagged }),
            TypeId::M_IT_TA_1 => Some(Layout { category: Category::IntegratedTotal, quality: true, time: TimeClass::Short }),
            TypeId::M_ME_ND_1 => Some(Layout { category: Category::Normalized, quality: false, time: TimeClass::Untagged }),
            TypeId::M_SP_TB_1 => Some(Layout { category: Category::SinglePoint, quality: true, time: TimeClass::Long }),
            TypeId::M_DP_TB_1 => Some(Layout { category: Category::DoublePoint, quality: true, time: TimeClass::Long }),
            TypeId::M_ME_TD_1 => Some(Layout { category: Category::Normalized, quality: true, time: TimeClass::Long }),
            TypeId::M_ME_TE_1 => Some(Layout { category: Category::Scaled, quality: true, time: TimeClass::Long }),
            TypeId::M_ME_TF_1 => Some(Layout { category: Category::Float, quality: true, time: TimeClass::Long }),
            TypeId::M_IT_TB_1 => Some(Layout { category: Category::IntegratedTotal, quality: true, time: TimeClass::Long }),
            TypeId::C_SC_NA_1 => Some(Layout { category: Category::SingleCommand, quality: false, time: TimeClass::Untagged }),
            TypeId::C_DC_NA_1 => Some(Layout { category: Category::DoubleCommand, quality: false, time: TimeClass::Untagged }),
            TypeId::C_SE_NA_1 => Some(Layout { category: Category::SetpointNormalized, quality: false, time: TimeClass::Untagged }),
            TypeId::C_SE_NB_1 => Some(Layout { category: Category::SetpointScaled, quality: false, time: TimeClass::Untagged }),
            TypeId::C_SE_NC_1 => Some(Layout { category: Category::SetpointFloat, quality: false, time: TimeClass::Untagged }),
            TypeId::C_BO_NA_1 => Some(Layout { category: Category::Bitstring32Command, quality: false, time: TimeClass::Untagged }),
            TypeId::C_SC_TA_1 => Some(Layout { category: Category::SingleCommand, quality: false, time: TimeClass::Short }),
            TypeId::C_DC_TA_1 => Some(Layout { category: Category::DoubleCommand, quality: false, time: TimeClass::Short }),
            TypeId::C_SE_TA_1 => Some(Layout { category: Category::SetpointNormalized, quality: false, time: TimeClass::Short }),
            TypeId::C_SE_TB_1 => Some(Layout { category: Category::SetpointScaled, quality: false, time: TimeClass::Short }),
            TypeId::C_SE_TC_1 => Some(Layout { category: Category::SetpointFloat, quality: false, time: TimeClass::Short }),
            TypeId::C_BO_TA_1 => Some(Layout { category: Category::Bitstring32Command, quality: false, time: TimeClass::Short }),
            TypeId::M_EI_NA_1 => Some(Layout { category: Category::EndOfInit, quality: false, time: TimeClass::Untagged }),
            TypeId::C_IC_NA_1 => Some(Layout { category: Category::Interrogation, quality: false, time: TimeClass::Untagged }),
            TypeId::C_CI_NA_1 => Some(Layout { category: Category::CounterInterrogation, quality: false, time: TimeClass::Untagged }),
            TypeId::C_RP_NA_1 => Some(Layout { category: Category::ResetProcess, quality: false, time: TimeClass::Untagged }),
            TypeId::Unknown(_) => None,
        }
    }

    /// Whether the value names its type in the one way there is: an
    /// `Unknown` holds no byte that the table has a row for.
    pub open spec fn spec_valid(&self) -> bool {
        TypeId::spec_from_code(self.spec_code()) == *self
    }

    #[verifier::when_used_as_spec(spec_code)]
    pub fn code(&self) -> (b: u8)
        ensures
            b == self.spec_code(),
    {
        match self {
            TypeId::M_SP_NA_1 => 1,
            TypeId::M_SP_TA_1 => 2,
            TypeId::M_DP_NA_1 => 3,
            TypeId::M_DP_TA_1 => 4,
            TypeId::M_ME_NA_1 => 9,
            TypeId::M_ME_TA_1 => 10,
            TypeId::M_ME_NB_1 => 11,
            TypeId::M_ME_TB_1 => 12,
            TypeId::M_ME_NC_1 => 13,
            TypeId::M_ME_TC_1 => 14,
            TypeId::M_IT_NA_1 => 15,
            TypeId::M_IT_TA_1 => 16,
            TypeId::M_ME_ND_1 => 21,
            TypeId::M_SP_TB_1 => 30,
            TypeId::M_DP_TB_1 => 31,
            TypeId::M_ME_TD_1 => 34,
            TypeId::M_ME_TE_1 => 35,
            TypeId::M_ME_TF_1 => 36,
            TypeId::M_IT_TB_1 => 37,
            TypeId::C_SC_NA_1 => 45,
            TypeId::C_DC_NA_1 => 46,
            TypeId::C_SE_NA_1 => 48,
            TypeId::C_SE_NB_1 => 49,
            TypeId::C_SE_NC_1 => 50,
            TypeId::C_BO_NA_1 => 51,
            TypeId::C_SC_TA_1 => 58,
            TypeId::C_DC_TA_1 => 59,
            TypeId::C_SE_TA_1 => 61,
            TypeId::C_SE_TB_1 => 62,
            TypeId::C_SE_TC_1 => 63,
            TypeId::C_BO_TA_1 => 64,
            TypeId::M_EI_NA_1 => 70,
            TypeId::C_IC_NA_1 => 100,
            TypeId::C_CI_NA_1 => 101,
            TypeId::C_RP_NA_1 => 105,
            TypeId::Unknown(b) => *b,
        }
    }

    #[verifier::when_used_as_spec(spec_from_code)]
    pub fn from_code(b: u8) -> (t: TypeId)
        ensures
            t == TypeId::spec_from_code(b),
            t.spec_valid(),
            t.spec_code() == b,
    {
        if b == 1 {
            TypeId::M_SP_NA_1
        } else if b == 2 {
            TypeId::M_SP_TA_1
        } else if b == 3 {
            TypeId::M_DP_NA_1
        } else if b == 4 {
            TypeId::M_DP_TA_1
        } else if b == 9 {
            TypeId::M_ME_NA_1
        } else if b == 10 {
            TypeId::M_ME_TA_1
        } else if b == 11 {
            TypeId::M_ME_NB_1
        } else if b == 12 {
            TypeId::M_ME_TB_1
        } else if b == 13 {
            TypeId::M_ME_NC_1
        } else if b == 14 {
            TypeId::M_ME_TC_1
        } else if b == 15 {
            TypeId::M_IT_NA_1
        } else if b == 16 {
            TypeId::M_IT_TA_1
        } else if b == 21 {
            TypeId::M_ME_ND_1
        } else if b == 30 {
            TypeId::M_SP_TB_1
        } else if b == 31 {
            TypeId::M_DP_TB_1
        } else if b == 34 {
            TypeId::M_ME_TD_1
        } else if b == 35 {
            TypeId::M_ME_TE_1
        } else if b == 36 {
            TypeId::M_ME_TF_1
        } else if b == 37 {
            TypeId::M_IT_TB_1
        } else if b == 45 {
            TypeId::C_SC_NA_1
        } else if b == 46 {
            TypeId::C_DC_NA_1
        } else if b == 48 {
            TypeId::C_SE_NA_1
        } else if b == 49 {
            TypeId::C_SE_NB_1
        } else if b == 50 {
            TypeId::C_SE_NC_1
        } else if b == 51 {
            TypeId::C_BO_NA_1
        } else if b == 58 {
            TypeId::C_SC_TA_1
        } else if b == 59 {
            TypeId::C_DC_TA_1
        } else if b == 61 {
            TypeId::C_SE_TA_1
        } else if b == 62 {
            TypeId::C_SE_TB_1
        } else if b == 63 {
            TypeId::C_SE_TC_1
        } else if b == 64 {
            TypeId::C_BO_TA_1
        } else if b == 70 {
            TypeId::M_EI_NA_1
        } else if b == 100 {
            TypeId::C_IC_NA_1
        } else if b == 101 {
            TypeId::C_CI_NA_1
        } else if b == 105 {
            TypeId::C_RP_NA_1
        } else {
            TypeId::Unknown(b)
        }
    }

    #[verifier::when_used_as_spec(spec_layout)]
    pub fn layout(&self) -> (l: Option<Layout>)
        ensures
            l == self.spec_layout(),
    {
        match self {
            TypeId::M_SP_NA_1 => Some(Layout { category: Category::SinglePoint, quality: true, time: TimeClass::Untagged }),
            TypeId::M_SP_TA_1 => Some(Layout { category: Category::SinglePoint, quality: true, time: TimeClass::Short }),
            TypeId::M_DP_NA_1 => Some(Layout { category: Category::DoublePoint, quality: true, time: TimeClass::Untagged }),
            TypeId::M_DP_TA_1 => Some(Layout { category: Category::DoublePoint, quality: true, time: TimeClass::Short }),
            TypeId::M_ME_NA_1 => Some(Layout { category: Category::Normalized, quality: true, time: TimeClass::Untagged }),
            TypeId::M_ME_TA_1 => Some(Layout { category: Category::Normalized, quality: true, time: TimeClass::Short }),
            TypeId::M_ME_NB_1 => Some(Layout { category: Category::Scaled, quality: true, time: TimeClass::Untagged }),
            TypeId::M_ME_TB_1 => Some(Layout { category: Category::Scaled, quality: true, time: TimeClass::Short }),
            TypeId::M_ME_NC_1 => Some(Layout { category: Category::Float, quality: true, time: TimeClass::Untagged }),
            TypeId::M_ME_TC_1 => Some(Layout { category: Category::Float, quality: true, time: TimeClass::Short }),
            TypeId::M_IT_NA_1 => Some(Layout { category: Category::IntegratedTotal, quality: true, time: TimeClass::Untagged }),
            TypeId::M_IT_TA_1 => Some(Layout { category: Category::IntegratedTotal, quality: true, time: TimeClass::Short }),
            TypeId::M_ME_ND_1 => Some(Layout { category: Category::Normalized, quality: false, time: TimeClass::Untagged }),
            TypeId::M_SP_TB_1 => Some(Layout { category: Category::SinglePoint, quality: true, time: TimeClass::Long }),
            TypeId::M_DP_TB_1 => Some(Layout { category: Category::DoublePoint, quality: true, time: TimeClass::Long }),
            TypeId::M_ME_TD_1 => Some(Layout { category: Category::Normalized, quality: true, time: TimeClass::Long }),
            TypeId::M_ME_TE_1 => Some(Layout { category: Category::Scaled, quality: true, time: TimeClass::Long }),
            TypeId::M_ME_TF_1 => Some(Layout { category: Category::Float, quality: true, time: TimeClass::Long }),
            TypeId::M_IT_TB_1 => Some(Layout { category: Category::IntegratedTotal, quality: true, time: TimeClass::Long }),
            TypeId::C_SC_NA_1 => Some(Layout { category: Category::SingleCommand, quality: false, time: TimeClass::Untagged }),
            TypeId::C_DC_NA_1 => Some(Layout { category: Category::DoubleCommand, quality: false, time: TimeClass::Untagged }),
            TypeId::C_SE_NA_1 => Some(Layout { category: Category::SetpointNormalized, quality: false, time: TimeClass::Untagged }),
            TypeId::C_SE_NB_1 => Some(Layout { category: Category::SetpointScaled, quality: false, time: TimeClass::Untagged }),
            TypeId::C_SE_NC_1 => Some(Layout { category: Category::SetpointFloat, quality: false, time: TimeClass::Untagged }),
            TypeId::C_BO_NA_1 => Some(Layout { category: Category::Bitstring32Command, quality: false, time: TimeClass::Untagged }),
            TypeId::C_SC_TA_1 => Some(Layout { category: Category::SingleCommand, quality: false, time: TimeClass::Short }),
            TypeId::C_DC_TA_1 => Some(Layout { category: Category::DoubleCommand, quality: false, time: TimeClass::Short }),
            TypeId::C_SE_TA_1 => Some(Layout { category: Category::SetpointNormalized, quality: false, time: TimeClass::Short }),
            TypeId::C_SE_TB_1 => Some(Layout { category: Category::SetpointScaled, quality: false, time: TimeClass::Short }),
            TypeId::C_SE_TC_1 => Some(Layout { category: Category::SetpointFloat, quality: false, time: TimeClass::Short }),
            TypeId::C_BO_TA_1 => Some(Layout { category: Category::Bitstring32Command, quality: false, time: TimeClass::Short }),
            TypeId::M_EI_NA_1 => Some(Layout { category: Category::EndOfInit, quality: false, time: TimeClass::Untagged }),
            TypeId::C_IC_NA_1 => Some(Layout { category: Category::Interrogation, quality: false, time: TimeClass::Untagged }),
            TypeId::C_CI_NA_1 => Some(Layout { category: Category::CounterInterrogation, quality: false, time: TimeClass::Untagged }),
            TypeId::C_RP_NA_1 => Some(Layout { category: Category::ResetProcess, quality: false, time: TimeClass::Untagged }),
            TypeId::Unknown(_) => None,
        }
    }

    #[verifier::when_used_as_spec(spec_valid)]
    pub fn valid(&self) -> (b: bool)
        ensures
            b == self.spec_valid(),
    {
        match self {
            TypeId::Unknown(b) => match TypeId::from_code(*b) {
                TypeId::Unknown(_) => true,
                _ => false,
            },
            _ => true,
        }
    }
}

/// An element is its value part and its time tag, 1 to 12 bytes in all.
pub proof fn lemma_element_len(layout: Layout)
    ensures
        layout.spec_element_len() == layout.spec_value_len() + layout.time.spec_len(),
        1 <= layout.spec_element_len() <= 12,
{
    reveal(Layout::spec_element_len);
}

/// A byte and the type it names stand for each other: the type of a byte
/// has that byte, and a valid type is the one its byte names.
pub proof fn lemma_type_code_round_trip(t: TypeId, b: u8)
    ensures
        TypeId::spec_from_code(b).spec_code() == b,
        TypeId::spec_from_code(b).spec_valid(),
        t.spec_valid() ==> TypeId::spec_from_code(t.spec_code()) == t,
        t.spec_valid() ==> (t.spec_layout() is None <==> t is Unknown),
{
}

} // verus!
