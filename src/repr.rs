use vstd::prelude::*;

use crate::error::DecodeError;

verus! {

/// Byte order of multi-byte values.
#[derive(Debug, Clone, Copy, PartialEq, Eq, Structural)]
pub enum Endian {
    Big,
    Little,
}

/// A CDF version as (version, release, increment).
#[derive(Debug, Clone, Copy, PartialEq, Eq, Structural)]
pub struct CdfVersion {
    pub major: u64,
    pub minor: u64,
    pub patch: u64,
}

impl CdfVersion {
    pub fn new(major: u64, minor: u64, patch: u64) -> (r: CdfVersion)
        ensures
            r == (CdfVersion { major, minor, patch }),
    {
        CdfVersion { major, minor, patch }
    }

    /// `self` comes before `o` in the order of versions.
    pub open spec fn spec_lt(self, o: CdfVersion) -> bool {
        self.major < o.major || (self.major == o.major && (self.minor < o.minor || (
        self.minor == o.minor && self.patch < o.patch)))
    }

    pub fn lt(&self, o: &CdfVersion) -> (r: bool)
        ensures
            r == self.spec_lt(*o),
    {
        self.major < o.major || (self.major == o.major && (self.minor < o.minor || (self.minor
            == o.minor && self.patch < o.patch)))
    }
}

/// Data encodings of CDF files.
#[derive(Debug, Clone, Copy, PartialEq, Eq, Structural)]
pub enum Encoding {
    /// eXternal Data Representation
    Network,
    /// Sun Representation
    Sun,
    /// VAX Representation
    Vax,
    /// DECStation Representation
    DecStation,
    /// SGi Representation
    Sgi,
    /// Intel Windows, Linux, MacOS Intel, Solaris Intel
    IbmPc,
    /// IBM RS-6000 Representation
    IbmRs,
    /// Macintosh Power PC Representation
    Ppc,
    /// HP 9000 Series Representation
    Hp,
    /// NeXT Representation
    Next,
    /// DEC Alpha/OSF1 Representation
    AlphaOsf1,
    /// DEC Alpha/Open VMS Representation, doubles in D_FLOAT
    AlphaVmsD,
    /// DEC Alpha/Open VMS Representation, doubles in G_FLOAT
    AlphaVmsG,
    /// DEC Alpha/Open VMS Representation, IEEE 754 floats
    AlphaVmsI,
    /// ARM little-endian Representation
    ArmLittle,
    /// ARM big-endian Representation
    ArmBig,
    /// Itanium 64 on OpenVMS Representation, IEEE 754 floats
    Ia64VmsI,
    /// Itanium 64 on OpenVMS Representation, D_FLOAT floats
    Ia64VmsD,
    /// Itanium 64 on OpenVMS Representation, G_FLOAT floats
    Ia64VmsG,
}

/// The encoding that a CDR tag names.
pub open spec fn encoding_of(t: i32) -> Option<Encoding> {
    match t {
        1 => Some(Encoding::Network),
        2 => Some(Encoding::Sun),
        3 => Some(Encoding::Vax),
        4 => Some(Encoding::DecStation),
        5 => Some(Encoding::Sgi),
        6 => Some(Encoding::IbmPc),
        7 => Some(Encoding::IbmRs),
        9 => Some(Encoding::Ppc),
        11 => Some(Encoding::Hp),
        12 => Some(Encoding::Next),
        13 => Some(Encoding::AlphaOsf1),
        14 => Some(Encoding::AlphaVmsD),
        15 => Some(Encoding::AlphaVmsG),
        16 => Some(Encoding::AlphaVmsI),
        17 => Some(Encoding::ArmLittle),
        18 => Some(Encoding::ArmBig),
        19 => Some(Encoding::Ia64VmsI),
        20 => Some(Encoding::Ia64VmsD),
        21 => Some(Encoding::Ia64VmsG),
        _ => None,
    }
}

impl Encoding {
    /// The tag of this encoding in a CDR.
    pub open spec fn spec_tag(self) -> i32 {
        match self {
            Encoding::Network => 1,
            Encoding::Sun => 2,
            Encoding::Vax => 3,
            Encoding::DecStation => 4,
            Encoding::Sgi => 5,
            Encoding::IbmPc => 6,
            Encoding::IbmRs => 7,
            Encoding::Ppc => 9,
            Encoding::Hp => 11,
            Encoding::Next => 12,
            Encoding::AlphaOsf1 => 13,
            Encoding::AlphaVmsD => 14,
            Encoding::AlphaVmsG => 15,
            Encoding::AlphaVmsI => 16,
            Encoding::ArmLittle => 17,
            Encoding::ArmBig => 18,
            Encoding::Ia64VmsI => 19,
            Encoding::Ia64VmsD => 20,
            Encoding::Ia64VmsG => 21,
        }
    }

    /// The byte order of IEEE 754 and two's complement values under this
    /// encoding; none where floats are not IEEE 754.
    pub open spec fn spec_endian(self) -> Option<Endian> {
        match self {
            Encoding::Network | Encoding::Sun | Encoding::Sgi | Encoding::IbmRs | Encoding::Ppc
            | Encoding::Next | Encoding::ArmBig => Some(Endian::Big),
            Encoding::DecStation | Encoding::IbmPc | Encoding::AlphaOsf1 | Encoding::AlphaVmsI
            | Encoding::ArmLittle | Encoding::Ia64VmsI => Some(Endian::Little),
            _ => None,
        }
    }

    pub fn tag(&self) -> (r: i32)
        ensures
            r == self.spec_tag(),
    {
        match self {
            Encoding::Network => 1,
            Encoding::Sun => 2,
            Encoding::Vax => 3,
            Encoding::DecStation => 4,
            Encoding::Sgi => 5,
            Encoding::IbmPc => 6,
            Encoding::IbmRs => 7,
            Encoding::Ppc => 9,
            Encoding::Hp => 11,
            Encoding::Next => 12,
            Encoding::AlphaOsf1 => 13,
            Encoding::AlphaVmsD => 14,
            Encoding::AlphaVmsG => 15,
            Encoding::AlphaVmsI => 16,
            Encoding::ArmLittle => 17,
            Encoding::ArmBig => 18,
            Encoding::Ia64VmsI => 19,
            Encoding::Ia64VmsD => 20,
            Encoding::Ia64VmsG => 21,
        }
    }

    /// The encoding named by a CDR tag; an unknown tag is an unsupported encoding.
    pub fn from_tag(t: i32) -> (r: Result<Encoding, DecodeError>)
        ensures
            r == (match encoding_of(t) {
                Some(e) => Ok(e),
                None => Err(DecodeError::UnsupportedEncoding(t)),
            }),
    {
        match t {
            1 => Ok(Encoding::Network),
            2 => Ok(Encoding::Sun),
            3 => Ok(Encoding::Vax),
            4 => Ok(Encoding::DecStation),
            5 => Ok(Encoding::Sgi),
            6 => Ok(Encoding::IbmPc),
            7 => Ok(Encoding::IbmRs),
            9 => Ok(Encoding::Ppc),
            11 => Ok(Encoding::Hp),
            12 => Ok(Encoding::Next),
            13 => Ok(Encoding::AlphaOsf1),
            14 => Ok(Encoding::AlphaVmsD),
            15 => Ok(Encoding::AlphaVmsG),
            16 => Ok(Encoding::AlphaVmsI),
            17 => Ok(Encoding::ArmLittle),
            18 => Ok(Encoding::ArmBig),
            19 => Ok(Encoding::Ia64VmsI),
            20 => Ok(Encoding::Ia64VmsD),
            21 => Ok(Encoding::Ia64VmsG),
            _ => Err(DecodeError::UnsupportedEncoding(t)),
        }
    }

    /// The byte order of values under this encoding, or `UnsupportedEncoding`
    /// where its floats are not IEEE 754.
    pub fn get_endian(&self) -> (r: Result<Endian, DecodeError>)
        ensures
            r == (match self.spec_endian() {
                Some(e) => Ok(e),
                None => Err(DecodeError::UnsupportedEncoding(self.spec_tag())),
            }),
    {
        match self {
            Encoding::Network | Encoding::Sun | Encoding::Sgi | Encoding::IbmRs | Encoding::Ppc
            | Encoding::Next | Encoding::ArmBig => Ok(Endian::Big),
            Encoding::DecStation | Encoding::IbmPc | Encoding::AlphaOsf1 | Encoding::AlphaVmsI
            | Encoding::ArmLittle | Encoding::Ia64VmsI => Ok(Endian::Little),
            _ => Err(DecodeError::UnsupportedEncoding(self.tag())),
        }
    }
}

/// The encodings whose floats are not IEEE 754 (VAX, HP, the D_FLOAT and
/// G_FLOAT ones) are known tags that give no byte order, so every payload
/// read under them fails with `UnsupportedEncoding`.
pub proof fn lemma_rejected_encodings(t: i32)
    requires
        t == 3 || t == 11 || t == 14 || t == 15 || t == 20 || t == 21,
    ensures
        encoding_of(t) is Some,
        encoding_of(t).unwrap().spec_endian() is None,
        encoding_of(t).unwrap().spec_tag() == t,
{
}

} // verus!
