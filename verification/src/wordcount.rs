//! The word count of an installer package: a 16-bit field of flags.
//!
//! | bit | value | clear                     | set                        |
//! |-----|-------|---------------------------|----------------------------|
//! | 0   | 1     | long file names           | short file names           |
//! | 1   | 2     | source is uncompressed    | source is compressed       |
//! | 2   | 4     | source is original media  | source is an admin image   |
//! | 3   | 8     | elevation may be required | elevation is not required  |
//!
//! The other twelve bits have no meaning here and are carried along
//! unchanged.

use vstd::prelude::*;

verus! {

/// Whether the package uses long or short file names.
#[derive(Clone, Copy, Debug, PartialEq, Eq, Structural)]
pub enum FilenameLength {
    /// The package uses long file names.
    LongFilenames,
    /// The package uses short file names.
    ShortFilenames,
}

/// Whether the source files are compressed.
#[derive(Clone, Copy, Debug, PartialEq, Eq, Structural)]
pub enum SourceCompression {
    /// The source is uncompressed.
    Uncompressed,
    /// The source is compressed.
    Compressed,
}

/// Where the source files come from.
#[derive(Clone, Copy, Debug, PartialEq, Eq, Structural)]
pub enum SourceMedia {
    /// The source is original media.
    Original,
    /// The source is an administrative image created by an administrative
    /// installation.
    AdminImage,
}

/// Whether installing the package may need elevated privileges.
#[derive(Clone, Copy, Debug, PartialEq, Eq, Structural)]
pub enum ElevatedPrivileges {
    /// Elevated privileges may be required.
    Required,
    /// Elevated privileges are not required.
    NotRequired,
}

/// The flags of a word count, and the bits that are not flags.
#[derive(Clone, Copy, Debug, PartialEq, Eq)]
pub struct WordCount {
    filename_length: FilenameLength,
    compressions: SourceCompression,
    source: SourceMedia,
    elevated_privileges: ElevatedPrivileges,
    /// Bits 4 to 15 of the field, as the number that they form.
    reserved: u16,
}

/// The 16-bit field that holds the given flags, and in bits 4 to 15 the
/// number `reserved`.
pub open spec fn pack(
    filename_length: FilenameLength,
    compressions: SourceCompression,
    source: SourceMedia,
    elevated_privileges: ElevatedPrivileges,
    reserved: u16,
) -> int {
    (if filename_length == FilenameLength::ShortFilenames {
        1int
    } else {
        0int
    }) + (if compressions == SourceCompression::Compressed {
        2int
    } else {
        0int
    }) + (if source == SourceMedia::AdminImage {
        4int
    } else {
        0int
    }) + (if elevated_privileges == ElevatedPrivileges::NotRequired {
        8int
    } else {
        0int
    }) + 16 * reserved
}

impl View for WordCount {
    type V = u16;

    /// The 16-bit field.
    closed spec fn view(&self) -> u16 {
        pack(
            self.filename_length,
            self.compressions,
            self.source,
            self.elevated_privileges,
            self.reserved,
        ) as u16
    }
}

impl WordCount {
    /// The invariant of the type: the bits that are not flags fit in twelve
    /// bits.
    #[verifier::type_invariant]
    pub closed spec fn wf(&self) -> bool {
        self.reserved < 0x1000
    }

    /// The flag held in bit 0 of the field.
    pub open spec fn filename_length_spec(bits: u16) -> FilenameLength {
        if bits % 2 == 1 {
            FilenameLength::ShortFilenames
        } else {
            FilenameLength::LongFilenames
        }
    }

    /// The flag held in bit 1 of the field.
    pub open spec fn compression_spec(bits: u16) -> SourceCompression {
        if (bits / 2) % 2 == 1 {
            SourceCompression::Compressed
        } else {
            SourceCompression::Uncompressed
        }
    }

    /// The flag held in bit 2 of the field.
    pub open spec fn source_spec(bits: u16) -> SourceMedia {
        if (bits / 4) % 2 == 1 {
            SourceMedia::AdminImage
        } else {
            SourceMedia::Original
        }
    }

    /// The flag held in bit 3 of the field.
    pub open spec fn elevated_privileges_spec(bits: u16) -> ElevatedPrivileges {
        if (bits / 8) % 2 == 1 {
            ElevatedPrivileges::NotRequired
        } else {
            ElevatedPrivileges::Required
        }
    }

    /// The word count with the given flags and all other bits clear.
    pub fn new(
        filename_length: FilenameLength,
        compressions: SourceCompression,
        source: SourceMedia,
        elevated_privileges: ElevatedPrivileges,
    ) -> (w: WordCount)
        ensures
            w.wf(),
            w@ == pack(filename_length, compressions, source, elevated_privileges, 0),
    {
        WordCount { filename_length, compressions, source, elevated_privileges, reserved: 0 }
    }

    /// The word count that the 16-bit field `bits` holds.  Every bit is
    /// kept, whether or not it is a flag.
    pub fn from_bits(bits: u16) -> (w: WordCount)
        ensures
            w.wf(),
            w@ == bits,
    {
        proof {
            lemma_pack_flags(bits);
        }
        WordCount {
            filename_length: if bits % 2 == 1 {
                FilenameLength::ShortFilenames
            } else {
                FilenameLength::LongFilenames
            },
            compressions: if (bits / 2) % 2 == 1 {
                SourceCompression::Compressed
            } else {
                SourceCompression::Uncompressed
            },
            source: if (bits / 4) % 2 == 1 {
                SourceMedia::AdminImage
            } else {
                SourceMedia::Original
            },
            elevated_privileges: if (bits / 8) % 2 == 1 {
                ElevatedPrivileges::NotRequired
            } else {
                ElevatedPrivileges::Required
            },
            reserved: bits / 16,
        }
    }

    /// The 16-bit field.
    pub fn bits(&self) -> (bits: u16)
        ensures
            bits == self@,
    {
        proof {
            use_type_invariant(self);
        }
        let mut bits: u16 = 16 * self.reserved;
        if let FilenameLength::ShortFilenames = self.filename_length {
            bits = bits + 1;
        }
        if let SourceCompression::Compressed = self.compressions {
            bits = bits + 2;
        }
        if let SourceMedia::AdminImage = self.source {
            bits = bits + 4;
        }
        if let ElevatedPrivileges::NotRequired = self.elevated_privileges {
            bits = bits + 8;
        }
        bits
    }

    /// Whether the package uses long or short file names.
    pub fn filename_length(&self) -> (flag: FilenameLength)
        ensures
            flag == Self::filename_length_spec(self@),
    {
        proof {
            use_type_invariant(self);
        }
        self.filename_length
    }

    /// Whether the source files are compressed.
    pub fn compressions(&self) -> (flag: SourceCompression)
        ensures
            flag == Self::compression_spec(self@),
    {
        proof {
            use_type_invariant(self);
        }
        self.compressions
    }

    /// Where the source files come from.
    pub fn source(&self) -> (flag: SourceMedia)
        ensures
            flag == Self::source_spec(self@),
    {
        proof {
            use_type_invariant(self);
        }
        self.source
    }

    /// Whether installing the package may need elevated privileges.
    pub fn elevated_privileges(&self) -> (flag: ElevatedPrivileges)
        ensures
            flag == Self::elevated_privileges_spec(self@),
    {
        proof {
            use_type_invariant(self);
        }
        self.elevated_privileges
    }

    /// The same word count with another choice of file names.  The other
    /// flags and the bits that are not flags stay as they are.
    pub fn with_filename_length(self, flag: FilenameLength) -> (w: WordCount)
        ensures
            w.wf(),
            w@ == pack(
                flag,
                Self::compression_spec(self@),
                Self::source_spec(self@),
                Self::elevated_privileges_spec(self@),
                self@ / 16,
            ),
    {
        proof {
            use_type_invariant(self);
        }
        WordCount { filename_length: flag, ..self }
    }

    /// The same word count with another choice of compression.  The other
    /// flags and the bits that are not flags stay as they are.
    pub fn with_compressions(self, flag: SourceCompression) -> (w: WordCount)
        ensures
            w.wf(),
            w@ == pack(
                Self::filename_length_spec(self@),
                flag,
                Self::source_spec(self@),
                Self::elevated_privileges_spec(self@),
                self@ / 16,
            ),
    {
        proof {
            use_type_invariant(self);
        }
        WordCount { compressions: flag, ..self }
    }

    /// The same word count with another kind of source.  The other flags and
    /// the bits that are not flags stay as they are.
    pub fn with_source(self, flag: SourceMedia) -> (w: WordCount)
        ensures
            w.wf(),
            w@ == pack(
                Self::filename_length_spec(self@),
                Self::compression_spec(self@),
                flag,
                Self::elevated_privileges_spec(self@),
                self@ / 16,
            ),
    {
        proof {
            use_type_invariant(self);
        }
        WordCount { source: flag, ..self }
    }

    /// The same word count with another need of elevated privileges.  The
    /// other flags and the bits that are not flags stay as they are.
    pub fn with_elevated_privileges(self, flag: ElevatedPrivileges) -> (w: WordCount)
        ensures
            w.wf(),
            w@ == pack(
                Self::filename_length_spec(self@),
                Self::compression_spec(self@),
                Self::source_spec(self@),
                flag,
                self@ / 16,
            ),
    {
        proof {
            use_type_invariant(self);
        }
        WordCount { elevated_privileges: flag, ..self }
    }
}

/// A word count is its flags and its other bits: packing the four flags of
/// a 16-bit field with its bits 4 to 15 gives the field back.
pub proof fn lemma_pack_flags(bits: u16)
    ensures
        pack(
            WordCount::filename_length_spec(bits),
            WordCount::compression_spec(bits),
            WordCount::source_spec(bits),
            WordCount::elevated_privileges_spec(bits),
            bits / 16,
        ) == bits,
{
    assert(bits == 16 * (bits / 16) + 8 * ((bits / 8) % 2) + 4 * ((bits / 4) % 2) + 2 * ((bits
        / 2) % 2) + bits % 2) by (bit_vector);
}

} // verus!
