//! `CompressionType`, the codec ids of Kafka's record-batch attribute bits.

use vstd::prelude::*;
use vstd::string::StringExecFns;

use crate::compression::error::CompressionError;
use crate::text::{push_signed_decimal, signed_decimal};

verus! {

/// The levels of one codec.
#[derive(Debug, Clone, Copy)]
struct LevelRange {
    min: i32,
    max: i32,
    default: i32,
}

/// Codec identifier matching the lowest three bits of Kafka's record-batch
/// attribute byte.
#[derive(Debug, Clone, Copy, PartialEq, Eq, Hash, Structural)]
#[non_exhaustive]
pub enum CompressionType {
    /// No compression: the payload passes through. Kafka names it `none`.
    Uncompressed,
    Gzip,
    Snappy,
    Lz4,
    Zstd,
}

/// The codec id of `c` in the attribute bits.
pub open spec fn attribute_bits(c: CompressionType) -> u8 {
    match c {
        CompressionType::Uncompressed => 0,
        CompressionType::Gzip => 1,
        CompressionType::Snappy => 2,
        CompressionType::Lz4 => 3,
        CompressionType::Zstd => 4,
    }
}

/// The codec whose id is `id`, if any.
pub open spec fn codec_of_id(id: u8) -> Option<CompressionType> {
    if id == 0 {
        Some(CompressionType::Uncompressed)
    } else if id == 1 {
        Some(CompressionType::Gzip)
    } else if id == 2 {
        Some(CompressionType::Snappy)
    } else if id == 3 {
        Some(CompressionType::Lz4)
    } else if id == 4 {
        Some(CompressionType::Zstd)
    } else {
        None
    }
}

/// The name Kafka gives `c` in `compression.type`.
pub open spec fn codec_name(c: CompressionType) -> Seq<char> {
    match c {
        CompressionType::Uncompressed => "none"@,
        CompressionType::Gzip => "gzip"@,
        CompressionType::Snappy => "snappy"@,
        CompressionType::Lz4 => "lz4"@,
        CompressionType::Zstd => "zstd"@,
    }
}

/// Kafka's levels of `c` as `(min, max, default)`: gzip's from `Deflater`,
/// lz4's from `net.jpountz.lz4.LZ4Constants`, zstd's from `ZSTD_minCLevel`,
/// `ZSTD_MAX_CLEVEL` and `ZSTD_CLEVEL_DEFAULT`. None and snappy have none.
pub open spec fn codec_levels(c: CompressionType) -> Option<(i32, i32, i32)> {
    match c {
        CompressionType::Gzip => Some((1i32, 9i32, -1i32)),
        CompressionType::Lz4 => Some((1i32, 17i32, 9i32)),
        CompressionType::Zstd => Some((-131072i32, 22i32, 3i32)),
        _ => None,
    }
}

/// Why `level` is not a level of `c`, in Kafka's words, or `None` when it is
/// one. Gzip accepts its range and its default; lz4 and zstd their range
/// only.
pub open spec fn level_problem(c: CompressionType, level: i32) -> Option<Seq<char>> {
    match codec_levels(c) {
        None => Some(
            "Compression levels are not defined for this compression type: "@ + codec_name(c),
        ),
        Some((min, max, default)) => if c is Gzip {
            if level > max || (level < min && level != default) {
                Some(
                    "Value must be between "@ + signed_decimal(min as int) + " and "@
                        + signed_decimal(max as int) + " or equal to "@ + signed_decimal(
                        default as int,
                    ),
                )
            } else {
                None
            }
        } else {
            if level < min {
                Some("Value must be at least "@ + signed_decimal(min as int))
            } else if level > max {
                Some("Value must be no more than "@ + signed_decimal(max as int))
            } else {
                None
            }
        },
    }
}

impl CompressionType {
    /// Decode the lowest three bits of a Kafka record-batch attribute byte.
    ///
    /// The method returns `None` for codec ids outside `0..=4`.
    pub fn from_attribute_bits(b: u8) -> (r: Option<CompressionType>)
        ensures
            r == codec_of_id(b % 8),
    {
        let id = b & 0b0000_0111;
        assert(b & 7 == b % 8) by (bit_vector);
        if id == 0 {
            Some(CompressionType::Uncompressed)
        } else if id == 1 {
            Some(CompressionType::Gzip)
        } else if id == 2 {
            Some(CompressionType::Snappy)
        } else if id == 3 {
            Some(CompressionType::Lz4)
        } else if id == 4 {
            Some(CompressionType::Zstd)
        } else {
            None
        }
    }

    /// Encode this codec into the lowest three bits of an attribute byte.
    pub fn as_attribute_bits(self) -> (r: u8)
        ensures
            r == attribute_bits(self),
    {
        match self {
            CompressionType::Uncompressed => 0,
            CompressionType::Gzip => 1,
            CompressionType::Snappy => 2,
            CompressionType::Lz4 => 3,
            CompressionType::Zstd => 4,
        }
    }

    /// The codec name that Kafka uses in `compression.type`.
    pub fn name(self) -> (s: &'static str)
        ensures
            s@ == codec_name(self),
    {
        match self {
            CompressionType::Uncompressed => "none",
            CompressionType::Gzip => "gzip",
            CompressionType::Snappy => "snappy",
            CompressionType::Lz4 => "lz4",
            CompressionType::Zstd => "zstd",
        }
    }

    /// Kafka's default compression level of the codec
    /// (`CompressionType.defaultLevel`), or `None` when the codec has no
    /// levels.
    pub fn default_level(self) -> (r: Option<i32>)
        ensures
            r == match codec_levels(self) {
                Some((_, _, d)) => Some(d),
                None => None::<i32>,
            },
    {
        match self.levels() {
            Some(levels) => Some(levels.default),
            None => None,
        }
    }

    /// Kafka's lowest compression level of the codec
    /// (`CompressionType.minLevel`), or `None` when the codec has no levels.
    pub fn min_level(self) -> (r: Option<i32>)
        ensures
            r == match codec_levels(self) {
                Some((m, _, _)) => Some(m),
                None => None::<i32>,
            },
    {
        match self.levels() {
            Some(levels) => Some(levels.min),
            None => None,
        }
    }

    /// Kafka's highest compression level of the codec
    /// (`CompressionType.maxLevel`), or `None` when the codec has no levels.
    pub fn max_level(self) -> (r: Option<i32>)
        ensures
            r == match codec_levels(self) {
                Some((_, m, _)) => Some(m),
                None => None::<i32>,
            },
    {
        match self.levels() {
            Some(levels) => Some(levels.max),
            None => None,
        }
    }

    /// Check `level` as Kafka's `CompressionType.levelValidator` does (KIP-390).
    ///
    /// Gzip accepts 1 to 9, and also -1, which is the zlib default. Lz4 and
    /// zstd accept their range only.
    ///
    /// Returns [`CompressionError::InvalidLevel`] with Kafka's message when the
    /// level is outside the range, or when the codec has no levels.
    pub fn check_level(self, level: i32) -> (res: Result<(), CompressionError>)
        ensures
            match level_problem(self, level) {
                None => res is Ok,
                Some(why) => res matches Err(CompressionError::InvalidLevel { codec, level: l, reason })
                    && codec@ == codec_name(self) && l == level && reason@ == why,
            },
    {
        let mut reason = String::new();
        match self.levels() {
            None => {
                reason.append("Compression levels are not defined for this compression type: ");
                reason.append(self.name());
            },
            Some(levels) => {
                if self == CompressionType::Gzip {
                    if level > levels.max || (level < levels.min && level != levels.default) {
                        reason.append("Value must be between ");
                        push_signed_decimal(&mut reason, levels.min as i64);
                        reason.append(" and ");
                        push_signed_decimal(&mut reason, levels.max as i64);
                        reason.append(" or equal to ");
                        push_signed_decimal(&mut reason, levels.default as i64);
                    } else {
                        return Ok(());
                    }
                } else {
                    if level < levels.min {
                        reason.append("Value must be at least ");
                        push_signed_decimal(&mut reason, levels.min as i64);
                    } else if level > levels.max {
                        reason.append("Value must be no more than ");
                        push_signed_decimal(&mut reason, levels.max as i64);
                    } else {
                        return Ok(());
                    }
                }
            },
        }
        assert(level_problem(self, level) == Some(reason@));
        Err(CompressionError::InvalidLevel { codec: self.name(), level, reason })
    }

    fn levels(self) -> (r: Option<LevelRange>)
        ensures
            match codec_levels(self) {
                Some((min, max, default)) => r matches Some(l) && l.min == min && l.max == max
                    && l.default == default,
                None => r is None,
            },
    {
        match self {
            CompressionType::Uncompressed | CompressionType::Snappy => None,
            CompressionType::Gzip => Some(LevelRange { min: 1, max: 9, default: -1 }),
            CompressionType::Lz4 => Some(LevelRange { min: 1, max: 17, default: 9 }),
            CompressionType::Zstd => Some(LevelRange { min: -131_072, max: 22, default: 3 }),
        }
    }
}

/// A codec's id in the attribute bits decodes back to the codec, whatever the
/// upper bits of the attribute byte hold.
pub proof fn lemma_attribute_bits_roundtrip(c: CompressionType, upper: u8)
    requires
        upper % 8 == 0,
    ensures
        attribute_bits(c) < 8,
        codec_of_id(((upper + attribute_bits(c)) % 256) as u8 % 8) == Some(c),
{
}

/// Kafka's codecs in the order of their ids in the attribute bits: `none` is
/// 0, `gzip` 1, `snappy` 2, `lz4` 3 and `zstd` 4.
pub open spec fn kafka_codecs() -> Seq<CompressionType> {
    seq![
        CompressionType::Uncompressed,
        CompressionType::Gzip,
        CompressionType::Snappy,
        CompressionType::Lz4,
        CompressionType::Zstd,
    ]
}

/// Kafka's names of the codecs, in the same order.
pub open spec fn kafka_codec_names() -> Seq<Seq<char>> {
    seq!["none"@, "gzip"@, "snappy"@, "lz4"@, "zstd"@]
}

/// The attribute byte `b` names Kafka's codec of id `b % 8`: ids 0 to 4 are
/// `none`, `gzip`, `snappy`, `lz4` and `zstd`, under those names, and the
/// other ids name none. Each codec's id is its place in that list.
pub proof fn lemma_codec_ids_are_kafkas(b: u8, c: CompressionType)
    ensures
        b % 8 < 5 ==> codec_of_id(b % 8) == Some(kafka_codecs()[(b % 8) as int]),
        b % 8 >= 5 ==> codec_of_id(b % 8) is None,
        codec_of_id(b % 8) matches Some(d) ==> codec_name(d) == kafka_codec_names()[(b % 8) as int],
        attribute_bits(c) < 5,
        kafka_codecs()[attribute_bits(c) as int] == c,
        kafka_codec_names()[attribute_bits(c) as int] == codec_name(c),
        codec_of_id(0) == Some(CompressionType::Uncompressed),
        codec_of_id(1) == Some(CompressionType::Gzip),
        codec_of_id(2) == Some(CompressionType::Snappy),
        codec_of_id(3) == Some(CompressionType::Lz4),
        codec_of_id(4) == Some(CompressionType::Zstd),
{
}

/// Kafka's compression levels: gzip takes 1 to 9 and the default -1 of
/// `Deflater`, lz4 takes 1 to 17 with default 9, zstd takes -131072 to 22
/// with default 3, and `none` and snappy take no level at all.
pub proof fn lemma_codec_levels_are_kafkas(c: CompressionType)
    ensures
        c is Gzip ==> codec_levels(c) == Some((1i32, 9i32, -1i32)),
        c is Lz4 ==> codec_levels(c) == Some((1i32, 17i32, 9i32)),
        c is Zstd ==> codec_levels(c) == Some((-131072i32, 22i32, 3i32)),
        (c is Uncompressed || c is Snappy) <==> codec_levels(c) is None,
{
}

} // verus!
