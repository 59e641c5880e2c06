//! The codec ids of Kafka's record-batch attribute bits, and the level rules.

use krabka::compression::{CompressionError, CompressionType};

#[test]
fn attribute_bits_roundtrip() {
    for (_name, compression) in [
        ("none", CompressionType::Uncompressed),
        ("gzip", CompressionType::Gzip),
        ("snappy", CompressionType::Snappy),
        ("lz4", CompressionType::Lz4),
        ("zstd", CompressionType::Zstd),
    ] {
        assert!(
            CompressionType::from_attribute_bits(compression.as_attribute_bits())
                == Some(compression)
        );
    }
}

#[test]
fn levels_follow_kafka_compression_type() {
    let reasons = |codec: CompressionType, levels: &[i32]| -> Vec<Option<String>> {
        levels
            .iter()
            .map(|&level| match codec.check_level(level) {
                Ok(()) => None,
                Err(CompressionError::InvalidLevel { reason, .. }) => Some(reason),
                Err(other) => Some(format!("unexpected error {other:?}")),
            })
            .collect()
    };
    let gzip_reason = Some("Value must be between 1 and 9 or equal to -1".to_owned());
    let none_levels = |name: &str| {
        Some(format!("Compression levels are not defined for this compression type: {name}"))
    };
    let actual = [
        (
            "none",
            CompressionType::Uncompressed.default_level(),
            CompressionType::Uncompressed.min_level(),
            CompressionType::Uncompressed.max_level(),
            reasons(CompressionType::Uncompressed, &[0]),
        ),
        (
            "gzip",
            CompressionType::Gzip.default_level(),
            CompressionType::Gzip.min_level(),
            CompressionType::Gzip.max_level(),
            reasons(CompressionType::Gzip, &[-2, -1, 0, 1, 9, 10]),
        ),
        (
            "snappy",
            CompressionType::Snappy.default_level(),
            CompressionType::Snappy.min_level(),
            CompressionType::Snappy.max_level(),
            reasons(CompressionType::Snappy, &[1]),
        ),
        (
            "lz4",
            CompressionType::Lz4.default_level(),
            CompressionType::Lz4.min_level(),
            CompressionType::Lz4.max_level(),
            reasons(CompressionType::Lz4, &[0, 1, 17, 18]),
        ),
        (
            "zstd",
            CompressionType::Zstd.default_level(),
            CompressionType::Zstd.min_level(),
            CompressionType::Zstd.max_level(),
            reasons(CompressionType::Zstd, &[-131_073, -131_072, 22, 23]),
        ),
    ];
    let expected = [
        ("none", None, None, None, vec![none_levels("none")]),
        (
            "gzip",
            Some(-1),
            Some(1),
            Some(9),
            vec![gzip_reason.clone(), None, gzip_reason.clone(), None, None, gzip_reason],
        ),
        ("snappy", None, None, None, vec![none_levels("snappy")]),
        (
            "lz4",
            Some(9),
            Some(1),
            Some(17),
            vec![
                Some("Value must be at least 1".to_owned()),
                None,
                None,
                Some("Value must be no more than 17".to_owned()),
            ],
        ),
        (
            "zstd",
            Some(3),
            Some(-131_072),
            Some(22),
            vec![
                Some("Value must be at least -131072".to_owned()),
                None,
                None,
                Some("Value must be no more than 22".to_owned()),
            ],
        ),
    ];
    assert!(actual == expected);
}

#[test]
fn attribute_bits_mask() {
    assert!(
        CompressionType::from_attribute_bits(0b1111_1000 | 0b0000_0001)
            == Some(CompressionType::Gzip)
    );
}

#[test]
fn attribute_bits_unknown() {
    for (_name, bits) in [("reserved five", 5), ("reserved seven", 7)] {
        assert!(CompressionType::from_attribute_bits(bits) == None);
    }
}

#[test]
fn names_are_kafkas_compression_type_values() {
    let names: Vec<&str> = [
        CompressionType::Uncompressed,
        CompressionType::Gzip,
        CompressionType::Snappy,
        CompressionType::Lz4,
        CompressionType::Zstd,
    ]
    .iter()
    .map(|c| c.name())
    .collect();
    assert_eq!(names, vec!["none", "gzip", "snappy", "lz4", "zstd"]);
}

#[test]
fn an_invalid_level_names_its_codec_and_level() {
    assert_eq!(
        CompressionType::Lz4.check_level(18),
        Err(CompressionError::InvalidLevel {
            codec: "lz4",
            level: 18,
            reason: "Value must be no more than 17".to_string(),
        })
    );
}
