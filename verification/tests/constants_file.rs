use coverdrop::constants_file::{
    android_constants_file, android_line, format_bytes, format_number, ios_constants_file, ios_line,
    ConstantEntry,
};

#[test]
fn test_format_number() {
    assert_eq!(format_number(0), "0");
    assert_eq!(format_number(1), "1");
    assert_eq!(format_number(12), "12");
    assert_eq!(format_number(123), "123");
    assert_eq!(format_number(1234), "1234");
    assert_eq!(format_number(12345), "12_345");
    assert_eq!(format_number(123456), "123_456");
    assert_eq!(format_number(1234567), "1_234_567");
}

#[test]
fn test_format_bytes() {
    assert_eq!(format_bytes(&[0, 1, 2, 255]), "0x00, 0x01, 0x02, 0xff");
}

#[test]
fn format_number_threshold_and_large_values() {
    assert_eq!(format_number(9999), "9999");
    assert_eq!(format_number(10000), "10_000");
    assert_eq!(format_number(1000000), "1_000_000");
    assert_eq!(format_number(12345678901), "12_345_678_901");
}

#[test]
fn format_bytes_empty_and_single() {
    assert_eq!(format_bytes(&[]), "");
    assert_eq!(format_bytes(&[0xab]), "0xab");
}

#[test]
fn android_lines_for_each_kind_of_constant() {
    let number = ConstantEntry::Number { name: "MESSAGE_PADDING_LEN".to_string(), value: 12345 };
    assert_eq!(android_line(&number), "internal const val MESSAGE_PADDING_LEN = 12_345\n");
    let duration = ConstantEntry::DurationSeconds { name: "CLIENT_DEAD_DROP_CACHE_TTL".to_string(), seconds: 3600 };
    assert_eq!(android_line(&duration), "internal const val CLIENT_DEAD_DROP_CACHE_TTL_SECONDS = 3600\n");
    let in_seconds = ConstantEntry::DurationInSeconds { name: "MESSAGE_EXPIRY_WARNING".to_string(), seconds: 86400 };
    assert_eq!(android_line(&in_seconds), "internal const val MESSAGE_EXPIRY_WARNING_SECONDS = 86_400\n");
    let byte = ConstantEntry::Byte { name: "FLAG_J2U_MESSAGE_TYPE_MESSAGE".to_string(), value: 0 };
    assert_eq!(android_line(&byte), "internal const val FLAG_J2U_MESSAGE_TYPE_MESSAGE: Byte = 0x00\n");
    let bytes = ConstantEntry::Bytes { name: "RECIPIENT_TAG_BYTES_U2J_COVER".to_string(), value: vec![0, 0, 0, 255] };
    assert_eq!(
        android_line(&bytes),
        "internal val RECIPIENT_TAG_BYTES_U2J_COVER = byteArrayOf(0x00, 0x00, 0x00, 0xff)\n"
    );
}

#[test]
fn ios_lines_use_camel_case_names() {
    let number = ConstantEntry::Number { name: "USER_TO_COVERNODE_MESSAGE_LEN".to_string(), value: 773 };
    assert_eq!(ios_line(&number), "    public static let userToCovernodeMessageLen = 773\n");
    let duration = ConstantEntry::DurationSeconds { name: "CLIENT_STATUS_DOWNLOAD_RATE".to_string(), seconds: 3600 };
    assert_eq!(ios_line(&duration), "    public static let clientStatusDownloadRateSeconds = 3600\n");
    let in_seconds = ConstantEntry::DurationInSeconds { name: "MESSAGE_VALID_FOR_DURATION".to_string(), seconds: 1209600 };
    assert_eq!(ios_line(&in_seconds), "    public static let messageValidForDurationInSeconds = 1_209_600\n");
    let byte = ConstantEntry::Byte { name: "FLAG_J2U_MESSAGE_TYPE_HANDOVER".to_string(), value: 1 };
    assert_eq!(ios_line(&byte), "    public static let flagJ2UMessageTypeHandover: UInt8 = 0x01\n");
    let bytes = ConstantEntry::Bytes { name: "RECIPIENT_TAG_BYTES_U2J_COVER".to_string(), value: vec![16, 32] };
    assert_eq!(ios_line(&bytes), "    public static let recipientTagBytesU2JCover = [0x10, 0x20]\n");
}

#[test]
fn whole_files_frame_the_lines() {
    let entries = vec![ConstantEntry::Number { name: "RECIPIENT_TAG_LEN".to_string(), value: 4 }];
    assert_eq!(
        android_constants_file("// header\n\n", &entries),
        "package com.theguardian.coverdrop.core.generated\n\n// header\n\ninternal const val RECIPIENT_TAG_LEN = 4\n\n"
    );
    assert_eq!(
        ios_constants_file("// header\n\n", &entries),
        "// header\n\n// swiftlint:disable identifier_name\npublic enum Constants {\n    public static let recipientTagLen = 4\n}\n\n// swiftlint:enable identifier_name\n"
    );
}

#[test]
fn separators_never_change_the_number() {
    for n in [0usize, 9_999, 10_000, 123_456, 1_234_567, usize::MAX] {
        assert_eq!(format_number(n).replace('_', ""), n.to_string());
    }
}
