use ihex::checksum;

#[test]
fn test_checksum_empty() {
    assert_eq!(checksum(&[]), 0x00);
}

#[test]
fn test_checksum_eof_record() {
    assert_eq!(checksum(&[0x00, 0x00, 0x00, 0x01]), 0xFF);
}

#[test]
fn test_checksum_ela_record() {
    assert_eq!(checksum(&[0x02, 0x00, 0x00, 0x04, 0xFF, 0xFF]), 0xFC);
}

#[test]
fn test_checksum_sla_record() {
    assert_eq!(
        checksum(&[0x04, 0x00, 0x00, 0x05, 0x00, 0x00, 0x00, 0xCD]),
        0x2A
    );
}
