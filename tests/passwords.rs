use wol::WolPassword;

#[test]
fn ipv4_reading_comes_first() {
    let pw = WolPassword::classify("10.0.0.1", Some([10, 0, 0, 1]), Some([1, 2, 3, 4, 5, 6]));
    assert_eq!(pw, WolPassword::FourByte([10, 0, 0, 1]));
}

#[test]
fn mac_text_reads_as_six_bytes() {
    let pw = WolPassword::from_text("01:23:45:67:89:ab", None);
    assert_eq!(pw, WolPassword::SixByte([0x01, 0x23, 0x45, 0x67, 0x89, 0xAB]));
    let pw = WolPassword::from_text("FF:FF:FF:FF:FF:FF", None);
    assert_eq!(pw, WolPassword::SixByte([0xFF; 6]));
}

#[test]
fn other_text_stays_text() {
    for text in ["secret", "01:23:45:67:89", "01:23:45:67:89:ab:cd", "zz:00:00:00:00:00", ""] {
        assert_eq!(WolPassword::from_text(text, None), WolPassword::String(text.to_string()));
    }
}

#[test]
fn given_ipv4_reading_is_used() {
    assert_eq!(WolPassword::from_text("192.168.1.1", Some([192, 168, 1, 1])), WolPassword::FourByte([192, 168, 1, 1]));
}
