use tunnel_switch::device::{
    ifreq, is_valid_dev_name, push_decimal, tap_device_name, IFF_NO_PI, IFF_TAP, IFF_TUN,
    IFNAMSIZ, TAP_DEV, TAP_DEV_PAT, TUN_DEV,
};

#[test]
fn the_request_for_tun0_is_layer_3_without_packet_information() {
    let request = ifreq::new("tun0", false);
    assert_eq!(request.ifr_name, *b"tun0\0\0\0\0\0\0\0\0\0\0\0\0");
    assert_eq!(request.ifr_flags, 0x1001);
    assert_eq!(request.ifr_flags, IFF_NO_PI | IFF_TUN);
}

#[test]
fn the_request_for_a_tap_interface_is_layer_2() {
    let request = ifreq::new("tap2", true);
    assert_eq!(request.ifr_name, *b"tap2\0\0\0\0\0\0\0\0\0\0\0\0");
    assert_eq!(request.ifr_flags, 0x1002);
    assert_eq!(request.ifr_flags, IFF_NO_PI | IFF_TAP);
}

#[test]
fn the_longest_name_leaves_one_nul() {
    let request = ifreq::new("abcdefghijklmno", true);
    assert_eq!(request.ifr_name, *b"abcdefghijklmno\0");
    assert_eq!(request.ifr_name.len(), IFNAMSIZ);
}

#[test]
fn names_are_valid_from_one_to_fifteen_bytes() {
    assert!(!is_valid_dev_name(""));
    assert!(is_valid_dev_name("t"));
    assert!(is_valid_dev_name("tun0"));
    assert!(is_valid_dev_name("abcdefghijklmno"));
    assert!(!is_valid_dev_name("abcdefghijklmnop"));
    assert!(!is_valid_dev_name("a-name-that-is-far-too-long"));
}

#[test]
fn the_length_of_a_name_counts_bytes() {
    assert!(is_valid_dev_name("ééééééé"));
    assert!(!is_valid_dev_name("éééééééé"));
}

#[test]
fn the_interface_of_a_slot_is_tap_and_the_slot_in_decimal() {
    assert_eq!(tap_device_name(0), "tap0");
    assert_eq!(tap_device_name(1), "tap1");
    assert_eq!(tap_device_name(2), "tap2");
    assert_eq!(tap_device_name(9), "tap9");
    assert_eq!(tap_device_name(10), "tap10");
    assert_eq!(tap_device_name(1203), "tap1203");
}

#[test]
fn slot_names_agree_with_std_formatting() {
    for slot in 0..2000usize {
        assert_eq!(tap_device_name(slot), format!("{}{}", TAP_DEV_PAT, slot));
        assert!(is_valid_dev_name(&tap_device_name(slot)));
    }
}

#[test]
fn push_decimal_appends() {
    let mut text = String::from("n=");
    push_decimal(&mut text, 0);
    assert_eq!(text, "n=0");
    push_decimal(&mut text, 907);
    assert_eq!(text, "n=0907");
}

#[test]
fn the_fixed_device_names() {
    assert_eq!(TUN_DEV, "tun0");
    assert_eq!(TAP_DEV, "tap0");
    assert_eq!(TAP_DEV_PAT, "tap");
}
