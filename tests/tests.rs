use byte_num::into_ascii::IntoAscii;

const INT_U16: [u16; 25] = [
    234, 4356, 234, 356, 567, 345, 2345, 456, 5467, 234, 234, 5436, 567, 345, 456, 5467, 234, 234,
    456, 234, 23, 45, 456, 34, 45,
];

#[test]
fn negative_itoa() {
    assert_eq!({ -10 }.itoa(), [b'-', b'1', b'0']);
    assert_eq!(0i32.itoa(), [b'0']);
}

#[test]
fn test_for_equality() {
    let itoa_vec = INT_U16.iter().map(|n| n.itoa()).collect::<Vec<_>>();

    let format_vec = INT_U16
        .iter()
        .map(|n| format!("{}", n).into_bytes())
        .collect::<Vec<_>>();

    assert_eq!(itoa_vec, format_vec);
}
