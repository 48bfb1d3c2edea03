use unicorn_matrix::frame::Matrix;
use unicorn_matrix::mirror::handle_incoming_message;

fn datagram(head: &[u8]) -> Vec<u8> {
    let mut d = head.to_vec();
    d.resize(1028, 0);
    d
}

#[test]
fn restart_resets_counter_and_paints_from_first_led() {
    let mut m = Matrix::new();
    let mut index: u32 = 50;
    let data = datagram(&[1, 0, 2, 10, 11, 12, 20, 21, 22]);
    let pushes = handle_incoming_message(&data, &mut m, &mut index);
    assert_eq!(pushes, 1);
    assert_eq!(index, 2);
    let bytes = m.as_bytes();
    // counter 1 -> column 0, row 1 -> byte 49; counter 2 -> column 0, row 2 -> byte 97.
    assert_eq!(&bytes[49..52], &[10, 11, 12]);
    assert_eq!(&bytes[97..100], &[20, 21, 22]);
}

#[test]
fn continue_paints_after_the_counter() {
    let mut m = Matrix::new();
    let mut index: u32 = 15;
    let data = datagram(&[0, 0, 1, 1, 2, 3]);
    let pushes = handle_incoming_message(&data, &mut m, &mut index);
    assert_eq!(pushes, 1);
    assert_eq!(index, 16);
    // counter 16 -> column 1, row 0 -> byte 4.
    assert_eq!(&m.as_bytes()[4..7], &[1, 2, 3]);
}

#[test]
fn finish_asks_for_two_pushes() {
    let mut m = Matrix::new();
    let mut index: u32 = 0;
    let data = datagram(&[2, 0, 1, 9, 9, 9]);
    let pushes = handle_incoming_message(&data, &mut m, &mut index);
    assert_eq!(pushes, 2);
    assert_eq!(index, 1);
    assert_eq!(&m.as_bytes()[49..52], &[9, 9, 9]);
}

#[test]
fn unknown_command_changes_nothing() {
    let mut m = Matrix::new();
    let mut index: u32 = 7;
    let data = datagram(&[7, 0, 3, 1, 1, 1, 1, 1, 1, 1, 1, 1]);
    let before = m.as_bytes().to_vec();
    let pushes = handle_incoming_message(&data, &mut m, &mut index);
    assert_eq!(pushes, 1);
    assert_eq!(index, 7);
    assert_eq!(m.as_bytes(), &before[..]);
}

#[test]
fn counter_past_panel_paints_nothing_but_advances() {
    let mut m = Matrix::new();
    let mut index: u32 = 255;
    let data = datagram(&[0, 0, 1, 5, 5, 5]);
    handle_incoming_message(&data, &mut m, &mut index);
    assert_eq!(index, 256);
    assert!(m.as_bytes()[1..].iter().all(|b| *b == 0));
}

#[test]
fn split_stream_paints_as_one() {
    let mut one = Matrix::new();
    let mut two = Matrix::new();
    let mut i1: u32 = 3;
    let mut i2: u32 = 3;
    handle_incoming_message(&datagram(&[0, 0, 2, 1, 2, 3, 4, 5, 6]), &mut one, &mut i1);
    handle_incoming_message(&datagram(&[0, 0, 1, 1, 2, 3]), &mut two, &mut i2);
    handle_incoming_message(&datagram(&[0, 0, 1, 4, 5, 6]), &mut two, &mut i2);
    assert_eq!(i1, i2);
    assert_eq!(one.as_bytes(), two.as_bytes());
}
