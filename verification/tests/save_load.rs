use rusticnes_core::save_load::{
    load_bool, load_u16, load_u32, load_u64, load_u8, load_usize, load_vec, load_vec_usize,
    save_bool, save_u16, save_u32, save_u64, save_u8, save_usize, save_vec, save_vec_usize,
};

#[test]
fn u8_is_pushed_and_popped() {
    let mut buff: Vec<u8> = vec![9];
    save_u8(&mut buff, 0xAB);
    assert_eq!(buff, vec![9, 0xAB]);
    let mut value: u8 = 0;
    load_u8(&mut buff, &mut value);
    assert_eq!(value, 0xAB);
    assert_eq!(buff, vec![9]);
}

#[test]
fn u16_is_little_endian() {
    let mut buff: Vec<u8> = Vec::new();
    save_u16(&mut buff, 0x1234);
    assert_eq!(buff, vec![0x34, 0x12]);
    let mut value: u16 = 0;
    load_u16(&mut buff, &mut value);
    assert_eq!(value, 0x1234);
    assert!(buff.is_empty());
}

#[test]
fn u32_is_little_endian() {
    let mut buff: Vec<u8> = vec![7, 7];
    save_u32(&mut buff, 0xDEADBEEF);
    assert_eq!(buff, vec![7, 7, 0xEF, 0xBE, 0xAD, 0xDE]);
    let mut value: u32 = 0;
    load_u32(&mut buff, &mut value);
    assert_eq!(value, 0xDEADBEEF);
    assert_eq!(buff, vec![7, 7]);
}

#[test]
fn u64_round_trip() {
    let mut buff: Vec<u8> = Vec::new();
    save_u64(&mut buff, 0x0102_0304_0506_0708);
    assert_eq!(buff, vec![8, 7, 6, 5, 4, 3, 2, 1]);
    let mut value: u64 = 0;
    load_u64(&mut buff, &mut value);
    assert_eq!(value, 0x0102_0304_0506_0708);
    assert!(buff.is_empty());
}

#[test]
fn u64_loads_the_last_eight_bytes() {
    let mut buff: Vec<u8> = vec![0xFF, 1, 0, 0, 0, 0, 0, 0, 0x80];
    let mut value: u64 = 0;
    load_u64(&mut buff, &mut value);
    assert_eq!(value, 0x8000_0000_0000_0001);
    assert_eq!(buff, vec![0xFF]);
}

#[test]
fn usize_round_trip() {
    let width = std::mem::size_of::<usize>();
    let mut buff: Vec<u8> = vec![3];
    save_usize(&mut buff, 0x0A0B_0C0D);
    assert_eq!(buff.len(), 1 + width);
    assert_eq!(buff[1..5].to_vec(), vec![0x0D, 0x0C, 0x0B, 0x0A]);
    let mut value: usize = 0;
    load_usize(&mut buff, &mut value);
    assert_eq!(value, 0x0A0B_0C0D);
    assert_eq!(buff, vec![3]);
}

#[test]
fn usize_max_round_trip() {
    let mut buff: Vec<u8> = Vec::new();
    save_usize(&mut buff, usize::MAX);
    assert!(buff.iter().all(|b| *b == 0xFF));
    let mut value: usize = 0;
    load_usize(&mut buff, &mut value);
    assert_eq!(value, usize::MAX);
}

#[test]
fn bool_round_trip_and_nonzero_is_true() {
    let mut buff: Vec<u8> = Vec::new();
    save_bool(&mut buff, true);
    save_bool(&mut buff, false);
    assert_eq!(buff, vec![1, 0]);
    let mut value = true;
    load_bool(&mut buff, &mut value);
    assert!(!value);
    load_bool(&mut buff, &mut value);
    assert!(value);
    let mut other: Vec<u8> = vec![42];
    let mut flag = false;
    load_bool(&mut other, &mut flag);
    assert!(flag);
    assert!(other.is_empty());
}

#[test]
fn vec_round_trip_uses_the_target_length() {
    let mut buff: Vec<u8> = vec![1, 2];
    save_vec(&mut buff, &vec![10, 20, 30]);
    assert_eq!(buff, vec![1, 2, 10, 20, 30]);
    let mut data: Vec<u8> = vec![0, 0];
    load_vec(&mut buff, &mut data);
    assert_eq!(data, vec![20, 30]);
    assert_eq!(buff, vec![1, 2, 10]);
}

#[test]
fn vec_usize_round_trip() {
    let saved: Vec<usize> = vec![1, 0x1234, usize::MAX, 0];
    let mut buff: Vec<u8> = vec![0xEE];
    save_vec_usize(&mut buff, &saved);
    assert_eq!(buff.len(), 1 + 4 * std::mem::size_of::<usize>());
    let mut loaded: Vec<usize> = vec![9; 4];
    load_vec_usize(&mut buff, &mut loaded);
    assert_eq!(loaded, saved);
    assert_eq!(buff, vec![0xEE]);
}

#[test]
fn values_come_back_in_reverse_order() {
    let mut buff: Vec<u8> = Vec::new();
    save_u8(&mut buff, 5);
    save_u16(&mut buff, 0xBEEF);
    save_bool(&mut buff, true);
    let mut b = false;
    let mut w: u16 = 0;
    let mut x: u8 = 0;
    load_bool(&mut buff, &mut b);
    load_u16(&mut buff, &mut w);
    load_u8(&mut buff, &mut x);
    assert!(b);
    assert_eq!(w, 0xBEEF);
    assert_eq!(x, 5);
    assert!(buff.is_empty());
}
