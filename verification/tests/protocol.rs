//! Tests of the key-index bijection, the bus frame computations, the
//! sample decoding, and the scan schedule.

use touch_matrix::at42qt::At42Qt1070;
use touch_matrix::keymap::{device_of, key_id, key_of, line_of, physical_line};
use touch_matrix::pca9544::Pca9544;
use touch_matrix::schedule::scan_step;

#[test]
fn key_id_round_trip_all_keys() {
    for sid in 0..96usize {
        let dev = device_of(sid);
        let line = line_of(sid);
        let key = key_of(sid);
        assert!(dev < 4 && line < 4 && key < 6);
        assert_eq!(key_id(dev, line, key), sid);
    }
}

#[test]
fn triple_round_trip_all_triples() {
    let mut seen = [false; 96];
    for dev in 0..4usize {
        for line in 0..4usize {
            for key in 0..6usize {
                let sid = key_id(dev, line, key);
                assert!(sid < 96);
                assert!(!seen[sid], "two triples map to one id");
                seen[sid] = true;
                assert_eq!(device_of(sid), dev);
                assert_eq!(line_of(sid), line);
                assert_eq!(key_of(sid), key);
            }
        }
    }
    assert!(seen.iter().all(|&s| s));
}

#[test]
fn key_id_is_device_major() {
    assert_eq!(key_id(0, 0, 0), 0);
    assert_eq!(key_id(0, 0, 5), 5);
    assert_eq!(key_id(0, 1, 0), 6);
    assert_eq!(key_id(1, 0, 0), 24);
    assert_eq!(key_id(3, 3, 5), 95);
}

#[test]
fn physical_line_reversal_table() {
    assert_eq!(physical_line(0), 3);
    assert_eq!(physical_line(1), 2);
    assert_eq!(physical_line(2), 1);
    assert_eq!(physical_line(3), 0);
    for line in 0..4usize {
        assert_eq!(physical_line(physical_line(line)), line);
    }
}

#[test]
fn select_and_disconnect_frames() {
    let pca = Pca9544::new();
    assert_eq!(pca.select_frame(0, 0), (0x74, 0x04));
    assert_eq!(pca.select_frame(2, 1), (0x76, 0x05));
    assert_eq!(pca.select_frame(3, 3), (0x77, 0x07));
    assert_eq!(pca.disconnect_frame(0), (0x74, 0x00));
    assert_eq!(pca.disconnect_frame(3), (0x77, 0x00));
}

#[test]
fn disconnect_twice_changes_nothing() {
    let pca = Pca9544::new();
    let once = pca.disconnect_frame(1);
    let twice = pca.disconnect_frame(1);
    assert_eq!(once, twice);
    let select_after_once = pca.select_frame(1, 2);
    let _ = pca.disconnect_frame(1);
    let _ = pca.disconnect_frame(1);
    let select_after_twice = pca.select_frame(1, 2);
    assert_eq!(select_after_once, select_after_twice);
}

#[test]
fn init_frames_write_zero_to_config_registers() {
    let at42 = At42Qt1070::new();
    assert_eq!(at42.init_frames(), vec![(54u8, 0u8), (55u8, 0u8)]);
}

#[test]
fn read_base_registers() {
    let at42 = At42Qt1070::new();
    assert_eq!(at42.read_base_register(false), 4);
    assert_eq!(at42.read_base_register(true), 18);
    assert_eq!(at42.key_register(0, false), 4);
    assert_eq!(at42.key_register(3, false), 10);
    assert_eq!(at42.key_register(3, true), 24);
    assert_eq!(at42.key_register(5, true), 28);
}

#[test]
fn decode_sample_is_big_endian() {
    let at42 = At42Qt1070::new();
    assert_eq!(at42.decode_sample(0x01, 0x02), 258);
    assert_eq!(at42.decode_sample(0xFF, 0x00), 0xFF00);
    assert_eq!(at42.decode_sample(0x00, 0xFF), 0x00FF);
    assert_eq!(at42.decode_sample(0x00, 0x00), 0);
}

#[test]
fn decode_samples_whole_line() {
    let at42 = At42Qt1070::new();
    let buf = vec![0x01, 0x02, 0xFF, 0x00, 0x00, 0xFF, 0x12, 0x34, 0x00, 0x00, 0xAB, 0xCD];
    let samples = at42.decode_samples(&buf);
    assert_eq!(samples, vec![258, 0xFF00, 0x00FF, 0x1234, 0, 0xABCD]);
}

#[test]
fn scan_schedule_visits_device_major_with_reversal() {
    for ch in 0..16usize {
        let step = scan_step(ch);
        assert_eq!(step.device as usize, ch / 4);
        assert_eq!(step.channel as usize, 3 - ch % 4);
        assert_eq!(step.disconnect_after, ch % 4 == 3);
    }
    let first = scan_step(0);
    assert_eq!((first.device, first.channel, first.disconnect_after), (0, 3, false));
    let group_end = scan_step(3);
    assert_eq!((group_end.device, group_end.channel, group_end.disconnect_after), (0, 0, true));
    let last = scan_step(15);
    assert_eq!((last.device, last.channel, last.disconnect_after), (3, 0, true));
}
