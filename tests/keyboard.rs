use keystats::layout::{Key, KeyboardBuilder, Layout};
use keystats::logger::KeyLogger;
use keystats::report::LogReport;
use std::collections::HashMap;

fn qwerty() -> Layout {
    KeyboardBuilder::build([
        ['q', 'w', 'e', 'r', 't', 'y', 'u', 'i', 'o', 'p'],
        ['a', 's', 'd', 'f', 'g', 'h', 'j', 'k', 'l', ';'],
        ['z', 'x', 'c', 'v', 'b', 'n', 'm', ',', '.', '/'],
    ])
}

fn dvorak() -> Layout {
    KeyboardBuilder::build([
        ['\'', ',', '.', 'p', 'y', 'f', 'g', 'c', 'r', 'l'],
        ['a', 'o', 'e', 'u', 'i', 'd', 'h', 't', 'n', 's'],
        [';', 'q', 'j', 'k', 'x', 'b', 'm', 'w', 'v', 'z'],
    ])
}

fn get_key_logger() -> KeyLogger {
    KeyLogger::new(qwerty())
}

fn log_str(logger: &mut KeyLogger, s: &str) {
    for c in s.chars() {
        logger.log(&c);
    }
}

#[test]
fn qwerty_finger_movement_validation() {
    let mut key_logger = get_key_logger();

    let mut key_sequence: HashMap<(i8, i8), Vec<char>> = HashMap::new();

    key_sequence.insert((0, 1), vec!['q', 'w', 'e', 'r', 'u', 'i', 'o', 'p']);
    key_sequence.insert((0, 0), vec!['a', 's', 'd', 'f', 'j', 'k', 'l', ';']);
    key_sequence.insert((0, -1), vec!['z', 'x', 'c', 'v', 'm', ',', '.', '/']);

    key_sequence.insert((1, 0), vec!['g']);
    key_sequence.insert((-1, 0), vec!['h']);

    key_sequence.insert((1, 1), vec!['t']);
    key_sequence.insert((1, -1), vec!['b']);

    key_sequence.insert((-1, 1), vec!['y']);
    key_sequence.insert((-1, -1), vec!['n']);

    key_sequence.iter().for_each(|entry| {
        entry.1.iter().enumerate().for_each(|(idx, char)| {
            key_logger.log(char);

            match key_logger.finger_movement(*entry.0) {
                Some(i) => assert_eq!(i, idx as u64 + 1),
                None => panic!("movement {:?} not found", entry.0),
            }
        })
    });
}

#[test]
fn qwerty_finger_usage_alphabet_validation() {
    let mut key_logger = get_key_logger();
    let str: &str = "qwertyuiop asdfghjkl; zxcvbnm,./";
    let expected_result = [3, 3, 3, 6, 6, 3, 3, 3];

    str.chars().for_each(|char| {
        key_logger.log(&char);
    });

    for finger in 0..8u8 {
        if let Some(count) = key_logger.finger_usage(finger) {
            let expected_count = expected_result.get(finger as usize).unwrap();
            assert_eq!(*expected_count, count);
        }
    }
}

#[test]
fn qwerty_finger_usage_word_validation() {
    let word_expected_result_map = [
        ("hello", [3, 1, 2, 2, 0, 0, 1, 0, 0, 0, 0]),
        ("world", [3, 0, 2, 3, 0, 0, 0, 0, 0, 0, 0]),
        ("back", [2, 0, 2, 0, 1, 0, 0, 0, 0, 1, 0]),
        ("value", [3, 0, 2, 2, 1, 0, 0, 0, 0, 0, 0]),
    ];

    word_expected_result_map
        .iter()
        .for_each(|(word, expected_res)| {
            println!("Testing the word::{}", word);

            let mut key_logger = get_key_logger();

            word.chars().for_each(|char| {
                key_logger.log(&char);
            });

            let mut log_report = LogReport::new();
            log_report.add_logger("QWERTY".to_string(), &key_logger);

            let actual_res = &log_report.get_log_data_from_key_logger()[0];

            println!("{:?}\n{:?}", actual_res, expected_res);

            assert!(Iterator::eq(actual_res.iter(), expected_res.iter()));
        })
}

#[test]
fn every_finger_counted_for_full_grid() {
    let mut key_logger = get_key_logger();
    log_str(&mut key_logger, "qwertyuiop asdfghjkl; zxcvbnm,./");
    let expected = [3u64, 3, 3, 6, 6, 3, 3, 3];
    for finger in 0..8u8 {
        assert_eq!(key_logger.finger_usage(finger), Some(expected[finger as usize]));
    }
    assert_eq!(key_logger.finger_usage(8), None);
    assert_eq!(key_logger.strokes(), 30);
}

#[test]
fn unmapped_characters_change_nothing() {
    let mut key_logger = get_key_logger();
    log_str(&mut key_logger, "hel");
    let mut before = LogReport::new();
    before.add_logger("A".to_string(), &key_logger);
    let row_before = before.get_log_data_from_key_logger()[0].clone();
    let strokes = key_logger.strokes();

    let mut other = get_key_logger();
    log_str(&mut other, "hel");
    log_str(&mut other, " 123!?\n\t-=ABC");
    let mut after = LogReport::new();
    after.add_logger("A".to_string(), &other);
    assert_eq!(after.get_log_data_from_key_logger()[0], row_before);
    assert_eq!(other.strokes(), strokes);

    // 'l' then punctuation then 'o': the punctuation does not reset the
    // previous finger, so l -> o is still a repeat.
    log_str(&mut other, "!!o");
    assert_eq!(other.same_finger_usage(), 1);
}

#[test]
fn fresh_logger_reports_zero() {
    let key_logger = get_key_logger();
    let mut report = LogReport::new();
    report.add_logger("QWERTY".to_string(), &key_logger);
    assert_eq!(report.get_log_data_from_key_logger()[0], vec![0u64; 11]);
    assert_eq!(key_logger.finger_movement((0, 0)), None);
    assert_eq!(key_logger.finger_usage(0), None);
    assert_eq!(key_logger.same_finger_usage(), 0);
    assert_eq!(key_logger.strokes(), 0);
}

#[test]
fn unobserved_categories_default_to_zero() {
    let mut key_logger = get_key_logger();
    log_str(&mut key_logger, "hh");
    let mut report = LogReport::new();
    report.add_logger("QWERTY".to_string(), &key_logger);
    assert_eq!(
        report.get_log_data_from_key_logger()[0],
        vec![2u64, 0, 0, 0, 0, 0, 2, 0, 0, 0, 0]
    );
    assert_eq!(key_logger.finger_movement((1, 1)), None);
    assert_eq!(key_logger.finger_movement((5, 5)), None);
}

#[test]
fn hello_has_one_same_finger_repeat() {
    let mut key_logger = get_key_logger();
    log_str(&mut key_logger, "hello");
    assert_eq!(key_logger.same_finger_usage(), 1);
    assert_eq!(key_logger.finger_movement((0, 0)), Some(2));
    assert_eq!(key_logger.finger_movement((0, 1)), Some(2));
    assert_eq!(key_logger.finger_movement((-1, 0)), Some(1));
}

#[test]
fn doubled_letter_is_no_repeat() {
    let mut key_logger = get_key_logger();
    log_str(&mut key_logger, "ll");
    assert_eq!(key_logger.same_finger_usage(), 0);
    // 'd' and 'e' share finger 2
    log_str(&mut key_logger, "dede");
    assert_eq!(key_logger.same_finger_usage(), 3);
}

#[test]
fn layout_build_is_deterministic() {
    let a = qwerty();
    let b = qwerty();
    for c in "qwertyuiopasdfghjkl;zxcvbnm,./ 1A".chars() {
        assert_eq!(a.get(c), b.get(c));
    }
}

#[test]
fn layout_keys_follow_grid() {
    let layout = qwerty();
    assert_eq!(layout.get('q'), Some(Key::new('q', 0, (0, 1))));
    assert_eq!(layout.get('g'), Some(Key::new('g', 3, (1, 0))));
    assert_eq!(layout.get('h'), Some(Key::new('h', 4, (-1, 0))));
    assert_eq!(layout.get('t'), Some(Key::new('t', 3, (1, 1))));
    assert_eq!(layout.get('n'), Some(Key::new('n', 4, (-1, -1))));
    assert_eq!(layout.get('/'), Some(Key::new('/', 7, (0, -1))));
    assert_eq!(layout.get(' '), None);
    assert_eq!(layout.get('Q'), None);
}

#[test]
fn duplicate_grid_character_last_wins() {
    let layout = KeyboardBuilder::build([
        ['a', 'b', 'c', 'd', 'e', 'f', 'g', 'h', 'i', 'j'],
        ['k', 'l', 'm', 'n', 'o', 'p', 'q', 'r', 's', 't'],
        ['u', 'v', 'w', 'x', 'y', 'z', '1', '2', '3', 'a'],
    ]);
    assert_eq!(layout.get('a'), Some(Key::new('a', 7, (0, -1))));
}

#[test]
fn finger_assignment_by_column() {
    let fingers: Vec<u8> = (0..10u8).map(KeyboardBuilder::get_finger).collect();
    assert_eq!(fingers, vec![0, 1, 2, 3, 3, 4, 4, 5, 6, 7]);
}

#[test]
fn offsets_by_position() {
    assert_eq!(KeyboardBuilder::get_pos(0, 0), (0, 1));
    assert_eq!(KeyboardBuilder::get_pos(4, 1), (1, 0));
    assert_eq!(KeyboardBuilder::get_pos(5, 1), (-1, 0));
    assert_eq!(KeyboardBuilder::get_pos(4, 2), (1, -1));
    assert_eq!(KeyboardBuilder::get_pos(5, 0), (-1, 1));
    assert_eq!(KeyboardBuilder::get_pos(9, 2), (0, -1));
}

#[test]
fn two_layout_session() {
    let mut loggers = [
        ("QWERTY", KeyLogger::new(qwerty())),
        ("DVORAK", KeyLogger::new(dvorak())),
    ];
    for c in "hh g".chars() {
        for i in 0..loggers.len() {
            loggers[i].1.log(&c);
        }
    }
    let mut report = LogReport::new();
    for (name, logger) in loggers.iter() {
        report.add_logger(name.to_string(), logger);
    }
    assert_eq!(report.get_table_header_data(), vec!["QWERTY".to_string(), "DVORAK".to_string()]);
    let body = report.get_table_body_data();
    let expected: Vec<Vec<u64>> = vec![
        vec![3, 1],
        vec![0, 1],
        vec![0, 2],
        vec![0, 1],
        vec![0, 0],
        vec![1, 0],
        vec![2, 0],
        vec![0, 0],
        vec![0, 0],
        vec![0, 0],
        vec![0, 0],
    ];
    assert_eq!(body, expected);
}

#[test]
fn report_row_labels() {
    let report = LogReport::new();
    let expected = vec![
        "Finger Movements",
        "Same Finger Usage",
        "No Movement",
        "Up Movement",
        "Down Movement",
        "Right Movement",
        "Left Movement",
        "Top Right Movement",
        "Top Left Movement",
        "Bottom Right Movement",
        "Bottom Left Movement",
    ];
    let labels: Vec<&str> = report.get_row_headers().iter().map(|s| s.as_str()).collect();
    assert_eq!(labels, expected);
    assert!(report.get_table_header_data().is_empty());
    let body = report.get_table_body_data();
    assert_eq!(body.len(), 11);
    assert!(body.iter().all(|row| row.is_empty()));
}

#[test]
fn report_same_name_replaces_in_place() {
    let mut a = get_key_logger();
    log_str(&mut a, "a");
    let mut b = get_key_logger();
    log_str(&mut b, "bb");
    let mut c = get_key_logger();
    log_str(&mut c, "ccc");
    let mut report = LogReport::new();
    report.add_logger("first".to_string(), &a);
    report.add_logger("second".to_string(), &b);
    report.add_logger("first".to_string(), &c);
    assert_eq!(report.get_table_header_data(), vec!["first".to_string(), "second".to_string()]);
    let data = report.get_log_data_from_key_logger();
    assert_eq!(data.len(), 2);
    // 'c' moves down; 'b' moves to the bottom right
    assert_eq!(data[0], vec![3u64, 0, 0, 0, 3, 0, 0, 0, 0, 0, 0]);
    assert_eq!(data[1], vec![2u64, 0, 0, 0, 0, 0, 0, 0, 0, 2, 0]);
}
