use std::collections::hash_map::DefaultHasher;
use std::hash::{Hash, Hasher};

use sa_core::archiver::utils::{calculate_hash, ceil_div, normalize_emoji, tone_paths};
use sa_core::text::{decimal_string, to_chars};

#[test]
fn ceil_div_rounds_up() {
    assert_eq!(ceil_div(0, 20), 0);
    assert_eq!(ceil_div(1, 20), 1);
    assert_eq!(ceil_div(20, 20), 1);
    assert_eq!(ceil_div(21, 20), 2);
    assert_eq!(ceil_div(45, 20), 3);
    assert_eq!(ceil_div(1000, 400), 3);
    assert_eq!(ceil_div(usize::MAX, 1), usize::MAX);
    assert_eq!(ceil_div(usize::MAX, usize::MAX), 1);
}

#[test]
fn calculate_hash_is_the_standard_hash_of_the_text() {
    let text = String::from("/user_avatar/shuiyuan.sjtu.edu.cn/alice/40/1_2.png");
    let mut hasher = DefaultHasher::new();
    text.hash(&mut hasher);
    assert_eq!(calculate_hash(&text), hasher.finish());
    assert_ne!(calculate_hash("a"), calculate_hash("b"));
}

#[test]
fn normalize_emoji_strips_colons_and_moves_the_tone() {
    assert_eq!(normalize_emoji(":smile:").unwrap(), "smile");
    assert_eq!(normalize_emoji("smile").unwrap(), "smile");
    assert_eq!(normalize_emoji(":+1:t3:").unwrap(), "+1/3");
    assert_eq!(normalize_emoji("wave:t6").unwrap(), "wave/6");
    assert_eq!(normalize_emoji("wave:t7").unwrap(), "wave:t7");
    assert_eq!(normalize_emoji("").unwrap(), "");
}

#[test]
fn decimal_string_writes_numbers() {
    assert_eq!(decimal_string(0), "0");
    assert_eq!(decimal_string(7), "7");
    assert_eq!(decimal_string(10), "10");
    assert_eq!(decimal_string(1234567890), "1234567890");
    assert_eq!(decimal_string(u64::MAX), "18446744073709551615");
}

#[test]
fn to_chars_keeps_every_character() {
    assert_eq!(to_chars("a水b"), vec!['a', '水', 'b']);
    assert_eq!(to_chars(""), Vec::<char>::new());
}

#[test]
fn tone_paths_join_name_and_tone() {
    let found = vec![
        vec![Some(String::from("+1:t3")), Some(String::from("+1")), Some(String::from("3"))],
        vec![Some(String::from("x")), None, Some(String::from("6"))],
        vec![Some(String::from("x"))],
    ];
    assert_eq!(tone_paths(&found), vec!["+1/3", "/6", "/"]);
    assert!(tone_paths(&vec![]).is_empty());
}
