use tri_mon::number::{
    align_right, checked_sum, format_u64, parse_or_zero, parse_u32, parse_u64, read_file_number,
    read_u64, repeat,
};
use tri_mon::order::rank;
use tri_mon::share::Share;
use tri_mon::text::to_chars;

#[test]
fn numbers_are_read_as_std_reads_them() {
    for s in [
        "", "0", "7", "007", "+5", "+", "-1", "++1", "12x", "x12", "1 2", " 1", "4294967295",
        "4294967296", "18446744073709551615", "18446744073709551616", "99999999999999999999999",
        "\u{661}",
    ] {
        assert_eq!(parse_u64(&to_chars(s)), s.parse::<u64>().ok(), "{:?}", s);
        assert_eq!(parse_u32(&to_chars(s)), s.parse::<u32>().ok(), "{:?}", s);
    }
}

#[test]
fn what_is_no_number_reads_as_zero() {
    assert_eq!(parse_or_zero(&to_chars("12")), 12);
    assert_eq!(parse_or_zero(&to_chars("twelve")), 0);
    assert_eq!(read_u64(" 42\n"), Some(42));
    assert_eq!(read_u64("4 2"), None);
    assert_eq!(read_file_number(&Some("1800000\n".to_string())), 1_800_000);
    assert_eq!(read_file_number(&Some("\n".to_string())), 0);
    assert_eq!(read_file_number(&None), 0);
}

#[test]
fn reading_undoes_writing() {
    for n in [0, 9, 10, 99, 100, 65_536, 18_446_744_073_709_551_615] {
        let s = format_u64(n);
        assert_eq!(s, n.to_string());
        assert_eq!(parse_u64(&to_chars(&s)), Some(n));
    }
}

#[test]
fn fields_are_filled_from_the_left() {
    assert_eq!(align_right("7", 2), " 7");
    assert_eq!(align_right("17", 2), "17");
    assert_eq!(align_right("117", 2), "117");
    assert_eq!(repeat("\u{2588}", 3), "\u{2588}\u{2588}\u{2588}");
    assert_eq!(repeat("x", 0), "");
}

#[test]
fn sums_that_do_not_fit_are_none() {
    assert_eq!(checked_sum(&vec![]), Some(0));
    assert_eq!(checked_sum(&vec![1, 2, 3]), Some(6));
    assert_eq!(checked_sum(&vec![u64::MAX, 0]), Some(u64::MAX));
    assert_eq!(checked_sum(&vec![u64::MAX, 1]), None);
}

#[test]
fn ranking_is_stable_and_descends() {
    assert_eq!(rank(&vec![]), Vec::<usize>::new());
    assert_eq!(rank(&vec![3, 9, 3, 12, 9, 0]), vec![3, 1, 4, 0, 2, 5]);
    let keys: Vec<u64> = (0..500u64).map(|i| i * 7919 % 31).collect();
    let mut expected: Vec<usize> = (0..500).collect();
    expected.sort_by(|a, b| keys[*b].cmp(&keys[*a]));
    assert_eq!(rank(&keys), expected);
}

#[test]
fn shares_need_a_whole() {
    assert_eq!(Share::of(3, 4), Some(Share { part: 3, whole: 4 }));
    assert_eq!(Share::of(3, 0), None);
}
