use backend::paging::{
    finish_page, has_next_from, list_page, lookahead_window, page_window, search_zipcodes,
    take_window, zip_pattern, Window, ZipcodeRequest, PAGE_SIZE, ZIPCODES_ERROR,
};
use backend::tables::ZipInfo;

fn backslash() -> char {
    char::from(92u8)
}

fn zip_row(zip: i32, state: &str) -> ZipInfo {
    ZipInfo {
        zip,
        ba: "PJM".to_string(),
        gea: "PJMD".to_string(),
        state: state.to_string(),
        padd: "1".to_string(),
        technobasin: "East".to_string(),
        reeds_ba: None,
    }
}

fn zip_table() -> Vec<ZipInfo> {
    let mut zips = Vec::new();
    // Every code from 220000 on starts with "220".
    for i in 0..150 {
        zips.push(zip_row(220000 + i, "VA"));
    }
    for i in 0..30 {
        zips.push(zip_row(20100 + i, "VA"));
        zips.push(zip_row(33000 + i, "FL"));
    }
    zips
}

#[test]
fn search_first_page_of_150() {
    let zips = zip_table();
    let q = ZipcodeRequest { partial_zip: Some("220".to_string()), state: None, page: Some(0) };
    let p = search_zipcodes(&q, &zips).ok().unwrap();
    assert_eq!(p.values.len(), 100);
    assert_eq!(p.page, 0);
    assert!(p.has_next);
    assert_eq!(p.values[0], 220000);
    assert_eq!(p.values[99], 220099);
}

#[test]
fn search_second_page_of_150() {
    let zips = zip_table();
    let q = ZipcodeRequest { partial_zip: Some("220".to_string()), state: None, page: Some(1) };
    let p = search_zipcodes(&q, &zips).ok().unwrap();
    assert_eq!(p.values.len(), 50);
    assert_eq!(p.page, 1);
    assert!(!p.has_next);
    assert_eq!(p.values[0], 220100);
    assert_eq!(p.values[49], 220149);
}

#[test]
fn search_page_past_the_end_is_empty() {
    let zips = zip_table();
    let q = ZipcodeRequest { partial_zip: Some("220".to_string()), state: None, page: Some(5) };
    let p = search_zipcodes(&q, &zips).ok().unwrap();
    assert!(p.values.is_empty());
    assert!(!p.has_next);
}

#[test]
fn search_defaults_to_first_page() {
    let zips = zip_table();
    let q = ZipcodeRequest { partial_zip: None, state: Some("FL".to_string()), page: None };
    let p = search_zipcodes(&q, &zips).ok().unwrap();
    assert_eq!(p.page, 0);
    assert_eq!(p.values.len(), 30);
    assert!(p.values.iter().all(|z| (33000..33030).contains(z)));
    assert!(!p.has_next);
}

#[test]
fn search_combines_state_and_prefix() {
    let zips = zip_table();
    let q = ZipcodeRequest {
        partial_zip: Some("201".to_string()),
        state: Some("VA".to_string()),
        page: None,
    };
    let p = search_zipcodes(&q, &zips).ok().unwrap();
    assert_eq!(p.values.len(), 30);
    let q = ZipcodeRequest {
        partial_zip: Some("201".to_string()),
        state: Some("FL".to_string()),
        page: None,
    };
    assert!(search_zipcodes(&q, &zips).ok().unwrap().values.is_empty());
}

#[test]
fn search_state_pattern_is_a_like_pattern() {
    let zips = zip_table();
    let q = ZipcodeRequest { partial_zip: None, state: Some("V%".to_string()), page: None };
    let p = search_zipcodes(&q, &zips).ok().unwrap();
    assert_eq!(p.values.len(), 100);
    assert!(p.has_next);
    let q = ZipcodeRequest { partial_zip: None, state: Some("_L".to_string()), page: None };
    assert_eq!(search_zipcodes(&q, &zips).ok().unwrap().values.len(), 30);
    let q = ZipcodeRequest { partial_zip: Some("2_1".to_string()), state: None, page: None };
    assert_eq!(search_zipcodes(&q, &zips).ok().unwrap().values.len(), 30);
    let q = ZipcodeRequest { partial_zip: Some("33_0".to_string()), state: None, page: None };
    let p = search_zipcodes(&q, &zips).ok().unwrap();
    assert_eq!(p.values, vec![33000, 33001, 33002, 33003, 33004, 33005, 33006, 33007, 33008, 33009]);
}

#[test]
fn search_malformed_state_pattern_is_an_error() {
    let zips = zip_table();
    let q = ZipcodeRequest { partial_zip: None, state: Some(format!("V{}{}", backslash(), backslash())), page: None };
    assert!(search_zipcodes(&q, &zips).is_ok());
    let q = ZipcodeRequest { partial_zip: None, state: Some(format!("V{}", backslash())), page: None };
    assert_eq!(search_zipcodes(&q, &zips).err().unwrap().error, ZIPCODES_ERROR);
}

#[test]
fn search_negative_page_is_an_error() {
    let zips = zip_table();
    let q = ZipcodeRequest { partial_zip: None, state: None, page: Some(-1) };
    let e = search_zipcodes(&q, &zips).err().unwrap();
    assert_eq!(e.error, "Could not find zipcodes");
}

#[test]
fn search_huge_page_is_an_error() {
    let zips = zip_table();
    let q = ZipcodeRequest { partial_zip: None, state: None, page: Some(i64::MAX) };
    assert!(search_zipcodes(&q, &zips).is_err());
}

#[test]
fn page_sizes_follow_the_count_law() {
    let rows: Vec<i32> = (0..250).collect();
    for k in 0..5i64 {
        let p = list_page(&rows, k).ok().unwrap();
        let expected = std::cmp::min(100, std::cmp::max(0, 250 - k * 100));
        assert_eq!(p.values.len() as i64, expected);
        assert_eq!(p.has_next, 250 > (k + 1) * 100);
    }
}

#[test]
fn exact_multiple_has_no_next_page() {
    let rows: Vec<i32> = (0..200).collect();
    let p = list_page(&rows, 1).ok().unwrap();
    assert_eq!(p.values.len(), 100);
    assert!(!p.has_next);
}

#[test]
fn empty_listing() {
    let rows: Vec<i32> = Vec::new();
    let p = list_page(&rows, 0).ok().unwrap();
    assert!(p.values.is_empty());
    assert!(!p.has_next);
}

#[test]
fn windows_of_a_page() {
    assert_eq!(PAGE_SIZE, 100);
    assert_eq!(page_window(3), Some(Window { limit: 100, offset: 300 }));
    assert_eq!(lookahead_window(3), Some(Window { limit: 1, offset: 400 }));
    assert_eq!(page_window(-2), None);
    assert_eq!(lookahead_window(-2), None);
    assert_eq!(page_window(i64::MAX / 100 + 1), None);
    assert!(page_window(i64::MAX / 100).is_some());
    assert_eq!(lookahead_window(i64::MAX / 100), None);
}

#[test]
fn take_window_slices() {
    let rows: Vec<i32> = (0..10).collect();
    assert_eq!(take_window(&rows, Window { limit: 3, offset: 4 }), vec![4, 5, 6]);
    assert_eq!(take_window(&rows, Window { limit: 30, offset: 8 }), vec![8, 9]);
    assert!(take_window(&rows, Window { limit: 3, offset: 40 }).is_empty());
}

#[test]
fn failed_probe_means_no_next_page() {
    let probe: Result<Vec<i32>, String> = Err("down".to_string());
    assert!(!has_next_from(&probe));
    let probe: Result<Vec<i32>, String> = Ok(vec![7]);
    assert!(has_next_from(&probe));
    let probe: Result<Vec<i32>, String> = Ok(vec![]);
    assert!(!has_next_from(&probe));
    let p = finish_page(2, Ok::<Vec<i32>, ()>(vec![1, 2]), Err::<Vec<i32>, ()>(())).ok().unwrap();
    assert_eq!(p.values, vec![1, 2]);
    assert_eq!(p.page, 2);
    assert!(!p.has_next);
}

#[test]
fn failed_page_query_is_an_error() {
    let r = finish_page(0, Err::<Vec<i32>, ()>(()), Ok::<Vec<i32>, ()>(vec![1]));
    assert_eq!(r.err().unwrap().error, ZIPCODES_ERROR);
}

#[test]
fn pattern_appends_wildcard() {
    assert_eq!(zip_pattern(&"220".to_string()), "220%");
    assert_eq!(zip_pattern(&String::new()), "%");
}

#[test]
fn page_or_first_defaults() {
    let q = ZipcodeRequest { partial_zip: None, state: None, page: None };
    assert_eq!(q.page_or_first(), 0);
    let q = ZipcodeRequest { partial_zip: None, state: None, page: Some(4) };
    assert_eq!(q.page_or_first(), 4);
}
