use canicapillus::{lossy_deserialize_usize, number_to_bool, ExtraDataLayer, OneOrMany};

#[test]
fn lossy_numbers() {
    assert_eq!(lossy_deserialize_usize("3655935"), 3655935);
    assert_eq!(lossy_deserialize_usize("+7"), 7);
    assert_eq!(lossy_deserialize_usize("007"), 7);
    assert_eq!(lossy_deserialize_usize("0"), 0);
    assert_eq!(lossy_deserialize_usize(""), 0);
    assert_eq!(lossy_deserialize_usize("+"), 0);
    assert_eq!(lossy_deserialize_usize("-1"), 0);
    assert_eq!(lossy_deserialize_usize("12a"), 0);
    assert_eq!(lossy_deserialize_usize(" 12"), 0);
    assert_eq!(lossy_deserialize_usize("１２"), 0);
}

#[test]
fn lossy_numbers_at_the_limit() {
    let max = usize::MAX.to_string();
    assert_eq!(lossy_deserialize_usize(&max), usize::MAX);
    let over = format!("{}0", max);
    assert_eq!(lossy_deserialize_usize(&over), 0);
    assert_eq!(lossy_deserialize_usize("99999999999999999999999"), 0);
}

#[test]
fn numbers_as_flags() {
    assert!(number_to_bool(1));
    assert!(!number_to_bool(0));
    assert!(!number_to_bool(2));
}

#[test]
fn one_or_many_lists() {
    assert_eq!(OneOrMany::One(4).into_vec(), vec![4]);
    assert_eq!(OneOrMany::Vec(vec![1, 2]).into_vec(), vec![1, 2]);
    assert_eq!(Vec::from(OneOrMany::One(3)), vec![3]);
    assert_eq!(OneOrMany::<u8>::default().into_vec(), Vec::<u8>::new());
}

#[test]
fn data_layer_is_removed() {
    assert_eq!(ExtraDataLayer::Data(vec![1u8]).get_data(), vec![1u8]);
    assert_eq!(ExtraDataLayer::Embedded { data: 5u32 }.get_data(), 5);
}

#[test]
fn people_tag_is_stripped() {
    let tag = canicapillus::PeopleTag::new().unwrap();
    assert_eq!(tag.strip_people_prefix("[Alice] hello"), "hello");
    assert_eq!(tag.strip_people_prefix("[Alice Bob]  hi there"), "hi there");
    assert_eq!(tag.strip_people_prefix("[洞主] 你好"), "你好");
    assert_eq!(tag.strip_people_prefix("Re [Bob] ok"), "Re ok");
    assert_eq!(tag.strip_people_prefix("no tag here"), "no tag here");
    assert_eq!(tag.strip_people_prefix("[Alice]no space"), "[Alice]no space");
    assert_eq!(tag.strip_people_prefix(""), "");
}

#[test]
fn large_identifiers_in_decimal() {
    assert_eq!(String::from(canicapillus::HoleID(usize::MAX)), usize::MAX.to_string());
    assert_eq!(String::from(canicapillus::HoleID(10)), "10");
    assert_eq!(String::from(canicapillus::ReplyID(9)), "9");
}

#[test]
fn base_without_steps_renders_when_it_parses() {
    assert!(canicapillus::RequestUrl::new("https://example.org/").to_url().is_ok());
    assert!(canicapillus::RequestUrl::new("example.org").to_url().is_err());
    assert!(canicapillus::RequestUrl::new("").to_url().is_err());
}
