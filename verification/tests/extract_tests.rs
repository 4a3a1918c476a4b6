use imgsort::extract::{extract_date_from_filename, extract_date_from_metadata};

#[test]
fn metadata_full_timestamp() {
    let c = extract_date_from_metadata(&b"2019:04:26 10:26:45".to_vec()).unwrap();
    assert_eq!(c.date.year, 2019);
    assert_eq!(c.date.month, 4);
    assert_eq!(c.date.day, 26);
    let t = c.time.unwrap();
    assert_eq!(t.hour, 10);
    assert_eq!(t.minute, 26);
    assert_eq!(t.second, 45);
}

#[test]
fn metadata_trailing_bytes_ignored() {
    let c = extract_date_from_metadata(&b"2016:08:07 23:59:59\0".to_vec()).unwrap();
    assert_eq!(c.date.year, 2016);
    assert_eq!(c.date.day, 7);
}

#[test]
fn metadata_blank_field_is_none() {
    assert!(extract_date_from_metadata(&b"    :  :     :  :  ".to_vec()).is_none());
    assert!(extract_date_from_metadata(&b"                   ".to_vec()).is_none());
}

#[test]
fn metadata_malformed_is_none() {
    assert!(extract_date_from_metadata(&b"2019-04-26 10:26:45".to_vec()).is_none());
    assert!(extract_date_from_metadata(&b"2019:04:26".to_vec()).is_none());
    assert!(extract_date_from_metadata(&b"".to_vec()).is_none());
    assert!(extract_date_from_metadata(&b"20x9:04:26 10:26:45".to_vec()).is_none());
}

#[test]
fn metadata_out_of_range_is_none() {
    assert!(extract_date_from_metadata(&b"2019:13:26 10:26:45".to_vec()).is_none());
    assert!(extract_date_from_metadata(&b"2019:02:30 10:26:45".to_vec()).is_none());
    assert!(extract_date_from_metadata(&b"2019:04:26 24:00:00".to_vec()).is_none());
    assert!(extract_date_from_metadata(&b"0000:04:26 10:26:45".to_vec()).is_none());
}

#[test]
fn filename_img_timestamp() {
    let c = extract_date_from_filename("IMG_20190426_102645").unwrap();
    assert_eq!(c.date.year, 2019);
    assert_eq!(c.date.month, 4);
    assert_eq!(c.date.day, 26);
    assert!(c.time.is_none());
}

#[test]
fn filename_whatsapp_image() {
    let c = extract_date_from_filename("IMG-20160807-WA0001").unwrap();
    assert_eq!(c.date.year, 2016);
    assert_eq!(c.date.month, 8);
    assert_eq!(c.date.day, 7);
}

#[test]
fn filename_pano() {
    let c = extract_date_from_filename("PANO_20190427_115542").unwrap();
    assert_eq!(c.date.year, 2019);
    assert_eq!(c.date.month, 4);
    assert_eq!(c.date.day, 27);
}

#[test]
fn filename_bare_timestamp() {
    let c = extract_date_from_filename("20160824_123058").unwrap();
    assert_eq!(c.date.year, 2016);
    assert_eq!(c.date.month, 8);
    assert_eq!(c.date.day, 24);
}

#[test]
fn filename_trailing_counter() {
    let c = extract_date_from_filename("20211208_104956_01").unwrap();
    assert_eq!(c.date.year, 2021);
    assert_eq!(c.date.month, 12);
    assert_eq!(c.date.day, 8);
}

#[test]
fn filename_whatsapp_video() {
    let c = extract_date_from_filename("VID-20200208-WA0000").unwrap();
    assert_eq!(c.date.year, 2020);
    assert_eq!(c.date.month, 2);
    assert_eq!(c.date.day, 8);
}

#[test]
fn filename_video_timestamp() {
    let c = extract_date_from_filename("VID_20190428_161901").unwrap();
    assert_eq!(c.date.year, 2019);
    assert_eq!(c.date.month, 4);
    assert_eq!(c.date.day, 28);
}

#[test]
fn filename_whatsapp_bare() {
    let c = extract_date_from_filename("20150511-WA0003").unwrap();
    assert_eq!(c.date.year, 2015);
    assert_eq!(c.date.month, 5);
    assert_eq!(c.date.day, 11);
}

#[test]
fn filename_dotted_time() {
    let c = extract_date_from_filename("2015-06-04 17.30.00").unwrap();
    assert_eq!(c.date.year, 2015);
    assert_eq!(c.date.month, 6);
    assert_eq!(c.date.day, 4);
}

#[test]
fn filename_fractional_image() {
    let c = extract_date_from_filename("IMG_2016-08-16-19343585").unwrap();
    assert_eq!(c.date.year, 2016);
    assert_eq!(c.date.month, 8);
    assert_eq!(c.date.day, 16);
}

#[test]
fn filename_no_match_is_none() {
    assert!(extract_date_from_filename("holiday-photo").is_none());
    assert!(extract_date_from_filename("").is_none());
    assert!(extract_date_from_filename("IMG_2019").is_none());
}
