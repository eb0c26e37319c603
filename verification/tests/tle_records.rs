use orbit_engine::errors::ElementParseError;
use orbit_engine::tle::parse_records;
use orbit_engine::tle::parse_tle;

const LINE1: &str = "1 00033U 60003  C 60280.33271408  .00001932 +00000-0 +00000-0 0  9994";
const LINE2: &str = "2 00033 051.2879 136.0668 0242757 196.7800 163.6100 15.38343354027003";

/// Recomputes the mod-ten checksum of a line and patches its last byte,
/// so a test can corrupt a field without tripping the checksum check.
fn with_fixed_checksum(line: &str) -> Vec<u8> {
    let mut bytes = line.as_bytes().to_vec();
    let mut sum: u32 = 0;
    for &c in &bytes[..68] {
        if c.is_ascii_digit() {
            sum += (c - b'0') as u32;
        } else if c == b'-' {
            sum += 1;
        }
    }
    bytes[68] = b'0' + (sum % 10) as u8;
    bytes
}

#[test]
fn parses_record_fields_exactly() {
    let e = parse_tle(LINE1.as_bytes(), LINE2.as_bytes()).unwrap();
    assert_eq!(e.norad_id, 33);
    assert_eq!(e.classification, b'U');
    assert_eq!(e.epoch_year, 1960);
    assert_eq!(e.epoch_day_e8, 28_033_271_408);
    assert_eq!(e.ndot_e8, 1932);
    assert_eq!(e.nddot_mant_e5, 0);
    assert_eq!(e.nddot_exp, 0);
    assert_eq!(e.bstar_mant_e5, 0);
    assert_eq!(e.bstar_exp, 0);
    assert_eq!(e.element_set_number, 999);
    assert_eq!(e.inclination_e4, 512_879);
    assert_eq!(e.raan_e4, 1_360_668);
    assert_eq!(e.eccentricity_e7, 242_757);
    assert_eq!(e.arg_perigee_e4, 1_967_800);
    assert_eq!(e.mean_anomaly_e4, 1_636_100);
    assert_eq!(e.mean_motion_e8, 1_538_343_354);
    assert_eq!(e.rev_number, 2700);
}

#[test]
fn parsed_record_agrees_with_reference_parser() {
    let ours = parse_tle(LINE1.as_bytes(), LINE2.as_bytes()).unwrap();
    let reference = sgp4::Elements::from_tle(
        Some("TEST OBJECT".to_string()),
        LINE1.as_bytes(),
        LINE2.as_bytes(),
    )
    .unwrap();
    assert_eq!(ours.norad_id as u64, reference.norad_id);
    assert_eq!(ours.element_set_number as u64, reference.element_set_number);
    assert_eq!(ours.rev_number, reference.revolution_number);
    assert!((ours.eccentricity_e7 as f64 / 1e7 - reference.eccentricity).abs() < 1e-12);
    assert!((ours.inclination_e4 as f64 / 1e4 - reference.inclination).abs() < 1e-12);
    assert!((ours.raan_e4 as f64 / 1e4 - reference.right_ascension).abs() < 1e-12);
    assert!((ours.arg_perigee_e4 as f64 / 1e4 - reference.argument_of_perigee).abs() < 1e-12);
    assert!((ours.mean_anomaly_e4 as f64 / 1e4 - reference.mean_anomaly).abs() < 1e-12);
    assert!((ours.mean_motion_e8 as f64 / 1e8 - reference.mean_motion).abs() < 1e-12);
}

// For a valid element set, the analytical propagation at the registration
// baseline returns a position of nonzero magnitude within plausible
// orbital-radius bounds.
#[test]
fn propagation_at_baseline_is_plausible() {
    let ours = parse_tle(LINE1.as_bytes(), LINE2.as_bytes());
    assert!(ours.is_ok());
    let elements = sgp4::Elements::from_tle(
        Some("TEST OBJECT".to_string()),
        LINE1.as_bytes(),
        LINE2.as_bytes(),
    )
    .unwrap();
    let constants = sgp4::Constants::from_elements(&elements).unwrap();
    let prediction = constants.propagate(sgp4::MinutesSinceEpoch(0.0)).unwrap();
    let [x, y, z] = prediction.position;
    let magnitude_km = (x * x + y * y + z * z).sqrt();
    assert!(magnitude_km > 6_400.0, "inside the central body: {magnitude_km}");
    assert!(magnitude_km < 60_000.0, "beyond plausible orbits: {magnitude_km}");
}

#[test]
fn rejects_wrong_length() {
    assert_eq!(
        parse_tle(&LINE1.as_bytes()[..68], LINE2.as_bytes()),
        Err(ElementParseError::BadLength)
    );
    assert_eq!(
        parse_tle(LINE1.as_bytes(), b""),
        Err(ElementParseError::BadLength)
    );
}

#[test]
fn rejects_wrong_line_number() {
    let mut l1 = LINE1.as_bytes().to_vec();
    l1[0] = b'2';
    assert_eq!(
        parse_tle(&l1, LINE2.as_bytes()),
        Err(ElementParseError::BadLineNumber)
    );
}

#[test]
fn rejects_bad_checksum() {
    let mut l2 = LINE2.as_bytes().to_vec();
    l2[68] = b'9';
    assert_eq!(
        parse_tle(LINE1.as_bytes(), &l2),
        Err(ElementParseError::BadChecksum)
    );
}

#[test]
fn rejects_bad_field() {
    let mut l2 = LINE2.as_bytes().to_vec();
    // a letter in the middle of the eccentricity digits
    l2[28] = b'x';
    let l2 = with_fixed_checksum(std::str::from_utf8(&l2).unwrap());
    assert_eq!(
        parse_tle(LINE1.as_bytes(), &l2),
        Err(ElementParseError::BadField)
    );
}

#[test]
fn rejects_blank_after_digit_in_field() {
    let mut l1 = LINE1.as_bytes().to_vec();
    // catalog number "00033" becomes "0 033": a blank after a digit
    l1[3] = b' ';
    let l1 = with_fixed_checksum(std::str::from_utf8(&l1).unwrap());
    assert_eq!(
        parse_tle(&l1, LINE2.as_bytes()),
        Err(ElementParseError::BadField)
    );
}

#[test]
fn rejects_mismatched_catalog_numbers() {
    let mut l2 = LINE2.as_bytes().to_vec();
    l2[6] = b'4';
    let l2 = with_fixed_checksum(std::str::from_utf8(&l2).unwrap());
    assert_eq!(
        parse_tle(LINE1.as_bytes(), &l2),
        Err(ElementParseError::ObjectMismatch)
    );
}

#[test]
fn rejects_zero_mean_motion() {
    let mut l2 = LINE2.as_bytes().to_vec();
    for i in 52..63 {
        if i != 54 {
            l2[i] = b'0';
        }
    }
    let l2 = with_fixed_checksum(std::str::from_utf8(&l2).unwrap());
    assert_eq!(
        parse_tle(LINE1.as_bytes(), &l2),
        Err(ElementParseError::ZeroMeanMotion)
    );
}

#[test]
fn accepts_blank_padded_fields() {
    // the same record with leading zeros of padded fields written as blanks
    let l1 = with_fixed_checksum(
        "1    33U 60003  C 60280.33271408  .00001932 +00000-0 +00000-0 0   999",
    );
    let l2 = with_fixed_checksum(
        "2    33  51.2879 136.0668 0242757 196.7800 163.6100 15.38343354 2700 ",
    );
    // the rebuilt strings must stay 69 bytes long
    assert_eq!(l1.len(), 69);
    assert_eq!(l2.len(), 69);
    let e = parse_tle(&l1, &l2).unwrap();
    assert_eq!(e.norad_id, 33);
    assert_eq!(e.inclination_e4, 512_879);
    assert_eq!(e.rev_number, 2700);
}

#[test]
fn batch_parse_skips_bad_records_and_counts_them() {
    let good = (LINE1.as_bytes().to_vec(), LINE2.as_bytes().to_vec());
    let bad = (LINE1.as_bytes()[..68].to_vec(), LINE2.as_bytes().to_vec());
    let mut corrupted = LINE2.as_bytes().to_vec();
    corrupted[68] = b'9';
    let bad_checksum = (LINE1.as_bytes().to_vec(), corrupted);
    let batch = vec![bad.clone(), good.clone(), bad_checksum, good.clone()];
    let (records, dropped) = parse_records(&batch);
    assert_eq!(dropped, 2);
    assert_eq!(records.len(), 2);
    let expected = parse_tle(LINE1.as_bytes(), LINE2.as_bytes()).unwrap();
    assert_eq!(records[0], expected);
    assert_eq!(records[1], expected);
}

#[test]
fn batch_parse_of_nothing_valid_is_empty() {
    let bad = (LINE1.as_bytes()[..10].to_vec(), LINE2.as_bytes().to_vec());
    let (records, dropped) = parse_records(&vec![bad.clone(), bad]);
    assert!(records.is_empty());
    assert_eq!(dropped, 2);
    let (records, dropped) = parse_records(&Vec::new());
    assert!(records.is_empty());
    assert_eq!(dropped, 0);
}
