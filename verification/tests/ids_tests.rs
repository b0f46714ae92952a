use office_hours::ids::{generate_instance_id, generate_uuid, id_from_digest};
use office_hours::types::{OverrideKey, Uuid};

const SERIES: [u8; 16] = [1, 2, 3, 4, 5, 6, 7, 8, 9, 10, 11, 12, 13, 14, 15, 16];

const OCCURRENCE: u64 = 1_704_240_000_000_000_000;

#[test]
fn instance_id_is_the_truncated_sha256_of_the_key() {
    assert_eq!(
        generate_instance_id(&SERIES, OCCURRENCE),
        [2, 181, 44, 171, 26, 151, 87, 135, 77, 0, 242, 157, 56, 165, 201, 225]
    );
}

#[test]
fn instance_id_is_stable_and_tells_occurrences_apart() {
    let a = generate_instance_id(&SERIES, OCCURRENCE);
    let b = generate_instance_id(&SERIES, OCCURRENCE);
    let c = generate_instance_id(&SERIES, OCCURRENCE + 1);
    let mut other = SERIES;
    other[0] = 9;
    let d = generate_instance_id(&other, OCCURRENCE);
    assert_eq!(a, b);
    assert_ne!(a, c);
    assert_ne!(a, d);
}

#[test]
fn uuid_from_time_and_counter() {
    assert_eq!(
        generate_uuid(1, 2),
        [140, 118, 84, 236, 253, 123, 11, 98, 59, 128, 62, 47, 78, 2, 173, 28]
    );
    assert_ne!(generate_uuid(1, 2), generate_uuid(1, 3));
}

#[test]
fn id_from_digest_takes_the_first_sixteen_bytes() {
    let digest: Vec<u8> = (100u8..132).collect();
    let id = id_from_digest(&digest);
    assert_eq!(id.to_vec(), (100u8..116).collect::<Vec<u8>>());
}

#[test]
fn override_key_bytes() {
    let key = OverrideKey { series_id: SERIES, occurrence_start_utc: OCCURRENCE };
    let bytes = key.to_bytes();
    assert_eq!(
        bytes,
        vec![
            1, 2, 3, 4, 5, 6, 7, 8, 9, 10, 11, 12, 13, 14, 15, 16, 23, 166, 173, 64, 36, 3, 0, 0
        ]
    );
    assert_eq!(OverrideKey::from_bytes(&bytes), key);
}

#[test]
fn override_key_round_trip_at_the_extremes() {
    for occ in [0u64, 1, 255, 256, u64::MAX, 0x0102_0304_0506_0708] {
        let key = OverrideKey { series_id: [0xff; 16], occurrence_start_utc: occ };
        let bytes = key.to_bytes();
        assert_eq!(bytes.len(), 24);
        assert_eq!(&bytes[16..], &occ.to_be_bytes());
        assert_eq!(OverrideKey::from_bytes(&bytes), key);
    }
}

#[test]
fn uuid_bytes_round_trip() {
    let id = Uuid::new(SERIES);
    assert_eq!(id.as_bytes(), &SERIES);
    let bytes = id.to_bytes();
    assert_eq!(bytes, SERIES.to_vec());
    assert_eq!(Uuid::from_bytes(&bytes), id);
}
