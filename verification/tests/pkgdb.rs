use ampkg::pkgdb::{
    read_db, records_from_rows, rows_from_records, weigh, write_db, Package, PackageDB,
    StoreError, STORE_LIMIT,
};

fn package(name: &str, version: &str) -> Package {
    Package {
        name: name.to_string(),
        version: version.to_string(),
        libc: "musl".to_string(),
        architecture: "x86_64".to_string(),
        description: format!("the {} package", name),
    }
}

fn sample() -> PackageDB {
    PackageDB { packages: vec![package("base", "1.0.0~amary1"), package("tool", "2.1"), package("base", "0.9")] }
}

#[test]
fn written_database_reads_back_equal() {
    let db = sample();
    let bytes = write_db(&db).unwrap();
    assert!(!bytes.is_empty());
    let back = read_db(Some(bytes)).unwrap();
    assert_eq!(back, db);
}

#[test]
fn read_then_write_reproduces_the_file() {
    let db = sample();
    let bytes = write_db(&db).unwrap();
    let again = write_db(&read_db(Some(bytes.clone())).unwrap()).unwrap();
    assert_eq!(again, bytes);
    let third = write_db(&read_db(Some(again.clone())).unwrap()).unwrap();
    assert_eq!(third, bytes);
}

#[test]
fn empty_database_round_trip() {
    let db = PackageDB { packages: Vec::new() };
    let bytes = write_db(&db).unwrap();
    assert_eq!(read_db(Some(bytes)).unwrap(), db);
}

#[test]
fn order_of_records_is_kept() {
    let db = sample();
    let back = read_db(Some(write_db(&db).unwrap())).unwrap();
    let names: Vec<&str> = back.packages.iter().map(|p| p.version.as_str()).collect();
    assert_eq!(names, vec!["1.0.0~amary1", "2.1", "0.9"]);
}

#[test]
fn texts_outside_ascii_and_long_texts_round_trip() {
    let mut p = package("基本", "1.0");
    p.description = "長い説明 ".repeat(500);
    let db = PackageDB { packages: vec![p, package("", "")] };
    let back = read_db(Some(write_db(&db).unwrap())).unwrap();
    assert_eq!(back, db);
}

#[test]
fn missing_file_is_reported_as_missing() {
    assert_eq!(read_db(None), Err(StoreError::Missing));
}

#[test]
fn bytes_that_are_no_database_are_refused() {
    assert_eq!(read_db(Some(Vec::new())), Err(StoreError::Corrupt));
    assert_eq!(read_db(Some(vec![0xff; 7])), Err(StoreError::Corrupt));
    assert_eq!(read_db(Some(vec![0xff; 64])), Err(StoreError::Corrupt));
    assert_eq!(read_db(Some(b"name = \"base\"\n".to_vec())), Err(StoreError::Corrupt));
}

#[test]
fn truncated_file_is_refused() {
    let bytes = write_db(&sample()).unwrap();
    for keep in [0, 1, bytes.len() / 2, bytes.len() - 1] {
        let cut = bytes[..keep].to_vec();
        match read_db(Some(cut)) {
            Err(StoreError::Corrupt) => {}
            Ok(db) => assert_ne!(db, sample()),
            Err(other) => panic!("{:?}", other),
        }
    }
    assert_eq!(read_db(Some(bytes[..bytes.len() - 1].to_vec())).ok(), None);
}

#[test]
fn file_is_not_the_text_of_its_records() {
    let db = PackageDB { packages: vec![package("base", "1.0.0")] };
    let bytes = write_db(&db).unwrap();
    assert_ne!(bytes, b"base".to_vec());
    assert!(bytes.len() >= 5 * 8);
}

#[test]
fn reading_does_not_depend_on_where_the_bytes_lie() {
    let bytes = write_db(&sample()).unwrap();
    for shift in 0..9usize {
        let mut padded = vec![0u8; shift];
        padded.extend_from_slice(&bytes);
        let moved = padded[shift..].to_vec();
        assert_eq!(read_db(Some(moved)).unwrap(), sample());
    }
}

#[test]
fn rows_hold_the_fields_in_order() {
    let db = PackageDB { packages: vec![package("base", "1.0.0")] };
    let rows = rows_from_records(&db);
    assert_eq!(
        rows,
        vec![(
            "base".to_string(),
            "1.0.0".to_string(),
            "musl".to_string(),
            "x86_64".to_string(),
            "the base package".to_string()
        )]
    );
    assert_eq!(records_from_rows(rows), db);
}

#[test]
fn records_rows_records_is_identity() {
    let db = sample();
    assert_eq!(records_from_rows(rows_from_records(&db)), db);
}

#[test]
fn new_database_is_empty() {
    assert!(PackageDB::new().packages.is_empty());
}

#[test]
fn first_record_of_a_name_is_found() {
    let db = sample();
    assert_eq!(db.find("base"), Some(0));
    assert_eq!(db.find("tool"), Some(1));
    assert_eq!(db.find("none"), None);
    assert_eq!(db.find(""), None);
    assert_eq!(PackageDB::new().find("base"), None);
}

#[test]
fn record_of_a_new_name_is_appended() {
    let mut db = sample();
    db.record(package("extra", "3"));
    assert_eq!(db.packages.len(), 4);
    assert_eq!(db.packages[3], package("extra", "3"));
    assert_eq!(db.packages[..3], sample().packages[..]);
}

#[test]
fn record_of_a_known_name_replaces_the_first_in_place() {
    let mut db = sample();
    db.record(package("base", "2.0"));
    assert_eq!(db.packages.len(), 3);
    assert_eq!(db.packages[0], package("base", "2.0"));
    assert_eq!(db.packages[1], package("tool", "2.1"));
    assert_eq!(db.packages[2], package("base", "0.9"));
}

#[test]
fn record_into_an_empty_database() {
    let mut db = PackageDB::new();
    db.record(package("base", "1"));
    assert_eq!(db.packages, vec![package("base", "1")]);
}

#[test]
fn weight_counts_bytes_and_a_margin_per_record() {
    assert_eq!(weigh(&PackageDB::new()), Some(64));
    let one = PackageDB { packages: vec![package("base", "1.0")] };
    let texts = "base".len() + "1.0".len() + "musl".len() + "x86_64".len() + "the base package".len();
    assert_eq!(weigh(&one), Some(64 + 64 + texts));
    let wide = PackageDB { packages: vec![package("基本", "")] };
    let texts = 6 + 0 + 4 + 6 + "the 基本 package".len();
    assert_eq!(weigh(&wide), Some(64 + 64 + texts));
}

#[test]
fn written_file_is_no_longer_than_the_weight() {
    let db = sample();
    let bytes = write_db(&db).unwrap();
    assert!(bytes.len() <= weigh(&db).unwrap());
    let db = PackageDB::new();
    assert!(write_db(&db).unwrap().len() <= 64);
}

#[test]
fn database_beyond_the_limit_is_not_written() {
    assert_eq!(STORE_LIMIT, 1 << 30);
    let mut p = package("big", "1");
    p.description = "a".repeat(STORE_LIMIT - 64 - 64 - 3 - 1 - 4 - 6 + 1);
    let db = PackageDB { packages: vec![p] };
    assert_eq!(weigh(&db), None);
    assert_eq!(write_db(&db), Err(StoreError::WriteFailed));
}

#[test]
fn file_beyond_the_limit_is_refused() {
    assert_eq!(read_db(Some(vec![0u8; STORE_LIMIT + 1])), Err(StoreError::Corrupt));
}

#[test]
fn texts_of_every_short_length_round_trip() {
    let mut packages = Vec::new();
    for len in 0..40usize {
        let mut p = package(&"n".repeat(len), &"v".repeat(40 - len));
        p.libc = "é".repeat(len);
        p.architecture = "\u{1F600}".repeat(len % 5);
        p.description = "d".repeat(len * 7);
        packages.push(p);
    }
    let db = PackageDB { packages };
    let bytes = write_db(&db).unwrap();
    assert!(bytes.len() <= weigh(&db).unwrap());
    assert_eq!(read_db(Some(bytes)).unwrap(), db);
}

#[test]
fn damaged_file_is_refused_or_read_as_a_database_that_round_trips() {
    let db = sample();
    let bytes = write_db(&db).unwrap();
    let mut refused = 0;
    for at in 0..bytes.len() {
        let mut damaged = bytes.clone();
        damaged[at] ^= 0xff;
        match read_db(Some(damaged)) {
            Ok(read) => {
                let again = write_db(&read).unwrap();
                assert_eq!(read_db(Some(again)).unwrap(), read, "byte {}", at);
            }
            Err(e) => {
                assert_eq!(e, StoreError::Corrupt);
                refused += 1;
            }
        }
    }
    assert!(refused > 0);
}

#[test]
fn file_with_other_filling_reads_equal_and_is_rewritten_as_first_written() {
    let db = sample();
    let bytes = write_db(&db).unwrap();
    let mut other = None;
    for at in 0..bytes.len() {
        let mut changed = bytes.clone();
        changed[at] ^= 0xff;
        if read_db(Some(changed.clone())) == Ok(sample()) {
            other = Some(changed);
            break;
        }
    }
    if let Some(changed) = other {
        assert_ne!(changed, bytes);
        assert_eq!(write_db(&read_db(Some(changed)).unwrap()).unwrap(), bytes);
    }
}
