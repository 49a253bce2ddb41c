use videocaster::range::{HttpRange, RangeError};

struct T(&'static str, u64, Vec<HttpRange>);

fn check(t: &T) {
    let header = t.0;
    let size = t.1;
    let expected = &t.2;

    let res = HttpRange::parse(header, size);

    if res.is_err() {
        if expected.is_empty() {
            return;
        } else {
            panic!(
                "parse({}, {}) returned error {:?}",
                header,
                size,
                res.unwrap_err()
            );
        }
    }

    let got = res.unwrap();

    assert_eq!(
        got.len(),
        expected.len(),
        "len(parseRange({}, {})) = {}, want {}",
        header,
        size,
        got.len(),
        expected.len()
    );

    for i in 0..expected.len() {
        assert_eq!(
            got[i].start, expected[i].start,
            "parseRange({}, {})[{}].start = {}, want {}",
            header, size, i, got[i].start, expected[i].start
        );
        assert_eq!(
            got[i].length, expected[i].length,
            "parseRange({}, {})[{}].length = {}, want {}",
            header, size, i, got[i].length, expected[i].length
        );
    }
}

#[test]
fn test_parse() {
    let tests = vec![
        T("", 0, vec![]),
        T("", 1000, vec![]),
        T("foo", 0, vec![]),
        T("bytes=", 0, vec![]),
        T("bytes=7", 10, vec![]),
        T("bytes= 7 ", 10, vec![]),
        T("bytes=1-", 0, vec![]),
        T("bytes=5-4", 10, vec![]),
        T("bytes=0-2,5-4", 10, vec![]),
        T("bytes=2-5,4-3", 10, vec![]),
        T("bytes=--5,4--3", 10, vec![]),
        T("bytes=A-", 10, vec![]),
        T("bytes=A- ", 10, vec![]),
        T("bytes=A-Z", 10, vec![]),
        T("bytes= -Z", 10, vec![]),
        T("bytes=5-Z", 10, vec![]),
        T("bytes=Ran-dom, garbage", 10, vec![]),
        T("bytes=0x01-0x02", 10, vec![]),
        T("bytes=         ", 10, vec![]),
        T("bytes= , , ,   ", 10, vec![]),
        T(
            "bytes=0-9",
            10,
            vec![HttpRange {
                start: 0,
                length: 10,
            }],
        ),
        T(
            "bytes=0-",
            10,
            vec![HttpRange {
                start: 0,
                length: 10,
            }],
        ),
        T(
            "bytes=5-",
            10,
            vec![HttpRange {
                start: 5,
                length: 5,
            }],
        ),
        T(
            "bytes=0-20",
            10,
            vec![HttpRange {
                start: 0,
                length: 10,
            }],
        ),
        T(
            "bytes=15-,0-5",
            10,
            vec![HttpRange {
                start: 0,
                length: 6,
            }],
        ),
        T(
            "bytes=1-2,5-",
            10,
            vec![
                HttpRange {
                    start: 1,
                    length: 2,
                },
                HttpRange {
                    start: 5,
                    length: 5,
                },
            ],
        ),
        T(
            "bytes=-2 , 7-",
            11,
            vec![
                HttpRange {
                    start: 9,
                    length: 2,
                },
                HttpRange {
                    start: 7,
                    length: 4,
                },
            ],
        ),
        T(
            "bytes=0-0 ,2-2, 7-",
            11,
            vec![
                HttpRange {
                    start: 0,
                    length: 1,
                },
                HttpRange {
                    start: 2,
                    length: 1,
                },
                HttpRange {
                    start: 7,
                    length: 4,
                },
            ],
        ),
        T(
            "bytes=-5",
            10,
            vec![HttpRange {
                start: 5,
                length: 5,
            }],
        ),
        T(
            "bytes=-15",
            10,
            vec![HttpRange {
                start: 0,
                length: 10,
            }],
        ),
        T(
            "bytes=0-499",
            10000,
            vec![HttpRange {
                start: 0,
                length: 500,
            }],
        ),
        T(
            "bytes=500-999",
            10000,
            vec![HttpRange {
                start: 500,
                length: 500,
            }],
        ),
        T(
            "bytes=-500",
            10000,
            vec![HttpRange {
                start: 9500,
                length: 500,
            }],
        ),
        T(
            "bytes=9500-",
            10000,
            vec![HttpRange {
                start: 9500,
                length: 500,
            }],
        ),
        T(
            "bytes=0-0,-1",
            10000,
            vec![
                HttpRange {
                    start: 0,
                    length: 1,
                },
                HttpRange {
                    start: 9999,
                    length: 1,
                },
            ],
        ),
        T(
            "bytes=500-600,601-999",
            10000,
            vec![
                HttpRange {
                    start: 500,
                    length: 101,
                },
                HttpRange {
                    start: 601,
                    length: 399,
                },
            ],
        ),
        T(
            "bytes=500-700,601-999",
            10000,
            vec![
                HttpRange {
                    start: 500,
                    length: 201,
                },
                HttpRange {
                    start: 601,
                    length: 399,
                },
            ],
        ),
        // Match Apache laxity:
        T(
            "bytes=   1 -2   ,  4- 5, 7 - 8 , ,,",
            11,
            vec![
                HttpRange {
                    start: 1,
                    length: 2,
                },
                HttpRange {
                    start: 4,
                    length: 2,
                },
                HttpRange {
                    start: 7,
                    length: 2,
                },
            ],
        ),
    ];

    for t in &tests {
        check(t);
    }
}

#[test]
fn empty_header_and_bare_prefix_yield_no_ranges() {
    for size in [0u64, 1, 10, 1000, u64::MAX] {
        let r = HttpRange::parse("", size).unwrap();
        assert!(r.is_empty());
        let r = HttpRange::parse("bytes=", size).unwrap();
        assert!(r.is_empty());
    }
}

#[test]
fn closed_range_end_clamped_to_size() {
    let r = HttpRange::parse("bytes=0-9", 10).unwrap();
    assert_eq!(r.len(), 1);
    assert_eq!(r[0].start, 0);
    assert_eq!(r[0].length, 10);
}

#[test]
fn suffix_range_clamps_to_resource_size() {
    let r = HttpRange::parse("bytes=-5", 10).unwrap();
    assert_eq!(r.len(), 1);
    assert_eq!(r[0].start, 5);
    assert_eq!(r[0].length, 5);

    let r = HttpRange::parse("bytes=-15", 10).unwrap();
    assert_eq!(r.len(), 1);
    assert_eq!(r[0].start, 0);
    assert_eq!(r[0].length, 10);
}

#[test]
fn out_of_range_piece_dropped_when_another_survives() {
    let r = HttpRange::parse("bytes=15-,0-5", 10).unwrap();
    assert_eq!(r.len(), 1);
    assert_eq!(r[0].start, 0);
    assert_eq!(r[0].length, 6);
}

#[test]
fn backwards_range_fails_with_start_after_end() {
    let e = HttpRange::parse("bytes=5-4", 10).unwrap_err();
    assert_eq!(e, RangeError::StartAfterEnd);
}

#[test]
fn malformed_start_fails_with_parsing_error() {
    let e = HttpRange::parse("bytes=A-", 10).unwrap_err();
    assert_eq!(e, RangeError::ParsingError);
}

#[test]
fn missing_prefix_fails_with_missing_unit_prefix() {
    let e = HttpRange::parse("foo", 10).unwrap_err();
    assert_eq!(e, RangeError::MissingUnitPrefix);
}

#[test]
fn piece_without_dash_fails_with_invalid_range() {
    let e = HttpRange::parse("bytes=7", 10).unwrap_err();
    assert_eq!(e, RangeError::InvalidRange);
}

#[test]
fn negative_suffix_fails_with_parsing_error() {
    let e = HttpRange::parse("bytes=--5", 10).unwrap_err();
    assert_eq!(e, RangeError::ParsingError);
}

#[test]
fn all_pieces_out_of_range_fails_with_no_ranges() {
    let e = HttpRange::parse("bytes=20-,30-40", 10).unwrap_err();
    assert_eq!(e, RangeError::NoRanges);
}

#[test]
fn overlong_number_fails_with_parsing_error() {
    let e = HttpRange::parse("bytes=99999999999999999999-", 10).unwrap_err();
    assert_eq!(e, RangeError::ParsingError);
}

#[test]
fn explicit_plus_signs_are_accepted() {
    let r = HttpRange::parse("bytes=+0-+4", 10).unwrap();
    assert_eq!(r.len(), 1);
    assert_eq!(r[0].start, 0);
    assert_eq!(r[0].length, 5);
}

#[test]
fn suffix_against_a_huge_resource() {
    let r = HttpRange::parse("bytes=-5", u64::MAX).unwrap();
    assert_eq!(r.len(), 1);
    assert_eq!(r[0].start, u64::MAX - 5);
    assert_eq!(r[0].length, 5);
}

#[test]
fn zero_suffix_yields_zero_length_range_at_end() {
    let r = HttpRange::parse("bytes=-0", 10).unwrap();
    assert_eq!(r.len(), 1);
    assert_eq!(r[0].start, 10);
    assert_eq!(r[0].length, 0);
}
