use tesseract::backend::{
    block_to_df, blocks_to_dataframes, check_user_settings, NativeBlock, NativeColumn,
    NativeValues,
};
use tesseract::dataframe::{Column, ColumnData, DataFrame};
use tesseract::error::Error;

fn sample_block() -> NativeBlock {
    NativeBlock {
        columns: vec![
            NativeColumn {
                name: "state".to_owned(),
                values: NativeValues::Text(vec!["CA".to_owned(), "NY".to_owned()]),
            },
            NativeColumn {
                name: "revenue".to_owned(),
                values: NativeValues::Int64(vec![100, 250]),
            },
            NativeColumn {
                name: "count8".to_owned(),
                values: NativeValues::UInt8(vec![3, 255]),
            },
        ],
    }
}

#[test]
fn block_round_trip_preserves_values() {
    let df = match block_to_df(&sample_block()) {
        Ok(df) => df,
        Err(_) => panic!("conversion failed"),
    };
    assert_eq!(df.columns.len(), 3);
    assert_eq!(df.num_rows(), 2);
    assert_eq!(df.columns[0].name, "state");
    match &df.columns[0].data {
        ColumnData::Text(v) => assert_eq!(v, &vec!["CA".to_owned(), "NY".to_owned()]),
        _ => panic!("state should convert to text"),
    }
    match &df.columns[1].data {
        ColumnData::Int64(v) => assert_eq!(v, &vec![100, 250]),
        _ => panic!("revenue should convert to 64-bit integers"),
    }
    match &df.columns[2].data {
        ColumnData::Int32(v) => assert_eq!(v, &vec![3, 255]),
        _ => panic!("count8 should widen to 32-bit integers"),
    }
}

#[test]
fn block_widens_and_keeps_bits() {
    let block = NativeBlock {
        columns: vec![
            NativeColumn {
                name: "small".to_owned(),
                values: NativeValues::Int8(vec![-5, 7]),
            },
            NativeColumn {
                name: "wide".to_owned(),
                values: NativeValues::UInt32(vec![4_000_000_000]),
            },
            NativeColumn {
                name: "ratio".to_owned(),
                values: NativeValues::Float64Bits(vec![4611686018427387904]),
            },
        ],
    };
    let df = match block_to_df(&block) {
        Ok(df) => df,
        Err(_) => panic!("conversion failed"),
    };
    match &df.columns[0].data {
        ColumnData::Int32(v) => assert_eq!(v, &vec![-5, 7]),
        _ => panic!("signed bytes should widen to 32-bit integers"),
    }
    match &df.columns[1].data {
        ColumnData::Int64(v) => assert_eq!(v, &vec![4_000_000_000]),
        _ => panic!("32-bit unsigned should widen to 64-bit integers"),
    }
    match &df.columns[2].data {
        ColumnData::Float64Bits(v) => {
            assert_eq!(v, &vec![4611686018427387904]);
            assert_eq!(f64::from_bits(v[0]), 2.0);
        },
        _ => panic!("float bits should pass through"),
    }
}

#[test]
fn unmapped_native_type_fails() {
    let block = NativeBlock {
        columns: vec![NativeColumn {
            name: "big".to_owned(),
            values: NativeValues::UInt64(vec![1]),
        }],
    };
    match block_to_df(&block) {
        Err(Error::TypeConversion(m)) => {
            assert_eq!(m, "no typed column for native type UInt64 of column: big")
        },
        _ => panic!("expected a type-conversion error"),
    }
    let dates = NativeBlock {
        columns: vec![NativeColumn {
            name: "day".to_owned(),
            values: NativeValues::Date(vec![1]),
        }],
    };
    match block_to_df(&dates) {
        Err(Error::TypeConversion(m)) => {
            assert_eq!(m, "no typed column for native type Date of column: day")
        },
        _ => panic!("expected a type-conversion error"),
    }
}

#[test]
fn nullable_columns_round_trip() {
    let block = NativeBlock {
        columns: vec![
            NativeColumn {
                name: "maybe_count".to_owned(),
                values: NativeValues::NullableUInt16(vec![Some(7), None, Some(65535)]),
            },
            NativeColumn {
                name: "maybe_total".to_owned(),
                values: NativeValues::NullableInt64(vec![None, Some(-3), Some(12)]),
            },
            NativeColumn {
                name: "maybe_name".to_owned(),
                values: NativeValues::NullableText(vec![
                    Some("CA".to_owned()),
                    None,
                    Some("NY".to_owned()),
                ]),
            },
        ],
    };
    let df = match block_to_df(&block) {
        Ok(df) => df,
        Err(_) => panic!("conversion failed"),
    };
    assert_eq!(df.num_rows(), 3);
    match &df.columns[0].data {
        ColumnData::NullableInt32(v) => {
            assert_eq!(v, &vec![Some(7), None, Some(65535)])
        },
        _ => panic!("nullable small integers should widen to nullable 32-bit"),
    }
    match &df.columns[1].data {
        ColumnData::NullableInt64(v) => assert_eq!(v, &vec![None, Some(-3), Some(12)]),
        _ => panic!("nullable 64-bit integers should pass through"),
    }
    match &df.columns[2].data {
        ColumnData::NullableText(v) => {
            assert_eq!(v, &vec![Some("CA".to_owned()), None, Some("NY".to_owned())])
        },
        _ => panic!("nullable text should pass through"),
    }
}

#[test]
fn nullable_unmapped_type_fails() {
    let block = NativeBlock {
        columns: vec![NativeColumn {
            name: "wide".to_owned(),
            values: NativeValues::NullableUInt64(vec![Some(1), None]),
        }],
    };
    match block_to_df(&block) {
        Err(Error::TypeConversion(m)) => {
            assert_eq!(m, "no typed column for native type Nullable(UInt64) of column: wide")
        },
        _ => panic!("expected a type-conversion error"),
    }
}

#[test]
fn streaming_keeps_block_count_and_order() {
    let blocks = vec![
        NativeBlock {
            columns: vec![NativeColumn {
                name: "first".to_owned(),
                values: NativeValues::Int32(vec![1]),
            }],
        },
        NativeBlock {
            columns: vec![NativeColumn {
                name: "second".to_owned(),
                values: NativeValues::Int32(vec![2, 3]),
            }],
        },
        NativeBlock {
            columns: vec![NativeColumn {
                name: "third".to_owned(),
                values: NativeValues::Int32(vec![]),
            }],
        },
    ];
    let frames = blocks_to_dataframes(&blocks);
    assert_eq!(frames.len(), 3);
    let names: Vec<String> = frames
        .iter()
        .map(|r| match r {
            Ok(df) => df.columns[0].name.clone(),
            Err(_) => panic!("conversion failed"),
        })
        .collect();
    assert_eq!(
        names,
        vec!["first".to_owned(), "second".to_owned(), "third".to_owned()]
    );
}

#[test]
fn streaming_reports_bad_block_in_place() {
    let blocks = vec![
        NativeBlock {
            columns: vec![NativeColumn {
                name: "ok".to_owned(),
                values: NativeValues::Int32(vec![1]),
            }],
        },
        NativeBlock {
            columns: vec![NativeColumn {
                name: "bad".to_owned(),
                values: NativeValues::UInt64(vec![1]),
            }],
        },
    ];
    let frames = blocks_to_dataframes(&blocks);
    assert_eq!(frames.len(), 2);
    assert!(frames[0].is_ok());
    assert!(matches!(frames[1], Err(Error::TypeConversion(_))));
}

#[test]
fn check_user_warns_on_writable_session() {
    // A session whose settings allow writes: the check warns but the
    // call itself has completed and handed back a decision.
    let names = vec!["readonly".to_owned(), "allow_ddl".to_owned()];
    let values = vec!["0".to_owned(), "1".to_owned()];
    assert!(check_user_settings(&names, &values));
}

#[test]
fn check_user_quiet_on_readonly_session() {
    let names = vec!["readonly".to_owned(), "allow_ddl".to_owned()];
    let values = vec!["1".to_owned(), "1".to_owned()];
    assert!(!check_user_settings(&names, &values));
    let values2 = vec!["0".to_owned(), "0".to_owned()];
    assert!(!check_user_settings(&names, &values2));
}

#[test]
fn check_user_warns_when_settings_missing() {
    let names = vec!["max_threads".to_owned()];
    let values = vec!["8".to_owned()];
    assert!(check_user_settings(&names, &values));
    assert!(check_user_settings(&Vec::new(), &Vec::new()));
    // A value list shorter than the name positions also warns instead
    // of failing.
    let names2 = vec!["readonly".to_owned(), "allow_ddl".to_owned()];
    let values2 = vec!["1".to_owned()];
    assert!(check_user_settings(&names2, &values2));
}

#[test]
fn dataframe_shapes() {
    let df = DataFrame::new();
    assert_eq!(df.columns.len(), 0);
    assert_eq!(df.num_rows(), 0);
    let built = DataFrame::from_vec(vec![Column::new(
        "xs".to_owned(),
        ColumnData::Bool(vec![true, false, true]),
    )]);
    assert_eq!(built.num_rows(), 3);
    assert_eq!(built.columns[0].data.len(), 3);
}
