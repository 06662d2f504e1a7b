use lmstudio_rust::types::{format_size, Model, ModelTableRow};

fn float_format_size(size: i64) -> String {
    if size == 0 {
        return "N/A".to_string();
    }
    const UNIT: i64 = 1024;
    if size < UNIT {
        return format!("{} B", size);
    }
    let mut div = UNIT;
    let mut exp = 0;
    let mut n = size / UNIT;
    while n >= UNIT {
        div *= UNIT;
        exp += 1;
        n /= UNIT;
    }
    let units = ["KB", "MB", "GB", "TB"];
    if exp < units.len() {
        format!("{:.1} {}", size as f64 / div as f64, units[exp])
    } else {
        format!("{:.1} TB", size as f64 / (UNIT.pow(4) as f64))
    }
}

fn float_max_context(length: i32) -> String {
    if length >= 1_000_000 {
        format!("{:.1}M", length as f64 / 1_000_000.0)
    } else if length >= 1_000 {
        format!("{}K", length / 1_000)
    } else {
        length.to_string()
    }
}

fn model_with(size: Option<i64>, max_context_length: Option<i32>) -> Model {
    Model {
        model_key: "test-model".to_string(),
        path: "/path/to/model".to_string(),
        model_type: "llm".to_string(),
        format: Some("gguf".to_string()),
        size,
        max_context_length,
        display_name: Some("Test Model".to_string()),
        architecture: None,
        vision: None,
        trained_for_tool_use: None,
        identifier: None,
        instance_reference: None,
        context_length: None,
        legacy_model_type: None,
        family: None,
        model_name: None,
        is_loaded: true,
    }
}

#[test]
fn test_format_size() {
    assert_eq!(format_size(0), "N/A");
    assert_eq!(format_size(512), "512 B");
    assert_eq!(format_size(1024), "1.0 KB");
    assert_eq!(format_size(1536), "1.5 KB");
    assert_eq!(format_size(1048576), "1.0 MB");
}

#[test]
fn test_model_table_row_conversion() {
    let model = Model {
        model_key: "test-model".to_string(),
        path: "/path/to/model".to_string(),
        model_type: "llm".to_string(),
        format: Some("gguf".to_string()),
        size: Some(1073741824), // 1GB
        max_context_length: Some(4096),
        display_name: Some("Test Model".to_string()),
        architecture: None,
        vision: None,
        trained_for_tool_use: None,
        identifier: None,
        instance_reference: None,
        context_length: None,
        legacy_model_type: None,
        family: None,
        model_name: None,
        is_loaded: true,
    };

    let row = ModelTableRow::from(&model);
    assert_eq!(row.name, "Test Model");
    assert_eq!(row.model_type, "llm");
    assert_eq!(row.status, "Loaded");
}

#[test]
fn format_size_matches_floating_point_on_ties_and_edges() {
    let mut cases: Vec<i64> = vec![
        -5, -1, 1, 1023, 1024, 1075, 1076, 1126, 1127, 1280, 1792, 2304, 1048575, 1048576,
        1073741823, 1073741824, 1099511627776, 1125899906842623, 1125899906842624,
        9007199254740991, 9007199254740992, 9007199254740993, i64::MAX, i64::MAX - 1,
        (1i64 << 62) + (1i64 << 38) - 1, (3i64 << 38) - 1, (3i64 << 38) + 1,
    ];
    for k in 0..63 {
        let p = 1i64 << k;
        cases.push(p);
        cases.push(p - 1);
        cases.push(p + 1);
        cases.push(p + p / 4);
        cases.push(p + p / 4 - 1);
        cases.push(p + p / 4 + 1);
        cases.push(p + 3 * (p / 4));
    }
    let mut x: u64 = 0x9E3779B97F4A7C15;
    for _ in 0..20000 {
        x ^= x << 13;
        x ^= x >> 7;
        x ^= x << 17;
        cases.push((x >> ((x % 50) + 1)) as i64);
    }
    for size in cases {
        assert_eq!(format_size(size), float_format_size(size), "size {}", size);
    }
}

#[test]
fn formatted_max_context_matches_floating_point() {
    let mut cases: Vec<i32> = vec![
        i32::MIN, -1, 0, 999, 1000, 4096, 999_999, 1_000_000, 1_050_000, 1_150_000, 1_250_000,
        1_350_000, 2_250_000, 1_049_999, 1_050_001, i32::MAX,
    ];
    for m in 1..2148 {
        for t in 0..10 {
            let base = m * 1_000_000 + t * 100_000;
            for delta in [0, 50_000, 49_999, 50_001] {
                let v = base as i64 + delta;
                if v <= i32::MAX as i64 && v >= 1_000_000 {
                    cases.push(v as i32);
                }
            }
        }
    }
    for length in cases {
        let model = model_with(None, Some(length));
        assert_eq!(model.formatted_max_context(), float_max_context(length), "length {}", length);
    }
    assert_eq!(model_with(None, None).formatted_max_context(), "N/A");
    assert_eq!(model_with(None, None).formatted_size(), "N/A");
    assert_eq!(model_with(Some(1536), None).formatted_size(), "1.5 KB");
}

#[test]
fn sizes_beyond_2_pow_53_round_through_binary64_first() {
    // 2^53 + 54975581389 bytes is just above 8192.05 TB, but its nearest
    // binary64 value is just below it.
    let size: i64 = 9_007_254_230_322_381;
    assert_eq!(format_size(size), "8192.0 TB");
    assert_eq!(format_size(size), float_format_size(size));
}
