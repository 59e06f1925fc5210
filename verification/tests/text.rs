//! Text, tables, numbers and the metrics of devices.
use micromeasure::bench::cuda::{
    check_cuda, collect_device_sample, device_timing, host_elapsed, host_overhead, total_work,
    CudaError, DeviceNumbers, DeviceTiming,
};
use micromeasure::bench::gpu_counters::check_name;
use micromeasure::bench::results::Results;
use micromeasure::comparison::document::render_hex;
use micromeasure::comparison::error::render_map;
use micromeasure::double::{
    finite, finite_nonnegative, keep_finite, same_numbers, sort_numbers,
};
use micromeasure::paths::{path_before, path_parts};
use micromeasure::table::{display_text_width, strip_ansi, truncate_display_text};
use micromeasure::text::{
    align_left, align_right, comes_before, contains, decimal_text, ends_with, is_blank, join,
    same_ignoring_case, starts_with,
};
use micromeasure::{
    Alignment, DiagnosticError, DoubleBits, GpuCounterError, GpuCounterMetric, MetricFormat, Nanos,
    NumberStyle, NumberTexts, TableFormatter, TextMap, Throughput, DEFAULT_NVIDIA_GPU_COUNTERS,
};

fn bits(value: f64) -> DoubleBits {
    DoubleBits::from_bits(value.to_bits())
}

#[test]
fn comparisons_of_bit_patterns_agree_with_numbers() {
    let values = [
        f64::NEG_INFINITY,
        -1.5,
        -f64::MIN_POSITIVE,
        -0.0,
        0.0,
        5e-324,
        1.0,
        f64::MAX,
        f64::INFINITY,
        f64::NAN,
    ];
    for a in values {
        assert_eq!(bits(a).is_nan(), a.is_nan());
        assert_eq!(bits(a).is_finite(), a.is_finite());
        assert_eq!(bits(a).abs(), bits(a.abs()));
        for b in values {
            assert_eq!(bits(a).lt(bits(b)), a < b, "{a} {b}");
            assert_eq!(bits(a).le(bits(b)), a <= b, "{a} {b}");
            assert_eq!(bits(a).gt(bits(b)), a > b, "{a} {b}");
            assert_eq!(bits(a).ge(bits(b)), a >= b, "{a} {b}");
            assert_eq!(bits(a).total_before(bits(b)), a.total_cmp(&b).is_lt(), "{a} {b}");
        }
    }
}

#[test]
fn numbers_are_sorted_in_total_order() {
    let list = vec![bits(3.0), bits(-0.0), bits(f64::NAN), bits(0.0), bits(-2.0)];
    let sorted = sort_numbers(&list);
    let expected = vec![bits(-2.0), bits(-0.0), bits(0.0), bits(3.0), bits(f64::NAN)];
    assert_eq!(sorted, expected);
    assert_eq!(keep_finite(&list).len(), 4);
    assert_eq!(finite(bits(f64::INFINITY)), None);
    assert_eq!(finite_nonnegative(bits(-1.0)), None);
    assert_eq!(finite_nonnegative(bits(1.0)), Some(bits(1.0)));
}

#[test]
fn unknown_numbers_are_written_as_question_marks() {
    let mut texts = NumberTexts::new();
    let style = NumberStyle::Fixed { places: 2 };
    assert_eq!(texts.text(bits(1.0), style), "?");
    texts.record(bits(1.0), style, "1.00".to_string());
    assert_eq!(texts.text(bits(1.0), style), "1.00");
    assert_eq!(texts.text(bits(2.0), style), "?");
}

#[test]
fn texts_are_searched_and_ordered() {
    assert!(contains("abcde", "cd"));
    assert!(contains("abc", ""));
    assert!(!contains("abc", "ca"));
    assert!(starts_with("cpu0", "cpu"));
    assert!(same_ignoring_case("MiB", "mib"));
    assert!(is_blank(" \t\u{a0}"));
    assert!(!is_blank(" x"));
    assert!(comes_before("a-report", "z-report"));
    assert!(!comes_before("b", "a"));
    assert!(comes_before("a", "ab"));
    assert_eq!(decimal_text(0), "0");
    assert_eq!(decimal_text(18_446_744_073_709_551_615), "18446744073709551615");
    assert_eq!(align_right("7", 3), "  7");
    assert_eq!(align_left("7", 3), "7  ");
    assert_eq!(join(&vec!["a".to_string(), "b".to_string()], ", "), "a, b");
}

#[test]
fn maps_keep_their_keys_in_order() {
    let map = TextMap::new()
        .inserted("b".to_string(), "2".to_string())
        .inserted("a".to_string(), "1".to_string())
        .inserted("b".to_string(), "3".to_string())
        .inserted_if_absent("a".to_string(), "9".to_string());
    assert_eq!(map.len(), 2);
    assert_eq!(map.get("b").unwrap(), "3");
    assert_eq!(map.get("a").unwrap(), "1");
    assert!(!map.contains_key("c"));
    assert!(map.same(&map.duplicate()));
    assert_eq!(map.entries()[0].0, "a");
    assert_eq!(render_map(&map), "{\"a\": \"1\", \"b\": \"3\"}");
    let quoted = TextMap::new().inserted("k".to_string(), "tab\t\"q\" é".to_string());
    assert_eq!(render_map(&quoted), "{\"k\": \"tab\\t\\\"q\\\" é\"}");
}

#[test]
fn bytes_are_written_in_hexadecimal() {
    assert_eq!(render_hex(&[0x00, 0x0f, 0xa5, 0xff]), "000fa5ff");
    assert_eq!(render_hex(&[]), "");
}

#[test]
fn display_widths_ignore_colours_and_count_columns() {
    assert_eq!(strip_ansi("\x1b[1;31mred\x1b[0m"), "red");
    assert_eq!(display_text_width("abc"), 3);
    assert_eq!(display_text_width("\x1b[31mabc\x1b[0m"), 3);
    assert_eq!(display_text_width("漢字"), 4);
    assert_eq!(truncate_display_text("漢字kanji", 5), "漢字k");
    assert_eq!(truncate_display_text("漢字kanji", 3), "漢");
}

#[test]
fn tables_line_up_whatever_their_characters() {
    let mut table = TableFormatter::new(vec!["name", "rate"], vec![6, 8])
        .with_alignments(vec![Alignment::Left, Alignment::Right]);
    table.add_row(vec!["漢字", "1.00"]);
    table.add_row(vec!["a long name", "2.00"]);
    let shown = table.render(false);
    let widths: Vec<usize> = shown.lines().map(display_text_width).collect();
    assert!(widths.windows(2).all(|pair| pair[0] == pair[1]), "{shown}");
    assert!(shown.contains("a l..."), "{shown}");
    assert!(shown.contains("漢字  "), "{shown}");
    assert_eq!(table.format_cell("ab", 5, Alignment::Center), " ab  ");
}

#[test]
fn throughputs_have_an_amount_and_a_unit() {
    let kept = Throughput::persisted(0, " ".to_string());
    assert_eq!(kept.amount_per_operation(), 0);
    assert_eq!(kept.unit(), " ");
    let bytes = Throughput::bytes(64);
    assert_eq!(bytes.amount_per_operation(), 64);
    assert_eq!(Throughput::ops().unit(), "ops");
    assert!(bytes.same(&bytes.duplicate()));
}

#[test]
fn times_are_held_in_nanoseconds() {
    assert_eq!(Nanos::from_millis(5).count, 5_000_000);
    assert_eq!(Nanos::from_secs(2).as_millis(), 2_000);
    assert!(Nanos::zero().is_zero());
}

fn device_numbers() -> DeviceNumbers {
    DeviceNumbers {
        device_ms: bits(2.0),
        host_overhead_ms: bits(1.0),
        gib_per_second: bits(3.0),
        tflops: bits(4.0),
        error_code: bits(700.0),
    }
}

#[test]
fn device_samples_report_times_and_rates() {
    let mut results = Results::default();
    let mut metrics = Vec::new();
    let timing =
        device_timing(Ok(()), Ok(()), Ok(()), Ok(Nanos::from_millis(2)));
    collect_device_sample(
        timing,
        Nanos::from_millis(3),
        10,
        64,
        0,
        &device_numbers(),
        &mut results,
        &mut metrics,
    );
    assert_eq!(results.duration, Nanos::from_millis(2));
    assert_eq!(results.iterations, 10);
    let names: Vec<&str> = metrics.iter().map(|metric| metric.name).collect();
    assert_eq!(names, vec!["cuda_event_ms", "host_overhead_ms", "gpu_gib_s"]);
    assert_eq!(metrics[2].value, bits(3.0));
    assert_eq!(total_work(u64::MAX, 2), u64::MAX);
    assert_eq!(host_overhead(Nanos::from_millis(3), Nanos::from_millis(2)), Nanos::from_millis(1));
    assert_eq!(host_overhead(Nanos::from_millis(1), Nanos::from_millis(2)), Nanos::zero());
    assert_eq!(host_elapsed(Nanos::zero(), Nanos::from_millis(7)), Nanos::from_millis(7));
}

#[test]
fn failed_device_calls_fall_back_to_the_host() {
    let failed = check_cuda("cudaEventSynchronize", 700);
    let error = failed.unwrap_err();
    assert_eq!(error.call(), "cudaEventSynchronize");
    assert_eq!(error.code(), 700);
    assert_eq!(error.message(), "cudaEventSynchronize failed with CUDA status 700");
    assert_eq!(CudaError::new("x", -3).message(), "x failed with CUDA status -3");
    assert!(check_cuda("cudaEventRecord", 0).is_ok());
    let timing = device_timing(Ok(()), Ok(()), Err(error), Ok(Nanos::from_millis(2)));
    assert!(matches!(timing, DeviceTiming::Failed(found) if found.code() == 700));
    let mut results = Results::default();
    let mut metrics = Vec::new();
    collect_device_sample(
        timing,
        Nanos::from_millis(3),
        10,
        64,
        64,
        &device_numbers(),
        &mut results,
        &mut metrics,
    );
    assert_eq!(results.duration, Nanos::from_millis(3));
    assert_eq!(metrics.len(), 1);
    assert_eq!(metrics[0].name, "cuda_error_code");
    assert_eq!(metrics[0].format, MetricFormat::Integer);
}

#[test]
fn device_counter_errors_are_classified_by_their_text() {
    let of = |detail: &str| GpuCounterError::from_detail(detail.to_string()).metric_name();
    assert_eq!(of("ERR_NVGPUCTRPERM"), "gpu_counter_permission_error");
    assert_eq!(of("Missing Privileges"), "gpu_counter_permission_error");
    assert_eq!(of("ConfigAddMetrics failed"), "gpu_counter_metric_error");
    assert_eq!(of("No current CUDA context"), "gpu_counter_profiler_error");
    assert_eq!(of("decode"), "gpu_counter_collection_error");
    let invalid = check_name("a\0b", "metric name").unwrap_err();
    assert_eq!(invalid.metric_name(), "gpu_counter_invalid_name");
    assert_eq!(invalid.display_name(), "Counter invalid name");
    assert_eq!(invalid.message(), "metric name contains NUL");
    assert!(check_name("ab", "metric name").is_ok());
    let result = GpuCounterError::from_detail("decode".to_string()).into_diagnostic_result();
    assert_eq!(result.section, "gpu counters");
    assert_eq!(result.metrics[0].section, "gpu counters");
    assert_eq!(result.metrics[0].value, bits(1.0));
    assert_eq!(result.metrics[0].display_name, "Counter collection error");
    let error = DiagnosticError::from(GpuCounterError::from_detail("decode".to_string()));
    assert_eq!(error.message, "decode");
}

#[test]
fn default_device_counters_have_names_of_their_own() {
    let shown = |name: &str| {
        GpuCounterMetric { name: name.to_string(), value: bits(7.0) }.to_metric_value()
    };
    let names: Vec<&str> = DEFAULT_NVIDIA_GPU_COUNTERS.iter().map(|name| shown(name).name).collect();
    assert_eq!(
        names,
        vec![
            "gpu_memory_peak_pct",
            "gpu_l2_peak_pct",
            "gpu_sm_peak_pct",
            "gpu_tensor_active_pct",
        ]
    );
    let other = shown("unknown");
    assert_eq!(other.name, "gpu_counter");
    assert_eq!(other.section, "gpu counters");
    assert_eq!(other.value, bits(7.0));
}

#[test]
fn endings_are_compared_to_the_last_character() {
    assert!(ends_with("report.json", ".json"));
    assert!(ends_with("grün", "ün"));
    assert!(ends_with("a", ""));
    assert!(!ends_with("json", ".json"));
    assert!(!ends_with("report.jso", ".json"));
}

#[test]
fn paths_are_ordered_as_the_standard_library_orders_them() {
    let all = [
        "", "/", "//", ".", "..", "./", "./a", "../a", "a", "a/", "a//b", "a/./b", "a/b", "a/b/c",
        "a-b", "a.json", "a/b.json", "a-b.json", "/a", "/./a", "//a", "/a/../b", "b", "A", "ab",
        "a b", "é/x", "z", "...", ".a", "./.", "a/.", "a/..", "日本", "root/a/b.json",
        "root/a-b.json", "root/z.json",
    ];
    for left in all {
        for right in all {
            assert_eq!(
                path_before(left, right),
                std::path::Path::new(left) < std::path::Path::new(right),
                "{left:?} {right:?}"
            );
        }
        let parts: Vec<String> = std::path::Path::new(left)
            .components()
            .map(|part| part.as_os_str().to_string_lossy().into_owned())
            .collect();
        assert_eq!(path_parts(left), parts, "{left:?}");
    }
}

#[test]
fn lists_of_numbers_are_the_same_bit_for_bit() {
    let zero = vec![bits(0.0)];
    assert!(same_numbers(&zero, &vec![bits(0.0)]));
    assert!(!same_numbers(&zero, &vec![bits(-0.0)]));
    assert!(!same_numbers(&zero, &vec![bits(0.0), bits(0.0)]));
    assert!(same_numbers(&vec![bits(f64::NAN)], &vec![bits(f64::NAN)]));
}
