use qt_rust_demo::models::SensorData;
use qt_rust_demo::pipeline::filter_buffer::{FilterBuffer, FilterBufferConfig, FilterType, FilteredSample};

fn sd(ad1: f64, ad2: f64, ad3: f64) -> SensorData {
    SensorData::new(ad1.to_bits(), ad2.to_bits(), ad3.to_bits())
}

/// The filtered sample as values: the mean of the window is taken here, as
/// the pipeline's caller takes it.
fn filtered_values(buffer: &FilterBuffer) -> Option<(f64, f64, f64)> {
    match buffer.get_filtered()? {
        FilteredSample::Sample(s) => Some((
            f64::from_bits(s.ad1_load),
            f64::from_bits(s.ad2_radius),
            f64::from_bits(s.ad3_angle),
        )),
        FilteredSample::MeanOf(window) => {
            let n = window.len() as f64;
            let a: f64 = window.iter().map(|d| f64::from_bits(d.ad1_load)).sum();
            let r: f64 = window.iter().map(|d| f64::from_bits(d.ad2_radius)).sum();
            let g: f64 = window.iter().map(|d| f64::from_bits(d.ad3_angle)).sum();
            Some((a / n, r / n, g / n))
        }
    }
}

#[test]
fn test_none_filter() {
    let mut buffer = FilterBuffer::new(FilterBufferConfig { filter_type: FilterType::NoFilter, window_size: 5 });
    buffer.push(sd(10.0, 5.0, 30.0));
    buffer.push(sd(20.0, 6.0, 31.0));
    buffer.push(sd(30.0, 7.0, 32.0));
    let r = filtered_values(&buffer).unwrap();
    assert_eq!(r.0, 30.0);
}

#[test]
fn test_mean_filter() {
    let mut buffer = FilterBuffer::new(FilterBufferConfig { filter_type: FilterType::Mean, window_size: 5 });
    buffer.push(sd(10.0, 5.0, 30.0));
    buffer.push(sd(20.0, 6.0, 31.0));
    buffer.push(sd(30.0, 7.0, 32.0));
    buffer.push(sd(40.0, 8.0, 33.0));
    buffer.push(sd(50.0, 9.0, 34.0));
    let r = filtered_values(&buffer).unwrap();
    assert_eq!(r.0, 30.0);
    assert_eq!(r.1, 7.0);
}

#[test]
fn test_median_filter() {
    let mut buffer = FilterBuffer::new(FilterBufferConfig { filter_type: FilterType::Median, window_size: 5 });
    buffer.push(sd(10.0, 5.0, 30.0));
    buffer.push(sd(30.0, 7.0, 32.0));
    buffer.push(sd(20.0, 6.0, 31.0));
    buffer.push(sd(50.0, 9.0, 34.0));
    buffer.push(sd(40.0, 8.0, 33.0));
    let r = filtered_values(&buffer).unwrap();
    assert_eq!(r.0, 30.0);
}

#[test]
fn test_window_overflow() {
    let mut buffer = FilterBuffer::new(FilterBufferConfig { filter_type: FilterType::Mean, window_size: 3 });
    for i in 0..5 {
        buffer.push(sd((i + 1) as f64 * 10.0, 5.0, 30.0));
    }
    let r = filtered_values(&buffer).unwrap();
    assert_eq!(r.0, 40.0);
}

#[test]
fn test_is_ready() {
    let mut buffer = FilterBuffer::new(FilterBufferConfig { filter_type: FilterType::Mean, window_size: 3 });
    assert!(!buffer.is_ready());
    buffer.push(sd(10.0, 5.0, 30.0));
    buffer.push(sd(20.0, 6.0, 31.0));
    buffer.push(sd(30.0, 7.0, 32.0));
    assert!(buffer.is_ready());
}

#[test]
fn test_filter_type_from_str() {
    assert_eq!("mean".parse::<FilterType>().unwrap(), FilterType::Mean);
    assert!("invalid".parse::<FilterType>().is_err());
}

#[test]
fn test_empty() {
    let buffer = FilterBuffer::new(FilterBufferConfig::default());
    assert!(buffer.is_empty());
    assert!(buffer.get_filtered().is_none());
}

#[test]
fn filter_type_names_are_case_insensitive() {
    assert_eq!(FilterType::parse_name("MEDIAN").unwrap(), FilterType::Median);
    assert_eq!(FilterType::parse_name("None").unwrap(), FilterType::NoFilter);
    assert_eq!(FilterType::parse_name("xyz").unwrap_err(), "Unknown filter type: xyz");
    assert_eq!(FilterType::Median.name(), "Median");
    assert_eq!(FilterType::NoFilter.name(), "None");
}

#[test]
fn filter_config_from_str_reports_unknown_names() {
    let c = FilterBufferConfig::from_str("median", 7).unwrap();
    assert_eq!(c.filter_type, FilterType::Median);
    assert_eq!(c.window_size, 7);
    assert_eq!(FilterBufferConfig::from_str("bogus", 7).unwrap_err(), "Unknown filter type: bogus");
}

#[test]
fn filter_buffer_keeps_at_most_twice_the_window() {
    // law: the buffer holds at most twice its window, the newest samples
    let mut buffer = FilterBuffer::new(FilterBufferConfig { filter_type: FilterType::NoFilter, window_size: 2 });
    for i in 0..10 {
        buffer.push(sd(i as f64, 0.0, 0.0));
    }
    assert_eq!(buffer.len(), 4);
    // without filtering, the oldest sample of the window of the 2 newest: 8
    assert_eq!(filtered_values(&buffer).unwrap().0, 8.0);
}

#[test]
fn median_of_even_window_takes_upper_middle() {
    let mut buffer = FilterBuffer::new(FilterBufferConfig { filter_type: FilterType::Median, window_size: 4 });
    for v in [4.0, 1.0, 3.0, 2.0] {
        buffer.push(sd(v, -v, v * 10.0));
    }
    let r = filtered_values(&buffer).unwrap();
    assert_eq!(r.0, 3.0);
    assert_eq!(r.1, -2.0);
    assert_eq!(r.2, 30.0);
}

#[test]
fn filter_clear_and_set_type() {
    let mut buffer = FilterBuffer::new(FilterBufferConfig { filter_type: FilterType::Mean, window_size: 2 });
    buffer.push(sd(1.0, 1.0, 1.0));
    buffer.set_filter_type(FilterType::Median);
    assert_eq!(buffer.config().filter_type, FilterType::Median);
    assert_eq!(buffer.len(), 1);
    buffer.clear();
    assert!(buffer.is_empty());
}

#[test]
fn median_keeps_arrival_order_of_equal_zeros() {
    // the two zeros compare equal, so a stable sort keeps them in window order
    let mut buffer = FilterBuffer::new(FilterBufferConfig { filter_type: FilterType::Median, window_size: 3 });
    buffer.push(sd(1.0, 1.0, 1.0));
    buffer.push(sd(-0.0, -0.0, -0.0));
    buffer.push(sd(0.0, 0.0, 0.0));
    let r = filtered_values(&buffer).unwrap();
    assert_eq!(r.0, 0.0);
    assert!(r.0.is_sign_negative());

    let mut other = FilterBuffer::new(FilterBufferConfig { filter_type: FilterType::Median, window_size: 3 });
    other.push(sd(1.0, 1.0, 1.0));
    other.push(sd(0.0, 0.0, 0.0));
    other.push(sd(-0.0, -0.0, -0.0));
    let q = filtered_values(&other).unwrap();
    assert_eq!(q.0, 0.0);
    assert!(q.0.is_sign_positive());
}
