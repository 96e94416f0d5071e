use qt_rust_demo::models::SensorData;
use qt_rust_demo::pipeline::shared_sensor_buffer::SensorDataBuffer;
use std::sync::{Arc, RwLock};

fn sample(a: f64, b: f64, c: f64) -> SensorData {
    SensorData::with_inputs(a.to_bits(), b.to_bits(), c.to_bits(), false, false)
}

fn raw(buffer: &SensorDataBuffer) -> Option<(f64, f64, f64)> {
    buffer
        .get_latest_raw()
        .map(|(a, b, c)| (f64::from_bits(a), f64::from_bits(b), f64::from_bits(c)))
}

#[test]
fn test_new_buffer() {
    let buffer = SensorDataBuffer::new(10);
    assert!(buffer.get_latest().is_none());
    assert!(buffer.get_latest_raw().is_none());
    assert!(buffer.get_history(10).is_empty());
}

#[test]
fn shared_sensor_buffer_test_push_and_get_latest() {
    let mut buffer = SensorDataBuffer::new(10);
    let data = sample(100.0, 50.0, 45.0);

    buffer.push(data.clone());

    let latest = buffer.get_latest();
    assert!(latest.is_some());
    let latest = latest.unwrap();
    assert_eq!(f64::from_bits(latest.ad1_load), 100.0);
    assert_eq!(f64::from_bits(latest.ad2_radius), 50.0);
    assert_eq!(f64::from_bits(latest.ad3_angle), 45.0);
}

#[test]
fn test_get_latest_raw() {
    let mut buffer = SensorDataBuffer::new(10);
    buffer.push(sample(200.0, 75.0, 60.0));

    let r = raw(&buffer);
    assert!(r.is_some());
    let (ad1, ad2, ad3) = r.unwrap();
    assert_eq!(ad1, 200.0);
    assert_eq!(ad2, 75.0);
    assert_eq!(ad3, 60.0);
}

#[test]
fn shared_sensor_buffer_test_capacity_limit() {
    let mut buffer = SensorDataBuffer::new(5);
    for i in 0..10 {
        buffer.push(sample(i as f64, (i * 2) as f64, (i * 3) as f64));
    }
    let history = buffer.get_history(10);
    assert_eq!(history.len(), 5);
    assert_eq!(f64::from_bits(history[0].ad1_load), 9.0);
    assert_eq!(f64::from_bits(history[4].ad1_load), 5.0);
}

#[test]
fn test_get_history_order() {
    let mut buffer = SensorDataBuffer::new(10);
    for i in 0..5 {
        buffer.push(sample(i as f64, 0.0, 0.0));
    }
    let history = buffer.get_history(3);
    assert_eq!(history.len(), 3);
    assert_eq!(f64::from_bits(history[0].ad1_load), 4.0);
    assert_eq!(f64::from_bits(history[1].ad1_load), 3.0);
    assert_eq!(f64::from_bits(history[2].ad1_load), 2.0);
}

#[test]
fn test_latest_updates_correctly() {
    let mut buffer = SensorDataBuffer::new(10);
    buffer.push(sample(1.0, 1.0, 1.0));
    assert_eq!(raw(&buffer).unwrap().0, 1.0);
    buffer.push(sample(2.0, 2.0, 2.0));
    assert_eq!(raw(&buffer).unwrap().0, 2.0);
    buffer.push(sample(3.0, 3.0, 3.0));
    assert_eq!(raw(&buffer).unwrap().0, 3.0);
}

#[test]
fn test_shared_sensor_buffer_type() {
    let buffer = SensorDataBuffer::new(10);
    let shared: Arc<RwLock<SensorDataBuffer>> = Arc::new(RwLock::new(buffer));
    {
        let mut locked = shared.write().unwrap();
        locked.push(sample(42.0, 24.0, 12.0));
    }
    {
        let locked = shared.read().unwrap();
        let r = raw(&locked);
        assert!(r.is_some());
        assert_eq!(r.unwrap().0, 42.0);
    }
}

#[test]
fn sensor_buffer_zero_capacity_keeps_one() {
    let mut buffer = SensorDataBuffer::new(0);
    buffer.push(sample(1.0, 0.0, 0.0));
    buffer.push(sample(2.0, 0.0, 0.0));
    let history = buffer.get_history(5);
    assert_eq!(history.len(), 1);
    assert_eq!(f64::from_bits(history[0].ad1_load), 2.0);
}

#[test]
fn sensor_data_constructors() {
    let a = SensorData::new(1, 2, 3);
    assert!(!a.digital_input_0 && !a.digital_input_1);
    let b = SensorData::with_inputs(1, 2, 3, true, false);
    assert!(b.digital_input_0);
    assert_eq!((b.ad1_load, b.ad2_radius, b.ad3_angle), (1, 2, 3));
}
