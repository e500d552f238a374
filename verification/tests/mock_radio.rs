use embedded_radio::{EmbeddedRadio, MockLora};

/// A delay provider that only counts the simulated milliseconds.
struct CountingDelay {
    total_ms: u64,
}

impl embedded_radio::DelayMs for CountingDelay {
    fn delay_ms(&mut self, ms: u8) {
        self.total_ms += ms as u64;
    }
}

#[test]
fn no_transmit_self() {
    fn test_lora(lora: &mut MockLora, endpoint: usize) {
        lora.select(endpoint);
        let payload = [1u8, 2, 3, 4];

        lora.transmit_payload(&payload[..]).unwrap();

        let payload_received = lora.read_packet().unwrap();
        println!("{:?}", payload_received);

        assert!(payload_received.is_none());
    }

    let mut loras = MockLora::new(2);
    test_lora(&mut loras, 1);
    let mut loras = MockLora::new(2);
    test_lora(&mut loras, 1);
}

#[test]
fn transmit_between_two() {
    let mut loras = MockLora::new(2);

    let payload = vec![1u8, 2, 3, 4];

    loras.select(1);
    loras.transmit_payload(&payload[..]).unwrap();

    loras.select(0);
    let received_payload = loras.read_packet().unwrap();

    assert_eq!(received_payload, Some(payload));
}

#[test]
fn round_trip_in_order() {
    let mut bus = MockLora::new(3);

    bus.select(0);
    bus.transmit_payload(&[10u8, 11]).unwrap();
    bus.transmit_payload(&[20u8]).unwrap();

    // Both other endpoints see both packets, oldest first.
    bus.select(1);
    assert_eq!(bus.read_packet().unwrap(), Some(vec![10u8, 11]));
    assert_eq!(bus.read_packet().unwrap(), Some(vec![20u8]));
    assert_eq!(bus.read_packet().unwrap(), None);

    bus.select(2);
    assert_eq!(bus.read_packet().unwrap(), Some(vec![10u8, 11]));
    assert_eq!(bus.read_packet().unwrap(), Some(vec![20u8]));

    // The sender itself received nothing.
    bus.select(0);
    assert_eq!(bus.read_packet().unwrap(), None);
}

#[test]
fn truncates_to_255_bytes() {
    let mut bus = MockLora::new(2);

    let payload: Vec<u8> = (0u32..300).map(|i| (i % 256) as u8).collect();
    assert_eq!(payload.len(), 300);

    bus.select(0);
    bus.transmit_payload(&payload[..]).unwrap();

    bus.select(1);
    let received = bus.read_packet().unwrap().unwrap();
    assert_eq!(received.len(), 255);
    assert_eq!(&received[..], &payload[..255]);
}

#[test]
fn exact_255_bytes_arrive_whole() {
    let mut bus = MockLora::new(2);
    let payload: Vec<u8> = (0u32..255).map(|i| (i % 256) as u8).collect();

    bus.select(0);
    bus.transmit_payload(&payload[..]).unwrap();

    bus.select(1);
    assert_eq!(bus.read_packet().unwrap(), Some(payload));
}

#[test]
fn single_endpoint_bus_hears_nothing() {
    let mut bus = MockLora::new(1);
    bus.transmit_payload(&[1u8, 2, 3]).unwrap();
    assert_eq!(bus.read_packet().unwrap(), None);
    assert_eq!(bus.num_endpoints(), 1);
}

#[test]
fn never_transmitting() {
    let mut bus = MockLora::new(2);
    assert_eq!(bus.transmitting().unwrap(), false);
}

#[test]
fn transmit_busy_delivers() {
    let mut bus = MockLora::new(2);
    bus.select(1);
    bus.transmit_payload_busy(&[7u8, 8]).unwrap();
    bus.select(0);
    assert_eq!(bus.read_packet().unwrap(), Some(vec![7u8, 8]));
}

#[test]
fn timeout_ticks_exactly() {
    let mut bus = MockLora::new(2);
    let mut delay = CountingDelay { total_ms: 0 };

    let r = bus.read_packet_timeout(7, &mut delay).unwrap();
    assert!(r.is_none());
    assert_eq!(delay.total_ms, 7);
}

#[test]
fn negative_timeout_no_ticks() {
    let mut bus = MockLora::new(2);
    let mut delay = CountingDelay { total_ms: 0 };

    let r = bus.read_packet_timeout(-5, &mut delay).unwrap();
    assert!(r.is_none());
    assert_eq!(delay.total_ms, 0);
}

#[test]
fn pending_packet_returns_without_ticks() {
    let mut bus = MockLora::new(2);
    bus.select(1);
    bus.transmit_payload(&[9u8]).unwrap();

    bus.select(0);
    let mut delay = CountingDelay { total_ms: 0 };
    let r = bus.read_packet_timeout(50, &mut delay).unwrap();
    assert_eq!(r, Some(vec![9u8]));
    assert_eq!(delay.total_ms, 0);
}
