use mycelium::nmea::{
    calculate_checksum, finish_sentence, generate_gsv, gsa_head, uart_bytes_per_second, NmeaOutput, GPS_BAUD_RATE,
    GPS_BAUD_RATE_FAST, UART_BYTES_PER_SECOND,
};
use mycelium::radio::{
    airtime_ms, intervals_overlap, sensitivity_table, supported_lora_settings, ChannelState, RadioNodeIds, TxWindow,
};

fn assert_valid_checksum(sentence: &str) {
    let sentence = sentence.strip_prefix('$').unwrap().strip_suffix("\r\n").unwrap();
    let (body, checksum) = sentence.rsplit_once('*').unwrap();
    assert_eq!(calculate_checksum(body), u8::from_str_radix(checksum, 16).unwrap());
}

#[test]
fn calculates_standard_nmea_checksum() {
    assert_eq!(
        calculate_checksum("GPGGA,123519,4807.038,N,01131.000,E,1,08,0.9,545.4,M,46.9,M,,"),
        0x47
    );
}

#[test]
fn finished_sentences_carry_an_uppercase_checksum_and_line_end() {
    assert_eq!(
        finish_sentence("GPGGA,123519,4807.038,N,01131.000,E,1,08,0.9,545.4,M,46.9,M,,"),
        "$GPGGA,123519,4807.038,N,01131.000,E,1,08,0.9,545.4,M,46.9,M,,*47\r\n"
    );
    assert_eq!(finish_sentence(""), "$*00\r\n");
}

#[test]
fn generates_complete_gsv_vector_for_eight_satellites() {
    let sentences = generate_gsv(8);

    assert_eq!(
        sentences,
        [
            "$GPGSV,2,1,08,01,35,067,36,02,40,134,37,03,45,201,38,04,50,268,39*78\r\n",
            "$GPGSV,2,2,08,05,55,335,40,06,60,042,41,07,65,109,42,08,70,176,43*74\r\n",
        ]
    );
    sentences.iter().for_each(|sentence| assert_valid_checksum(sentence));
}

#[test]
fn generates_one_empty_gsv_fragment_when_no_satellites_are_visible() {
    assert_eq!(generate_gsv(0), ["$GPGSV,1,1,00*79\r\n"]);
}

#[test]
fn gsv_splits_a_partial_last_fragment() {
    let sentences = generate_gsv(5);
    assert_eq!(sentences.len(), 2);
    assert!(sentences[1].starts_with("$GPGSV,2,2,05,05,55,335,40*"));
    sentences.iter().for_each(|sentence| assert_valid_checksum(sentence));
}

#[test]
fn uart_rates_follow_8n1_framing() {
    assert_eq!(uart_bytes_per_second(GPS_BAUD_RATE), UART_BYTES_PER_SECOND);
    assert_eq!(uart_bytes_per_second(GPS_BAUD_RATE_FAST), 3_840);
}

#[test]
fn output_releases_one_epoch_per_second_at_the_baud_allowance() {
    let mut output = NmeaOutput::new();
    assert_eq!(output.tick(999), 0);
    let mut buf = [0u8; 4];
    assert_eq!(output.read(&mut buf), 0);
    assert_eq!(output.tick(1), 1);
    output.enqueue(b"$ABC*00\r\n");
    assert_eq!(output.read(&mut buf), 4);
    assert_eq!(&buf, b"$ABC");
    let mut rest = [0u8; 16];
    assert_eq!(output.read(&mut rest), 5);
    assert_eq!(&rest[..5], b"*00\r\n");
    assert_eq!(output.read(&mut rest), 0);
}

#[test]
fn read_stops_at_the_uart_allowance() {
    let mut output = NmeaOutput::new();
    assert!(output.set_baud_rate(4_800));
    assert_eq!(output.tick(1_000), 1);
    output.enqueue(&[b'x'; 1_000]);
    let mut buf = [0u8; 1_000];
    assert_eq!(output.read(&mut buf), 480);
    assert_eq!(output.read(&mut buf), 0);
    assert_eq!(output.tick(1_000), 1);
    assert_eq!(output.read(&mut buf), 480);
}

#[test]
fn baud_changes_and_disabling_restart_output() {
    let mut output = NmeaOutput::new();
    assert!(!output.set_baud_rate(300));
    assert!(!output.set_baud_rate(230_400));
    assert_eq!(output.baud_rate(), GPS_BAUD_RATE);
    output.tick(1_500);
    output.enqueue(b"partial");
    assert!(output.set_baud_rate(GPS_BAUD_RATE_FAST));
    let mut buf = [0u8; 8];
    assert_eq!(output.read(&mut buf), 0);
    output.tick(1_000);
    output.enqueue(b"again");
    output.set_enabled(false);
    assert!(!output.is_enabled());
    assert_eq!(output.read(&mut buf), 0);
    assert_eq!(output.tick(5_000), 0);
    output.set_enabled(true);
    assert_eq!(output.read(&mut buf), 0);
}

fn transmission(timestamp_ms: u64, airtime_ms: u32) -> TxWindow {
    TxWindow { timestamp_ms, airtime_ms }
}

#[test]
fn detects_only_overlapping_transmission_intervals() {
    let mut state = ChannelState::new();
    assert!(!state.is_busy());

    state.add_transmission(transmission(100, 100));

    assert!(state.is_busy());
    assert!(state.check_collision(50, 51));
    assert!(state.check_collision(150, 10));
    assert!(!state.check_collision(0, 100));
    assert!(!state.check_collision(200, 10));
}

#[test]
fn zero_duration_does_not_collide() {
    let mut state = ChannelState::new();
    state.add_transmission(transmission(100, 100));

    assert!(!state.check_collision(150, 0));
}

#[test]
fn cleanup_removes_transmissions_at_their_end_time() {
    let mut state = ChannelState::new();
    state.add_transmission(transmission(100, 100));

    state.remove_expired(199);
    assert!(state.is_busy());

    state.remove_expired(200);
    assert!(!state.is_busy());
}

#[test]
fn overlapping_transmissions_are_listed_in_order() {
    let mut state = ChannelState::new();
    state.add_transmission(transmission(0, 50));
    state.add_transmission(transmission(100, 100));
    state.add_transmission(transmission(150, 10));
    assert_eq!(state.overlapping_transmissions(120, 40), vec![transmission(100, 100), transmission(150, 10)]);
    assert!(intervals_overlap(0, 10, 5, 10));
    assert!(!intervals_overlap(0, 10, 10, 10));
    assert!(intervals_overlap(u64::MAX - 1, 5, u64::MAX - 2, 5));
}

#[test]
fn airtime_matches_known_lora_parameters() {
    assert_eq!(airtime_ms(16, 7, 125, 5, 8, true), 56);
    assert_eq!(airtime_ms(16, 12, 125, 5, 8, true), 1_155);
}

#[test]
fn airtime_edge_cases() {
    assert_eq!(airtime_ms(16, 7, 0, 5, 8, true), u32::MAX);
    assert_eq!(airtime_ms(0, 7, 125, 0, 8, false), airtime_ms(0, 7, 125, 1, 8, false));
    assert_eq!(airtime_ms(usize::MAX, 12, 125, 8, 8, true), u32::MAX);
}

#[test]
fn sensitivity_table_covers_all_supported_spreading_factors() {
    let spreading_factors: Vec<_> = sensitivity_table().iter().map(|(sf, _)| *sf).collect();
    assert_eq!(spreading_factors, vec![7, 8, 9, 10, 11, 12]);
}

#[test]
fn only_sx1262_lora_settings_are_supported() {
    assert!(supported_lora_settings(125, 9, 5));
    assert!(supported_lora_settings(500, 12, 8));
    assert!(!supported_lora_settings(62, 9, 5));
    assert!(!supported_lora_settings(125, 6, 5));
    assert!(!supported_lora_settings(125, 9, 9));
}

#[test]
fn set_baud_rate_accepts_l76k_rates_and_rejects_absurd_ones() {
    let mut output = NmeaOutput::new();
    assert_eq!(output.baud_rate(), GPS_BAUD_RATE);

    assert!(output.set_baud_rate(GPS_BAUD_RATE_FAST));
    assert_eq!(output.baud_rate(), GPS_BAUD_RATE_FAST);
    assert!(output.set_baud_rate(GPS_BAUD_RATE));
    assert!(!output.set_baud_rate(0));
    assert!(!output.set_baud_rate(1_000_000));
    assert_eq!(output.baud_rate(), GPS_BAUD_RATE);
}

#[test]
fn gsa_head_lists_the_satellites_in_use() {
    assert_eq!(gsa_head(true, 1, 8), "GPGSA,A,3,01,02,03,04,05,06,07,08,,,,");
    assert_eq!(gsa_head(false, 1, 2), "GPGSA,A,1,01,02,,,,,,,,,,");
    assert_eq!(gsa_head(true, 0, 0), "GPGSA,A,1,,,,,,,,,,,,");
    assert_eq!(gsa_head(true, 2, 255), "GPGSA,A,3,01,02,03,04,05,06,07,08,09,10,11,12");
}

#[test]
fn radio_node_ids_are_unique_and_non_empty() {
    let mut ids = RadioNodeIds::new();
    assert!(!ids.claim_node_id(""));
    assert!(ids.claim_node_id("node1"));
    assert!(!ids.claim_node_id("node1"));
    assert!(ids.claim_node_id("node2"));
    assert!(ids.contains("node1"));
    assert!(ids.release_node_id("node1"));
    assert!(!ids.release_node_id("node1"));
    assert!(!ids.contains("node1"));
    assert!(ids.claim_node_id("node1"));
}

#[test]
fn airtime_below_spreading_factor_three_follows_the_formula() {
    assert_eq!(airtime_ms(0, 1, 1, 1, 8, false), 28);
    assert_eq!(airtime_ms(16, 2, 125, 5, 8, true), u32::MAX);
    assert_eq!(airtime_ms(16, 1, 125, 5, 8, true), 0);
    assert_eq!(airtime_ms(0, 0, 0, 1, 8, false), u32::MAX);
}
