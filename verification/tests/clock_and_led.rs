use dashboard::led::{
    blink_interval_ms, command_to_rgb, led_command, recv_led_command, send_led_command, LedBlinker,
    LedCommand, LedQueue, Rgb8, LED_QUEUE_CAPACITY,
};
use dashboard::time::{ntp_to_local, ntp_to_unix, tick_time, unix_to_local, LocalTime, NTP_TO_UNIX_EPOCH};

#[test]
fn ntp_epoch_offset() {
    assert_eq!(ntp_to_unix(NTP_TO_UNIX_EPOCH), 0);
    assert_eq!(ntp_to_unix(3_913_056_000), 1_704_067_200);
    // Before 1970 the subtraction wraps into negative Unix time.
    assert_eq!(ntp_to_unix(0), -2_208_988_800);
}

#[test]
fn berlin_winter_time() {
    // 2024-01-01 00:00:00 UTC is 01:00 in Berlin, a Monday.
    let t = ntp_to_local(3_913_056_000).unwrap();
    assert_eq!(
        t,
        LocalTime { year: 2024, month: 1, day: 1, hour: 1, minute: 0, second: 0, weekday: 0 }
    );
}

#[test]
fn berlin_summer_time() {
    // 2024-07-01 12:00:00 UTC is 14:00 in Berlin (CEST), a Monday.
    let t = ntp_to_local(3_928_824_000).unwrap();
    assert_eq!(
        t,
        LocalTime { year: 2024, month: 7, day: 1, hour: 14, minute: 0, second: 0, weekday: 0 }
    );
}

#[test]
fn unix_time_out_of_range() {
    assert_eq!(unix_to_local(i64::MAX), None);
    assert!(unix_to_local(0).is_some());
    assert_eq!(unix_to_local(0).unwrap().hour, 1);
}

#[test]
fn clock_tick_carries() {
    let mut t = LocalTime { year: 2024, month: 3, day: 9, hour: 23, minute: 59, second: 59, weekday: 5 };
    tick_time(&mut t);
    assert_eq!((t.hour, t.minute, t.second), (0, 0, 0));
    // The date is not advanced.
    assert_eq!((t.year, t.month, t.day, t.weekday), (2024, 3, 9, 5));
    let mut u = LocalTime { year: 2024, month: 3, day: 9, hour: 10, minute: 5, second: 7, weekday: 5 };
    tick_time(&mut u);
    assert_eq!((u.hour, u.minute, u.second), (10, 5, 8));
    let mut v = LocalTime { year: 2024, month: 3, day: 9, hour: 10, minute: 5, second: 59, weekday: 5 };
    tick_time(&mut v);
    assert_eq!((v.hour, v.minute, v.second), (10, 6, 0));
}

#[test]
fn led_colours() {
    assert_eq!(command_to_rgb(LedCommand::WifiConnecting), Rgb8 { r: 0, g: 0, b: 255 });
    assert_eq!(command_to_rgb(LedCommand::MqttConnecting), Rgb8 { r: 255, g: 128, b: 0 });
    assert_eq!(command_to_rgb(LedCommand::WeatherFetching), Rgb8 { r: 255, g: 32, b: 128 });
    assert_eq!(command_to_rgb(LedCommand::Connected), Rgb8 { r: 0, g: 0, b: 0 });
    assert_eq!(command_to_rgb(LedCommand::Error), Rgb8 { r: 255, g: 0, b: 0 });
}

#[test]
fn led_blink_rates() {
    assert_eq!(blink_interval_ms(LedCommand::WifiConnecting), Some(250));
    assert_eq!(blink_interval_ms(LedCommand::MqttConnecting), Some(500));
    assert_eq!(blink_interval_ms(LedCommand::WeatherFetching), None);
    assert_eq!(blink_interval_ms(LedCommand::Connected), None);
    assert_eq!(blink_interval_ms(LedCommand::Error), Some(500));
}

#[test]
fn led_queue_is_fifo() {
    let mut q = LedQueue::new();
    send_led_command(&mut q, LedCommand::WifiConnecting);
    led_command(&mut q, LedCommand::Error);
    assert_eq!(recv_led_command(&mut q), Some(LedCommand::WifiConnecting));
    assert_eq!(recv_led_command(&mut q), Some(LedCommand::Error));
    assert_eq!(recv_led_command(&mut q), None);
}

#[test]
fn led_queue_drops_when_full() {
    let mut q = LedQueue::new();
    for _ in 0..LED_QUEUE_CAPACITY {
        send_led_command(&mut q, LedCommand::Connected);
    }
    send_led_command(&mut q, LedCommand::Error);
    assert_eq!(q.len(), 7);
    let mut last = None;
    while let Some(c) = recv_led_command(&mut q) {
        last = Some(c);
    }
    assert_eq!(last, Some(LedCommand::Connected));
}

#[test]
fn led_blinks_at_its_rate() {
    let mut b = LedBlinker::new(0);
    // WifiConnecting blinks every 250 ms.
    assert_eq!(b.step(None, 100_000), Rgb8 { r: 0, g: 0, b: 255 });
    assert_eq!(b.step(None, 250_000), Rgb8 { r: 0, g: 0, b: 255 });
    assert_eq!(b.step(None, 250_001), Rgb8 { r: 0, g: 0, b: 0 });
    assert_eq!(b.step(None, 400_000), Rgb8 { r: 0, g: 0, b: 0 });
    assert_eq!(b.step(None, 500_002), Rgb8 { r: 0, g: 0, b: 255 });
    // A new command restarts lit; a steady one never blinks.
    assert_eq!(b.step(Some(LedCommand::WeatherFetching), 600_000), Rgb8 { r: 255, g: 32, b: 128 });
    assert_eq!(b.step(None, 5_000_000), Rgb8 { r: 255, g: 32, b: 128 });
    assert_eq!(b.step(Some(LedCommand::Error), 5_000_000), Rgb8 { r: 255, g: 0, b: 0 });
    assert_eq!(b.step(None, 5_500_001), Rgb8 { r: 0, g: 0, b: 0 });
}
