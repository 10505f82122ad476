use rust_raspi_led_strip::{LEDStrip, TalkingLED};

fn toggle_led<T>(mut led: T)
where
    T: LEDStrip,
{
    led.set_all(255, 0, 0, 31);
    led.show().unwrap();

    led.clear();
    led.show().unwrap();
}

#[test]
fn first_test() {
    let talking_led = TalkingLED::new();

    toggle_led(talking_led);
}
