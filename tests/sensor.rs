use pitmaster::max6675::{decode_frame, f_to_raw, finish_read, raw_to_f, Max6675Error, TempMAX6675};

struct FakeSpi {
    frame: [u8; 2],
    fail: bool,
}

impl embedded_hal::blocking::spi::Transfer<u8> for FakeSpi {
    type Error = ();
    fn transfer<'w>(&mut self, words: &'w mut [u8]) -> Result<&'w [u8], ()> {
        if self.fail {
            return Err(());
        }
        words[0] = self.frame[0];
        words[1] = self.frame[1];
        Ok(words)
    }
}

struct FakePin {
    level_high: bool,
}

impl embedded_hal::digital::v2::OutputPin for FakePin {
    type Error = ();
    fn set_low(&mut self) -> Result<(), ()> {
        self.level_high = false;
        Ok(())
    }
    fn set_high(&mut self) -> Result<(), ()> {
        self.level_high = true;
        Ok(())
    }
}

#[test]
fn raw_to_f_exact_values() {
    assert_eq!(raw_to_f(0), 32);
    assert_eq!(raw_to_f(904), 438);
    assert_eq!(raw_to_f(980), 473);
    assert_eq!(raw_to_f(32767), 14777);
    // codes from 32768 up read as negative, as f_to_raw wraps them
    assert_eq!(raw_to_f(65535), 32);
    assert_eq!(raw_to_f(f_to_raw(0)), 1);
}

#[test]
fn f_to_raw_exact_values() {
    assert_eq!(f_to_raw(226), 431);
    assert_eq!(f_to_raw(50), 40);
    assert_eq!(f_to_raw(45), 28);
    assert_eq!(f_to_raw(32), 0);
    // below freezing the quotient is negative and wraps as a u16 cast does
    assert_eq!(f_to_raw(31), 65534);
    assert_eq!(f_to_raw(0), 65465);
}

#[test]
fn round_trip_raw_loses_at_most_three() {
    for x in 0u16..=2000 {
        let back = f_to_raw(raw_to_f(x));
        assert!(back <= x && back + 3 >= x, "x = {}", x);
    }
    assert_eq!(f_to_raw(raw_to_f(2)), 0);
    assert_eq!(f_to_raw(raw_to_f(100)), 100);
}

#[test]
fn round_trip_fahrenheit_within_one() {
    for y in 0i16..=500 {
        let back = raw_to_f(f_to_raw(y));
        assert!((back - y).abs() <= 1, "y = {}", y);
    }
    assert_eq!(raw_to_f(f_to_raw(31)), 32);
}

#[test]
fn decode_frame_value_and_fault() {
    // 904 << 3 == 0x1C40
    assert_eq!(decode_frame(0x1C, 0x40), Ok(904));
    assert_eq!(decode_frame(0x1C, 0x44), Err(Max6675Error::SensorError));
    assert_eq!(decode_frame(0xFF, 0xFB), Ok(8191));
}

#[test]
fn read_temp_raw_through_bus() {
    let mut sensor = TempMAX6675::new(
        FakeSpi { frame: [0x1C, 0x40], fail: false },
        FakePin { level_high: true },
    );
    assert_eq!(sensor.read_temp_raw(), Ok(904));
    assert!(sensor.cs.level_high);
}

#[test]
fn read_temp_raw_sensor_fault() {
    let mut sensor = TempMAX6675::new(
        FakeSpi { frame: [0x00, 0x04], fail: false },
        FakePin { level_high: true },
    );
    assert_eq!(sensor.read_temp_raw(), Err(Max6675Error::SensorError));
}

#[test]
fn read_temp_raw_bus_fault() {
    let mut sensor = TempMAX6675::new(
        FakeSpi { frame: [0x1C, 0x40], fail: true },
        FakePin { level_high: true },
    );
    assert_eq!(sensor.read_temp_raw(), Err(Max6675Error::SPIError));
}

#[test]
fn finish_read_maps_bus_failures() {
    assert_eq!(finish_read(true, Some((0x1C, 0x40)), true), Ok(904));
    assert_eq!(finish_read(false, None, false), Err(Max6675Error::SPIError));
    assert_eq!(finish_read(true, None, false), Err(Max6675Error::SPIError));
    assert_eq!(finish_read(true, Some((0x1C, 0x40)), false), Err(Max6675Error::SPIError));
    assert_eq!(finish_read(true, Some((0x00, 0x04)), true), Err(Max6675Error::SensorError));
}
