use espflashtool::chip::Chip;

#[test]
fn test_magic_values() {
    assert_eq!(Chip::try_from_magic(0xFFF0C101), Some(Chip::Esp8266));
    assert_eq!(Chip::try_from_magic(0x00F01D83), Some(Chip::Esp32));
    assert_eq!(Chip::try_from_magic(0x000007C6), Some(Chip::Esp32S2));
    assert_eq!(Chip::try_from_magic(0x6921506F), Some(Chip::Esp32C3));
    assert_eq!(Chip::try_from_magic(0x1B31506F), Some(Chip::Esp32C3));
    assert_eq!(Chip::try_from_magic(0x00000009), Some(Chip::Esp32S3));
    assert_eq!(Chip::try_from_magic(0x12345678), None);
}

#[test]
fn test_image_chip_ids() {
    assert_eq!(Chip::Esp8266.image_chip_id(), 0);
    assert_eq!(Chip::Esp32.image_chip_id(), 0);
    assert_eq!(Chip::Esp32S2.image_chip_id(), 2);
    assert_eq!(Chip::Esp32C3.image_chip_id(), 5);
    assert_eq!(Chip::Esp32S3.image_chip_id(), 9);
    assert_eq!(Chip::try_from_image_chip_id(0), Some(Chip::Esp32));
    assert_eq!(Chip::try_from_image_chip_id(2), Some(Chip::Esp32S2));
    assert_eq!(Chip::try_from_image_chip_id(5), Some(Chip::Esp32C3));
    assert_eq!(Chip::try_from_image_chip_id(9), Some(Chip::Esp32S3));
    assert_eq!(Chip::try_from_image_chip_id(3), None);
}

#[test]
fn test_spi_register_banks() {
    let esp8266 = Chip::Esp8266.spi_regs();
    assert_eq!(esp8266.cmd, 0x60000200);
    assert_eq!(esp8266.user1, 0x60000220);
    assert_eq!(esp8266.mosi_dlen, 0);
    assert_eq!(esp8266.miso_dlen, 0);
    assert_eq!(esp8266.w0, 0x60000240);

    let esp32 = Chip::Esp32.spi_regs();
    assert_eq!(esp32.cmd, 0x3FF42000);
    assert_eq!(esp32.addr, 0x3FF42004);
    assert_eq!(esp32.user, 0x3FF4201C);
    assert_eq!(esp32.user2, 0x3FF42024);
    assert_eq!(esp32.mosi_dlen, 0x3FF42028);
    assert_eq!(esp32.miso_dlen, 0x3FF4202C);
    assert_eq!(esp32.w0, 0x3FF42080);

    let esp32s2 = Chip::Esp32S2.spi_regs();
    assert_eq!(esp32s2.cmd, 0x3F402000);
    assert_eq!(esp32s2.w0, 0x3F402058);

    let esp32s3 = Chip::Esp32S3.spi_regs();
    let esp32c3 = Chip::Esp32C3.spi_regs();
    assert_eq!(esp32s3, esp32c3);
    assert_eq!(esp32c3.cmd, 0x60002000);
    assert_eq!(esp32c3.w0, 0x60002058);
}

#[test]
fn test_w_register_addresses() {
    let regs = Chip::Esp32.spi_regs();
    assert_eq!(regs.w(0), 0x3FF42080);
    assert_eq!(regs.w(1), 0x3FF42084);
    assert_eq!(regs.w(15), 0x3FF42080 + 60);
}

#[test]
fn test_chip_names() {
    assert_eq!(Chip::Esp8266.name(), "ESP8266");
    assert_eq!(Chip::Esp32C3.name(), "ESP32-C3");
}
