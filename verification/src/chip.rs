//! The closed set of supported chips with their per-chip lookups: the
//! magic-register value read at 0x40001000, the 16-bit image chip id, and
//! the absolute addresses of the SPI controller's registers.

use vstd::prelude::*;

verus! {

/// The address at which the identifying magic value is read.
pub const CHIP_MAGIC_REG: u32 = 0x40001000;

/// The SPI controller register bank of one chip: absolute addresses.
///
/// The sixteen data registers are `w0`, `w0+4`, ..., `w0+60`.  On the
/// ESP8266 `mosi_dlen` and `miso_dlen` are zero because data lengths are
/// encoded in `user1` bitfields instead.
#[derive(Clone, Copy, Debug, PartialEq, Eq, Structural)]
pub struct SpiRegs {
    pub cmd: u32,
    pub addr: u32,
    pub user: u32,
    pub user1: u32,
    pub user2: u32,
    pub mosi_dlen: u32,
    pub miso_dlen: u32,
    pub w0: u32,
}

impl SpiRegs {
    /// The address of data register `w{index}`.
    pub fn w(&self, index: usize) -> (r: u32)
        requires
            index < 16,
            self.w0 + 4 * index <= u32::MAX,
        ensures
            r == self.w0 + 4 * index,
    {
        self.w0 + 4 * (index as u32)
    }
}

#[derive(Clone, Copy, Debug, PartialEq, Eq, Structural)]
pub enum Chip {
    Esp8266,
    Esp32,
    Esp32S2,
    Esp32S3,
    Esp32C3,
}

/// The chip identified by a magic-register value, if any.
pub open spec fn chip_of_magic(magic: u32) -> Option<Chip> {
    if magic == 0xFFF0C101 {
        Some(Chip::Esp8266)
    } else if magic == 0x00F01D83 {
        Some(Chip::Esp32)
    } else if magic == 0x000007C6 {
        Some(Chip::Esp32S2)
    } else if magic == 0x6921506F || magic == 0x1B31506F {
        Some(Chip::Esp32C3)
    } else if magic == 0x00000009 {
        Some(Chip::Esp32S3)
    } else {
        None
    }
}

impl Chip {
    /// Identify a chip from the value of its magic register.
    pub fn try_from_magic(magic: u32) -> (r: Option<Chip>)
        ensures
            r == chip_of_magic(magic),
    {
        match magic {
            0xFFF0C101 => Some(Chip::Esp8266),
            0x00F01D83 => Some(Chip::Esp32),
            0x000007C6 => Some(Chip::Esp32S2),
            0x6921506F | 0x1B31506F => Some(Chip::Esp32C3),
            0x00000009 => Some(Chip::Esp32S3),
            _ => None,
        }
    }

    /// The id used for this chip in firmware image headers.
    pub open spec fn image_chip_id_spec(self) -> u16 {
        match self {
            Chip::Esp8266 => 0,
            Chip::Esp32 => 0,
            Chip::Esp32S2 => 2,
            Chip::Esp32S3 => 9,
            Chip::Esp32C3 => 5,
        }
    }

    /// The id used for this chip in firmware image headers.
    pub fn image_chip_id(self) -> (r: u16)
        ensures
            r == self.image_chip_id_spec(),
    {
        match self {
            Chip::Esp8266 | Chip::Esp32 => 0,
            Chip::Esp32S2 => 2,
            Chip::Esp32S3 => 9,
            Chip::Esp32C3 => 5,
        }
    }

    /// The chip with the given image chip id.  The id 0 is shared by the
    /// ESP8266 and the ESP32 and resolves to the ESP32.
    pub fn try_from_image_chip_id(id: u16) -> (r: Option<Chip>)
        ensures
            r == Self::image_chip_of_id(id),
    {
        match id {
            0 => Some(Chip::Esp32),
            2 => Some(Chip::Esp32S2),
            5 => Some(Chip::Esp32C3),
            9 => Some(Chip::Esp32S3),
            _ => None,
        }
    }

    pub open spec fn image_chip_of_id(id: u16) -> Option<Chip> {
        if id == 0 {
            Some(Chip::Esp32)
        } else if id == 2 {
            Some(Chip::Esp32S2)
        } else if id == 5 {
            Some(Chip::Esp32C3)
        } else if id == 9 {
            Some(Chip::Esp32S3)
        } else {
            None
        }
    }

    /// The SPI register bank of this chip.
    pub open spec fn spi_regs_spec(self) -> SpiRegs {
        match self {
            Chip::Esp8266 => SpiRegs {
                cmd: 0x60000200,
                addr: 0x60000204,
                user: 0x6000021C,
                user1: 0x60000220,
                user2: 0x60000224,
                mosi_dlen: 0,
                miso_dlen: 0,
                w0: 0x60000240,
            },
            Chip::Esp32 => SpiRegs {
                cmd: 0x3FF42000,
                addr: 0x3FF42004,
                user: 0x3FF4201C,
                user1: 0x3FF42020,
                user2: 0x3FF42024,
                mosi_dlen: 0x3FF42028,
                miso_dlen: 0x3FF4202C,
                w0: 0x3FF42080,
            },
            Chip::Esp32S2 => SpiRegs {
                cmd: 0x3F402000,
                addr: 0x3F402004,
                user: 0x3F402018,
                user1: 0x3F40201C,
                user2: 0x3F402020,
                mosi_dlen: 0x3F402024,
                miso_dlen: 0x3F402028,
                w0: 0x3F402058,
            },
            Chip::Esp32S3 | Chip::Esp32C3 => SpiRegs {
                cmd: 0x60002000,
                addr: 0x60002004,
                user: 0x60002018,
                user1: 0x6000201C,
                user2: 0x60002020,
                mosi_dlen: 0x60002024,
                miso_dlen: 0x60002028,
                w0: 0x60002058,
            },
        }
    }

    /// The SPI register bank of this chip.
    pub fn spi_regs(self) -> (r: SpiRegs)
        ensures
            r == self.spi_regs_spec(),
            r.w0 + 60 <= u32::MAX,
    {
        match self {
            // SPI0 peripheral.
            Chip::Esp8266 => SpiRegs {
                cmd: 0x60000200,
                addr: 0x60000204,
                user: 0x6000021C,
                user1: 0x60000220,
                user2: 0x60000224,
                mosi_dlen: 0,
                miso_dlen: 0,
                w0: 0x60000240,
            },
            // SPI1 peripheral.
            Chip::Esp32 => SpiRegs {
                cmd: 0x3FF42000,
                addr: 0x3FF42004,
                user: 0x3FF4201C,
                user1: 0x3FF42020,
                user2: 0x3FF42024,
                mosi_dlen: 0x3FF42028,
                miso_dlen: 0x3FF4202C,
                w0: 0x3FF42080,
            },
            // SPI1 over PeriBUS1; w0 sits at offset 0x58 on the silicon
            // even though some manuals list 0x98.
            Chip::Esp32S2 => SpiRegs {
                cmd: 0x3F402000,
                addr: 0x3F402004,
                user: 0x3F402018,
                user1: 0x3F40201C,
                user2: 0x3F402020,
                mosi_dlen: 0x3F402024,
                miso_dlen: 0x3F402028,
                w0: 0x3F402058,
            },
            // The ESP32-C3 bank; the same registers serve the ESP32-S3.
            Chip::Esp32S3 | Chip::Esp32C3 => SpiRegs {
                cmd: 0x60002000,
                addr: 0x60002004,
                user: 0x60002018,
                user1: 0x6000201C,
                user2: 0x60002020,
                mosi_dlen: 0x60002024,
                miso_dlen: 0x60002028,
                w0: 0x60002058,
            },
        }
    }

    /// The display name of the chip.
    pub fn name(self) -> (r: &'static str) {
        match self {
            Chip::Esp8266 => "ESP8266",
            Chip::Esp32 => "ESP32",
            Chip::Esp32S2 => "ESP32-S2",
            Chip::Esp32S3 => "ESP32-S3",
            Chip::Esp32C3 => "ESP32-C3",
        }
    }
}

} // verus!
