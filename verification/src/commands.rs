//! Commands of the ILI9488 panel controller that the firmware sends.
use vstd::prelude::*;

verus! {

/// Software Reset.
///
/// When the Software Reset command is written, it causes software reset.
/// It resets commands and parameters to their S/W Reset default values.
/// After the Software Reset is applied, the display becomes blank immediately.
pub const SWRESET: u8 = 0x01;

/// Sleep OUT.
///
/// This command turns off the sleep mode: the DC/DC converter is enabled, and
/// the internal oscillator and panel scanning are activated.
pub const SLPOUT: u8 = 0x11;

/// Display ON.
///
/// The panel starts displaying the image data; the frame memory contents
/// remain unchanged.
pub const DISON: u8 = 0x29;

/// Column Address Set.
///
/// Defines the columns of the frame memory that the MCU can access: start
/// column and end column, each as two bytes, high byte first.
pub const CASET: u8 = 0x2A;

/// Page Address Set.
///
/// Defines the pages (rows) of the frame memory that the MCU can access:
/// start page and end page, each as two bytes, high byte first.
pub const PASET: u8 = 0x2B;

/// Memory Write.
///
/// Transfers image data into the frame memory starting at the start column
/// and start page; the column register wraps to the start column at the end
/// column, moving to the next page. Pixels beyond the window are ignored.
pub const RAMWR: u8 = 0x2C;

/// Memory Access Control: read/write scanning direction of the frame memory.
pub const MADCTL: u8 = 0x36;

/// Interface Pixel Format: the pixel format of the RGB and MCU interfaces.
pub const COLMOD: u8 = 0x3A;

/// Memory Write Continue.
///
/// Continues a memory write where the previous one stopped, without resetting
/// the column and page registers to the start of the window.
pub const RAMWRC: u8 = 0x3C;

} // verus!
