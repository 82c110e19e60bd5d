//! Apollo permission bits.

use vstd::prelude::*;

verus! {

pub const INPUT_CONTROLLER: u32 = 0x0000_0100;

pub const INPUT_TOUCH: u32 = 0x0000_0200;

pub const INPUT_PEN: u32 = 0x0000_0400;

pub const INPUT_MOUSE: u32 = 0x0000_0800;

pub const INPUT_KBD: u32 = 0x0000_1000;

pub const ALL_INPUTS: u32 = 0x0000_1F00;

pub const CLIPBOARD_SET: u32 = 0x0001_0000;

pub const CLIPBOARD_READ: u32 = 0x0002_0000;

pub const FILE_UPLOAD: u32 = 0x0004_0000;

pub const FILE_DOWNLOAD: u32 = 0x0008_0000;

pub const SERVER_CMD: u32 = 0x0010_0000;

pub const LIST: u32 = 0x0100_0000;

pub const VIEW: u32 = 0x0200_0000;

pub const LAUNCH: u32 = 0x0400_0000;

pub const ALL_ACTIONS: u32 = 0x0700_0000;

pub const ALL: u32 = 0x071F_1F00;

/// Full control minus server commands: what a "control this desktop" session
/// expects.
pub const CONTROL: u32 = ALL_ACTIONS | ALL_INPUTS | CLIPBOARD_SET | CLIPBOARD_READ;

/// View-only.
pub const VIEW_ONLY: u32 = LIST | VIEW;

/// The masks are made of the single bits, full control lacks server commands, and
/// viewing alone gives no input.
pub proof fn masks_are_consistent()
    ensures
        ALL_INPUTS == INPUT_CONTROLLER | INPUT_TOUCH | INPUT_PEN | INPUT_MOUSE | INPUT_KBD,
        ALL_ACTIONS == LIST | VIEW | LAUNCH,
        ALL == ALL_ACTIONS | ALL_INPUTS | CLIPBOARD_SET | CLIPBOARD_READ | FILE_UPLOAD
            | FILE_DOWNLOAD | SERVER_CMD,
        CONTROL & SERVER_CMD == 0,
        CONTROL & ALL_INPUTS == ALL_INPUTS,
        CONTROL & ALL_ACTIONS == ALL_ACTIONS,
        CONTROL & ALL == CONTROL,
        CONTROL & (CLIPBOARD_SET | CLIPBOARD_READ) == CLIPBOARD_SET | CLIPBOARD_READ,
        VIEW_ONLY & ALL_INPUTS == 0,
        VIEW_ONLY & SERVER_CMD == 0,
        VIEW_ONLY & LAUNCH == 0,
{
    assert(0x0000_1F00u32 == 0x0000_0100u32 | 0x0000_0200u32 | 0x0000_0400u32 | 0x0000_0800u32
        | 0x0000_1000u32) by (bit_vector);
    assert(0x0700_0000u32 == 0x0100_0000u32 | 0x0200_0000u32 | 0x0400_0000u32) by (bit_vector);
    assert(0x071F_1F00u32 == 0x0700_0000u32 | 0x0000_1F00u32 | 0x0001_0000u32 | 0x0002_0000u32
        | 0x0004_0000u32 | 0x0008_0000u32 | 0x0010_0000u32) by (bit_vector);
    assert((0x0700_0000u32 | 0x0000_1F00u32 | 0x0001_0000u32 | 0x0002_0000u32) & 0x0010_0000u32
        == 0) by (bit_vector);
    assert((0x0700_0000u32 | 0x0000_1F00u32 | 0x0001_0000u32 | 0x0002_0000u32) & 0x0000_1F00u32
        == 0x0000_1F00u32) by (bit_vector);
    assert((0x0700_0000u32 | 0x0000_1F00u32 | 0x0001_0000u32 | 0x0002_0000u32) & 0x0700_0000u32
        == 0x0700_0000u32) by (bit_vector);
    assert((0x0700_0000u32 | 0x0000_1F00u32 | 0x0001_0000u32 | 0x0002_0000u32) & 0x071F_1F00u32
        == (0x0700_0000u32 | 0x0000_1F00u32 | 0x0001_0000u32 | 0x0002_0000u32)) by (bit_vector);
    assert((0x0700_0000u32 | 0x0000_1F00u32 | 0x0001_0000u32 | 0x0002_0000u32) & (0x0001_0000u32
        | 0x0002_0000u32) == 0x0001_0000u32 | 0x0002_0000u32) by (bit_vector);
    assert((0x0100_0000u32 | 0x0200_0000u32) & 0x0000_1F00u32 == 0) by (bit_vector);
    assert((0x0100_0000u32 | 0x0200_0000u32) & 0x0010_0000u32 == 0) by (bit_vector);
    assert((0x0100_0000u32 | 0x0200_0000u32) & 0x0400_0000u32 == 0) by (bit_vector);
}

/// The inputs are the bits from 8 on, the operations those from 16 on, and the actions
/// those from 24 on, each twice the one before it.
pub proof fn bits_are_in_a_row()
    ensures
        INPUT_CONTROLLER == 0x100,
        INPUT_TOUCH == 2 * INPUT_CONTROLLER,
        INPUT_PEN == 2 * INPUT_TOUCH,
        INPUT_MOUSE == 2 * INPUT_PEN,
        INPUT_KBD == 2 * INPUT_MOUSE,
        CLIPBOARD_SET == 0x100 * INPUT_CONTROLLER,
        CLIPBOARD_READ == 2 * CLIPBOARD_SET,
        FILE_UPLOAD == 2 * CLIPBOARD_READ,
        FILE_DOWNLOAD == 2 * FILE_UPLOAD,
        SERVER_CMD == 2 * FILE_DOWNLOAD,
        LIST == 0x100 * CLIPBOARD_SET,
        VIEW == 2 * LIST,
        LAUNCH == 2 * VIEW,
{
}

} // verus!
