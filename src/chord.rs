use vstd::prelude::*;

verus! {

/// Keysym of the Escape key, the reserved cancel symbol.
pub const ESCAPE_KEYSYM: u32 = 0xff1b;

/// Modifier bits, as the keyboard handler encodes them.
pub const MOD_SHIFT: u32 = 1;
pub const MOD_CTRL: u32 = 4;
pub const MOD_ALT: u32 = 8;
pub const MOD_LOGO: u32 = 64;

/// The mask of the active modifiers: each one contributes its own bit.
pub open spec fn mask_of(shift: bool, ctrl: bool, alt: bool, logo: bool) -> int {
    (if shift { MOD_SHIFT } else { 0 }) + (if ctrl { MOD_CTRL } else { 0 }) + (if alt { MOD_ALT } else { 0 }) + (
    if logo { MOD_LOGO } else { 0 })
}

/// Encodes the active modifiers as a mask.
pub fn modifier_mask(shift: bool, ctrl: bool, alt: bool, logo: bool) -> (r: u32)
    ensures
        r == mask_of(shift, ctrl, alt, logo),
{
    let mut m: u32 = 0;
    if shift {
        m = m + MOD_SHIFT;
    }
    if ctrl {
        m = m + MOD_CTRL;
    }
    if alt {
        m = m + MOD_ALT;
    }
    if logo {
        m = m + MOD_LOGO;
    }
    m
}

} // verus!
