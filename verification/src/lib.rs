pub mod decimal;
pub mod naming;
pub mod run;

use vstd::prelude::*;

verus! {

/// The exit code used for both password failures: a protected document
/// opened without a password, and one opened with a wrong password.
pub const PASSWORD_EXIT_CODE: i32 = 3;

/// The default target width and maximum height, in pixels, of a rendered page.
pub const DEFAULT_RESOLUTION_PIXELS: u16 = 2000;

} // verus!
