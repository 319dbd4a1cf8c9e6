//! Decision logic of a guided system installer: reading the output of the
//! network manager, the progress spinner shown while a setup command runs in
//! an embedded terminal, the Wi-Fi picker, and the order of installer pages.
use vstd::prelude::*;

pub mod installer;
pub mod spinner;
pub mod std_text;
pub mod text;
pub mod wifi;

verus! {

} // verus!
