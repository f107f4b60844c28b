//! Translation of a constrained Markdown dialect into an HTML fragment.

use vstd::prelude::*;

pub mod diagnostics;
pub mod frame;
pub mod laws;
pub mod mdstate;
pub mod model;
pub mod tags;
pub mod writeto;

pub use diagnostics::{Diagnostic, Warning};
pub use frame::{Linkdata, Linkstatus};
pub use mdstate::MDS;
pub use writeto::WtiteTo;
