//! Capture what a bash shell held at a marked point, and read it back.
//!
//! | | |
//! |---|---|
//! | [`instrument`] | the bash a shell runs: the words, their effect, the trace switch |
//! | [`shipped`] | what that bash does not do: export a name |
//! | [`declaration`] | `declare -aX name=rhs`, read back into its parts |
//! | [`snapshot`] | the record a shell sends, and the decoder that reads one off the wire |
//! | [`show`] | the one rendering of a capture |
//! | [`entries`], [`text`] | insertion-ordered maps and character scanning, as specified here |
//! | [`outside`] | what is taken on trust from the crates underneath |

pub mod declaration;
pub mod entries;
pub mod instrument;
pub mod outside;
pub mod shipped;
pub mod show;
pub mod snapshot;
pub mod text;

pub use instrument::{instrument, joining, Tracing};
pub use snapshot::{Capture, Snapshot, Value, Variable};
