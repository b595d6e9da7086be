//! Verified logic of a replacement engine for a 1995 mech combat game: the
//! XMI to standard MIDI conversion of its music, the shell's prompts, screens,
//! cursor, videos and sounds, and the sim's fixed-point arithmetic, frame-rate
//! independent timing, display geometry and CD music.

pub mod fixed;
pub mod launch;
pub mod palette;
pub mod shell;
pub mod text;
pub mod sim;
pub mod xmi;
