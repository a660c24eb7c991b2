pub mod cue;
pub mod interruption;
