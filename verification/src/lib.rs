//! Adaptive shell-prompt layout engine.
//!
//! A prompt is an ordered list of segments (exit status, background jobs,
//! working directory, version-control state). Each segment reports how wide
//! it would like to be at three shrink tiers and renders itself to text at an
//! exact width, measured in grapheme clusters. The layout engine fits the
//! segments into a terminal of known width by a tiered greedy shrink, and the
//! compositor stitches the rendered segments into one escape-coded line.

pub mod colors;
pub mod git;
pub mod init;
pub mod jobs;
pub mod layout;
pub mod path;
pub mod prompt;
pub mod segments;
pub mod status;
pub mod text;
