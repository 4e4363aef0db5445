//! Turns decoded video frames into text frames (one glyph per sampled
//! pixel, picked by brightness) and decides how playback is paced.
pub mod framerate;
pub mod pacing;
pub mod ramp;
pub mod raster;
