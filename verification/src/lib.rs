//! A sample-accurate playback engine over fixed-point stereo audio.
//!
//! A [`scheduler::Scheduler`] mixes a changing set of tracks along a musical
//! timeline. It is driven from the audio device's callback, which asks it to
//! fill one buffer after another, and it is steered by commands that a
//! control thread puts on a queue.
//!
//! Every quantity that is a real number in the signal path (a sample, a
//! gain, a pan position, a tempo) is carried as an integer count of
//! millionths, and the length of a tick is kept as an exact fraction. The
//! whole engine therefore runs on integer arithmetic, never drifts, and has
//! its behaviour stated and proved over mathematical integers.
//!
//! - [`sample`]: fixed-point samples and their arithmetic.
//! - [`transport`]: the tempo clock, tick resolutions and grid quantisation.
//! - [`clip`]: clips, their fades and the sources they read from.
//! - [`track`]: the kinds of track, among them the timeline of clips.
//! - [`mixer`]: the exact, order-independent mix of several tracks.
//! - [`scheduler`]: transport state, pending and active tracks, commands.

pub mod clip;
pub mod ident;
pub mod mixer;
pub mod sample;
pub mod scheduler;
pub mod seq_facts;
pub mod track;
pub mod transport;
