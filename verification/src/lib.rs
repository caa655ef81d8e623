//! Synthesis of an input image that a trained digit classifier assigns to a
//! chosen class.
//!
//! A run starts from a random image and repeats a fixed number of
//! iterations. Each iteration estimates the gradient of the classifier's
//! loss over the pixels by finite differences, moves the image one step
//! against it, and then trains the classifier for one pass to take the
//! moved image for a generated one. Every few iterations the image is
//! recorded as a frame, and after the run the frames are joined into an
//! animation.
//!
//! The classifier is the caller's, and so is all arithmetic on pixel
//! values: the crate takes it as functions or leaves it to the caller. The
//! crate decides what is done, in which order and with which parameters.
//! Reals that the crate itself has to name (rates, the difference step) are
//! exact ratios of integers.
//!
//! - [`synthesis`]: the loop, as the steps of each iteration.
//! - [`estimator`]: the gradient estimate and the step against it.
//! - [`target`]: one-hot class vectors, among them the sentinel class.
//! - [`classify`]: the class that a prediction favours.
//! - [`raster`]: the frame recorder.
//! - [`assembler`]: the animation of the recorded frames.
//! - [`dataset`]: labelled examples for training the classifier.
//! - [`ratio`]: exact ratios.

pub mod ratio;
pub mod target;
pub mod classify;
pub mod estimator;
pub mod dataset;
pub mod synthesis;
pub mod raster;
pub mod assembler;
