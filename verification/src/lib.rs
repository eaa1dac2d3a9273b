//! # pmcore
//!
//! The portable core of a predictive-maintenance sensor node: it turns windows of raw
//! accelerometer samples into a bearing-health decision.
//!
//! * [`features`] computes the per-window feature vector over numeric primitives.
//! * [`model`] reads model checkpoints: header, sizes, and the views of each weight tensor.
//! * [`state`] carves the activation buffers of a forward pass out of one block.
//! * [`forward`] runs the 1-D CNN forward pass over numeric kernels, in either representation.
//! * [`alert`] is the `NORMAL` / `ALERT` decision machine over the model's output.
//! * [`pipeline`] wires the stages together and cuts a sample stream into windows.
//! * [`replay`] reads recorded sample streams and follows a run over one.
//! * [`adxl345`] and [`sim_source`] decode samples from the sensor and from a baked stream.
//! * [`bytes`], [`float32`], [`text`] and [`views`] are what these are built on.
//!
//! The core holds no floating-point arithmetic. A single-precision value is carried as its
//! IEEE-754 bit pattern ([`float32::F32Bits`]), which is enough to store it, to hand it on
//! and to compare it; the numeric primitives and kernels belong to the caller.
pub mod adxl345;
pub mod alert;
pub mod bytes;
pub mod features;
pub mod float32;
pub mod forward;
pub mod model;
pub mod pipeline;
pub mod replay;
pub mod sim_source;
pub mod state;
pub mod text;
pub mod views;
