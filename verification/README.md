# pmcore

The core of an on-device predictive-maintenance node, written in Verus. It takes windows of
512 three-axis accelerometer samples to a bearing-health decision: features, a 1-D CNN, and a
`NORMAL` / `ALERT` machine with hysteresis. Classes: `0 normal`, `1 inner_race`,
`2 outer_race`, `3 rolling_element`.

`src/` is the verified library. It decides everything that is exact: what a checkpoint holds
and when it is refused, how the working memory is carved, what each feature is computed from
and where it stands, which kernels a forward pass runs, in which order, with which dimensions,
buffers and tensors, how a stream becomes windows, what the alert state is, what a recording
says, and what goes over the bus to the sensor. It holds no floating-point arithmetic: a
single-precision value is its bit pattern, and the numeric primitives of the features and the
kernels of the forward pass are handed in by the caller.

`app/` is ordinary Rust around it: the host simulator (`main.rs`), the numeric
primitives and kernels (`numeric.rs`), and the board (`firmware.rs`, `sampler.rs`, `accel.rs`). The
kernels come from the `engine` crate of `tiny-infer`, checked out beside this project.

`tests/` runs the library on concrete values.

What is believed without proof stands in `src/views.rs`: three casts of `bytemuck` that view a
byte slice as words, as signed words and as signed bytes.

Properties that span several functions are public proof functions whose names begin with
`law_`.
