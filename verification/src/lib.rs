//! Plain and zero-point-quantized neural-network layers (fully connected,
//! convolution, average pooling, ReLU), the LeNet and two-layer networks
//! built from them, and the commitments to inputs and outputs.
pub mod sums;
pub mod tensor;
pub mod activation;
pub mod linear;
pub mod similarity;
pub mod conv;
pub mod conv_layer;
pub mod pool;
pub mod commit;
pub mod network;
pub mod lenet;
