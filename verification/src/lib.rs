//! Fixed-shape tensors, the parameters and layers of a small convolutional
//! network, and a Monte-Carlo tree search over game positions.
//!
//! Every function is generic over the type of the numbers it works on.
//! Contracts speak of a number's arithmetic through the specifications of
//! its operators, so they hold for every type whose operators obey them;
//! what a contract asks of the operands is what the operators ask.
//!
//! - `tensor`, `slice`, `elementwise`, `convolution`, `matrix`, `text`:
//!   tensors of rank one to three and matrices.
//! - `ml`, `network`, `pipeline`, `backprop`, `codec`: the network's layers,
//!   its parameters and their flat form, the pass forward and the gradient
//!   step back.
//! - `game`, `mcts`, `training`: positions, the search tree, and training
//!   examples.
//! - `numeric`, `order`, `index`: folds, comparisons, and the arithmetic of
//!   storage positions.

pub mod backprop;
pub mod codec;
pub mod convolution;
pub mod elementwise;
pub mod game;
pub mod index;
pub mod matrix;
pub mod mcts;
pub mod ml;
pub mod network;
pub mod numeric;
pub mod order;
pub mod pipeline;
pub mod slice;
pub mod tensor;
pub mod text;
pub mod training;
