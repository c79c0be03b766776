//! Signal conditioning, packet framing and control state for a two-channel
//! myoelectric prosthesis controller.

pub mod mean;
pub mod packet;
pub mod dispatch;
pub mod filter;
pub mod state;
