//! What the windows of the graphical frontend show and ask.
pub mod client_row;
pub mod settings;
pub mod transfers;
pub mod window;
