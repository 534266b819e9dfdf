//! Static analysis passes of the Meerkat language runtime.
pub mod net;
pub mod runtime;
