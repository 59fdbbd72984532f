pub mod wl;
pub mod wlz;
pub mod wlz_macros;
pub mod wrapper;
