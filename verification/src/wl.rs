use vstd::prelude::*;

use crate::wrapper::ptr::Ptr;
use crate::wrapper::wl::socket_name_ok;
use crate::wrapper::WrapperError;

verus! {

/// A Wayland display held by its pointer, with fallible set-up calls that
/// give `None` on failure.
#[derive(Clone, Copy)]
pub struct WlDisplay {
    pub disp: Ptr,
}

impl WlDisplay {
    /// `wl_display_create`; `created` is what the C call returned.
    pub fn try_create(created: usize) -> (r: Option<WlDisplay>)
        ensures
            r.is_some() == (created != 0),
            r matches Some(d) ==> d.disp@ == created,
    {
        match Ptr::new(created) {
            Some(p) => Some(WlDisplay { disp: p }),
            None => None,
        }
    }

    /// `wl_display_add_socket_auto`: the name of the added socket, none when
    /// the call failed or the name is not UTF-8.
    pub fn add_socket_auto(socket: Option<Vec<u8>>) -> (r: Option<String>)
        ensures
            match r {
                Some(s) => socket_name_ok(socket, Ok(s)),
                None => exists|e: WrapperError| socket_name_ok(socket, Err(e)),
            },
    {
        let res = crate::wrapper::wl::Display::add_socket_auto(socket);
        match res {
            Ok(s) => Some(s),
            Err(e) => None,
        }
    }
}

} // verus!
