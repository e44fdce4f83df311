//! Device-loss reporting for the desktop renderer.

use vstd::prelude::*;

use crate::text::{chars_of, contains_chars, contains_seq};

verus! {

/// What the renderer's staging-buffer panic actually means.
pub const DEVICE_LOST_EXPLANATION: &'static str = "The GPU device was lost. egui-wgpu reports this as a staging buffer failure, but the buffer size is not the problem: wgpu swallows a lost device and returns None, and egui-wgpu panics on that None. On Windows this usually means a Remote Desktop reconnect or a display change removed the graphics device. Restart the app.";

/// Recognise the renderer's staging-buffer panic (its index-data and
/// vertex-data forms share the opening `Failed to create staging buffer for `)
/// and explain it; any other panic message gets no explanation.
pub fn device_lost_explanation(panic_msg: &str) -> (res: Option<&'static str>)
    ensures
        contains_seq(panic_msg@, "Failed to create staging buffer for "@) ==> (res matches Some(m) && m@
            == DEVICE_LOST_EXPLANATION@),
        !contains_seq(panic_msg@, "Failed to create staging buffer for "@) ==> res is None,
{
    let msg = chars_of(panic_msg);
    let needle = chars_of("Failed to create staging buffer for ");
    if contains_chars(&msg, &needle) {
        Some(DEVICE_LOST_EXPLANATION)
    } else {
        None
    }
}

} // verus!
