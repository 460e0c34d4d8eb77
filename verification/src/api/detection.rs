use vstd::prelude::*;
use vstd::string::*;
use crate::error::DetectionError;
use crate::text::{decimal, push_decimal};

verus! {

/// The detection schedule after an update request: the polling interval,
/// at least 5 s, and the confirmation frame count, at least 1; a field the
/// request leaves out keeps its value.
pub fn update_schedule(
    interval_secs: u32,
    confirmation_frames: u32,
    req_interval_secs: Option<u32>,
    req_confirmation_frames: Option<u32>,
) -> (r: (u32, u32))
    ensures
        r.0 == match req_interval_secs {
            Some(v) => if v < 5 {
                5
            } else {
                v
            },
            None => interval_secs,
        },
        r.1 == match req_confirmation_frames {
            Some(v) => if v < 1 {
                1
            } else {
                v
            },
            None => confirmation_frames,
        },
{
    let interval = match req_interval_secs {
        Some(v) => if v < 5 {
            5
        } else {
            v
        },
        None => interval_secs,
    };
    let frames = match req_confirmation_frames {
        Some(v) => if v < 1 {
            1
        } else {
            v
        },
        None => confirmation_frames,
    };
    (interval, frames)
}

/// The URL of the camera snapshot proxy served on `port`.
pub open spec fn snapshot_proxy_url_text(port: u16) -> Seq<char> {
    "http://127.0.0.1:"@ + decimal(port as nat) + "/api/camera/snapshot"@
}

/// The URL of the camera snapshot proxy served on `port`, which the Obico
/// ML API fetches the frame from.
pub fn snapshot_proxy_url(port: u16) -> (r: String)
    ensures
        r@ == snapshot_proxy_url_text(port),
{
    let mut r = String::from_str("http://127.0.0.1:");
    push_decimal(&mut r, port as u64);
    r.append("/api/camera/snapshot");
    r
}

/// The frame an on-demand detection runs on: the buffered camera frame,
/// refused when there is none.
pub fn detection_frame(frame: Option<Vec<u8>>) -> (r: Result<Vec<u8>, DetectionError>)
    ensures
        match frame {
            Some(f) => r matches Ok(g) && g@ == f@,
            None => r matches Err(DetectionError::ObicoFailed(m)) && m@
                == "no camera frame available"@,
        },
{
    match frame {
        Some(f) => Ok(f),
        None => Err(DetectionError::ObicoFailed(String::from_str("no camera frame available"))),
    }
}

} // verus!
