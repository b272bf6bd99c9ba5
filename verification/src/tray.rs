//! The texts of the tray icon and its menu.

use vstd::prelude::*;
use vstd::string::*;

use crate::text::{preview, preview_of};

verus! {

/// The tray tooltip and the label of the start/stop menu item.
pub struct TrayTexts {
    pub tooltip: String,
    pub menu_label: String,
}

/// The tray texts while recording or not.
pub fn tray_texts(recording: bool) -> (r: TrayTexts)
    ensures
        r.tooltip@ == (if recording {
            "ears - recording (click to stop)"@
        } else {
            "ears - click to record"@
        }),
        r.menu_label@ == (if recording {
            "Stop Recording"@
        } else {
            "Start Recording"@
        }),
{
    if recording {
        TrayTexts {
            tooltip: String::from_str("ears - recording (click to stop)"),
            menu_label: String::from_str("Stop Recording"),
        }
    } else {
        TrayTexts {
            tooltip: String::from_str("ears - click to record"),
            menu_label: String::from_str("Start Recording"),
        }
    }
}

/// The label of the menu item that shows the last result: its first 50
/// characters, with `...` when it is longer.
pub fn last_result_label(text: &str) -> (r: String)
    ensures
        r@ == preview_of(text@, 50),
{
    preview(text, 50)
}

} // verus!
