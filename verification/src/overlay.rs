//! The native status overlay's state, as the orchestration sees it: which
//! status is showing and a counter that keeps delayed auto-hides from
//! racing a newer status. The platform rendering calls live with the shell;
//! this is the state they mirror.
use vstd::prelude::*;

use vstd::string::StringExecFns;

verus! {

/// What the overlay can show.
#[derive(Debug, Clone, Copy, PartialEq, Eq, Structural)]
pub enum StatusType {
    Recording,
    Transcribing,
    Completed,
    Error,
}

/// The overlay's state: what is showing and how many statuses were shown.
#[derive(Debug, Clone, PartialEq)]
pub struct Overlay {
    pub visible: bool,
    pub status: Option<StatusType>,
    pub text: String,
    pub shown_count: u64,
}

impl Overlay {
    pub fn new() -> (r: Self)
        ensures
            !r.visible,
            r.status is None,
            r.shown_count == 0,
    {
        Overlay { visible: false, status: None, text: String::new(), shown_count: 0 }
    }
}

/// Shows a status: the overlay becomes visible with it, and the counter
/// advances so older pending auto-hides become stale.
pub fn show(overlay: &mut Overlay, status: StatusType, text: String) -> (count: u64)
    requires
        old(overlay).shown_count < u64::MAX,
    ensures
        final(overlay).visible,
        final(overlay).status == Some(status),
        final(overlay).text@ == text@,
        final(overlay).shown_count == old(overlay).shown_count + 1,
        count == final(overlay).shown_count,
{
    overlay.visible = true;
    overlay.status = Some(status);
    overlay.text = text;
    overlay.shown_count = overlay.shown_count + 1;
    overlay.shown_count
}

/// Hides the overlay.
pub fn hide_overlay(overlay: &mut Overlay)
    ensures
        !final(overlay).visible,
        final(overlay).status is None,
        final(overlay).shown_count == old(overlay).shown_count,
{
    overlay.visible = false;
    overlay.status = None;
}

/// Resets the overlay at application exit.
pub fn cleanup(overlay: &mut Overlay)
    ensures
        !final(overlay).visible,
        final(overlay).status is None,
        final(overlay).shown_count == 0,
{
    overlay.visible = false;
    overlay.status = None;
    overlay.shown_count = 0;
}

/// The status and caption one of the reported stages shows; unknown stages
/// show nothing.
pub fn status_display(status: &str) -> (r: Option<(StatusType, String)>)
    ensures
        status@ == "recording"@ ==> (r matches Some((t, s)) && t == StatusType::Recording && s@
            == "正在录音"@),
        status@ == "transcribing"@ ==> (r matches Some((t, s)) && t == StatusType::Transcribing
            && s@ == "正在转写"@),
        status@ == "completed"@ ==> (r matches Some((t, s)) && t == StatusType::Completed && s@
            == "已完成"@),
        status@ == "error"@ ==> (r matches Some((t, s)) && t == StatusType::Error && s@
            == "已中断"@),
        status@ != "recording"@ && status@ != "transcribing"@ && status@ != "completed"@ && status@
            != "error"@ ==> r is None,
{
    proof {
        reveal_strlit("recording");
        reveal_strlit("transcribing");
        reveal_strlit("completed");
        reveal_strlit("error");
        assert("recording"@.len() == 9);
        assert("transcribing"@.len() == 12);
        assert("completed"@.len() == 9);
        assert("error"@.len() == 5);
        assert("recording"@[0] == 'r');
        assert("completed"@[0] == 'c');
    }
    if crate::model::str_eq(status, "recording") {
        proof {
            assert(status@ != "transcribing"@);
            assert(status@ != "completed"@);
            assert(status@ != "error"@);
        }
        Some((StatusType::Recording, String::from_str("正在录音")))
    } else if crate::model::str_eq(status, "transcribing") {
        proof {
            assert(status@ != "completed"@);
            assert(status@ != "error"@);
        }
        Some((StatusType::Transcribing, String::from_str("正在转写")))
    } else if crate::model::str_eq(status, "completed") {
        proof {
            assert(status@ != "error"@);
        }
        Some((StatusType::Completed, String::from_str("已完成")))
    } else if crate::model::str_eq(status, "error") {
        Some((StatusType::Error, String::from_str("已中断")))
    } else {
        None
    }
}

/// Whether a shown status schedules the delayed auto-hide.
pub fn should_auto_hide(status: StatusType) -> (r: bool)
    ensures
        r == (status == StatusType::Completed || status == StatusType::Error),
{
    status == StatusType::Completed || status == StatusType::Error
}

/// Whether a scheduled auto-hide may still fire: only when no newer status
/// was shown meanwhile.
pub fn may_hide_now(scheduled_count: u64, current_count: u64) -> (r: bool)
    ensures
        r == (scheduled_count == current_count),
{
    scheduled_count == current_count
}

} // verus!
