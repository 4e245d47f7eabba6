//! Which windows belong to the Windows shell rather than to an app.
use vstd::prelude::*;

use crate::text::str_eq;

verus! {

/// The window classes of the taskbar, its overflow and thumbnails, the task
/// switcher and task view.
pub open spec fn shell_window_classes() -> Seq<Seq<char>> {
    seq![
        "Shell_TrayWnd"@, "Shell_SecondaryTrayWnd"@, "Shell_TrayWndClass"@, "NotifyIconOverflowWindow"@,
        "TaskListThumbnailWnd"@, "TaskListOverlayWnd"@, "TaskSwitcherWnd"@, "MultitaskingViewFrame"@,
        "XamlExplorerHostIslandWindow"@,
    ]
}

/// Whether a window class (compared exactly) belongs to the shell.
pub fn is_shell_window_class(class_name: &str) -> (r: bool)
    ensures
        r == shell_window_classes().contains(class_name@),
{
    let classes: Vec<&'static str> = vec![
        "Shell_TrayWnd", "Shell_SecondaryTrayWnd", "Shell_TrayWndClass", "NotifyIconOverflowWindow",
        "TaskListThumbnailWnd", "TaskListOverlayWnd", "TaskSwitcherWnd", "MultitaskingViewFrame",
        "XamlExplorerHostIslandWindow",
    ];
    let ghost views = Seq::new(classes@.len(), |i: int| classes@[i]@);
    assert(views =~= shell_window_classes());
    let mut i: usize = 0;
    while i < classes.len()
        invariant
            i <= classes@.len(),
            views == Seq::new(classes@.len(), |k: int| classes@[k]@),
            views == shell_window_classes(),
            forall|k: int| 0 <= k < i ==> views[k] != class_name@,
        decreases classes@.len() - i,
    {
        if str_eq(classes[i], class_name) {
            assert(views[i as int] == class_name@);
            return true;
        }
        i = i + 1;
    }
    false
}

} // verus!
