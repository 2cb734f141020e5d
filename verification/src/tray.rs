//! Labels of the tray menu.
use vstd::prelude::*;
use crate::text::str_eq;

verus! {

/// The labels `(show, toggle, quit)` of the tray menu for a language code:
/// Japanese for `ja`, English for any other code.
pub fn tray_labels(lang: &str) -> (r: (&'static str, &'static str, &'static str))
    ensures
        lang@ == "ja"@ ==> r.0@ == "表示"@ && r.1@ == "停止 / 再開"@ && r.2@ == "終了"@,
        lang@ != "ja"@ ==> r.0@ == "Show"@ && r.1@ == "Pause / Resume"@ && r.2@ == "Quit"@,
{
    if str_eq(lang, "ja") {
        ("表示", "停止 / 再開", "終了")
    } else {
        ("Show", "Pause / Resume", "Quit")
    }
}

} // verus!
