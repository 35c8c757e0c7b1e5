//! A capture rule: which tool to run, on which URLs, with which arguments.

use vstd::prelude::*;

verus! {

/// One configured capture rule. `url` is a substring matched against an
/// item's target URL; `cmd` names the tool; `args` is passed through to it.
pub struct Setting {
    pub cmd: String,
    pub url: String,
    pub args: String,
}

/// The abstract content of a rule: its three fields as character sequences.
pub struct SettingView {
    pub cmd: Seq<char>,
    pub url: Seq<char>,
    pub args: Seq<char>,
}

impl View for Setting {
    type V = SettingView;

    open spec fn view(&self) -> SettingView {
        SettingView { cmd: self.cmd@, url: self.url@, args: self.args@ }
    }
}

impl DeepView for Setting {
    type V = SettingView;

    open spec fn deep_view(&self) -> SettingView {
        self@
    }
}

impl Clone for Setting {
    fn clone(&self) -> (r: Self)
        ensures
            r@ == self@,
    {
        Setting { cmd: self.cmd.clone(), url: self.url.clone(), args: self.args.clone() }
    }
}

} // verus!
