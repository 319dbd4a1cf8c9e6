//! The network picker: the networks found by a scan, the one whose password
//! field is open, and the network manager commands behind it.
use vstd::prelude::*;

use crate::text::string_views;

verus! {

/// The networks of the last scan and the one chosen, if any.
pub struct WifiList {
    pub ssids: Vec<String>,
    pub selected: Option<usize>,
}

/// Style class of a network button that is not chosen.
pub open spec fn entry_class() -> Seq<char> {
    "wifi-entry"@
}

/// Style class of the chosen network's button.
pub open spec fn selected_class() -> Seq<char> {
    "wifi-selected"@
}

impl WifiList {
    /// The chosen network is one of the list.
    pub open spec fn wf(&self) -> bool {
        self.selected matches Some(i) ==> i < self.ssids@.len()
    }

    /// Whether the password field below network `i` is shown.
    pub open spec fn shows_password(&self, i: int) -> bool {
        self.selected matches Some(j) && j == i
    }

    /// The style class of the button of network `i`.
    pub open spec fn class_of(&self, i: int) -> Seq<char> {
        if self.shows_password(i) {
            selected_class()
        } else {
            entry_class()
        }
    }

    /// A fresh list from a scan: no network is chosen, so every password
    /// field is hidden.
    pub fn new(ssids: Vec<String>) -> (list: WifiList)
        ensures
            list.wf(),
            list.ssids@ == ssids@,
            list.selected is None,
    {
        WifiList { ssids, selected: None }
    }

    /// The number of networks listed.
    pub fn len(&self) -> (n: usize)
        ensures
            n == self.ssids@.len(),
    {
        self.ssids.len()
    }

    /// The button of network `i` was pressed: its password field opens and
    /// every other one closes.
    pub fn select(&mut self, i: usize)
        requires
            old(self).wf(),
            i < old(self).ssids@.len(),
        ensures
            final(self).wf(),
            final(self).ssids@ == old(self).ssids@,
            final(self).selected == Some(i),
            forall|j: int| 0 <= j < final(self).ssids@.len() ==> (final(self).shows_password(j)
                <==> j == i),
    {
        self.selected = Some(i);
    }

    /// Whether the password field below network `i` is shown.
    pub fn password_shown(&self, i: usize) -> (shown: bool)
        ensures
            shown == self.shows_password(i as int),
    {
        match self.selected {
            Some(j) => j == i,
            None => false,
        }
    }

    /// The style class of the button of network `i`.
    pub fn button_class(&self, i: usize) -> (class: String)
        ensures
            class@ == self.class_of(i as int),
    {
        if self.password_shown(i) {
            "wifi-selected".to_owned()
        } else {
            "wifi-entry".to_owned()
        }
    }

    /// The network manager command that joins network `i` with `password`.
    pub fn connect_command(&self, i: usize, password: &str) -> (argv: Vec<String>)
        requires
            i < self.ssids@.len(),
        ensures
            string_views(argv@) == connect_argv(self.ssids@[i as int]@, password@),
    {
        let ssid = self.ssids[i].clone();
        let argv = vec![
            "nmcli".to_owned(),
            "device".to_owned(),
            "wifi".to_owned(),
            "connect".to_owned(),
            ssid,
            "password".to_owned(),
            password.to_owned(),
        ];
        proof {
            assert(string_views(argv@) =~= connect_argv(self.ssids@[i as int]@, password@));
        }
        argv
    }
}

/// The command that joins network `ssid` with `password`.
pub open spec fn connect_argv(ssid: Seq<char>, password: Seq<char>) -> Seq<Seq<char>> {
    seq!["nmcli"@, "device"@, "wifi"@, "connect"@, ssid, "password"@, password]
}

/// The command that lists the networks in reach, one name per line.
pub open spec fn scan_argv() -> Seq<Seq<char>> {
    seq!["nmcli"@, "-t"@, "-f"@, "SSID"@, "device"@, "wifi"@, "list"@]
}

/// The command that prints the connection state.
pub open spec fn state_argv() -> Seq<Seq<char>> {
    seq!["nmcli"@, "-t"@, "-f"@, "STATE"@, "general"@]
}

/// The command that lists the networks in reach, one name per line.
pub fn scan_command() -> (argv: Vec<String>)
    ensures
        string_views(argv@) == scan_argv(),
{
    let argv = vec![
        "nmcli".to_owned(),
        "-t".to_owned(),
        "-f".to_owned(),
        "SSID".to_owned(),
        "device".to_owned(),
        "wifi".to_owned(),
        "list".to_owned(),
    ];
    proof {
        assert(string_views(argv@) =~= scan_argv());
    }
    argv
}

/// The command that prints the connection state.
pub fn state_command() -> (argv: Vec<String>)
    ensures
        string_views(argv@) == state_argv(),
{
    let argv = vec![
        "nmcli".to_owned(),
        "-t".to_owned(),
        "-f".to_owned(),
        "STATE".to_owned(),
        "general".to_owned(),
    ];
    proof {
        assert(string_views(argv@) =~= state_argv());
    }
    argv
}

/// At most one password field is shown, and only under a listed network.
pub proof fn lemma_one_password_field(list: WifiList, i: int, j: int)
    requires
        list.wf(),
        list.shows_password(i),
        list.shows_password(j),
    ensures
        i == j,
        0 <= i < list.ssids@.len(),
        list.class_of(i) == selected_class(),
{
}

/// A button carries the chosen style exactly when the password field below
/// it is shown, which is exactly when its network is the one chosen; every
/// other button carries the plain style.
pub proof fn lemma_only_chosen_button_is_styled(list: WifiList, i: int)
    ensures
        list.shows_password(i) <==> list.selected is Some && list.selected->0 == i,
        list.class_of(i) == "wifi-selected"@ <==> list.shows_password(i),
        !list.shows_password(i) ==> list.class_of(i) == "wifi-entry"@,
        list.shows_password(i) ==> list.class_of(i) == "wifi-selected"@,
        list.selected is None ==> list.class_of(i) == "wifi-entry"@,
{
    reveal_strlit("wifi-selected");
    reveal_strlit("wifi-entry");
    assert("wifi-selected"@[5] != "wifi-entry"@[5]);
    assert("wifi-selected"@ != "wifi-entry"@);
}

/// The join command passes the network name and the password verbatim, as
/// the fifth and seventh words, after `nmcli device wifi connect` and before
/// and after `password`.
pub proof fn lemma_connect_passes_verbatim(ssid: Seq<char>, password: Seq<char>)
    ensures
        connect_argv(ssid, password).len() == 7,
        connect_argv(ssid, password)[0] == "nmcli"@,
        connect_argv(ssid, password)[1] == "device"@,
        connect_argv(ssid, password)[2] == "wifi"@,
        connect_argv(ssid, password)[3] == "connect"@,
        connect_argv(ssid, password)[4] == ssid,
        connect_argv(ssid, password)[5] == "password"@,
        connect_argv(ssid, password)[6] == password,
{
}

} // verus!
