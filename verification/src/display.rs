//! Resolution of display names to physical monitors.
//!
//! The operating system enumerates displays (a device identifier and a
//! friendly name each) and, separately, physical monitor handles (a device
//! identifier each); the control channel then queries or sets the
//! input-select code on one handle.  Those calls are external collaborators.
//! The decisions between them live here: which display a requested name
//! denotes, and which enumerated monitor handle must carry the query.

use vstd::prelude::*;

verus! {

/// One enumerated display: the stable device identifier the operating
/// system reports for it, and its human-readable friendly name.
#[derive(Clone, Debug, PartialEq, Eq)]
pub struct DisplayInfo {
    pub device_id: String,
    pub name: String,
}

/// Mathematical model of a [`DisplayInfo`].
pub struct DisplayInfoView {
    pub device_id: Seq<char>,
    pub name: Seq<char>,
}

impl View for DisplayInfo {
    type V = DisplayInfoView;

    open spec fn view(&self) -> DisplayInfoView {
        DisplayInfoView { device_id: self.device_id@, name: self.name@ }
    }
}

/// Failures of the display-resolution flow.
#[derive(Clone, Debug, PartialEq, Eq)]
pub enum Error {
    /// No enumerated display carries the requested name; holds that name.
    DisplayNotFound(String),
    /// The operating system failed an enumeration or control-channel call.
    Os,
}

/// The models of a sequence of displays, element for element.
pub open spec fn displays_view(displays: Seq<DisplayInfo>) -> Seq<DisplayInfoView> {
    displays.map_values(|d: DisplayInfo| d@)
}

/// The character sequences of a sequence of strings, element for element.
pub open spec fn strings_view(strings: Seq<String>) -> Seq<Seq<char>> {
    strings.map_values(|s: String| s@)
}

/// Whether two strings hold the same characters.
fn str_eq(a: &str, b: &str) -> (r: bool)
    ensures
        r == (a@ == b@),
{
    let n = a.unicode_len();
    if n != b.unicode_len() {
        return false;
    }
    let mut i: usize = 0;
    while i < n
        invariant
            i <= n,
            n == a@.len(),
            n == b@.len(),
            forall|k: int| 0 <= k < i ==> a@[k] == b@[k],
        decreases n - i,
    {
        if a.get_char(i) != b.get_char(i) {
            return false;
        }
        i = i + 1;
    }
    proof {
        assert(a@ =~= b@);
    }
    true
}

/// The index of the first display at or after `i` whose name is `name`.
pub open spec fn find_display_from(displays: Seq<DisplayInfoView>, name: Seq<char>, i: int) -> Option<
    int,
>
    decreases displays.len() - i,
        when 0 <= i <= displays.len()
{
    if i >= displays.len() {
        None
    } else if displays[i].name == name {
        Some(i)
    } else {
        find_display_from(displays, name, i + 1)
    }
}

/// The index of the first string at or after `i` that equals `target`.
pub open spec fn find_string_from(strings: Seq<Seq<char>>, target: Seq<char>, i: int) -> Option<
    int,
>
    decreases strings.len() - i,
        when 0 <= i <= strings.len()
{
    if i >= strings.len() {
        None
    } else if strings[i] == target {
        Some(i)
    } else {
        find_string_from(strings, target, i + 1)
    }
}

/// The monitor the control channel must address for `name`: the first
/// enumerated monitor whose device identifier equals the device identifier
/// of the first enumerated display named `name`, where both exist.
pub open spec fn spec_select_monitor(
    displays: Seq<DisplayInfoView>,
    monitor_ids: Seq<Seq<char>>,
    name: Seq<char>,
) -> Option<int> {
    match find_display_from(displays, name, 0) {
        None => None,
        Some(d) => find_string_from(monitor_ids, displays[d].device_id, 0),
    }
}

/// The names of the enumerated displays, in enumeration order.
#[verifier::loop_isolation(false)]
pub fn get_display_names(displays: &Vec<DisplayInfo>) -> (names: Vec<String>)
    ensures
        names@.len() == displays@.len(),
        forall|i: int| 0 <= i < displays@.len() ==> (#[trigger] names@[i])@ == displays@[i].name@,
{
    let mut names: Vec<String> = Vec::new();
    let mut i: usize = 0;
    while i < displays.len()
        invariant
            i <= displays@.len(),
            names@.len() == i,
            forall|k: int| 0 <= k < i ==> (#[trigger] names@[k])@ == displays@[k].name@,
        decreases displays@.len() - i,
    {
        names.push(displays[i].name.clone());
        i = i + 1;
    }
    names
}

/// The decision core of the get/set input control-channel flow: which
/// enumerated physical monitor carries the input-select query for
/// `display_name`.
///
/// The operating-system collaborator enumerates the displays (identifier and
/// name pairs) and the physical monitors (one device identifier each, in
/// handle order) before the call, and performs the VCP query on the returned
/// monitor after it.  The choice in between is made here: the first monitor
/// whose device identifier matches that of the first display with the
/// requested name.  When either search fails, the display is not attached,
/// and the error carries the requested name.
pub fn get_input(
    displays: &Vec<DisplayInfo>,
    monitor_ids: &Vec<String>,
    display_name: &str,
) -> (r: Result<usize, Error>)
    ensures
        match spec_select_monitor(
            displays_view(displays@),
            strings_view(monitor_ids@),
            display_name@,
        ) {
            Some(m) => r matches Ok(i) && i == m,
            None => r matches Err(e) && e matches Error::DisplayNotFound(n) && n@
                == display_name@,
        },
{
    let display_index = match find_display(displays, display_name) {
        Some(d) => d,
        None => {
            return Err(Error::DisplayNotFound(display_name.to_owned()));
        },
    };
    let device_id = &displays[display_index].device_id;
    proof {
        assert(displays_view(displays@)[display_index as int].device_id == device_id@);
    }
    match find_monitor(monitor_ids, device_id) {
        Some(m) => Ok(m),
        None => Err(Error::DisplayNotFound(display_name.to_owned())),
    }
}

/// The first enumerated display named `name`, if any.
#[verifier::loop_isolation(false)]
fn find_display(displays: &Vec<DisplayInfo>, name: &str) -> (r: Option<usize>)
    ensures
        match r {
            Some(d) => (d as int) < displays@.len() && find_display_from(
                displays_view(displays@),
                name@,
                0,
            ) == Some(d as int),
            None => find_display_from(displays_view(displays@), name@, 0) is None,
        },
{
    let ghost dv = displays_view(displays@);
    let mut d: usize = 0;
    while d < displays.len()
        invariant
            d <= displays@.len(),
            find_display_from(dv, name@, 0) == find_display_from(dv, name@, d as int),
        decreases displays@.len() - d,
    {
        if str_eq(displays[d].name.as_str(), name) {
            proof {
                assert(dv[d as int].name == name@);
            }
            return Some(d);
        }
        proof {
            assert(dv[d as int].name != name@);
        }
        d = d + 1;
    }
    None
}

/// The first enumerated monitor whose device identifier is `device_id`, if
/// any.
#[verifier::loop_isolation(false)]
fn find_monitor(monitor_ids: &Vec<String>, device_id: &String) -> (r: Option<usize>)
    ensures
        match r {
            Some(m) => (m as int) < monitor_ids@.len() && find_string_from(
                strings_view(monitor_ids@),
                device_id@,
                0,
            ) == Some(m as int),
            None => find_string_from(strings_view(monitor_ids@), device_id@, 0) is None,
        },
{
    let ghost ids = strings_view(monitor_ids@);
    let mut m: usize = 0;
    while m < monitor_ids.len()
        invariant
            m <= monitor_ids@.len(),
            find_string_from(ids, device_id@, 0) == find_string_from(ids, device_id@, m as int),
        decreases monitor_ids@.len() - m,
    {
        if str_eq(monitor_ids[m].as_str(), device_id.as_str()) {
            proof {
                assert(ids[m as int] == device_id@);
            }
            return Some(m);
        }
        proof {
            assert(ids[m as int] != device_id@);
        }
        m = m + 1;
    }
    None
}

} // verus!
