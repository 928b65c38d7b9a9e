use vstd::prelude::*;

verus! {

/// What the shell does with the main window once setup reaches it:
/// ask the host to maximize it, or leave everything untouched.
#[derive(PartialEq, Eq, Structural, Clone, Copy, Debug)]
pub enum WindowAction {
    Maximize,
    Skip,
}

/// The name under which the host runtime registers the application's
/// primary window.
pub fn main_window_name() -> (r: &'static str)
    ensures
        r@ == "main"@,
{
    "main"
}

/// Whether a window of the given name is registered.
pub open spec fn window_present(windows: Seq<Seq<char>>, name: Seq<char>) -> bool {
    exists|i: int| 0 <= i < windows.len() && windows[i] == name
}

/// The action taken for a lookup that did or did not find the window.
pub open spec fn spec_window_action(present: bool) -> WindowAction {
    if present {
        WindowAction::Maximize
    } else {
        WindowAction::Skip
    }
}

/// Looks a window name up in the host's registry, modelled as the list of
/// registered window names. Returns the first index holding the name, or
/// `None` when no window of that name is registered.
pub fn find_window(windows: &Vec<String>, name: &String) -> (r: Option<usize>)
    ensures
        match r {
            Some(i) => i < windows.len() && windows@[i as int]@ == name@ && (forall|j: int|
                0 <= j < i ==> windows@[j]@ != name@),
            None => !window_present(windows.deep_view(), name@),
        },
{
    let mut i: usize = 0;
    while i < windows.len()
        invariant
            i <= windows.len(),
            forall|j: int| 0 <= j < i ==> windows@[j]@ != name@,
        decreases windows.len() - i,
    {
        if windows[i] == *name {
            return Some(i);
        }
        i += 1;
    }
    proof {
        assert(forall|j: int| 0 <= j < windows.deep_view().len() ==> windows.deep_view()[j]
            == windows@[j]@);
    }
    None
}

/// Turns the result of the lookup into the window step of startup: maximize
/// exactly when the lookup found the window, otherwise do nothing at all.
pub fn window_action(lookup: Option<usize>) -> (a: WindowAction)
    ensures
        a == spec_window_action(lookup is Some),
{
    match lookup {
        Some(_) => WindowAction::Maximize,
        None => WindowAction::Skip,
    }
}

/// A name that no window is registered under is looked up to an empty
/// result, and the window step of startup is then a skip.
pub proof fn lemma_absent_window_skipped(windows: Seq<Seq<char>>, name: Seq<char>)
    requires
        !windows.contains(name),
    ensures
        !window_present(windows, name),
        spec_window_action(window_present(windows, name)) == WindowAction::Skip,
{
}

} // verus!
