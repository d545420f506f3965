//! Which native window stands for which of the guest's.

use std::collections::HashMap;

use vstd::prelude::*;

verus! {

/// A native window.
#[derive(Debug, Clone, Copy, PartialEq, Eq)]
pub struct NativeWindow {
    /// What the windowing library calls it.
    pub native_id: u64,
    /// What the X server calls it, where there is one.
    pub xid: Option<u32>,
    /// The window that owns it, or zero.
    pub owner_id: u32,
}

/// Which X window is to be marked as transient for which, `(child, owner)`.
pub open spec fn transient_pair(windows: Map<u32, NativeWindow>, window_id: u32) -> Option<
    (u32, u32),
> {
    if windows.contains_key(window_id) && windows[window_id].owner_id != 0 && windows.contains_key(
        windows[window_id].owner_id,
    ) {
        match (windows[window_id].xid, windows[windows[window_id].owner_id].xid) {
            (Some(child), Some(owner)) => Some((child, owner)),
            _ => None,
        }
    } else {
        None
    }
}

/// The native windows, by the guest's ids and by their own.
pub struct NativeWindows {
    windows: HashMap<u32, NativeWindow>,
    by_native_id: HashMap<u64, u32>,
}

impl View for NativeWindows {
    type V = Map<u32, NativeWindow>;

    closed spec fn view(&self) -> Map<u32, NativeWindow> {
        self.windows@
    }
}

impl NativeWindows {
    /// Whether every native window is found by its own id, and nothing else is.
    #[verifier::type_invariant]
    closed spec fn wf(&self) -> bool {
        &&& forall|id: u32| #[trigger]
            self.windows@.contains_key(id) ==> self.by_native_id@.contains_key(
                self.windows@[id].native_id,
            ) && self.by_native_id@[self.windows@[id].native_id] == id
        &&& forall|native_id: u64| #[trigger]
            self.by_native_id@.contains_key(native_id) ==> self.windows@.contains_key(
                self.by_native_id@[native_id],
            ) && self.windows@[self.by_native_id@[native_id]].native_id == native_id
    }

    /// No windows.
    pub fn new() -> (r: Self)
        ensures
            r@ == Map::<u32, NativeWindow>::empty(),
    {
        broadcast use vstd::std_specs::hash::group_hash_axioms;

        NativeWindows { windows: HashMap::new(), by_native_id: HashMap::new() }
    }

    /// Whether a window has a native one.
    pub fn contains(&self, window_id: u32) -> (r: bool)
        ensures
            r == self@.contains_key(window_id),
    {
        broadcast use vstd::std_specs::hash::group_hash_axioms;

        self.windows.contains_key(&window_id)
    }

    /// The window that a native one stands for, if there is one.
    pub fn find(&self, native_id: u64) -> (r: Option<u32>)
        ensures
            match r {
                Some(id) => self@.contains_key(id) && self@[id].native_id == native_id,
                None => forall|id: u32|
                    #![trigger self@.contains_key(id)]
                    self@.contains_key(id) ==> self@[id].native_id != native_id,
            },
    {
        broadcast use vstd::std_specs::hash::group_hash_axioms;

        proof {
            use_type_invariant(self);
        }
        match self.by_native_id.get(&native_id) {
            None => None,
            Some(id) => Some(*id),
        }
    }

    /// Records that a window got a native one. `false`, and nothing changes, if it has one already
    /// or the native window stands for another.
    pub fn insert(&mut self, window_id: u32, window: NativeWindow) -> (r: bool)
        ensures
            r == (!old(self)@.contains_key(window_id) && forall|id: u32|
                #![trigger old(self)@.contains_key(id)]
                old(self)@.contains_key(id) ==> old(self)@[id].native_id != window.native_id),
            final(self)@ == (if r {
                old(self)@.insert(window_id, window)
            } else {
                old(self)@
            }),
    {
        broadcast use vstd::std_specs::hash::group_hash_axioms;

        proof {
            use_type_invariant(&*self);
        }
        if self.contains(window_id) || self.find(window.native_id).is_some() {
            return false;
        }
        let mut held = NativeWindows::new();
        std::mem::swap(self, &mut held);
        let NativeWindows { mut windows, mut by_native_id } = held;
        windows.insert(window_id, window);
        by_native_id.insert(window.native_id, window_id);
        *self = NativeWindows { windows, by_native_id };
        true
    }

    /// Records that a window's native one is gone, and gives what it was.
    pub fn remove(&mut self, window_id: u32) -> (r: Option<NativeWindow>)
        ensures
            r == (if old(self)@.contains_key(window_id) {
                Some(old(self)@[window_id])
            } else {
                None
            }),
            final(self)@ == old(self)@.remove(window_id),
    {
        broadcast use vstd::std_specs::hash::group_hash_axioms;

        proof {
            use_type_invariant(&*self);
        }
        let mut held = NativeWindows::new();
        std::mem::swap(self, &mut held);
        let NativeWindows { mut windows, mut by_native_id } = held;
        let removed = windows.remove(&window_id);
        if let Some(window) = &removed {
            by_native_id.remove(&window.native_id);
        }
        assert(windows@ =~= old(self)@.remove(window_id));
        *self = NativeWindows { windows, by_native_id };
        removed
    }

    /// Which X window is to be marked as transient for which, `(child, owner)`: a window that is
    /// owned, for its owner, where both are X windows.
    pub fn transient_for(&self, window_id: u32) -> (r: Option<(u32, u32)>)
        ensures
            r == transient_pair(self@, window_id),
    {
        broadcast use vstd::std_specs::hash::group_hash_axioms;

        let window = match self.windows.get(&window_id) {
            None => {
                return None;
            },
            Some(window) => window,
        };
        if window.owner_id == 0 {
            return None;
        }
        match self.windows.get(&window.owner_id) {
            None => None,
            Some(owner) => match (window.xid, owner.xid) {
                (Some(child), Some(parent)) => Some((child, parent)),
                _ => None,
            },
        }
    }
}

/// A window that got a native one is found by it until that is gone. A window gets no second native
/// one, and a native one stands for no second window.
pub proof fn law_native_windows_are_found(window_id: u32, window: NativeWindow)
    ensures
        forall|w: &mut NativeWindows, r: bool, found: Option<u32>, had: bool, holds: bool|
            #![trigger call_ensures(NativeWindows::insert, (w, window_id, window), r), call_ensures(NativeWindows::find, (&*final(w), window.native_id), found), call_ensures(NativeWindows::contains, (&*w, window_id), had), call_ensures(NativeWindows::contains, (&*final(w), window_id), holds)]
            call_ensures(NativeWindows::insert, (w, window_id, window), r) && call_ensures(
                NativeWindows::find,
                (&*final(w), window.native_id),
                found,
            ) && call_ensures(NativeWindows::contains, (&*w, window_id), had) && call_ensures(
                NativeWindows::contains,
                (&*final(w), window_id),
                holds,
            ) ==> {
                &&& had ==> !r
                &&& r ==> holds && found == Some(window_id)
                &&& !r ==> final(w)@ == (*w)@ && holds == had
                &&& !r && !had ==> found is Some && found != Some(window_id)
            },
        forall|w: &mut NativeWindows, r: Option<NativeWindow>, had: bool, holds: bool|
            #![trigger call_ensures(NativeWindows::remove, (w, window_id), r), call_ensures(NativeWindows::contains, (&*w, window_id), had), call_ensures(NativeWindows::contains, (&*final(w), window_id), holds)]
            call_ensures(NativeWindows::remove, (w, window_id), r) && call_ensures(
                NativeWindows::contains,
                (&*w, window_id),
                had,
            ) && call_ensures(NativeWindows::contains, (&*final(w), window_id), holds) ==> {
                &&& !holds
                &&& r is Some <==> had
                &&& r is Some ==> r == Some((*w)@[window_id])
                &&& forall|id: u32| #[trigger]
                    final(w)@.contains_key(id) ==> id != window_id && final(w)@[id] == (*w)@[id]
                &&& forall|id: u32| #[trigger]
                    (*w)@.contains_key(id) && id != window_id ==> final(w)@.contains_key(id)
            },
{
    assert forall|w: &mut NativeWindows, r: bool, found: Option<u32>, had: bool, holds: bool|
        #![trigger call_ensures(NativeWindows::insert, (w, window_id, window), r), call_ensures(NativeWindows::find, (&*final(w), window.native_id), found), call_ensures(NativeWindows::contains, (&*w, window_id), had), call_ensures(NativeWindows::contains, (&*final(w), window_id), holds)]
        call_ensures(NativeWindows::insert, (w, window_id, window), r) && call_ensures(
            NativeWindows::find,
            (&*final(w), window.native_id),
            found,
        ) && call_ensures(NativeWindows::contains, (&*w, window_id), had) && call_ensures(
            NativeWindows::contains,
            (&*final(w), window_id),
            holds,
        ) implies {
        &&& had ==> !r
        &&& r ==> holds && found == Some(window_id)
        &&& !r ==> final(w)@ == (*w)@ && holds == had
        &&& !r && !had ==> found is Some && found != Some(window_id)
    } by {
        if r {
            assert(final(w)@.contains_key(window_id));
            if let Some(id) = found {
                assert(id != window_id ==> (*w)@.contains_key(id));
            }
        }
    }
}

/// A window is transient for the one that owns it, where both are X windows.
pub proof fn law_owned_windows_are_transient(
    w: &NativeWindows,
    window_id: u32,
    r: Option<(u32, u32)>,
)
    requires
        call_ensures(NativeWindows::transient_for, (w, window_id), r),
    ensures
        r is Some <==> w@.contains_key(window_id) && w@[window_id].owner_id
            != 0 && w@.contains_key(w@[window_id].owner_id) && w@[window_id].xid is Some && w@[
        w@[window_id].owner_id].xid is Some,
        r matches Some((child, owner)) ==> w@[window_id].xid == Some(child) && w@[
        w@[window_id].owner_id].xid == Some(owner),
{
}

} // verus!
