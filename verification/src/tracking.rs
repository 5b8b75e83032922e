//! Window tracking: the windows grabbed under each hotkey, newest first,
//! and the cycling rule that rotates through them.
//!
//! Window handles are carried as plain integers; the enclosing application
//! owns the conversion to and from its platform handles.

use std::collections::HashMap;

use vstd::prelude::*;

verus! {

/// A tracked window: its handle and its title, if one was read.
pub struct Window {
    hwnd: u64,
    title: Option<String>,
}

impl View for Window {
    type V = (u64, Option<Seq<char>>);

    /// A window stands for its handle and its title text.
    closed spec fn view(&self) -> (u64, Option<Seq<char>>) {
        (
            self.hwnd,
            match self.title {
                Some(ref t) => Some(t@),
                None => None,
            },
        )
    }
}

impl Clone for Window {
    /// A copy stands for the same handle and title.
    fn clone(&self) -> (r: Self)
        ensures
            r@ == self@,
    {
        Window {
            hwnd: self.hwnd,
            title: match &self.title {
                Some(t) => Some(t.clone()),
                None => None,
            },
        }
    }
}

impl Window {
    /// A window tracked with a title.
    pub fn new(hwnd: u64, title: String) -> (r: Self)
        ensures
            r@ == (hwnd, Some(title@)),
    {
        Window { hwnd, title: Some(title) }
    }

    /// The window's handle.
    pub fn hwnd(&self) -> (r: u64)
        ensures
            r == self@.0,
    {
        self.hwnd
    }

    /// The window's title, if one was read.
    pub fn title(&self) -> (r: Option<&str>)
        ensures
            match r {
                Some(t) => self@.1 == Some(t@),
                None => self@.1 is None,
            },
    {
        match &self.title {
            Some(t) => Some(t.as_str()),
            None => None,
        }
    }
}

/// Some window in `s` carries handle `h`.
pub open spec fn has_hwnd(s: Seq<(u64, Option<Seq<char>>)>, h: u64) -> bool {
    exists|i: int| 0 <= i < s.len() && s[i].0 == h
}

/// The windows grabbed under one hotkey, newest first.
pub struct WindowSet {
    windows: Vec<Window>,
}

impl View for WindowSet {
    type V = Seq<(u64, Option<Seq<char>>)>;

    /// A set stands for its windows, newest first.
    closed spec fn view(&self) -> Seq<(u64, Option<Seq<char>>)> {
        self.windows@.map_values(|w: Window| w@)
    }
}

impl WindowSet {
    /// A fresh set holds no windows.
    pub fn new() -> (r: Self)
        ensures
            r@ == Seq::<(u64, Option<Seq<char>>)>::empty(),
    {
        let r = WindowSet { windows: Vec::new() };
        proof {
            assert(r@ =~= Seq::<(u64, Option<Seq<char>>)>::empty());
        }
        r
    }

    /// Adds a window at the front, unless one with the same handle is
    /// already tracked.
    pub fn add(&mut self, window: Window)
        ensures
            final(self)@ == if has_hwnd(old(self)@, window@.0) {
                old(self)@
            } else {
                seq![window@] + old(self)@
            },
    {
        let ghost old_view = self@;
        let mut exists_already = false;
        let mut i: usize = 0;
        while i < self.windows.len()
            invariant
                self@ == old_view,
                self@ == self.windows@.map_values(|w: Window| w@),
                i <= self.windows@.len(),
                exists_already == exists|j: int| 0 <= j < i && old_view[j].0 == window@.0,
            decreases self.windows@.len() - i,
        {
            if self.windows[i].hwnd() == window.hwnd() {
                proof {
                    assert(old_view[i as int].0 == window@.0);
                }
                exists_already = true;
            }
            i = i + 1;
        }
        if !exists_already {
            self.windows.insert(0, window);
            proof {
                assert(self@ =~= seq![window@] + old_view);
            }
        }
    }

    /// Removes the window with the given window's handle, if one is
    /// tracked, and returns it.
    pub fn remove(&mut self, window: &Window) -> (r: Option<Window>)
        ensures
            !has_hwnd(old(self)@, window@.0) ==> r is None && final(self)@ == old(self)@,
            has_hwnd(old(self)@, window@.0) ==> exists|i: int|
                {
                    &&& 0 <= i < old(self)@.len()
                    &&& old(self)@[i].0 == window@.0
                    &&& (forall|j: int| 0 <= j < i ==> old(self)@[j].0 != window@.0)
                    &&& r matches Some(w) && w@ == old(self)@[i]
                    &&& final(self)@ == old(self)@.remove(i)
                },
    {
        let ghost old_view = self@;
        let mut i: usize = 0;
        while i < self.windows.len()
            invariant
                self@ == old_view,
                old(self)@ == old_view,
                self@ == self.windows@.map_values(|w: Window| w@),
                i <= self.windows@.len(),
                forall|j: int| 0 <= j < i ==> old_view[j].0 != window@.0,
            decreases self.windows@.len() - i,
        {
            if self.windows[i].hwnd() == window.hwnd() {
                proof {
                    assert(old_view[i as int].0 == window@.0);
                }
                let removed = self.windows.remove(i);
                proof {
                    let wi = i as int;
                    assert(old(self)@ == old_view);
                    assert(self@ =~= old_view.remove(wi));
                    assert(removed@ == old_view[wi]);
                    assert(old(self)@[wi].0 == window@.0);
                    assert(forall|j: int| 0 <= j < wi ==> old(self)@[j].0 != window@.0);
                    assert(self@ == old(self)@.remove(wi));
                }
                return Some(removed);
            }
            i = i + 1;
        }
        proof {
            assert(!has_hwnd(old_view, window@.0));
        }
        None
    }

    /// Rotates the oldest window to the front and returns a copy of the new
    /// front window; returns nothing when the set is empty.
    pub fn cycle(&mut self) -> (r: Option<Window>)
        ensures
            old(self)@.len() == 0 ==> r is None && final(self)@ == old(self)@,
            old(self)@.len() > 0 ==> final(self)@ == seq![old(self)@.last()] + old(
                self,
            )@.drop_last() && (r matches Some(w) && w@ == old(self)@.last()),
    {
        let ghost old_view = self@;
        if let Some(back) = self.windows.pop() {
            self.windows.insert(0, back);
            proof {
                assert(self@ =~= seq![old_view.last()] + old_view.drop_last());
            }
            let front = self.windows[0].clone();
            proof {
                assert(self@[0] == old_view.last());
            }
            Some(front)
        } else {
            proof {
                assert(self@ =~= old_view);
            }
            None
        }
    }
}

/// The window sets grabbed under each hotkey's virtual key.
pub struct Config {
    windows: HashMap<u32, WindowSet>,
}

impl View for Config {
    type V = Map<u32, WindowSet>;

    /// A configuration stands for its key-to-set map.
    closed spec fn view(&self) -> Map<u32, WindowSet> {
        self.windows@
    }
}

impl Config {
    /// A fresh configuration tracks nothing.
    pub fn new() -> (r: Self)
        ensures
            r@ == Map::<u32, WindowSet>::empty(),
    {
        Config { windows: HashMap::new() }
    }

    /// Tracks a window under key `vk`: adds it at the front of that key's
    /// set, creating the set if the key is new.
    pub fn track_window(&mut self, vk: u32, window: Window)
        ensures
            final(self)@.dom() == old(self)@.dom().insert(vk),
            final(self)@.contains_key(vk),
            final(self)@[vk]@ == ({
                let before = if old(self)@.contains_key(vk) {
                    old(self)@[vk]@
                } else {
                    Seq::<(u64, Option<Seq<char>>)>::empty()
                };
                if has_hwnd(before, window@.0) {
                    before
                } else {
                    seq![window@] + before
                }
            }),
            forall|k: u32|
                k != vk && old(self)@.contains_key(k) ==> final(self)@.contains_key(k)
                    && final(self)@[k] == old(self)@[k],
    {
        let mut set = match self.windows.remove(&vk) {
            Some(s) => s,
            None => WindowSet::new(),
        };
        set.add(window);
        self.windows.insert(vk, set);
        proof {
            assert(final(self)@.dom() =~= old(self)@.dom().insert(vk));
        }
    }

    /// The set tracked under key `vk`, if any.
    pub fn get_windows(&self, vk: u32) -> (r: Option<&WindowSet>)
        ensures
            match r {
                Some(ws) => self@.contains_key(vk) && *ws == self@[vk],
                None => !self@.contains_key(vk),
            },
    {
        self.windows.get(&vk)
    }

    /// Stops tracking key `vk` altogether.
    pub fn clear_windows(&mut self, vk: u32)
        ensures
            final(self)@ == old(self)@.remove(vk),
    {
        self.windows.remove(&vk);
    }

    /// Rotates the set under key `vk` and returns a copy of its new front
    /// window; returns nothing when the key is untracked or its set empty.
    pub fn cycle_windows(&mut self, vk: u32) -> (r: Option<Window>)
        ensures
            !old(self)@.contains_key(vk) ==> r is None && final(self)@ == old(self)@,
            old(self)@.contains_key(vk) ==> {
                let before = old(self)@[vk]@;
                &&& final(self)@.dom() == old(self)@.dom()
                &&& (forall|k: u32|
                    k != vk && old(self)@.contains_key(k) ==> final(self)@[k] == old(self)@[k])
                &&& (before.len() == 0 ==> r is None && final(self)@[vk]@ == before)
                &&& (before.len() > 0 ==> final(self)@[vk]@ == seq![before.last()]
                    + before.drop_last() && (r matches Some(w) && w@ == before.last()))
            },
    {
        match self.windows.remove(&vk) {
            Some(mut set) => {
                let r = set.cycle();
                self.windows.insert(vk, set);
                proof {
                    assert(final(self)@.dom() =~= old(self)@.dom());
                }
                r
            },
            None => None,
        }
    }

    /// Removes the window with the given window's handle from the set under
    /// key `vk`, if both exist, and returns it.
    pub fn remove_window(&mut self, vk: u32, window: &Window) -> (r: Option<Window>)
        ensures
            !old(self)@.contains_key(vk) ==> r is None && final(self)@ == old(self)@,
            old(self)@.contains_key(vk) ==> {
                let before = old(self)@[vk]@;
                &&& final(self)@.dom() == old(self)@.dom()
                &&& (forall|k: u32|
                    k != vk && old(self)@.contains_key(k) ==> final(self)@[k] == old(self)@[k])
                &&& (!has_hwnd(before, window@.0) ==> r is None && final(self)@[vk]@ == before)
                &&& (has_hwnd(before, window@.0) ==> exists|i: int|
                    {
                        &&& 0 <= i < before.len()
                        &&& before[i].0 == window@.0
                        &&& r matches Some(w) && w@ == before[i]
                        &&& final(self)@[vk]@ == before.remove(i)
                    })
            },
    {
        match self.windows.remove(&vk) {
            Some(mut set) => {
                let r = set.remove(window);
                self.windows.insert(vk, set);
                proof {
                    assert(final(self)@.dom() =~= old(self)@.dom());
                }
                r
            },
            None => None,
        }
    }
}

} // verus!
