//! Small pieces of shell state: the COM module's reference count, the
//! menu-bar mode indicator, and the choices of the cloud settings page.

use vstd::prelude::*;
use crate::registration::{instance_step, spec_instance_step, InstanceStep};
use crate::text::{decimal, string_of, usize_to_decimal};

verus! {

/// Live COM objects plus `LockServer(true)` calls of the text-service DLL.
pub struct ModuleRefs {
    pub count: isize,
}

impl ModuleRefs {
    /// No object and no lock yet.
    pub fn new() -> (refs: ModuleRefs)
        ensures
            refs.count == 0,
    {
        ModuleRefs { count: 0 }
    }
}

/// One more reference (an object was created, or `LockServer(true)`).
/// The counter wraps like the atomic it stands for.
pub fn lock_module(refs: &mut ModuleRefs)
    ensures
        final(refs).count == vstd::wrapping::isize_specs::wrapping_add(old(refs).count, 1),
{
    refs.count = refs.count.wrapping_add(1);
}

/// One reference less (an object was dropped, or `LockServer(false)`).
pub fn unlock_module(refs: &mut ModuleRefs)
    ensures
        final(refs).count == vstd::wrapping::isize_specs::wrapping_sub(old(refs).count, 1),
{
    refs.count = refs.count.wrapping_sub(1);
}

/// The DLL may be unloaded only when no object or lock is alive.
pub fn can_unload_now(refs: &ModuleRefs) -> (unload: bool)
    ensures
        unload == (refs.count == 0),
{
    refs.count == 0
}

/// What the menu-bar status item shows.
pub struct Indicator {
    /// Mode shown last; `None` forces the next update to redraw.
    pub english: Option<bool>,
    /// Cloud completion is on: the title carries a cloud.
    pub cloud: bool,
}

/// `英` / `中`, followed by ` ☁︎` when cloud completion is on.
pub open spec fn indicator_title(english: bool, cloud: bool) -> Seq<char> {
    let mode = if english {
        seq!['\u{82f1}']
    } else {
        seq!['\u{4e2d}']
    };
    if cloud {
        mode + seq![' ', '\u{2601}', '\u{fe0e}']
    } else {
        mode
    }
}

impl Indicator {
    pub fn new() -> (indicator: Indicator)
        ensures
            indicator.english is None,
            !indicator.cloud,
    {
        Indicator { english: None, cloud: false }
    }

    /// Activation redraws on the next update.
    pub fn activate(&mut self)
        ensures
            final(self).english is None,
            final(self).cloud == old(self).cloud,
    {
        self.english = None;
    }

    /// Cloud completion switched; the title is redrawn on the next update.
    pub fn set_cloud(&mut self, cloud: bool)
        ensures
            final(self).cloud == cloud,
            final(self).english is None,
    {
        self.cloud = cloud;
        self.english = None;
    }

    /// A poll of the current mode: the new title when it changed, else `None`.
    pub fn update(&mut self, english: bool) -> (title: Option<String>)
        ensures
            final(self).english == Some(english),
            final(self).cloud == old(self).cloud,
            old(self).english == Some(english) ==> title is None,
            old(self).english != Some(english) ==> (title matches Some(t) && t@ == indicator_title(
                english,
                old(self).cloud,
            )),
    {
        if self.english == Some(english) {
            return None;
        }
        self.english = Some(english);
        let mut title = String::new();
        if english {
            crate::text::push_char(&mut title, '\u{82f1}');
        } else {
            crate::text::push_char(&mut title, '\u{4e2d}');
        }
        if self.cloud {
            crate::text::push_char(&mut title, ' ');
            crate::text::push_char(&mut title, '\u{2601}');
            crate::text::push_char(&mut title, '\u{fe0e}');
        }
        assert(title@ =~= indicator_title(english, self.cloud));
        Some(title)
    }
}

/// The largest cloud-slot count the settings menu offers.
pub const MAX_CLOUD_SLOTS: usize = 4;

/// The menu item selected for the configured cloud-slot count.
pub fn cloud_slot_choice(slots: usize) -> (choice: usize)
    ensures
        choice == (if slots < MAX_CLOUD_SLOTS {
            slots
        } else {
            MAX_CLOUD_SLOTS
        }),
{
    if slots < MAX_CLOUD_SLOTS {
        slots
    } else {
        MAX_CLOUD_SLOTS
    }
}

/// The title of menu item `n`: no cloud word (sentence completion only), or `n 格`.
pub open spec fn cloud_slot_title(n: nat) -> Seq<char> {
    if n == 0 {
        "不要（只要整句补全）"@
    } else {
        decimal(n) + seq![' ', '\u{683c}']
    }
}

/// Titles of the cloud-slot menu, for 0 to 4 slots.
pub fn cloud_slot_titles() -> (titles: Vec<String>)
    ensures
        titles@.len() == MAX_CLOUD_SLOTS + 1,
        forall|n: int| 0 <= n <= MAX_CLOUD_SLOTS ==> (#[trigger] titles@[n])@ == cloud_slot_title(n as nat),
{
    let mut titles: Vec<String> = Vec::new();
    titles.push(String::from_str("不要（只要整句补全）"));
    let mut n: usize = 1;
    while n <= MAX_CLOUD_SLOTS
        invariant
            1 <= n <= MAX_CLOUD_SLOTS + 1,
            titles@.len() == n,
            forall|k: int| 0 <= k < n ==> (#[trigger] titles@[k])@ == cloud_slot_title(k as nat),
        decreases MAX_CLOUD_SLOTS + 1 - n,
    {
        let mut title = string_of(&usize_to_decimal(n));
        crate::text::push_char(&mut title, ' ');
        crate::text::push_char(&mut title, '\u{683c}');
        assert(title@ =~= cloud_slot_title(n as nat));
        titles.push(title);
        n = n + 1;
    }
    titles
}

/// Placeholder of the API key field (the key itself is never shown).
pub fn api_key_hint(key_present: bool) -> (hint: &'static str)
    ensures
        hint@ == (if key_present {
            "已设置，输入新值可替换"@
        } else {
            "未设置"@
        }),
{
    if key_present {
        "已设置，输入新值可替换"
    } else {
        "未设置"
    }
}

/// Locking and then unlocking the module leaves the reference count as it was.
pub proof fn lemma_lock_unlock(count: isize)
    ensures
        vstd::wrapping::isize_specs::wrapping_sub(
            vstd::wrapping::isize_specs::wrapping_add(count, 1),
            1,
        ) == count,
{
}

/// The class factory of the text service (stateless).
pub struct ClassFactory;

impl ClassFactory {
    /// `CreateInstance`: no aggregation, no null pointers; otherwise a text
    /// service is created, which holds a module reference while it lives.
    pub fn create_instance(
        &self,
        refs: &mut ModuleRefs,
        outer_present: bool,
        null_argument: bool,
    ) -> (step: InstanceStep)
        ensures
            step == spec_instance_step(outer_present, null_argument),
            step == InstanceStep::Create ==> final(refs).count
                == vstd::wrapping::isize_specs::wrapping_add(old(refs).count, 1),
            step != InstanceStep::Create ==> final(refs).count == old(refs).count,
    {
        let step = instance_step(outer_present, null_argument);
        if step == InstanceStep::Create {
            lock_module(refs);
        }
        step
    }

    /// `LockServer`: `true` takes a module reference, `false` gives one back.
    pub fn lock_server(&self, refs: &mut ModuleRefs, lock: bool)
        ensures
            lock ==> final(refs).count == vstd::wrapping::isize_specs::wrapping_add(
                old(refs).count,
                1,
            ),
            !lock ==> final(refs).count == vstd::wrapping::isize_specs::wrapping_sub(
                old(refs).count,
                1,
            ),
    {
        if lock {
            lock_module(refs);
        } else {
            unlock_module(refs);
        }
    }
}

/// A page of the preferences sidebar: its name and SF Symbol.
#[derive(Clone, Copy, Debug)]
pub struct SidebarEntry {
    pub title: &'static str,
    pub symbol: &'static str,
}

/// The sidebar's rows (the selection callback stays with the view).
pub struct Ivars {
    pub entries: Vec<SidebarEntry>,
}

impl Ivars {
    /// The number of rows the table shows.
    pub fn number_of_rows(&self) -> (rows: usize)
        ensures
            rows == self.entries@.len(),
    {
        self.entries.len()
    }

    /// The entry of a table row; a negative or past-the-end row has none.
    pub fn entry(&self, row: isize) -> (entry: Option<SidebarEntry>)
        ensures
            entry is Some <==> 0 <= row < self.entries@.len(),
            entry matches Some(e) ==> e == self.entries@[row as int],
    {
        if row < 0 {
            return None;
        }
        let index = row as usize;
        if index < self.entries.len() {
            Some(self.entries[index])
        } else {
            None
        }
    }
}

/// The page a sidebar selection names: none while nothing is selected
/// (AppKit reports row -1).
pub fn selected_page(row: isize) -> (page: Option<usize>)
    ensures
        row < 0 ==> page is None,
        row >= 0 ==> page == Some(row as usize),
{
    if row < 0 {
        None
    } else {
        Some(row as usize)
    }
}

/// What switching the preferences to page `index` does: `None` when there
/// is no such page or it is already shown; otherwise the page to hide first
/// (the one shown before, if any).
pub fn page_switch(current: Option<usize>, index: usize, pages: usize) -> (switch: Option<
    Option<usize>,
>)
    ensures
        index >= pages ==> switch is None,
        index < pages && current == Some(index) ==> switch is None,
        index < pages && current != Some(index) ==> switch == Some(
            match current {
                Some(c) => if c < pages {
                    Some(c)
                } else {
                    None
                },
                None => None,
            },
        ),
{
    if index >= pages {
        return None;
    }
    match current {
        Some(c) => if c == index {
            None
        } else if c < pages {
            Some(Some(c))
        } else {
            Some(None)
        },
        None => Some(None),
    }
}

} // verus!
