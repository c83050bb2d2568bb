use vstd::prelude::*;

verus! {

/// One level of the menu: a title, the item indices before which a new
/// column starts, and the items in display order.
pub struct Menu {
    pub title: String,
    pub newcols: Vec<i32>,
    pub items: Vec<Item>,
}

/// A binding of a menu level: what is shown for it, the chord that selects
/// it (a keysym and a modifier mask), and what selecting it does.
pub struct Item {
    pub desc: String,
    pub key: u32,
    pub display_mod: String,
    pub mods: u32,
    pub var: Entry,
}

/// What a binding does: run a shell command, or open a nested menu.
pub enum Entry {
    Cmd { cmd: String },
    Rec { rec: Menu },
}

/// Where the overlay is anchored on the output; `Center` anchors to no edge.
#[derive(Clone, Copy, PartialEq, Eq, Structural, Debug)]
pub enum ConfigAnchor {
    Center,
    Top,
    Bottom,
    Left,
    Right,
    TopLeft,
    TopRight,
    BottomLeft,
    BottomRight,
}

/// Edge bits of the layer-shell anchor.
pub const ANCHOR_TOP: u32 = 1;
pub const ANCHOR_BOTTOM: u32 = 2;
pub const ANCHOR_LEFT: u32 = 4;
pub const ANCHOR_RIGHT: u32 = 8;

/// The set of edges an anchor position attaches to, as layer-shell bits.
pub open spec fn anchor_bits_of(a: ConfigAnchor) -> u32 {
    match a {
        ConfigAnchor::Center => 0,
        ConfigAnchor::Top => ANCHOR_TOP,
        ConfigAnchor::Bottom => ANCHOR_BOTTOM,
        ConfigAnchor::Left => ANCHOR_LEFT,
        ConfigAnchor::Right => ANCHOR_RIGHT,
        ConfigAnchor::TopLeft => ANCHOR_TOP | ANCHOR_LEFT,
        ConfigAnchor::TopRight => ANCHOR_TOP | ANCHOR_RIGHT,
        ConfigAnchor::BottomLeft => ANCHOR_BOTTOM | ANCHOR_LEFT,
        ConfigAnchor::BottomRight => ANCHOR_BOTTOM | ANCHOR_RIGHT,
    }
}

impl ConfigAnchor {
    /// The layer-shell anchor edges for this position.
    pub fn anchor_bits(self) -> (r: u32)
        ensures
            r == anchor_bits_of(self),
    {
        match self {
            ConfigAnchor::Center => 0,
            ConfigAnchor::Top => ANCHOR_TOP,
            ConfigAnchor::Bottom => ANCHOR_BOTTOM,
            ConfigAnchor::Left => ANCHOR_LEFT,
            ConfigAnchor::Right => ANCHOR_RIGHT,
            ConfigAnchor::TopLeft => ANCHOR_TOP | ANCHOR_LEFT,
            ConfigAnchor::TopRight => ANCHOR_TOP | ANCHOR_RIGHT,
            ConfigAnchor::BottomLeft => ANCHOR_BOTTOM | ANCHOR_LEFT,
            ConfigAnchor::BottomRight => ANCHOR_BOTTOM | ANCHOR_RIGHT,
        }
    }
}

impl Default for ConfigAnchor {
    fn default() -> (r: Self)
        ensures
            r == ConfigAnchor::Center,
    {
        ConfigAnchor::Center
    }
}

/// Whether `item` is bound to exactly the chord (`keysym`, `mods`).
pub open spec fn binds(item: Item, keysym: u32, mods: u32) -> bool {
    item.key == keysym && item.mods == mods
}

/// `i` is the first item of `items` bound to the chord.
pub open spec fn is_first_match(items: Seq<Item>, keysym: u32, mods: u32, i: int) -> bool {
    0 <= i < items.len() && binds(items[i], keysym, mods) && forall|j: int|
        0 <= j < i ==> !#[trigger] binds(items[j], keysym, mods)
}

/// No item of `items` is bound to the chord.
pub open spec fn no_match(items: Seq<Item>, keysym: u32, mods: u32) -> bool {
    forall|j: int| 0 <= j < items.len() ==> !#[trigger] binds(items[j], keysym, mods)
}

/// No two items of a level share a chord.
pub open spec fn bindings_unique(items: Seq<Item>) -> bool {
    forall|i: int, j: int|
        0 <= i < items.len() && 0 <= j < items.len() && i != j ==> (items[i].key != items[j].key
            || items[i].mods != items[j].mods)
}

impl Menu {
    /// Finds the item of this level bound to exactly the chord (`keysym`,
    /// `mods`): no subset or superset of the modifiers matches.
    pub fn find_binding(&self, keysym: u32, mods: u32) -> (r: Option<usize>)
        ensures
            r matches Some(i) ==> is_first_match(self.items@, keysym, mods, i as int),
            r is None <==> no_match(self.items@, keysym, mods),
    {
        let mut i: usize = 0;
        while i < self.items.len()
            invariant
                i <= self.items@.len(),
                forall|j: int| 0 <= j < i ==> !#[trigger] binds(self.items@[j], keysym, mods),
            decreases self.items@.len() - i,
        {
            if self.items[i].key == keysym && self.items[i].mods == mods {
                assert(binds(self.items@[i as int], keysym, mods));
                return Some(i);
            }
            i = i + 1;
        }
        None
    }

    /// Whether no two items of this level share a chord.
    pub fn has_unique_bindings(&self) -> (r: bool)
        ensures
            r == bindings_unique(self.items@),
    {
        let n = self.items.len();
        let mut i: usize = 0;
        while i < n
            invariant
                n == self.items@.len(),
                i <= n,
                forall|a: int, b: int|
                    0 <= a < i && 0 <= b < n && a != b ==> (self.items@[a].key
                        != self.items@[b].key || self.items@[a].mods != self.items@[b].mods),
            decreases n - i,
        {
            let mut j: usize = 0;
            while j < n
                invariant
                    n == self.items@.len(),
                    i < n,
                    j <= n,
                    forall|a: int, b: int|
                        0 <= a < i && 0 <= b < n && a != b ==> (self.items@[a].key
                            != self.items@[b].key || self.items@[a].mods != self.items@[b].mods),
                    forall|b: int|
                        0 <= b < j && i != b ==> (self.items@[i as int].key != self.items@[b].key
                            || self.items@[i as int].mods != self.items@[b].mods),
                decreases n - j,
            {
                if i != j && self.items[i].key == self.items[j].key && self.items[i].mods
                    == self.items[j].mods {
                    return false;
                }
                j = j + 1;
            }
            i = i + 1;
        }
        true
    }
}

/// A chord selects at most one item of a level, and a level with unique
/// bindings gives each of its items exactly one chord: two distinct chords
/// never select the same item.
pub proof fn lemma_match_selects_one(items: Seq<Item>, k1: u32, m1: u32, k2: u32, m2: u32, i: int, j: int)
    requires
        is_first_match(items, k1, m1, i),
        is_first_match(items, k2, m2, j),
    ensures
        (k1 != k2 || m1 != m2) ==> i != j,
        (k1 == k2 && m1 == m2) ==> i == j,
        bindings_unique(items) && (k1 == k2 && m1 == m2) ==> forall|x: int|
            0 <= x < items.len() && binds(items[x], k1, m1) ==> x == i,
{
    if k1 == k2 && m1 == m2 {
        if i < j {
            assert(!binds(items[i], k2, m2));
        } else if j < i {
            assert(!binds(items[j], k1, m1));
        }
    }
}

/// Matching is exact in the modifiers: an item matched under mask `m` is
/// matched under no other mask, neither a subset nor a superset of `m`.
pub proof fn lemma_match_is_exact(items: Seq<Item>, keysym: u32, m: u32, other: u32, i: int)
    requires
        is_first_match(items, keysym, m, i),
        other != m,
    ensures
        items[i].mods == m,
        !binds(items[i], keysym, other),
        !is_first_match(items, keysym, other, i),
{
}

} // verus!
