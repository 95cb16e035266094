//! The registry's root keys and the set of them that the user has enabled.

use vstd::prelude::*;

verus! {

/// A root key of the registry.
#[derive(Clone, Copy, Debug, PartialEq, Eq, Structural)]
pub enum Root {
    HkeyClassesRoot,
    HkeyCurrentUser,
    HkeyLocalMachine,
    HkeyUsers,
    HkeyCurrentConfig,
}

/// Every root, in the order in which the menu lists them.
pub open spec fn all_roots() -> Seq<Root> {
    seq![
        Root::HkeyClassesRoot,
        Root::HkeyCurrentUser,
        Root::HkeyLocalMachine,
        Root::HkeyUsers,
        Root::HkeyCurrentConfig,
    ]
}

impl Root {
    /// The position of this root in `all_roots`.
    pub open spec fn position(self) -> int {
        match self {
            Root::HkeyClassesRoot => 0,
            Root::HkeyCurrentUser => 1,
            Root::HkeyLocalMachine => 2,
            Root::HkeyUsers => 3,
            Root::HkeyCurrentConfig => 4,
        }
    }

    /// The name under which the registry knows this root.
    pub open spec fn name(self) -> Seq<char> {
        match self {
            Root::HkeyClassesRoot => "HKEY_CLASSES_ROOT"@,
            Root::HkeyCurrentUser => "HKEY_CURRENT_USER"@,
            Root::HkeyLocalMachine => "HKEY_LOCAL_MACHINE"@,
            Root::HkeyUsers => "HKEY_USERS"@,
            Root::HkeyCurrentConfig => "HKEY_CURRENT_CONFIG"@,
        }
    }

    /// The root at a position of the menu, where there is one.
    pub fn from_u8(value: u8) -> (root: Option<Self>)
        ensures
            root == if value < all_roots().len() {
                Some(all_roots()[value as int])
            } else {
                None
            },
    {
        match value {
            0 => Some(Root::HkeyClassesRoot),
            1 => Some(Root::HkeyCurrentUser),
            2 => Some(Root::HkeyLocalMachine),
            3 => Some(Root::HkeyUsers),
            4 => Some(Root::HkeyCurrentConfig),
            _ => None,
        }
    }

    /// The position of this root in the menu.
    pub fn index(&self) -> (value: u8)
        ensures
            value == self.position(),
    {
        match self {
            Root::HkeyClassesRoot => 0,
            Root::HkeyCurrentUser => 1,
            Root::HkeyLocalMachine => 2,
            Root::HkeyUsers => 3,
            Root::HkeyCurrentConfig => 4,
        }
    }

    /// Every root, in menu order.
    pub fn iter() -> (roots: Vec<Root>)
        ensures
            roots@ == all_roots(),
    {
        vec![
            Root::HkeyClassesRoot,
            Root::HkeyCurrentUser,
            Root::HkeyLocalMachine,
            Root::HkeyUsers,
            Root::HkeyCurrentConfig,
        ]
    }

    /// The name of this root.
    pub fn to_string(&self) -> (name: String)
        ensures
            name@ == self.name(),
    {
        match self {
            Root::HkeyClassesRoot => "HKEY_CLASSES_ROOT".to_owned(),
            Root::HkeyCurrentUser => "HKEY_CURRENT_USER".to_owned(),
            Root::HkeyLocalMachine => "HKEY_LOCAL_MACHINE".to_owned(),
            Root::HkeyUsers => "HKEY_USERS".to_owned(),
            Root::HkeyCurrentConfig => "HKEY_CURRENT_CONFIG".to_owned(),
        }
    }
}

/// The roots that a search is to cover.
#[derive(Clone, Copy, Debug, PartialEq, Eq, Structural)]
pub struct SelectedRoots {
    pub classes_root: bool,
    pub current_user: bool,
    pub local_machine: bool,
    pub users: bool,
    pub current_config: bool,
}

impl SelectedRoots {
    /// Whether `root` is among the selected roots.
    pub open spec fn has(self, root: Root) -> bool {
        match root {
            Root::HkeyClassesRoot => self.classes_root,
            Root::HkeyCurrentUser => self.current_user,
            Root::HkeyLocalMachine => self.local_machine,
            Root::HkeyUsers => self.users,
            Root::HkeyCurrentConfig => self.current_config,
        }
    }

    /// The selected roots, in menu order.
    pub open spec fn selection(self) -> Seq<Root> {
        all_roots().filter(|root: Root| self.has(root))
    }

    /// The same selection with `root` switched to its opposite.
    pub open spec fn toggled(self, root: Root) -> SelectedRoots {
        SelectedRoots {
            classes_root: self.classes_root != (root is HkeyClassesRoot),
            current_user: self.current_user != (root is HkeyCurrentUser),
            local_machine: self.local_machine != (root is HkeyLocalMachine),
            users: self.users != (root is HkeyUsers),
            current_config: self.current_config != (root is HkeyCurrentConfig),
        }
    }

    /// The selected roots, in menu order.
    pub fn export_roots(&self) -> (roots: Vec<Root>)
        ensures
            roots@ == self.selection(),
    {
        let mut selected_roots: Vec<Root> = Vec::new();

        if self.classes_root {
            selected_roots.push(Root::HkeyClassesRoot);
        }
        if self.current_user {
            selected_roots.push(Root::HkeyCurrentUser);
        }
        if self.local_machine {
            selected_roots.push(Root::HkeyLocalMachine);
        }
        if self.users {
            selected_roots.push(Root::HkeyUsers);
        }
        if self.current_config {
            selected_roots.push(Root::HkeyCurrentConfig);
        }
        proof {
            self.lemma_selection_by_cases();
        }
        selected_roots
    }

    /// Whether `root` is selected.
    pub fn is_selected(&self, root: &Root) -> (selected: bool)
        ensures
            selected == self.has(*root),
    {
        match root {
            Root::HkeyClassesRoot => self.classes_root,
            Root::HkeyCurrentUser => self.current_user,
            Root::HkeyLocalMachine => self.local_machine,
            Root::HkeyUsers => self.users,
            Root::HkeyCurrentConfig => self.current_config,
        }
    }

    /// Selects `root` where it is not selected, and drops it where it is.
    pub fn toggle(&mut self, root: &Root)
        ensures
            *final(self) == old(self).toggled(*root),
    {
        match root {
            Root::HkeyClassesRoot => self.classes_root = !self.classes_root,
            Root::HkeyCurrentUser => self.current_user = !self.current_user,
            Root::HkeyLocalMachine => self.local_machine = !self.local_machine,
            Root::HkeyUsers => self.users = !self.users,
            Root::HkeyCurrentConfig => self.current_config = !self.current_config,
        }
    }

    /// `selection` written out root by root.
    proof fn lemma_selection_by_cases(self)
        ensures
            self.selection() == {
                let one = |root: Root| if self.has(root) { seq![root] } else { Seq::<Root>::empty() };
                one(Root::HkeyClassesRoot) + one(Root::HkeyCurrentUser) + one(
                    Root::HkeyLocalMachine,
                ) + one(Root::HkeyUsers) + one(Root::HkeyCurrentConfig)
            },
    {
        let s = all_roots();
        reveal_with_fuel(Seq::filter, 6);
        assert(s.drop_last() =~= s.take(4));
        assert(s.take(4).drop_last() =~= s.take(3));
        assert(s.take(3).drop_last() =~= s.take(2));
        assert(s.take(2).drop_last() =~= s.take(1));
        assert(s.take(1).drop_last() =~= s.take(0));
    }
}

impl Default for SelectedRoots {
    fn default() -> (selected: Self)
        ensures
            selected == (SelectedRoots {
                classes_root: false,
                current_user: false,
                local_machine: true,
                users: true,
                current_config: false,
            }),
    {
        Self {
            classes_root: false,
            current_user: false,
            local_machine: true,
            users: true,
            current_config: false,
        }
    }
}

/// A root is found again at its own position, and the menu has no other position.
pub proof fn law_positions_round_trip(root: Root)
    ensures
        0 <= root.position() < all_roots().len(),
        all_roots()[root.position()] == root,
        forall|i: int|
            #![trigger all_roots()[i]]
            0 <= i < all_roots().len() ==> all_roots()[i].position() == i,
{
}

/// Different roots have different names.
pub proof fn law_names_tell_roots_apart(a: Root, b: Root)
    ensures
        a.name() == b.name() ==> a == b,
{
    reveal_strlit("HKEY_CLASSES_ROOT");
    reveal_strlit("HKEY_CURRENT_USER");
    reveal_strlit("HKEY_LOCAL_MACHINE");
    reveal_strlit("HKEY_USERS");
    reveal_strlit("HKEY_CURRENT_CONFIG");
    if a != b && a.name() == b.name() {
        assert(a.name()[6] == b.name()[6]);
        assert(a.name()[7] == b.name()[7]);
        assert(a.name().len() == b.name().len());
    }
}

/// Toggling a root changes that root's selection and no other's.
pub proof fn law_toggle_changes_one_root(selected: SelectedRoots, root: Root, other: Root)
    ensures
        selected.toggled(root).has(root) == !selected.has(root),
        other != root ==> selected.toggled(root).has(other) == selected.has(other),
{
}

/// Toggling a root twice gives the selection back.
pub proof fn law_toggle_undoes_itself(selected: SelectedRoots, root: Root)
    ensures
        selected.toggled(root).toggled(root) == selected,
{
}

/// The order of two toggles does not matter.
pub proof fn law_toggles_commute(selected: SelectedRoots, a: Root, b: Root)
    ensures
        selected.toggled(a).toggled(b) == selected.toggled(b).toggled(a),
{
}

/// What is exported holds the selected roots and no others, each once, in menu order.
pub proof fn law_export_is_the_selection(selected: SelectedRoots, root: Root)
    ensures
        selected.selection().contains(root) <==> selected.has(root),
        selected.selection().no_duplicates(),
        forall|i: int, j: int|
            0 <= i < j < selected.selection().len() ==> (#[trigger] selected.selection()[i]).position()
                < (#[trigger] selected.selection()[j]).position(),
{
    let pred = |r: Root| selected.has(r);
    lemma_filter_keeps_order(all_roots(), pred);
    assert(selected.selection() == all_roots().filter(pred));
    if selected.has(root) {
        assert(all_roots()[root.position()] == root);
    }
}

/// Filtering a list of roots in menu order leaves a list in menu order, of those that pass.
proof fn lemma_filter_keeps_order(roots: Seq<Root>, pred: spec_fn(Root) -> bool)
    requires
        forall|i: int, j: int|
            0 <= i < j < roots.len() ==> (#[trigger] roots[i]).position() < (
            #[trigger] roots[j]).position(),
    ensures
        forall|i: int, j: int|
            0 <= i < j < roots.filter(pred).len() ==> (#[trigger] roots.filter(pred)[i]).position()
                < (#[trigger] roots.filter(pred)[j]).position(),
        forall|i: int|
            0 <= i < roots.filter(pred).len() ==> roots.contains(#[trigger] roots.filter(pred)[i])
                && pred(roots.filter(pred)[i]),
        forall|i: int|
            0 <= i < roots.len() && pred(#[trigger] roots[i]) ==> roots.filter(pred).contains(roots[i]),
    decreases roots.len(),
{
    broadcast use vstd::seq_lib::group_filter_ensures;

    reveal(Seq::filter);
    if roots.len() > 0 {
        let rest = roots.drop_last();
        lemma_filter_keeps_order(rest, pred);
        let kept = rest.filter(pred);
        assert forall|i: int| 0 <= i < kept.len() implies roots.contains(#[trigger] kept[i])
            && kept[i].position() < roots.last().position() by {
            let k = choose|k: int| 0 <= k < rest.len() && rest[k] == kept[i];
            assert(roots[k] == kept[i]);
        }
    }
}

/// The five roots, in the order of the menu, with their places and their names.
pub proof fn law_roots_in_menu_order()
    ensures
        all_roots().len() == 5,
        all_roots()[0] == Root::HkeyClassesRoot && all_roots()[0].name() == "HKEY_CLASSES_ROOT"@,
        all_roots()[1] == Root::HkeyCurrentUser && all_roots()[1].name() == "HKEY_CURRENT_USER"@,
        all_roots()[2] == Root::HkeyLocalMachine && all_roots()[2].name() == "HKEY_LOCAL_MACHINE"@,
        all_roots()[3] == Root::HkeyUsers && all_roots()[3].name() == "HKEY_USERS"@,
        all_roots()[4] == Root::HkeyCurrentConfig && all_roots()[4].name()
            == "HKEY_CURRENT_CONFIG"@,
        forall|i: int| 0 <= i < 5 ==> (#[trigger] all_roots()[i]).position() == i,
{
}

/// Each root is selected exactly where its own switch is on.
pub proof fn law_each_root_has_its_switch(selected: SelectedRoots)
    ensures
        selected.has(Root::HkeyClassesRoot) == selected.classes_root,
        selected.has(Root::HkeyCurrentUser) == selected.current_user,
        selected.has(Root::HkeyLocalMachine) == selected.local_machine,
        selected.has(Root::HkeyUsers) == selected.users,
        selected.has(Root::HkeyCurrentConfig) == selected.current_config,
{
}

} // verus!
