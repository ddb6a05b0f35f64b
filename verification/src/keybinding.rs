//! Key bindings: the editor's modifier set, the descriptor of a key press,
//! and the table that maps descriptors to commands.

use std::collections::HashMap;
use vstd::prelude::*;

verus! {

broadcast use vstd::std_specs::hash::group_hash_axioms;

/// The modifier keys that are down, the left and the right key of each kind
/// apart, as a windowing backend reports them.
#[derive(Debug, Clone, Copy, PartialEq, Eq, Structural)]
pub struct KeyModifiers {
    pub left_ctrl: bool,
    pub right_ctrl: bool,
    pub left_alt: bool,
    pub right_alt: bool,
    pub left_shift: bool,
    pub right_shift: bool,
}

/// The editor's modifier set: which kinds of modifier are down, whichever
/// of the two physical keys it is. All `false` is the set "none".
#[derive(Debug, Clone, Copy, PartialEq, Eq, Structural)]
pub struct Mod {
    pub ctrl: bool,
    pub alt: bool,
    pub shift: bool,
}

/// The modifier set of `raw`: a kind is in it where its left or its right
/// key is down.
pub open spec fn normalized(raw: KeyModifiers) -> Mod {
    Mod {
        ctrl: raw.left_ctrl || raw.right_ctrl,
        alt: raw.left_alt || raw.right_alt,
        shift: raw.left_shift || raw.right_shift,
    }
}

/// Normalizes the modifier keys of a key press into the editor's set.
pub fn normalize(raw: &KeyModifiers) -> (m: Mod)
    ensures
        m == normalized(*raw),
{
    Mod {
        ctrl: raw.left_ctrl || raw.right_ctrl,
        alt: raw.left_alt || raw.right_alt,
        shift: raw.left_shift || raw.right_shift,
    }
}

/// The descriptor of a key press: a key code and a modifier set.
#[derive(Debug, Clone, Copy, PartialEq, Eq, Structural)]
pub struct KeyBinding {
    pub key: u32,
    pub mods: Mod,
}

impl KeyBinding {
    /// The number that stands for the binding in the table: the key code
    /// above three bits for the modifiers.
    pub open spec fn code(self) -> u64 {
        (self.key * 8 + (if self.mods.ctrl {
            1int
        } else {
            0int
        }) + (if self.mods.alt {
            2int
        } else {
            0int
        }) + (if self.mods.shift {
            4int
        } else {
            0int
        })) as u64
    }

    /// The binding of `key` with the modifiers `mods`.
    pub fn new(key: u32, mods: Mod) -> (kb: Self)
        ensures
            kb == (KeyBinding { key, mods }),
    {
        KeyBinding { key, mods }
    }

    /// Computes `code`.
    fn to_code(&self) -> (c: u64)
        ensures
            c == self.code(),
    {
        let mut c: u64 = (self.key as u64) * 8;
        if self.mods.ctrl {
            c = c + 1;
        }
        if self.mods.alt {
            c = c + 2;
        }
        if self.mods.shift {
            c = c + 4;
        }
        c
    }
}

/// Two bindings with one code are one binding.
pub proof fn lemma_code_injective(a: KeyBinding, b: KeyBinding)
    requires
        a.code() == b.code(),
    ensures
        a == b,
{
}

/// A keybinding table: which command each bound key press runs. Commands
/// are named by their index in the list of commands.
pub struct KeyTable {
    codes: HashMap<u64, usize>,
}

impl View for KeyTable {
    type V = Map<KeyBinding, usize>;

    /// The table as a map from bindings to commands.
    closed spec fn view(&self) -> Map<KeyBinding, usize> {
        Map::new(
            |kb: KeyBinding| self.codes@.contains_key(kb.code()),
            |kb: KeyBinding| self.codes@[kb.code()],
        )
    }
}

/// Command `i` of `commands` declares the binding `kb`.
pub open spec fn declares(commands: Seq<Vec<KeyBinding>>, i: int, kb: KeyBinding) -> bool {
    0 <= i < commands.len() && commands[i]@.contains(kb)
}

/// `table` is the table of `commands`: a key press is bound where a command
/// declares it, to the last command that does.
pub open spec fn is_table_of(table: Map<KeyBinding, usize>, commands: Seq<Vec<KeyBinding>>) -> bool {
    &&& forall|kb: KeyBinding| #[trigger]
        table.contains_key(kb) <==> exists|i: int| declares(commands, i, kb)
    &&& forall|kb: KeyBinding| #[trigger]
        table.contains_key(kb) ==> declares(commands, table[kb] as int, kb)
    &&& forall|kb: KeyBinding, i: int|
        table.contains_key(kb) && #[trigger] declares(commands, i, kb) ==> i <= table[kb]
}

/// `table` holds the bindings of the commands before command `i` and of the
/// first `j` bindings of command `i`.
spec fn is_partial_table(
    table: Map<KeyBinding, usize>,
    commands: Seq<Vec<KeyBinding>>,
    i: int,
    j: int,
) -> bool {
    let before = commands.take(i);
    let current = commands[i]@.take(j);
    &&& forall|kb: KeyBinding| #[trigger]
        table.contains_key(kb) <==> (exists|a: int| declares(before, a, kb)) || current.contains(
            kb,
        )
    &&& forall|kb: KeyBinding| #[trigger]
        table.contains_key(kb) ==> if current.contains(kb) {
            table[kb] == i
        } else {
            declares(before, table[kb] as int, kb)
        }
    &&& forall|kb: KeyBinding, a: int|
        table.contains_key(kb) && #[trigger] declares(before, a, kb) ==> a <= table[kb]
}

/// Before the first binding of a command, the table is that of the commands
/// before it.
proof fn lemma_partial_start(table: Map<KeyBinding, usize>, commands: Seq<Vec<KeyBinding>>, i: int)
    requires
        0 <= i < commands.len(),
        is_table_of(table, commands.take(i)),
    ensures
        is_partial_table(table, commands, i, 0),
{
    let current = commands[i]@.take(0);
    assert forall|kb: KeyBinding| !current.contains(kb) by {}
}

/// One more binding of command `i` is one more `insert`.
proof fn lemma_partial_step(
    table: Map<KeyBinding, usize>,
    commands: Seq<Vec<KeyBinding>>,
    i: int,
    j: int,
)
    requires
        0 <= i < commands.len(),
        i <= usize::MAX,
        0 <= j < commands[i]@.len(),
        is_partial_table(table, commands, i, j),
    ensures
        is_partial_table(table.insert(commands[i]@[j], i as usize), commands, i, j + 1),
{
    let before = commands.take(i);
    let bindings = commands[i]@;
    let current = bindings.take(j);
    let next = bindings.take(j + 1);
    let new = bindings[j];
    let after = table.insert(new, i as usize);
    assert(next[j] == new);
    assert forall|kb: KeyBinding| next.contains(kb) <==> current.contains(kb) || kb == new by {
        if current.contains(kb) {
            let b = choose|b: int| 0 <= b < current.len() && current[b] == kb;
            assert(next[b] == kb);
        }
        if next.contains(kb) && kb != new {
            let b = choose|b: int| 0 <= b < next.len() && next[b] == kb;
            assert(current[b] == kb);
        }
    }
    assert forall|kb: KeyBinding| #[trigger]
        after.contains_key(kb) implies if next.contains(kb) {
        after[kb] == i
    } else {
        declares(before, after[kb] as int, kb)
    } by {
        if kb != new {
            assert(table.contains_key(kb));
        }
    }
    assert forall|kb: KeyBinding, a: int|
        after.contains_key(kb) && #[trigger] declares(before, a, kb) implies a <= after[kb] by {
        if kb != new {
            assert(table.contains_key(kb));
        }
    }
    assert forall|kb: KeyBinding| #[trigger]
        after.contains_key(kb) <==> (exists|a: int| declares(before, a, kb)) || next.contains(
            kb,
        ) by {
        if kb != new {
            assert(after.contains_key(kb) <==> table.contains_key(kb));
        }
    }
}

/// After the last binding of a command, the table is that of the commands up
/// to and with it.
proof fn lemma_partial_end(table: Map<KeyBinding, usize>, commands: Seq<Vec<KeyBinding>>, i: int)
    requires
        0 <= i < commands.len(),
        is_partial_table(table, commands, i, commands[i]@.len() as int),
    ensures
        is_table_of(table, commands.take(i + 1)),
{
    let before = commands.take(i);
    let upto = commands.take(i + 1);
    let bindings = commands[i]@;
    assert(bindings.take(bindings.len() as int) =~= bindings);
    assert forall|kb: KeyBinding, a: int|
        declares(upto, a, kb) <==> declares(before, a, kb) || (a == i && bindings.contains(
            kb,
        )) by {
        if 0 <= a < i {
            assert(upto[a] == before[a]);
        }
        if a == i {
            assert(upto[a] == commands[i]);
        }
    }
    assert forall|kb: KeyBinding| #[trigger]
        table.contains_key(kb) <==> exists|a: int| declares(upto, a, kb) by {
        if table.contains_key(kb) {
            if bindings.contains(kb) {
                assert(declares(upto, i, kb));
            } else {
                let a = choose|a: int| declares(before, a, kb);
                assert(declares(upto, a, kb));
            }
        }
        if exists|a: int| declares(upto, a, kb) {
            let a = choose|a: int| declares(upto, a, kb);
            if a != i {
                assert(declares(before, a, kb));
            }
        }
    }
    assert forall|kb: KeyBinding| #[trigger] table.contains_key(kb) implies declares(
        upto,
        table[kb] as int,
        kb,
    ) by {}
    assert forall|kb: KeyBinding, a: int|
        table.contains_key(kb) && #[trigger] declares(upto, a, kb) implies a <= table[kb] by {
        if a != i {
            assert(declares(before, a, kb));
        }
    }
}

impl KeyTable {
    /// The table of `commands`, where `commands[i]` holds the bindings that
    /// command `i` declares: each binding runs the last command that
    /// declares it.
    pub fn from_commands(commands: &Vec<Vec<KeyBinding>>) -> (t: Self)
        ensures
            is_table_of(t@, commands@),
    {
        let mut t = KeyTable::new();
        let mut i: usize = 0;
        proof {
            assert forall|kb: KeyBinding, a: int| !declares(commands@.take(0), a, kb) by {}
        }
        while i < commands.len()
            invariant
                i <= commands.len(),
                is_table_of(t@, commands@.take(i as int)),
            decreases commands.len() - i,
        {
            let bindings = &commands[i];
            let mut j: usize = 0;
            proof {
                lemma_partial_start(t@, commands@, i as int);
            }
            while j < bindings.len()
                invariant
                    i < commands.len(),
                    *bindings == commands@[i as int],
                    j <= bindings.len(),
                    is_partial_table(t@, commands@, i as int, j as int),
                decreases bindings.len() - j,
            {
                proof {
                    lemma_partial_step(t@, commands@, i as int, j as int);
                }
                t.insert(bindings[j], i);
                j = j + 1;
            }
            proof {
                lemma_partial_end(t@, commands@, i as int);
            }
            i = i + 1;
        }
        proof {
            assert(commands@.take(i as int) =~= commands@);
        }
        t
    }

    /// A table without bindings.
    pub fn new() -> (t: Self)
        ensures
            t@ == Map::<KeyBinding, usize>::empty(),
    {
        let t = KeyTable { codes: HashMap::new() };
        assert(t@ =~= Map::<KeyBinding, usize>::empty());
        t
    }

    /// Binds `kb` to `command`, in place of what it was bound to.
    pub fn insert(&mut self, kb: KeyBinding, command: usize)
        ensures
            final(self)@ == old(self)@.insert(kb, command),
    {
        let code = kb.to_code();
        self.codes.insert(code, command);
        proof {
            assert forall|other: KeyBinding| other.code() == kb.code() implies other == kb by {
                lemma_code_injective(other, kb);
            }
            assert(self@ =~= old(self)@.insert(kb, command));
        }
    }

    /// The command that `kb` is bound to, if any.
    pub fn get(&self, kb: &KeyBinding) -> (command: Option<usize>)
        ensures
            command == (if self@.contains_key(*kb) {
                Some(self@[*kb])
            } else {
                None
            }),
    {
        let code = kb.to_code();
        match self.codes.get(&code) {
            Some(c) => Some(*c),
            None => None,
        }
    }
}

} // verus!
