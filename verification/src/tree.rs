//! The tree that every configuration layer is normalised to: tables of named
//! entries with scalar or list leaves, addressed by dotted paths.

use crate::text::split_dots;
use crate::text::split_path;
use crate::text::views;
use vstd::prelude::*;

verus! {

/// A configuration tree as it is held in memory.
#[derive(Debug, PartialEq, Eq)]
pub enum Node {
    /// An absent value.
    Null,
    Bool(bool),
    /// A number, kept as its decimal text.
    Number(String),
    Text(String),
    /// A list; lists are leaves and are never merged element by element.
    List(Vec<Node>),
    /// A nested mapping, in the order in which its keys were first written.
    Table(Vec<(String, Node)>),
}

/// The mathematical value of a [`Node`].
pub ghost enum Tree {
    Null,
    Bool(bool),
    Number(Seq<char>),
    Text(Seq<char>),
    List(Seq<Tree>),
    Table(Seq<(Seq<char>, Tree)>),
}

/// The mathematical value of a node.
pub open spec fn tree_of(n: Node) -> Tree
    decreases n,
{
    match n {
        Node::Null => Tree::Null,
        Node::Bool(b) => Tree::Bool(b),
        Node::Number(t) => Tree::Number(t@),
        Node::Text(t) => Tree::Text(t@),
        Node::List(items) => Tree::List(
            Seq::new(
                items@.len(),
                |i: int|
                    if 0 <= i < items@.len() {
                        tree_of(items@[i])
                    } else {
                        Tree::Null
                    },
            ),
        ),
        Node::Table(entries) => Tree::Table(
            Seq::new(
                entries@.len(),
                |i: int|
                    if 0 <= i < entries@.len() {
                        (entries@[i].0@, tree_of(entries@[i].1))
                    } else {
                        (Seq::<char>::empty(), Tree::Null)
                    },
            ),
        ),
    }
}

impl View for Node {
    type V = Tree;

    open spec fn view(&self) -> Tree {
        tree_of(*self)
    }
}

/// The first position in `entries` that holds `key`, or the length of
/// `entries` where no entry does.
pub open spec fn key_index(entries: Seq<(Seq<char>, Tree)>, key: Seq<char>) -> int
    decreases entries.len(),
{
    if entries.len() == 0 {
        0
    } else if entries[0].0 == key {
        0
    } else {
        1 + key_index(entries.drop_first(), key)
    }
}

/// Where `key_index` points: at the first entry with that key, or past the end.
pub proof fn lemma_key_index(entries: Seq<(Seq<char>, Tree)>, key: Seq<char>)
    ensures
        0 <= key_index(entries, key) <= entries.len(),
        key_index(entries, key) < entries.len() ==> entries[key_index(entries, key)].0 == key,
        forall|j: int| 0 <= j < key_index(entries, key) ==> (#[trigger] entries[j]).0 != key,
    decreases entries.len(),
{
    if entries.len() > 0 && entries[0].0 != key {
        let rest = entries.drop_first();
        lemma_key_index(rest, key);
        assert forall|j: int| 0 <= j < key_index(entries, key) implies (#[trigger] entries[j]).0
            != key by {
            if j > 0 {
                assert(entries[j] == rest[j - 1]);
            }
        }
    }
}

/// A position is the key's index when it holds the key and nothing before it does.
pub proof fn lemma_key_index_is(entries: Seq<(Seq<char>, Tree)>, key: Seq<char>, i: int)
    requires
        0 <= i <= entries.len(),
        i < entries.len() ==> entries[i].0 == key,
        forall|j: int| 0 <= j < i ==> (#[trigger] entries[j]).0 != key,
    ensures
        key_index(entries, key) == i,
    decreases entries.len(),
{
    if entries.len() > 0 {
        if i == 0 {
        } else {
            assert(entries[0].0 != key);
            let rest = entries.drop_first();
            assert forall|j: int| 0 <= j < i - 1 implies (#[trigger] rest[j]).0 != key by {
                assert(rest[j] == entries[j + 1]);
            }
            lemma_key_index_is(rest, key, i - 1);
        }
    }
}

impl Tree {
    /// The empty table.
    pub open spec fn empty() -> Tree {
        Tree::Table(Seq::empty())
    }

    /// The entries of a table; nothing else has entries.
    pub open spec fn entries(self) -> Seq<(Seq<char>, Tree)> {
        match self {
            Tree::Table(e) => e,
            _ => Seq::empty(),
        }
    }

    /// A value that a merge writes: anything but an absent value or a table.
    pub open spec fn is_leaf(self) -> bool {
        !(self is Null) && !(self is Table)
    }

    /// The value stored under `key` in a table.
    pub open spec fn field(self, key: Seq<char>) -> Option<Tree> {
        let e = self.entries();
        let i = key_index(e, key);
        if i < e.len() {
            Some(e[i].1)
        } else {
            None
        }
    }

    /// The table with `key` bound to `value`: an existing entry keeps its
    /// place, a new one goes to the end. Anything but a table is left as it is.
    pub open spec fn put(self, key: Seq<char>, value: Tree) -> Tree {
        match self {
            Tree::Table(e) => {
                let i = key_index(e, key);
                if i < e.len() {
                    Tree::Table(e.update(i, (key, value)))
                } else {
                    Tree::Table(e.push((key, value)))
                }
            },
            _ => self,
        }
    }

    /// The value reached by following `parts` down from this tree.
    pub open spec fn at(self, parts: Seq<Seq<char>>) -> Option<Tree>
        decreases parts.len(),
    {
        if parts.len() == 0 {
            Some(self)
        } else {
            match self.field(parts[0]) {
                Some(child) => child.at(parts.drop_first()),
                None => None,
            }
        }
    }

    /// This tree where it is a table, and an empty table in place of
    /// anything else.
    pub open spec fn as_table(self) -> Tree {
        if self is Table {
            self
        } else {
            Tree::empty()
        }
    }

    /// The tree after `value` is written at the place that `parts` names.
    /// Missing tables on the way are created, and a value on the way that
    /// is no table gives way to a table, so that the value can be read back
    /// at the place. Without a place to write at, the tree stays as it is.
    pub open spec fn with(self, parts: Seq<Seq<char>>, value: Tree) -> Tree
        decreases parts.len(),
    {
        if parts.len() == 0 {
            self
        } else if parts.len() == 1 {
            self.as_table().put(parts[0], value)
        } else {
            let child = match self.field(parts[0]) {
                Some(c) => c,
                None => Tree::empty(),
            };
            self.as_table().put(parts[0], child.with(parts.drop_first(), value))
        }
    }

    /// The value at a dotted path.
    pub open spec fn lookup(self, path: Seq<char>) -> Option<Tree> {
        self.at(split_dots(path))
    }

    /// Whether the tree is a mapping throughout: every table in it, at
    /// every depth and also inside lists, binds each of its keys once.
    pub open spec fn is_mapping(self) -> bool
        decreases self,
    {
        match self {
            Tree::Table(e) => crate::default_laws::distinct_keys(e) && forall|i: int|
                0 <= i < e.len() ==> (#[trigger] e[i]).1.is_mapping(),
            Tree::List(items) => forall|i: int|
                0 <= i < items.len() ==> (#[trigger] items[i]).is_mapping(),
            _ => true,
        }
    }
}

/// The entries of a table in memory, seen as mathematical entries.
pub open spec fn entries_view(entries: Seq<(String, Node)>) -> Seq<(Seq<char>, Tree)> {
    Seq::new(entries.len(), |i: int| (entries[i].0@, entries[i].1@))
}

/// A table's view is the view of its entries.
pub proof fn lemma_table_view(entries: Vec<(String, Node)>)
    ensures
        Node::Table(entries)@ == Tree::Table(entries_view(entries@)),
{
    let t = Node::Table(entries)@;
    assert(t->Table_0 =~= entries_view(entries@));
}

/// The items of a list in memory, seen as mathematical values.
pub open spec fn items_view(items: Seq<Node>) -> Seq<Tree> {
    Seq::new(items.len(), |i: int| items[i]@)
}

/// A list's view is the view of its items.
pub proof fn lemma_list_view(items: Vec<Node>)
    ensures
        Node::List(items)@ == Tree::List(items_view(items@)),
{
    let t = Node::List(items)@;
    assert(t->List_0 =~= items_view(items@));
}

/// The position of the first entry with the given key.
fn find_key(entries: &Vec<(String, Node)>, key: &str) -> (r: Option<usize>)
    ensures
        match r {
            Some(i) => i < entries.len() && key_index(entries_view(entries@), key@) == i,
            None => key_index(entries_view(entries@), key@) == entries.len(),
        },
{
    let mut i: usize = 0;
    while i < entries.len()
        invariant
            i <= entries.len(),
            forall|j: int| 0 <= j < i ==> (#[trigger] entries_view(entries@)[j]).0 != key@,
        decreases entries.len() - i,
    {
        if entries[i].0.as_str().eq(key) {
            proof {
                lemma_key_index_is(entries_view(entries@), key@, i as int);
            }
            return Some(i);
        }
        i = i + 1;
    }
    proof {
        lemma_key_index_is(entries_view(entries@), key@, entries.len() as int);
    }
    None
}

impl Node {
    /// A table without entries.
    pub fn empty_table() -> (r: Node)
        ensures
            r@ == Tree::empty(),
    {
        let entries: Vec<(String, Node)> = Vec::new();
        proof {
            lemma_table_view(entries);
            assert(entries_view(entries@) =~= Seq::empty());
        }
        Node::Table(entries)
    }

    /// A text leaf.
    pub fn text(s: &str) -> (r: Node)
        ensures
            r@ == Tree::Text(s@),
    {
        Node::Text(crate::text::owned(s))
    }

    /// A number leaf with the given decimal text.
    pub fn number(s: &str) -> (r: Node)
        ensures
            r@ == Tree::Number(s@),
    {
        Node::Number(crate::text::owned(s))
    }

    pub fn is_table(&self) -> (r: bool)
        ensures
            r == (self@ is Table),
    {
        match self {
            Node::Table(_) => true,
            _ => false,
        }
    }

    pub fn is_null(&self) -> (r: bool)
        ensures
            r == (self@ is Null),
    {
        match self {
            Node::Null => true,
            _ => false,
        }
    }

    /// The number of entries of a table, and zero for anything else.
    pub fn entry_count(&self) -> (r: usize)
        ensures
            r == self@.entries().len(),
    {
        match self {
            Node::Table(entries) => {
                proof {
                    lemma_table_view(*entries);
                }
                entries.len()
            },
            _ => 0,
        }
    }

    /// The value stored under `key`, if this is a table that has the key.
    pub fn get(&self, key: &str) -> (r: Option<&Node>)
        ensures
            match r {
                Some(child) => self@.field(key@) == Some(child@),
                None => self@.field(key@) is None,
            },
    {
        match self {
            Node::Table(entries) => {
                proof {
                    lemma_table_view(*entries);
                }
                match find_key(entries, key) {
                    Some(i) => Some(&entries[i].1),
                    None => None,
                }
            },
            _ => None,
        }
    }

    /// The value reached from this node through `parts[from..]`.
    fn get_at<'a>(&'a self, parts: &Vec<String>, from: usize) -> (r: Option<&'a Node>)
        requires
            from <= parts.len(),
        ensures
            match r {
                Some(n) => self@.at(views(parts@).subrange(from as int, parts.len() as int))
                    == Some(n@),
                None => self@.at(views(parts@).subrange(from as int, parts.len() as int)) is None,
            },
        decreases parts.len() - from,
    {
        let ghost rest = views(parts@).subrange(from as int, parts.len() as int);
        if from == parts.len() {
            Some(self)
        } else {
            proof {
                assert(rest[0] == parts@[from as int]@);
                assert(rest.drop_first() =~= views(parts@).subrange(
                    from as int + 1,
                    parts.len() as int,
                ));
            }
            match self.get(parts[from].as_str()) {
                Some(child) => child.get_at(parts, from + 1),
                None => None,
            }
        }
    }

    /// The value at a dotted path, if the path leads to one.
    pub fn lookup(&self, path: &str) -> (r: Option<&Node>)
        ensures
            match r {
                Some(n) => self@.lookup(path@) == Some(n@),
                None => self@.lookup(path@) is None,
            },
    {
        let parts = split_path(path);
        proof {
            assert(views(parts@).subrange(0, parts.len() as int) =~= views(parts@));
        }
        self.get_at(&parts, 0)
    }

    /// A deep copy.
    pub fn duplicate(&self) -> (r: Node)
        ensures
            r@ == self@,
        decreases self,
    {
        match self {
            Node::Null => Node::Null,
            Node::Bool(b) => Node::Bool(*b),
            Node::Number(t) => Node::Number(t.clone()),
            Node::Text(t) => Node::Text(t.clone()),
            Node::List(items) => {
                let mut out: Vec<Node> = Vec::new();
                let mut i: usize = 0;
                while i < items.len()
                    invariant
                        self is List,
                        self->List_0 == *items,
                        i <= items.len(),
                        out.len() == i,
                        forall|j: int| 0 <= j < i ==> (#[trigger] out@[j])@ == items@[j]@,
                    decreases items.len() - i,
                {
                    proof {
                        assert(decreases_to!(self => self->List_0));
                        assert(decreases_to!(self->List_0 => self->List_0@));
                        assert(decreases_to!(self->List_0@ => self->List_0@[i as int]));
                    }
                    let copy = items[i].duplicate();
                    out.push(copy);
                    i = i + 1;
                }
                proof {
                    lemma_list_view(out);
                    lemma_list_view(*items);
                    assert(items_view(out@) =~= items_view(items@));
                }
                Node::List(out)
            },
            Node::Table(entries) => {
                let mut out: Vec<(String, Node)> = Vec::new();
                let mut i: usize = 0;
                while i < entries.len()
                    invariant
                        self is Table,
                        self->Table_0 == *entries,
                        i <= entries.len(),
                        out.len() == i,
                        forall|j: int|
                            0 <= j < i ==> (#[trigger] out@[j]).0@ == entries@[j].0@ && out@[j].1@
                                == entries@[j].1@,
                    decreases entries.len() - i,
                {
                    proof {
                        assert(decreases_to!(self => self->Table_0));
                        assert(decreases_to!(self->Table_0 => self->Table_0@));
                        assert(decreases_to!(self->Table_0@ => self->Table_0@[i as int]));
                        assert(decreases_to!(self->Table_0@[i as int] => self->Table_0@[i as int].1));
                    }
                    let copy = entries[i].1.duplicate();
                    out.push((entries[i].0.clone(), copy));
                    i = i + 1;
                }
                proof {
                    lemma_table_view(out);
                    lemma_table_view(*entries);
                    assert(entries_view(out@) =~= entries_view(entries@));
                }
                Node::Table(out)
            },
        }
    }

    /// Binds `key` to `value` in a table; see [`Tree::put`].
    pub fn insert(&mut self, key: String, value: Node)
        ensures
            final(self)@ == old(self)@.put(key@, value@),
            old(self)@.is_mapping() && value@.is_mapping() ==> final(self)@.is_mapping(),
    {
        proof {
            if self@.is_mapping() && value@.is_mapping() {
                crate::mapping_laws::lemma_put_keeps_mapping(self@, key@, value@);
            }
        }
        let mut taken = Node::Null;
        core::mem::swap(self, &mut taken);
        *self = put_entry(taken, key, value);
    }

    /// Writes `value` at a dotted path, where it is read back afterwards;
    /// see [`Tree::with`]. A mapping stays a mapping where a mapping is
    /// written.
    pub fn set_nested_value(&mut self, path: &str, value: Node)
        ensures
            final(self)@ == old(self)@.with(split_dots(path@), value@),
            final(self)@.lookup(path@) == Some(value@),
            old(self)@.is_mapping() && value@.is_mapping() ==> final(self)@.is_mapping(),
    {
        proof {
            crate::text::lemma_split_dots_shape(path@);
            crate::tree_laws::lemma_with_same(self@, split_dots(path@), value@);
            if self@.is_mapping() && value@.is_mapping() {
                crate::mapping_laws::lemma_with_keeps_mapping(self@, split_dots(path@), value@);
            }
        }
        let parts = split_path(path);
        let mut taken = Node::Null;
        core::mem::swap(self, &mut taken);
        proof {
            assert(views(parts@).subrange(0, parts.len() as int) =~= views(parts@));
        }
        *self = set_at(taken, &parts, 0, value);
    }
}

/// The node with `key` bound to `value`.
fn put_entry(node: Node, key: String, value: Node) -> (r: Node)
    ensures
        r@ == node@.put(key@, value@),
{
    match node {
        Node::Table(mut entries) => {
            let ghost before = entries_view(entries@);
            proof {
                lemma_table_view(entries);
            }
            match find_key(&entries, key.as_str()) {
                Some(i) => {
                    entries.set(i, (key, value));
                    proof {
                        lemma_table_view(entries);
                        assert(entries_view(entries@) =~= before.update(
                            i as int,
                            (key@, value@),
                        ));
                    }
                },
                None => {
                    entries.push((key, value));
                    proof {
                        lemma_table_view(entries);
                        assert(entries_view(entries@) =~= before.push((key@, value@)));
                    }
                },
            }
            Node::Table(entries)
        },
        other => other,
    }
}

/// The node after `value` is written at the place named by `parts[from..]`.
fn set_at(node: Node, parts: &Vec<String>, from: usize, value: Node) -> (r: Node)
    requires
        from < parts.len(),
    ensures
        r@ == node@.with(views(parts@).subrange(from as int, parts.len() as int), value@),
    decreases parts.len() - from,
{
    let ghost rest = views(parts@).subrange(from as int, parts.len() as int);
    proof {
        assert(rest[0] == parts@[from as int]@);
        assert(rest.drop_first() =~= views(parts@).subrange(from as int + 1, parts.len() as int));
    }
    let node = if node.is_table() {
        node
    } else {
        Node::empty_table()
    };
    let key = parts[from].clone();
    if from + 1 == parts.len() {
        put_entry(node, key, value)
    } else {
        let child = match node.get(key.as_str()) {
            Some(c) => c.duplicate(),
            None => Node::empty_table(),
        };
        let grown = set_at(child, parts, from + 1, value);
        put_entry(node, key, grown)
    }
}

} // verus!

