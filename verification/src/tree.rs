//! Trees of texts, lists and dictionaries: what a theme file holds once it
//! has been read, whatever its format.

use crate::text::str_eq;
use vstd::prelude::*;

verus! {

/// A value of a theme file.
#[derive(Debug)]
pub enum Node {
    /// A text.
    Text(String),
    /// A list of values.
    List(Vec<Node>),
    /// A dictionary: keys with their values, no key twice.
    Dict(Vec<(String, Node)>),
    /// A value of any other kind: a number, a truth value, a date.
    Other,
}

/// A value of a theme file as a mathematical value.
pub enum NodeView {
    Text(Seq<char>),
    List(Seq<NodeView>),
    Dict(Seq<(Seq<char>, NodeView)>),
    Other,
}

/// The value as a mathematical value: texts by their characters, lists and
/// dictionaries by the views of what they hold.
pub open spec fn node_view(node: Node) -> NodeView
    decreases node,
{
    match node {
        Node::Text(s) => NodeView::Text(s@),
        Node::List(items) => NodeView::List(
            Seq::new(
                items@.len(),
                |i: int|
                    if 0 <= i < items@.len() {
                        node_view(items@[i])
                    } else {
                        NodeView::Other
                    },
            ),
        ),
        Node::Dict(entries) => NodeView::Dict(
            Seq::new(
                entries@.len(),
                |i: int|
                    if 0 <= i < entries@.len() {
                        let entry = entries@[i];
                        (entry.0@, node_view(entry.1))
                    } else {
                        (Seq::<char>::empty(), NodeView::Other)
                    },
            ),
        ),
        Node::Other => NodeView::Other,
    }
}

impl View for Node {
    type V = NodeView;

    open spec fn view(&self) -> NodeView {
        node_view(*self)
    }
}

/// The value that stands under `key` in `entries`: that of the first entry
/// with this key.
pub open spec fn lookup(entries: Seq<(Seq<char>, NodeView)>, key: Seq<char>) -> Option<NodeView>
    decreases entries.len(),
{
    if entries.len() == 0 {
        None
    } else if entries[0].0 == key {
        Some(entries[0].1)
    } else {
        lookup(entries.drop_first(), key)
    }
}

/// The keys of `entries`, in their order.
pub open spec fn keys_of(entries: Seq<(Seq<char>, NodeView)>) -> Seq<Seq<char>> {
    Seq::new(entries.len(), |i: int| entries[i].0)
}

impl NodeView {
    /// The text, where the value is one.
    pub open spec fn text(self) -> Option<Seq<char>> {
        match self {
            NodeView::Text(s) => Some(s),
            _ => None,
        }
    }

    /// The items, where the value is a list.
    pub open spec fn items(self) -> Option<Seq<NodeView>> {
        match self {
            NodeView::List(items) => Some(items),
            _ => None,
        }
    }

    /// The entries, where the value is a dictionary.
    pub open spec fn entries(self) -> Option<Seq<(Seq<char>, NodeView)>> {
        match self {
            NodeView::Dict(entries) => Some(entries),
            _ => None,
        }
    }

    /// The value under `key`, where the value is a dictionary that has the
    /// key.
    pub open spec fn get(self, key: Seq<char>) -> Option<NodeView> {
        match self {
            NodeView::Dict(entries) => lookup(entries, key),
            _ => None,
        }
    }

    /// The text under `key`, where the value is a dictionary that has a text
    /// under the key.
    pub open spec fn get_text(self, key: Seq<char>) -> Option<Seq<char>> {
        match self.get(key) {
            Some(v) => v.text(),
            None => None,
        }
    }

    /// The keys, where the value is a dictionary; none where it is not.
    pub open spec fn keys(self) -> Seq<Seq<char>> {
        match self {
            NodeView::Dict(entries) => keys_of(entries),
            _ => Seq::<Seq<char>>::empty(),
        }
    }
}

/// The view of a dictionary has an entry for each of its entries: the view
/// of the key with the view of the value.
pub proof fn lemma_dict_view(node: Node)
    requires
        node is Dict,
    ensures
        node@ is Dict,
        node@->Dict_0.len() == node->Dict_0@.len(),
        forall|k: int|
            0 <= k < node->Dict_0@.len() ==> #[trigger] node@->Dict_0[k] == (
                node->Dict_0@[k].0@,
                node->Dict_0@[k].1@,
            ),
{
    match node {
        Node::Dict(entries) => {
            assert(node@->Dict_0.len() == entries@.len());
        },
        _ => {},
    }
}

/// The views of a sequence of values.
pub open spec fn node_views(nodes: Seq<Node>) -> Seq<NodeView> {
    Seq::new(nodes.len(), |i: int| nodes[i]@)
}

impl Node {
    /// Whether the value is a dictionary.
    pub fn is_dict(&self) -> (r: bool)
        ensures
            r == (self@ is Dict),
    {
        match self {
            Node::Dict(_) => true,
            _ => false,
        }
    }

    /// The text, where the value is one.
    pub fn as_text(&self) -> (r: Option<&String>)
        ensures
            match r {
                Some(s) => self@.text() == Some(s@),
                None => self@.text() is None,
            },
    {
        match self {
            Node::Text(s) => Some(s),
            _ => None,
        }
    }

    /// The items, where the value is a list.
    pub fn as_list(&self) -> (r: Option<&Vec<Node>>)
        ensures
            match r {
                Some(v) => self@.items() == Some(node_views(v@)),
                None => self@.items() is None,
            },
    {
        match self {
            Node::List(items) => {
                proof {
                    assert(self@->List_0 =~= node_views(items@));
                }
                Some(items)
            },
            _ => None,
        }
    }

    /// The value under `key`, where the value is a dictionary that has the
    /// key.
    pub fn get(&self, key: &str) -> (r: Option<&Node>)
        ensures
            match r {
                Some(n) => self@.get(key@) == Some(n@),
                None => self@.get(key@) is None,
            },
    {
        match self {
            Node::Dict(entries) => {
                let ghost all = self@->Dict_0;
                let mut i: usize = 0;
                proof {
                    lemma_dict_view(*self);
                    assert(all.subrange(0, all.len() as int) =~= all);
                }
                while i < entries.len()
                    invariant
                        i <= entries@.len(),
                        self@ == NodeView::Dict(all),
                        all.len() == entries@.len(),
                        forall|k: int|
                            0 <= k < all.len() ==> #[trigger] all[k] == (
                                entries@[k].0@,
                                entries@[k].1@,
                            ),
                        lookup(all, key@) == lookup(all.subrange(i as int, all.len() as int), key@),
                    decreases entries@.len() - i,
                {
                    proof {
                        let rest = all.subrange(i as int, all.len() as int);
                        assert(rest[0] == all[i as int]);
                        assert(all[i as int] == (entries@[i as int].0@, entries@[i as int].1@));
                        assert(rest.drop_first() =~= all.subrange(i + 1, all.len() as int));
                    }
                    if str_eq(entries[i].0.as_str(), key) {
                        return Some(&entries[i].1);
                    }
                    i = i + 1;
                }
                None
            },
            _ => None,
        }
    }

    /// The text under `key`, copied; see [`NodeView::get_text`].
    pub fn get_text(&self, key: &str) -> (r: Option<String>)
        ensures
            match r {
                Some(s) => self@.get_text(key@) == Some(s@),
                None => self@.get_text(key@) is None,
            },
    {
        match self.get(key) {
            Some(n) => match n.as_text() {
                Some(s) => Some(s.clone()),
                None => None,
            },
            None => None,
        }
    }

    /// The keys, where the value is a dictionary; none where it is not.
    pub fn keys(&self) -> (r: Vec<String>)
        ensures
            crate::text::string_views(r@) == self@.keys(),
    {
        let mut out: Vec<String> = Vec::new();
        match self {
            Node::Dict(entries) => {
                let ghost all = self@->Dict_0;
                let mut i: usize = 0;
                proof {
                    lemma_dict_view(*self);
                }
                while i < entries.len()
                    invariant
                        i <= entries@.len(),
                        all.len() == entries@.len(),
                        forall|k: int|
                            0 <= k < all.len() ==> #[trigger] all[k] == (
                                entries@[k].0@,
                                entries@[k].1@,
                            ),
                        out@.len() == i,
                        forall|k: int| 0 <= k < i ==> (#[trigger] out@[k])@ == all[k].0,
                    decreases entries@.len() - i,
                {
                    out.push(entries[i].0.clone());
                    i = i + 1;
                }
                proof {
                    assert(crate::text::string_views(out@) =~= keys_of(all));
                }
            },
            _ => {
                proof {
                    assert(crate::text::string_views(out@) =~= Seq::<Seq<char>>::empty());
                }
            },
        }
        out
    }
}

} // verus!
