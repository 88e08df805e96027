//! The configuration document as a tree of plain values, with the lookups
//! that reading the configuration needs.
use vstd::prelude::*;

verus! {

/// A node of a configuration document.
#[derive(Debug)]
pub enum Node {
    /// A real number, kept as written.
    Real(String),
    /// An integer.
    Integer(i64),
    /// A string.
    Text(String),
    /// A boolean.
    Boolean(bool),
    /// A sequence of nodes.
    List(Vec<Node>),
    /// A mapping, as its entries in document order.
    Hash(Vec<(Node, Node)>),
    /// A reference to an anchor.
    Alias(usize),
    /// The null value.
    Null,
    /// A value that could not be read.
    BadValue,
}

/// Whether `key` is the string `name`.
pub open spec fn key_is(key: Node, name: Seq<char>) -> bool {
    match key {
        Node::Text(s) => s@ == name,
        _ => false,
    }
}

/// The value of the first entry of `entries` whose key is `name`.
pub open spec fn find_entry(entries: Seq<(Node, Node)>, name: Seq<char>) -> Option<Node>
    decreases entries.len(),
{
    if entries.len() == 0 {
        None
    } else if key_is(entries[0].0, name) {
        Some(entries[0].1)
    } else {
        find_entry(entries.drop_first(), name)
    }
}

impl Node {
    /// The value under `name`, if this node is a mapping that holds it.
    pub open spec fn field(self, name: Seq<char>) -> Option<Node> {
        match self {
            Node::Hash(entries) => find_entry(entries@, name),
            _ => None,
        }
    }

    /// The string under `name`, if there is one.
    pub open spec fn text_field(self, name: Seq<char>) -> Option<String> {
        match self.field(name) {
            Some(Node::Text(s)) => Some(s),
            _ => None,
        }
    }

    /// The integer under `name`, if there is one.
    pub open spec fn integer_field(self, name: Seq<char>) -> Option<i64> {
        match self.field(name) {
            Some(Node::Integer(v)) => Some(v),
            _ => None,
        }
    }

    /// Whether the node under `name` is a mapping.
    pub open spec fn has_hash(self, name: Seq<char>) -> bool {
        self.field(name) matches Some(Node::Hash(_))
    }

    /// The value under `name`, if this node is a mapping that holds it.
    pub fn get(&self, name: &str) -> (r: Option<&Node>)
        ensures
            match r {
                Some(n) => self.field(name@) == Some(*n),
                None => self.field(name@) is None,
            },
    {
        match self {
            Node::Hash(entries) => {
                let mut i: usize = 0;
                assert(entries@.subrange(0, entries@.len() as int) =~= entries@);
                while i < entries.len()
                    invariant
                        i <= entries@.len(),
                        self.field(name@) == find_entry(entries@, name@),
                        find_entry(entries@, name@) == find_entry(
                            entries@.subrange(i as int, entries@.len() as int),
                            name@,
                        ),
                    decreases entries.len() - i,
                {
                    let ghost rest = entries@.subrange(i as int, entries@.len() as int);
                    assert(rest.drop_first() =~= entries@.subrange(i + 1, entries@.len() as int));
                    let entry = &entries[i];
                    if let Node::Text(s) = &entry.0 {
                        if same_text(s.as_str(), name) {
                            return Some(&entry.1);
                        }
                    }
                    i += 1;
                }
                assert(entries@.subrange(i as int, entries@.len() as int).len() == 0);
                None
            },
            _ => None,
        }
    }

    /// The string under `name`, if there is one.
    pub fn get_text(&self, name: &str) -> (r: Option<&String>)
        ensures
            match r {
                Some(s) => self.text_field(name@) == Some(*s),
                None => self.text_field(name@) is None,
            },
    {
        match self.get(name) {
            Some(Node::Text(s)) => Some(s),
            _ => None,
        }
    }

    /// The integer under `name`, if there is one.
    pub fn get_integer(&self, name: &str) -> (r: Option<i64>)
        ensures
            r == self.integer_field(name@),
    {
        match self.get(name) {
            Some(Node::Integer(v)) => Some(*v),
            _ => None,
        }
    }

    /// The items of the sequence under `name`, or none if there is no
    /// sequence there.
    pub open spec fn list_field(self, name: Seq<char>) -> Seq<Node> {
        match self.field(name) {
            Some(Node::List(items)) => items@,
            _ => Seq::empty(),
        }
    }

    /// The sequence under `name`, if there is one.
    pub fn get_list(&self, name: &str) -> (r: Option<&Vec<Node>>)
        ensures
            match r {
                Some(items) => self.list_field(name@) == items@,
                None => self.list_field(name@) == Seq::<Node>::empty(),
            },
    {
        match self.get(name) {
            Some(n) => match n {
                Node::List(items) => Some(items),
                _ => None,
            },
            None => None,
        }
    }

    /// The node under `name`, if it is a mapping.
    pub fn get_hash(&self, name: &str) -> (r: Option<&Node>)
        ensures
            match r {
                Some(n) => self.has_hash(name@) && self.field(name@) == Some(*n),
                None => !self.has_hash(name@),
            },
    {
        match self.get(name) {
            Some(n) => match n {
                Node::Hash(_) => Some(n),
                _ => None,
            },
            None => None,
        }
    }
}

/// Whether `a` and `b` hold the same characters.
pub fn same_text(a: &str, b: &str) -> (r: bool)
    ensures
        r == (a@ == b@),
{
    let n = a.unicode_len();
    if n != b.unicode_len() {
        return false;
    }
    let mut i: usize = 0;
    while i < n
        invariant
            i <= n == a@.len() == b@.len(),
            forall|j: int| 0 <= j < i ==> a@[j] == b@[j],
        decreases n - i,
    {
        if a.get_char(i) != b.get_char(i) {
            return false;
        }
        i += 1;
    }
    assert(a@ =~= b@);
    true
}

/// What `str::to_lowercase` makes of the characters `s`.
pub uninterp spec fn lowercase_of(s: Seq<char>) -> Seq<char>;

/// Relies on `str::to_lowercase`: its result depends on the characters of
/// the string alone.
#[verifier::external_body]
pub(crate) fn to_lowercase(s: &str) -> (r: String)
    ensures
        r@ == lowercase_of(s@),
{
    s.to_lowercase()
}

} // verus!
