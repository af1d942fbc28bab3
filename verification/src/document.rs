//! The configuration document as a tree of plain values, and typed lookups
//! in it by dotted path.

use crate::error::{ConfigError, ErrorKind};
use vstd::prelude::*;
use vstd::string::*;

verus! {

/// `toml::Value`, a value as the `toml` crate holds it, carried through
/// unopened.
#[verifier::external_type_specification]
#[verifier::external_body]
pub struct ExTomlValue(toml::Value);

/// One value of a configuration document.
#[derive(Debug, PartialEq, Eq)]
pub enum Node {
    String(String),
    Integer(i64),
    /// A floating-point number, kept as its text.
    Float(String),
    Boolean(bool),
    /// A date or time, kept as its text.
    Datetime(String),
    Array(Vec<Node>),
    /// The entries of a table. Where a key stands twice, the first entry
    /// counts.
    Table(Vec<(String, Node)>),
}

/// The document that the `toml` crate reads from `text`, or `None` where it
/// rejects the text.
pub uninterp spec fn parsed_document(text: Seq<char>) -> Option<Node>;

/// What a `toml::Value` holds, as a tree of plain values.
pub uninterp spec fn toml_contents(value: toml::Value) -> Node;

/// Reads `text` with `str::parse::<toml::Value>`, the parser of the `toml`
/// crate. The contract gives the outcome a name and so claims that it
/// depends on the text alone; what the parser accepts and what it reads
/// there is not stated. The parser descends once for each level of nested
/// arrays and inline tables and sets no limit to that, so like memory, the
/// stack it needs grows with the text; nothing here bounds it.
#[verifier::external_body]
fn parse_toml(text: &str) -> (r: Result<toml::Value, toml::de::Error>)
    ensures
        match r {
            Ok(value) => parsed_document(text@) == Some(toml_contents(value)),
            Err(_) => parsed_document(text@) is None,
        },
{
    text.parse::<toml::Value>()
}

/// Hands out what a `toml::Value` holds, one variant of `Node` for each of
/// its own: a float and a datetime each as the text that its `to_string`
/// gives (one text for every not-a-number, whatever its bits), the items of
/// an array in their order, and the entries of a table in the order in
/// which its map walks them, which is that of the keys. The contract only
/// gives the result its name.
#[verifier::external_body]
fn node_from_toml(value: toml::Value) -> (node: Node)
    ensures
        node == toml_contents(value),
{
    match value {
        toml::Value::String(s) => Node::String(s),
        toml::Value::Integer(i) => Node::Integer(i),
        toml::Value::Float(f) => Node::Float(f.to_string()),
        toml::Value::Boolean(b) => Node::Boolean(b),
        toml::Value::Datetime(d) => Node::Datetime(d.to_string()),
        toml::Value::Array(a) => Node::Array(a.into_iter().map(node_from_toml).collect()),
        toml::Value::Table(t) => Node::Table(
            t.into_iter().map(|(k, v)| (k, node_from_toml(v))).collect(),
        ),
    }
}

/// The value of the first entry under `key`, if there is one.
pub open spec fn find(entries: Seq<(String, Node)>, key: Seq<char>) -> Option<Node>
    decreases entries.len(),
{
    if entries.len() == 0 {
        None
    } else if entries[0].0@ == key {
        Some(entries[0].1)
    } else {
        find(entries.skip(1), key)
    }
}

/// The parts of a dotted path: the texts between its dots, so one more than
/// it has dots.
pub open spec fn segments(path: Seq<char>) -> Seq<Seq<char>>
    decreases path.len(),
{
    if path.len() == 0 {
        seq![Seq::empty()]
    } else {
        let before = segments(path.drop_last());
        if path.last() == '.' {
            before.push(Seq::empty())
        } else {
            before.drop_last().push(before.last().push(path.last()))
        }
    }
}

/// Whether `number` can be held in 32 bits.
pub open spec fn fits_i32(number: i64) -> bool {
    i32::MIN <= number <= i32::MAX
}

/// Whether every one of `items` is a string.
pub open spec fn all_strings(items: Seq<Node>) -> bool {
    forall|i: int| 0 <= i < items.len() ==> #[trigger] items[i] is String
}

impl Node {
    /// The value under `key`, where this is a table that has the key.
    pub open spec fn at(self, key: Seq<char>) -> Option<Node> {
        match self {
            Node::Table(entries) => find(entries@, key),
            _ => None,
        }
    }

    /// The value reached from here by going under each of `keys` in turn.
    pub open spec fn walk(self, keys: Seq<Seq<char>>) -> Option<Node>
        decreases keys.len(),
    {
        if keys.len() == 0 {
            Some(self)
        } else {
            match self.walk(keys.drop_last()) {
                Some(node) => node.at(keys.last()),
                None => None,
            }
        }
    }

    /// The value at the dotted path `path`.
    pub open spec fn seek_path(self, path: Seq<char>) -> Option<Node> {
        self.walk(segments(path))
    }

    /// The string at `path`; absent where nothing is there or what is there
    /// is no string.
    pub open spec fn str_at(self, path: Seq<char>) -> Option<Seq<char>> {
        match self.seek_path(path) {
            Some(Node::String(text)) => Some(text@),
            _ => None,
        }
    }

    /// The boolean at `path`; absent where nothing is there or what is
    /// there is no boolean.
    pub open spec fn bool_at(self, path: Seq<char>) -> Option<bool> {
        match self.seek_path(path) {
            Some(Node::Boolean(flag)) => Some(flag),
            _ => None,
        }
    }

    /// The 32-bit integer at `path`; absent where nothing is there or what
    /// is there is no integer or one that does not fit in 32 bits.
    pub open spec fn i32_at(self, path: Seq<char>) -> Option<i32> {
        match self.seek_path(path) {
            Some(Node::Integer(number)) => if fits_i32(number) {
                Some(number as i32)
            } else {
                None
            },
            _ => None,
        }
    }

    /// The list of strings at `path`; absent where nothing is there or what
    /// is there is no array or an array that holds anything but strings.
    pub open spec fn vec_str_at(self, path: Seq<char>) -> Option<Seq<Seq<char>>> {
        match self.seek_path(path) {
            Some(Node::Array(items)) => if all_strings(items@) {
                Some(items@.map_values(|item: Node| item->String_0@))
            } else {
                None
            },
            _ => None,
        }
    }
}

/// One more entry at the end changes a lookup only where no earlier entry
/// has the key.
pub proof fn lemma_find_push(entries: Seq<(String, Node)>, entry: (String, Node), key: Seq<char>)
    ensures
        find(entries.push(entry), key) == match find(entries, key) {
            Some(node) => Some(node),
            None => if entry.0@ == key {
                Some(entry.1)
            } else {
                None
            },
        },
    decreases entries.len(),
{
    if entries.len() == 0 {
        assert(entries.push(entry).skip(1) =~= entries);
    } else {
        assert(entries.push(entry).skip(1) =~= entries.skip(1).push(entry));
        lemma_find_push(entries.skip(1), entry, key);
    }
}

/// What a lookup finds among the first entries of a table, it finds in the
/// whole table.
pub proof fn lemma_find_prefix(entries: Seq<(String, Node)>, count: int, key: Seq<char>)
    requires
        0 <= count <= entries.len(),
        find(entries.take(count), key) is Some,
    ensures
        find(entries, key) == find(entries.take(count), key),
    decreases entries.len() - count,
{
    if count < entries.len() {
        lemma_find_push(entries.take(count), entries[count], key);
        assert(entries.take(count + 1) =~= entries.take(count).push(entries[count]));
        lemma_find_prefix(entries, count + 1, key);
    } else {
        assert(entries.take(count) =~= entries);
    }
}

/// A path has at least one part.
pub proof fn lemma_segments_not_empty(path: Seq<char>)
    ensures
        segments(path).len() >= 1,
    decreases path.len(),
{
    if path.len() > 0 {
        lemma_segments_not_empty(path.drop_last());
    }
}

/// A path without a dot has one part, itself.
pub proof fn lemma_segments_plain(path: Seq<char>)
    requires
        forall|i: int| 0 <= i < path.len() ==> path[i] != '.',
    ensures
        segments(path) == seq![path],
    decreases path.len(),
{
    if path.len() == 0 {
        assert(path =~= Seq::empty());
    } else {
        let front = path.drop_last();
        lemma_segments_plain(front);
        assert(front.push(path.last()) =~= path);
        assert(seq![front].drop_last().push(seq![front].last().push(path.last())) =~= seq![path]);
    }
}

/// The parts of two paths joined by a dot are the parts of the first
/// followed by the parts of the second.
pub proof fn lemma_segments_join(front: Seq<char>, back: Seq<char>)
    ensures
        segments(front + seq!['.'] + back) == segments(front) + segments(back),
    decreases back.len(),
{
    let whole = front + seq!['.'] + back;
    if back.len() == 0 {
        assert(whole.drop_last() =~= front);
        assert(segments(front).push(Seq::empty()) =~= segments(front) + seq![
            Seq::<char>::empty(),
        ]);
    } else {
        let shorter = back.drop_last();
        assert(whole.drop_last() =~= front + seq!['.'] + shorter);
        assert(whole.last() == back.last());
        lemma_segments_join(front, shorter);
        lemma_segments_not_empty(shorter);
        let before = segments(front) + segments(shorter);
        if back.last() == '.' {
            assert(before.push(Seq::empty()) =~= segments(front) + segments(shorter).push(
                Seq::empty(),
            ));
        } else {
            assert(before.drop_last().push(before.last().push(back.last())) =~= segments(front)
                + segments(shorter).drop_last().push(
                segments(shorter).last().push(back.last()),
            ));
        }
    }
}

/// To go under some keys and then under more is to go under all of them
/// in one walk.
pub proof fn lemma_walk_append(node: Node, first: Seq<Seq<char>>, more: Seq<Seq<char>>)
    ensures
        node.walk(first + more) == match node.walk(first) {
            Some(reached) => reached.walk(more),
            None => None,
        },
    decreases more.len(),
{
    if more.len() == 0 {
        assert(first + more =~= first);
    } else {
        assert((first + more).drop_last() =~= first + more.drop_last());
        assert((first + more).last() == more.last());
        lemma_walk_append(node, first, more.drop_last());
    }
}

/// A dotted path leads where its front part leads and from there where
/// its back part leads.
pub proof fn lemma_seek_path_join(node: Node, front: Seq<char>, back: Seq<char>)
    ensures
        node.seek_path(front + seq!['.'] + back) == match node.seek_path(front) {
            Some(reached) => reached.seek_path(back),
            None => None,
        },
{
    lemma_segments_join(front, back);
    lemma_walk_append(node, segments(front), segments(back));
}

/// A path without a dot leads to the value under it as a key.
pub proof fn lemma_seek_path_plain(node: Node, key: Seq<char>)
    requires
        forall|i: int| 0 <= i < key.len() ==> key[i] != '.',
    ensures
        node.seek_path(key) == node.at(key),
{
    lemma_segments_plain(key);
    assert(seq![key].drop_last() =~= Seq::<Seq<char>>::empty());
    assert(node.walk(Seq::empty()) == Some(node));
}

impl Node {
    /// Reads the configuration text `text`. A text that is no TOML document
    /// gives a `ConfigTomlIllegal` failure that carries the parser's own and
    /// no message.
    pub fn parse(text: &str) -> (r: Result<Node, ConfigError>)
        ensures
            match parsed_document(text@) {
                Some(doc) => r == Ok::<Node, ConfigError>(doc),
                None => r matches Err(e) && e.kind == ErrorKind::ConfigTomlIllegal
                    && e.inner is Some && e.message is None,
            },
    {
        match parse_toml(text) {
            Ok(value) => Ok(node_from_toml(value)),
            Err(e) => Err(
                ConfigError { kind: ErrorKind::ConfigTomlIllegal, inner: Some(e), message: None },
            ),
        }
    }

    /// The value under `key`, where this is a table that has the key.
    pub fn get(&self, key: &str) -> (r: Option<&Node>)
        ensures
            match r {
                Some(node) => self.at(key@) == Some(*node),
                None => self.at(key@) is None,
            },
    {
        match self {
            Node::Table(entries) => {
                let wanted = key.to_owned();
                let mut i: usize = 0;
                while i < entries.len()
                    invariant
                        i <= entries.len(),
                        *self == Node::Table(*entries),
                        wanted@ == key@,
                        find(entries@.take(i as int), key@) is None,
                    decreases entries.len() - i,
                {
                    proof {
                        lemma_find_push(entries@.take(i as int), entries@[i as int], key@);
                        assert(entries@.take(i + 1) =~= entries@.take(i as int).push(
                            entries@[i as int],
                        ));
                    }
                    if entries[i].0 == wanted {
                        proof {
                            assert(entries@[i as int].0@ == key@);
                            assert(find(entries@.take(i + 1), key@) == Some(entries@[i as int].1));
                            lemma_find_prefix(entries@, i + 1, key@);
                        }
                        return Some(&entries[i].1);
                    }
                    i += 1;
                }
                assert(entries@.take(i as int) =~= entries@);
                None
            },
            _ => None,
        }
    }

    /// The value at the dotted path `path`.
    pub fn seek(&self, path: &str) -> (r: Option<&Node>)
        ensures
            match r {
                Some(node) => self.seek_path(path@) == Some(*node),
                None => self.seek_path(path@) is None,
            },
    {
        let length = path.unicode_len();
        let mut node: Option<&Node> = Some(self);
        let mut start: usize = 0;
        let mut i: usize = 0;
        let ghost mut done: Seq<Seq<char>> = Seq::empty();
        proof {
            assert(path@.take(0) =~= Seq::empty());
            assert(path@.subrange(0, 0) =~= Seq::empty());
            assert(segments(path@.take(0)) =~= done.push(Seq::empty()));
        }
        while i < length
            invariant
                start <= i <= length,
                length == path@.len(),
                segments(path@.take(i as int)) == done.push(path@.subrange(start as int, i as int)),
                match node {
                    Some(n) => self.walk(done) == Some(*n),
                    None => self.walk(done) is None,
                },
            decreases length - i,
        {
            proof {
                assert(path@.take(i + 1).drop_last() =~= path@.take(i as int));
                let before = segments(path@.take(i as int));
                let part = path@.subrange(start as int, i as int);
                assert(before.last() == part);
                assert(before.drop_last() =~= done);
            }
            if path.get_char(i) == '.' {
                let key = path.substring_char(start, i);
                node = match node {
                    Some(n) => n.get(key),
                    None => None,
                };
                proof {
                    let walked = done.push(key@);
                    assert(walked.drop_last() =~= done);
                    done = walked;
                    assert(path@.subrange(i + 1, i + 1) =~= Seq::empty());
                }
                start = i + 1;
            } else {
                proof {
                    assert(path@.subrange(start as int, i + 1) =~= path@.subrange(
                        start as int,
                        i as int,
                    ).push(path@[i as int]));
                }
            }
            i += 1;
        }
        let key = path.substring_char(start, length);
        proof {
            assert(path@.take(length as int) =~= path@);
            assert(segments(path@).drop_last() =~= done);
        }
        match node {
            Some(n) => n.get(key),
            None => None,
        }
    }

    /// The string at the dotted path `path`, if a string is there.
    pub fn seek_str(&self, path: &str) -> (r: Option<String>)
        ensures
            r.deep_view() == self.str_at(path@),
    {
        match self.seek(path) {
            Some(Node::String(text)) => Some(text.clone()),
            _ => None,
        }
    }

    /// The boolean at the dotted path `path`, if a boolean is there.
    pub fn seek_bool(&self, path: &str) -> (r: Option<bool>)
        ensures
            r == self.bool_at(path@),
    {
        match self.seek(path) {
            Some(Node::Boolean(flag)) => Some(*flag),
            _ => None,
        }
    }

    /// The integer at the dotted path `path`, if an integer is there and
    /// fits in 32 bits.
    pub fn seek_i32(&self, path: &str) -> (r: Option<i32>)
        ensures
            r == self.i32_at(path@),
    {
        match self.seek(path) {
            Some(Node::Integer(number)) => {
                if i32::MIN as i64 <= *number && *number <= i32::MAX as i64 {
                    Some(*number as i32)
                } else {
                    None
                }
            },
            _ => None,
        }
    }

    /// The list of strings at the dotted path `path`, if an array of
    /// nothing but strings is there.
    pub fn seek_vec_str(&self, path: &str) -> (r: Option<Vec<String>>)
        ensures
            r.deep_view() == self.vec_str_at(path@),
    {
        match self.seek(path) {
            Some(Node::Array(items)) => {
                let mut list: Vec<String> = Vec::new();
                let mut i: usize = 0;
                while i < items.len()
                    invariant
                        i <= items.len(),
                        self.seek_path(path@) == Some(Node::Array(*items)),
                        list.len() == i,
                        forall|k: int| 0 <= k < i ==> #[trigger] items[k] is String,
                        forall|k: int| 0 <= k < i ==> list[k]@ == (#[trigger] items[k])->String_0@,
                    decreases items.len() - i,
                {
                    match &items[i] {
                        Node::String(text) => {
                            list.push(text.clone());
                        },
                        _ => {
                            assert(!(items@[i as int] is String));
                            return None;
                        },
                    }
                    i += 1;
                }
                assert(list.deep_view() =~= items@.map_values(|item: Node| item->String_0@));
                Some(list)
            },
            _ => None,
        }
    }
}

} // verus!
