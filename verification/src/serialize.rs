//! Encoding to JSON nodes, with byte payloads kept beside the tree.
use crate::json::{item_views, lemma_array_view, lemma_object_view, member_views, JsonView, JSON};
use crate::number::Number;
use crate::util::{Id, MimeTypeId};
use vstd::prelude::*;
use vstd::slice::slice_to_vec;

verus! {

/// One byte payload beside the tree: its MIME type and its bytes.
pub type PartView = (Seq<char>, Seq<u8>);

/// The node that stands in the tree for the payload with this number.
/// Payloads are numbered from one, in the order in which they were handed
/// over.
pub open spec fn part_reference(index: nat) -> JsonView {
    JsonView::single(
        "part"@,
        JsonView::Number(Number { negative: false, digits: index as u64, exponent: 0 }),
    )
}

/// A store to put byte payloads in while a tree is encoded. It only
/// grows, at its end.
pub trait BinaryParts {
    /// The payloads handed over so far, first to last.
    spec fn parts(&self) -> Seq<PartView>;

    /// Appends a payload and gives the node that refers to it.
    fn push(&mut self, mimetype: Id<MimeTypeId>, binary: &[u8]) -> (json: JSON)
        ensures
            final(self).parts() == old(self).parts().push((mimetype@, binary@)),
            json@ == part_reference(final(self).parts().len()),
    ;
}

/// A store that keeps the payloads in a vector.
#[derive(Debug)]
pub struct MultiPart {
    pub buf: Vec<(Id<MimeTypeId>, Vec<u8>)>,
}

impl View for MultiPart {
    type V = Seq<PartView>;

    open spec fn view(&self) -> Seq<PartView> {
        self.buf.deep_view()
    }
}

impl MultiPart {
    pub fn new() -> (r: Self)
        ensures
            r@ == Seq::<PartView>::empty(),
    {
        let r = MultiPart { buf: Vec::new() };
        assert(r@ =~= Seq::<PartView>::empty());
        r
    }
}

impl BinaryParts for MultiPart {
    open spec fn parts(&self) -> Seq<PartView> {
        self@
    }

    fn push(&mut self, mimetype: Id<MimeTypeId>, binary: &[u8]) -> (json: JSON) {
        let ghost before = self@;
        let bytes = slice_to_vec(binary);
        assert(bytes.deep_view() =~= binary@);
        self.buf.push((mimetype, bytes));
        assert(self@ =~= before.push((mimetype@, binary@)));
        let index = self.buf.len();
        JSON::single("part", JSON::Number(Number::from_u64(index as u64)))
    }
}

/// A value that can be encoded as a JSON node.
pub trait ToJSON {
    /// The node that encoding gives when the store holds `before` payloads.
    spec fn encoded(&self, before: nat) -> JsonView;

    /// The payloads that encoding hands to the store, first to last.
    spec fn pushed(&self) -> Seq<PartView>;

    /// Encodes the value. Byte payloads go to `parts`, and a reference
    /// stands in the tree for each.
    fn to_json<P: BinaryParts>(&self, parts: &mut P) -> (json: JSON)
        ensures
            json@ == self.encoded(old(parts).parts().len()),
            final(parts).parts() == old(parts).parts() + self.pushed(),
    ;
}

impl ToJSON for String {
    open spec fn encoded(&self, before: nat) -> JsonView {
        JsonView::String(self@)
    }

    open spec fn pushed(&self) -> Seq<PartView> {
        Seq::empty()
    }

    fn to_json<P: BinaryParts>(&self, parts: &mut P) -> (json: JSON) {
        assert(parts.parts() + Seq::<PartView>::empty() =~= parts.parts());
        JSON::String(self.clone())
    }
}

impl<'a> ToJSON for &'a str {
    open spec fn encoded(&self, before: nat) -> JsonView {
        JsonView::String(self@)
    }

    open spec fn pushed(&self) -> Seq<PartView> {
        Seq::empty()
    }

    fn to_json<P: BinaryParts>(&self, parts: &mut P) -> (json: JSON) {
        assert(parts.parts() + Seq::<PartView>::empty() =~= parts.parts());
        JSON::String((*self).to_owned())
    }
}

impl ToJSON for bool {
    open spec fn encoded(&self, before: nat) -> JsonView {
        JsonView::Bool(*self)
    }

    open spec fn pushed(&self) -> Seq<PartView> {
        Seq::empty()
    }

    fn to_json<P: BinaryParts>(&self, parts: &mut P) -> (json: JSON) {
        assert(parts.parts() + Seq::<PartView>::empty() =~= parts.parts());
        JSON::Bool(*self)
    }
}

impl ToJSON for Number {
    open spec fn encoded(&self, before: nat) -> JsonView {
        JsonView::Number(*self)
    }

    open spec fn pushed(&self) -> Seq<PartView> {
        Seq::empty()
    }

    fn to_json<P: BinaryParts>(&self, parts: &mut P) -> (json: JSON) {
        assert(parts.parts() + Seq::<PartView>::empty() =~= parts.parts());
        JSON::Number(*self)
    }
}

impl ToJSON for usize {
    open spec fn encoded(&self, before: nat) -> JsonView {
        JsonView::Number(Number { negative: false, digits: *self as u64, exponent: 0 })
    }

    open spec fn pushed(&self) -> Seq<PartView> {
        Seq::empty()
    }

    fn to_json<P: BinaryParts>(&self, parts: &mut P) -> (json: JSON) {
        assert(parts.parts() + Seq::<PartView>::empty() =~= parts.parts());
        JSON::Number(Number::from_u64(*self as u64))
    }
}

impl ToJSON for JSON {
    open spec fn encoded(&self, before: nat) -> JsonView {
        self@
    }

    open spec fn pushed(&self) -> Seq<PartView> {
        Seq::empty()
    }

    fn to_json<P: BinaryParts>(&self, parts: &mut P) -> (json: JSON) {
        assert(parts.parts() + Seq::<PartView>::empty() =~= parts.parts());
        self.clone()
    }
}

impl<K> ToJSON for Id<K> {
    open spec fn encoded(&self, before: nat) -> JsonView {
        JsonView::String(self@)
    }

    open spec fn pushed(&self) -> Seq<PartView> {
        Seq::empty()
    }

    fn to_json<P: BinaryParts>(&self, parts: &mut P) -> (json: JSON) {
        assert(parts.parts() + Seq::<PartView>::empty() =~= parts.parts());
        JSON::String(self.to_string())
    }
}

impl ToJSON for () {
    open spec fn encoded(&self, before: nat) -> JsonView {
        JsonView::Null
    }

    open spec fn pushed(&self) -> Seq<PartView> {
        Seq::empty()
    }

    fn to_json<P: BinaryParts>(&self, parts: &mut P) -> (json: JSON) {
        assert(parts.parts() + Seq::<PartView>::empty() =~= parts.parts());
        JSON::Null
    }
}

impl<T: ToJSON> ToJSON for Option<T> {
    open spec fn encoded(&self, before: nat) -> JsonView {
        match self {
            None => JsonView::Null,
            Some(value) => value.encoded(before),
        }
    }

    open spec fn pushed(&self) -> Seq<PartView> {
        match self {
            None => Seq::empty(),
            Some(value) => value.pushed(),
        }
    }

    fn to_json<P: BinaryParts>(&self, parts: &mut P) -> (json: JSON) {
        match self {
            None => {
                assert(parts.parts() + Seq::<PartView>::empty() =~= parts.parts());
                JSON::Null
            },
            Some(value) => value.to_json(parts),
        }
    }
}

/// The payloads that encoding the first `count` of `items` hands to the
/// store.
pub open spec fn pushed_items<T: ToJSON>(items: Seq<T>, count: nat) -> Seq<PartView>
    decreases count,
{
    if count == 0 {
        Seq::empty()
    } else {
        pushed_items(items, (count - 1) as nat) + items[count - 1].pushed()
    }
}

/// The nodes that encoding `items` in their order gives: each item finds
/// in the store what the items before it have put there.
pub open spec fn encoded_items<T: ToJSON>(items: Seq<T>, before: nat) -> Seq<JsonView> {
    Seq::new(
        items.len(),
        |i: int| items[i].encoded(before + pushed_items(items, i as nat).len()),
    )
}

impl<T: ToJSON> ToJSON for Vec<T> {
    open spec fn encoded(&self, before: nat) -> JsonView {
        JsonView::Array(encoded_items(self@, before))
    }

    open spec fn pushed(&self) -> Seq<PartView> {
        pushed_items(self@, self@.len())
    }

    fn to_json<P: BinaryParts>(&self, parts: &mut P) -> (json: JSON) {
        let ghost start = parts.parts();
        let mut nodes: Vec<JSON> = Vec::new();
        let mut i: usize = 0;
        assert(start + Seq::<PartView>::empty() =~= start);
        while i < self.len()
            invariant
                i <= self.len(),
                nodes.len() == i,
                parts.parts() == start + pushed_items(self@, i as nat),
                forall|j: int|
                    0 <= j < i ==> (#[trigger] nodes@[j])@ == encoded_items(
                        self@,
                        start.len(),
                    )[j],
            decreases self.len() - i,
        {
            let ghost so_far = pushed_items(self@, i as nat);
            let node = self[i].to_json(parts);
            nodes.push(node);
            assert(parts.parts() =~= start + pushed_items(self@, (i + 1) as nat)) by {
                assert((start + so_far) + self@[i as int].pushed() =~= start + (so_far
                    + self@[i as int].pushed()));
            }
            i = i + 1;
        }
        proof {
            lemma_array_view(nodes);
            assert(item_views(nodes@) =~= encoded_items(self@, start.len()));
        }
        JSON::Array(nodes)
    }
}

/// The members that encoding `pairs` in their order gives.
pub open spec fn encoded_members<T: ToJSON>(pairs: Seq<(String, T)>, before: nat) -> Seq<
    (Seq<char>, JsonView),
> {
    Seq::new(
        pairs.len(),
        |i: int|
            (
                pairs[i].0@,
                pairs[i].1.encoded(before + pushed_members(pairs, i as nat).len()),
            ),
    )
}

/// The payloads that encoding the first `count` of `pairs` hands to the
/// store.
pub open spec fn pushed_members<T: ToJSON>(pairs: Seq<(String, T)>, count: nat) -> Seq<PartView>
    decreases count,
{
    if count == 0 {
        Seq::empty()
    } else {
        pushed_members(pairs, (count - 1) as nat) + pairs[count - 1].1.pushed()
    }
}

/// A list of named values is encoded as the object that has them as its
/// members, in their order.
impl<T: ToJSON> ToJSON for Vec<(String, T)> {
    open spec fn encoded(&self, before: nat) -> JsonView {
        JsonView::Object(encoded_members(self@, before))
    }

    open spec fn pushed(&self) -> Seq<PartView> {
        pushed_members(self@, self@.len())
    }

    fn to_json<P: BinaryParts>(&self, parts: &mut P) -> (json: JSON) {
        let ghost start = parts.parts();
        let mut members: Vec<(String, JSON)> = Vec::new();
        let mut i: usize = 0;
        assert(start + Seq::<PartView>::empty() =~= start);
        while i < self.len()
            invariant
                i <= self.len(),
                members.len() == i,
                parts.parts() == start + pushed_members(self@, i as nat),
                forall|j: int|
                    0 <= j < i ==> (#[trigger] members@[j]).0@ == self@[j].0@ && members@[j].1@
                        == encoded_members(self@, start.len())[j].1,
            decreases self.len() - i,
        {
            let ghost so_far = pushed_members(self@, i as nat);
            let name = self[i].0.clone();
            let node = self[i].1.to_json(parts);
            members.push((name, node));
            assert(parts.parts() =~= start + pushed_members(self@, (i + 1) as nat)) by {
                assert((start + so_far) + self@[i as int].1.pushed() =~= start + (so_far
                    + self@[i as int].1.pushed()));
            }
            i = i + 1;
        }
        proof {
            lemma_object_view(members);
            assert(member_views(members@) =~= encoded_members(self@, start.len()));
        }
        JSON::Object(members)
    }
}

/// The node that is written for what was found for one identifier: the
/// value as it is, or a failure under the name `Error`.
pub open spec fn encoded_outcome<T: ToJSON, V: ToJSON>(outcome: Result<T, V>, before: nat) -> JsonView {
    match outcome {
        Ok(value) => value.encoded(before),
        Err(error) => JsonView::single("Error"@, error.encoded(before)),
    }
}

pub open spec fn pushed_outcome<T: ToJSON, V: ToJSON>(outcome: Result<T, V>) -> Seq<PartView> {
    match outcome {
        Ok(value) => value.pushed(),
        Err(error) => error.pushed(),
    }
}

/// The payloads that encoding the first `count` of `pairs` hands to the
/// store.
pub open spec fn pushed_outcomes<K, T: ToJSON, V: ToJSON>(
    pairs: Seq<(Id<K>, Result<T, V>)>,
    count: nat,
) -> Seq<PartView>
    decreases count,
{
    if count == 0 {
        Seq::empty()
    } else {
        pushed_outcomes(pairs, (count - 1) as nat) + pushed_outcome(pairs[count - 1].1)
    }
}

/// The members that encoding `pairs` in their order gives.
pub open spec fn encoded_outcomes<K, T: ToJSON, V: ToJSON>(
    pairs: Seq<(Id<K>, Result<T, V>)>,
    before: nat,
) -> Seq<(Seq<char>, JsonView)> {
    Seq::new(
        pairs.len(),
        |i: int|
            (
                pairs[i].0@,
                encoded_outcome(pairs[i].1, before + pushed_outcomes(pairs, i as nat).len()),
            ),
    )
}

/// What was found for each of a list of identifiers is encoded as the
/// object that has a member for each, named by the identifier.
impl<K, T: ToJSON, V: ToJSON> ToJSON for Vec<(Id<K>, Result<T, V>)> {
    open spec fn encoded(&self, before: nat) -> JsonView {
        JsonView::Object(encoded_outcomes(self@, before))
    }

    open spec fn pushed(&self) -> Seq<PartView> {
        pushed_outcomes(self@, self@.len())
    }

    fn to_json<P: BinaryParts>(&self, parts: &mut P) -> (json: JSON) {
        let ghost start = parts.parts();
        let mut members: Vec<(String, JSON)> = Vec::new();
        let mut i: usize = 0;
        assert(start + Seq::<PartView>::empty() =~= start);
        while i < self.len()
            invariant
                i <= self.len(),
                members.len() == i,
                parts.parts() == start + pushed_outcomes(self@, i as nat),
                forall|j: int|
                    0 <= j < i ==> (#[trigger] members@[j]).0@ == self@[j].0@ && members@[j].1@
                        == encoded_outcomes(self@, start.len())[j].1,
            decreases self.len() - i,
        {
            let ghost so_far = pushed_outcomes(self@, i as nat);
            let name = self[i].0.to_string();
            let node = match &self[i].1 {
                Ok(value) => value.to_json(parts),
                Err(error) => JSON::single("Error", error.to_json(parts)),
            };
            members.push((name, node));
            assert(parts.parts() =~= start + pushed_outcomes(self@, (i + 1) as nat)) by {
                assert((start + so_far) + pushed_outcome(self@[i as int].1) =~= start + (so_far
                    + pushed_outcome(self@[i as int].1)));
            }
            i = i + 1;
        }
        proof {
            lemma_object_view(members);
            assert(member_views(members@) =~= encoded_outcomes(self@, start.len()));
        }
        JSON::Object(members)
    }
}

} // verus!
