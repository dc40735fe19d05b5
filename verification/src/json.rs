//! The generic JSON node that values are decoded from and encoded to.
use crate::number::Number;
use crate::text::same_text;
use vstd::prelude::*;
use vstd::std_specs::cmp::PartialEqSpecImpl;

verus! {

/// A JSON node. An object is the list of its members, in the order in
/// which they are written; a member is found by the first name that fits.
#[derive(Debug)]
pub enum JSON {
    Null,
    Bool(bool),
    Number(Number),
    String(String),
    Array(Vec<JSON>),
    Object(Vec<(String, JSON)>),
}

/// What a JSON node holds.
pub enum JsonView {
    Null,
    Bool(bool),
    Number(Number),
    String(Seq<char>),
    Array(Seq<JsonView>),
    Object(Seq<(Seq<char>, JsonView)>),
}

/// What `node` holds.
pub open spec fn node_view(node: JSON) -> JsonView
    decreases node,
{
    match node {
        JSON::Null => JsonView::Null,
        JSON::Bool(b) => JsonView::Bool(b),
        JSON::Number(n) => JsonView::Number(n),
        JSON::String(s) => JsonView::String(s@),
        JSON::Array(items) => JsonView::Array(
            Seq::new(
                items@.len(),
                |i: int|
                    if 0 <= i < items@.len() {
                        node_view(items@[i])
                    } else {
                        JsonView::Null
                    },
            ),
        ),
        JSON::Object(members) => JsonView::Object(
            Seq::new(
                members@.len(),
                |i: int|
                    if 0 <= i < members@.len() {
                        (members@[i].0@, node_view(members@[i].1))
                    } else {
                        (Seq::empty(), JsonView::Null)
                    },
            ),
        ),
    }
}

impl View for JSON {
    type V = JsonView;

    open spec fn view(&self) -> JsonView {
        node_view(*self)
    }
}

impl DeepView for JSON {
    type V = JsonView;

    open spec fn deep_view(&self) -> JsonView {
        self@
    }
}

/// What a list of nodes holds.
pub open spec fn item_views(items: Seq<JSON>) -> Seq<JsonView> {
    Seq::new(items.len(), |i: int| items[i]@)
}

/// What a list of members holds.
pub open spec fn member_views(members: Seq<(String, JSON)>) -> Seq<(Seq<char>, JsonView)> {
    Seq::new(members.len(), |i: int| (members[i].0@, members[i].1@))
}

pub proof fn lemma_array_view(items: Vec<JSON>)
    ensures
        JSON::Array(items)@ == JsonView::Array(item_views(items@)),
{
    let v = JSON::Array(items)@;
    assert(v is Array);
    assert(v->Array_0.len() == items@.len());
    assert(v->Array_0 =~= item_views(items@));
}

pub proof fn lemma_object_view(members: Vec<(String, JSON)>)
    ensures
        JSON::Object(members)@ == JsonView::Object(member_views(members@)),
{
    assert(JSON::Object(members)@->Object_0 =~= member_views(members@));
}

/// The place of the first member at or after `from` whose name is `name`;
/// the number of members where there is none.
pub open spec fn first_named(
    members: Seq<(Seq<char>, JsonView)>,
    name: Seq<char>,
    from: int,
) -> int
    decreases members.len() - from,
{
    if from < 0 || from >= members.len() {
        members.len() as int
    } else if members[from].0 == name {
        from
    } else {
        first_named(members, name, from + 1)
    }
}

pub proof fn lemma_first_named_bounds(
    members: Seq<(Seq<char>, JsonView)>,
    name: Seq<char>,
    from: int,
)
    requires
        0 <= from <= members.len(),
    ensures
        from <= first_named(members, name, from) <= members.len(),
        first_named(members, name, from) < members.len() ==> members[first_named(
            members,
            name,
            from,
        )].0 == name,
        forall|i: int|
            from <= i < first_named(members, name, from) ==> (#[trigger] members[i]).0 != name,
    decreases members.len() - from,
{
    if from < members.len() && members[from].0 != name {
        lemma_first_named_bounds(members, name, from + 1);
    }
}

/// A place before which no member is named `name`, and which either is
/// the end or holds such a member, is the place that `first_named` gives.
pub proof fn lemma_first_named_is(
    members: Seq<(Seq<char>, JsonView)>,
    name: Seq<char>,
    from: int,
    at: int,
)
    requires
        0 <= from <= at <= members.len(),
        forall|i: int| from <= i < at ==> (#[trigger] members[i]).0 != name,
        at < members.len() ==> members[at].0 == name,
    ensures
        first_named(members, name, from) == at,
    decreases at - from,
{
    if from < at {
        lemma_first_named_is(members, name, from + 1, at);
    }
}

impl JsonView {
    /// The value of the first member named `name`, if this is an object
    /// that has one.
    pub open spec fn field(self, name: Seq<char>) -> Option<JsonView> {
        match self {
            JsonView::Object(members) => {
                let at = first_named(members, name, 0);
                if at < members.len() {
                    Some(members[at].1)
                } else {
                    None
                }
            },
            _ => None,
        }
    }

    /// This node without the first member named `name`.
    pub open spec fn without(self, name: Seq<char>) -> JsonView {
        match self {
            JsonView::Object(members) => {
                let at = first_named(members, name, 0);
                if at < members.len() {
                    JsonView::Object(members.remove(at))
                } else {
                    self
                }
            },
            _ => self,
        }
    }

    /// The object whose one member is `name` with the value `value`.
    pub open spec fn single(name: Seq<char>, value: JsonView) -> JsonView {
        JsonView::Object(seq![(name, value)])
    }

    /// The member of an object that has exactly one.
    pub open spec fn only_member(self) -> Option<(Seq<char>, JsonView)> {
        match self {
            JsonView::Object(members) => if members.len() == 1 {
                Some(members[0])
            } else {
                None
            },
            _ => None,
        }
    }
}

/// Taking one member away leaves the members of other names where a
/// search finds them.
pub proof fn lemma_without_keeps(node: JsonView, gone: Seq<char>, name: Seq<char>)
    requires
        gone != name,
    ensures
        node.without(gone).field(name) == node.field(name),
{
    if let JsonView::Object(members) = node {
        let cut = first_named(members, gone, 0);
        lemma_first_named_bounds(members, gone, 0);
        if cut < members.len() {
            let rest = members.remove(cut);
            let at = first_named(members, name, 0);
            lemma_first_named_bounds(members, name, 0);
            if at < cut {
                lemma_first_named_is(rest, name, 0, at);
            } else {
                assert forall|i: int| 0 <= i < at - 1 implies (#[trigger] rest[i]).0 != name by {
                    if i < cut {
                        assert(rest[i] == members[i]);
                    } else {
                        assert(rest[i] == members[i + 1]);
                    }
                }
                lemma_first_named_is(rest, name, 0, at - 1);
            }
        }
    }
}

impl Clone for JSON {
    #[verifier::loop_isolation(false)]
    fn clone(&self) -> (r: Self)
        ensures
            r@ == self@,
        decreases self,
    {
        match self {
            JSON::Null => JSON::Null,
            JSON::Bool(b) => JSON::Bool(*b),
            JSON::Number(n) => JSON::Number(*n),
            JSON::String(s) => JSON::String(s.clone()),
            JSON::Array(items) => {
                let mut copy: Vec<JSON> = Vec::new();
                let mut i: usize = 0;
                while i < items.len()
                    invariant
                        i <= items.len(),
                        copy.len() == i,
                        forall|j: int| 0 <= j < i ==> (#[trigger] copy@[j])@ == items@[j]@,
                    decreases items.len() - i,
                {
                    let item = items[i].clone();
                    copy.push(item);
                    i = i + 1;
                }
                proof {
                    lemma_array_view(copy);
                    lemma_array_view(*items);
                    assert(item_views(copy@) =~= item_views(items@));
                }
                JSON::Array(copy)
            },
            JSON::Object(members) => {
                let mut copy: Vec<(String, JSON)> = Vec::new();
                let mut i: usize = 0;
                while i < members.len()
                    invariant
                        i <= members.len(),
                        copy.len() == i,
                        forall|j: int|
                            0 <= j < i ==> (#[trigger] copy@[j]).0@ == members@[j].0@ && copy@[j].1@
                                == members@[j].1@,
                    decreases members.len() - i,
                {
                    let name = members[i].0.clone();
                    let value = members[i].1.clone();
                    copy.push((name, value));
                    i = i + 1;
                }
                proof {
                    lemma_object_view(copy);
                    lemma_object_view(*members);
                    assert(member_views(copy@) =~= member_views(members@));
                }
                JSON::Object(copy)
            },
        }
    }
}

impl JSON {
    /// Whether the two nodes hold the same.
    #[verifier::loop_isolation(false)]
    pub fn same(&self, other: &JSON) -> (r: bool)
        ensures
            r == (self@ == other@),
        decreases self,
    {
        match (self, other) {
            (JSON::Null, JSON::Null) => true,
            (JSON::Bool(a), JSON::Bool(b)) => *a == *b,
            (JSON::Number(a), JSON::Number(b)) => a.negative == b.negative && a.digits == b.digits
                && a.exponent == b.exponent,
            (JSON::String(a), JSON::String(b)) => *a == *b,
            (JSON::Array(a), JSON::Array(b)) => {
                proof {
                    lemma_array_view(*a);
                    lemma_array_view(*b);
                }
                if a.len() != b.len() {
                    assert(item_views(a@).len() != item_views(b@).len());
                    return false;
                }
                let mut i: usize = 0;
                while i < a.len()
                    invariant
                        i <= a.len(),
                        a.len() == b.len(),
                        forall|j: int| 0 <= j < i ==> (#[trigger] a@[j])@ == b@[j]@,
                    decreases a.len() - i,
                {
                    if !a[i].same(&b[i]) {
                        assert(item_views(a@)[i as int] != item_views(b@)[i as int]);
                        return false;
                    }
                    i = i + 1;
                }
                assert(item_views(a@) =~= item_views(b@));
                true
            },
            (JSON::Object(a), JSON::Object(b)) => {
                proof {
                    lemma_object_view(*a);
                    lemma_object_view(*b);
                }
                if a.len() != b.len() {
                    assert(member_views(a@).len() != member_views(b@).len());
                    return false;
                }
                let mut i: usize = 0;
                while i < a.len()
                    invariant
                        i <= a.len(),
                        a.len() == b.len(),
                        forall|j: int|
                            0 <= j < i ==> (#[trigger] a@[j]).0@ == b@[j].0@ && a@[j].1@
                                == b@[j].1@,
                    decreases a.len() - i,
                {
                    if a[i].0 != b[i].0 || !a[i].1.same(&b[i].1) {
                        assert(member_views(a@)[i as int] != member_views(b@)[i as int]);
                        return false;
                    }
                    i = i + 1;
                }
                assert(member_views(a@) =~= member_views(b@));
                true
            },
            _ => false,
        }
    }

    /// The object whose one member is `name` with the value `value`.
    pub fn single(name: &str, value: JSON) -> (r: JSON)
        ensures
            r@ == JsonView::single(name@, value@),
    {
        let mut members: Vec<(String, JSON)> = Vec::new();
        members.push((name.to_owned(), value));
        proof {
            lemma_object_view(members);
            assert(member_views(members@) =~= seq![(name@, value@)]);
        }
        JSON::Object(members)
    }

    /// The object whose members are `members`, in their order.
    pub fn object(members: Vec<(String, JSON)>) -> (r: JSON)
        ensures
            r@ == JsonView::Object(member_views(members@)),
    {
        proof {
            lemma_object_view(members);
        }
        JSON::Object(members)
    }

    /// The array whose items are `items`, in their order.
    pub fn array(items: Vec<JSON>) -> (r: JSON)
        ensures
            r@ == JsonView::Array(item_views(items@)),
    {
        proof {
            lemma_array_view(items);
        }
        JSON::Array(items)
    }

    /// The name and the value of the member of an object that has exactly
    /// one. Any other node is handed back as it is.
    pub fn into_single(self) -> (r: Result<(String, JSON), JSON>)
        ensures
            match r {
                Ok(member) => self@.only_member() == Some((member.0@, member.1@)),
                Err(node) => self@.only_member() is None && node@ == self@,
            },
    {
        match self {
            JSON::Object(mut members) => {
                proof {
                    lemma_object_view(members);
                }
                if members.len() == 1 {
                    let member = members.pop().unwrap();
                    Ok(member)
                } else {
                    Err(JSON::Object(members))
                }
            },
            other => Err(other),
        }
    }

    pub fn is_null(&self) -> (r: bool)
        ensures
            r == (self@ is Null),
    {
        match self {
            JSON::Null => true,
            _ => false,
        }
    }

    pub fn is_object(&self) -> (r: bool)
        ensures
            r == (self@ is Object),
    {
        match self {
            JSON::Object(_) => true,
            _ => false,
        }
    }

    /// The text, if this node is a string.
    pub fn as_string(&self) -> (r: Option<&str>)
        ensures
            match r {
                Some(text) => self@ == JsonView::String(text@),
                None => !(self@ is String),
            },
    {
        match self {
            JSON::String(s) => Some(s.as_str()),
            _ => None,
        }
    }

    /// The number, if this node is one.
    pub fn as_number(&self) -> (r: Option<Number>)
        ensures
            match r {
                Some(n) => self@ == JsonView::Number(n),
                None => !(self@ is Number),
            },
    {
        match self {
            JSON::Number(n) => Some(*n),
            _ => None,
        }
    }

    /// The value of the first member named `name`, if this is an object
    /// that has one.
    pub fn find(&self, name: &str) -> (r: Option<&JSON>)
        ensures
            r.deep_view() == self@.field(name@),
    {
        match self {
            JSON::Object(members) => {
                proof {
                    lemma_object_view(*members);
                }
                let at = position(members, name);
                if at < members.len() {
                    Some(&members[at].1)
                } else {
                    None
                }
            },
            _ => None,
        }
    }

    /// Takes the first member named `name` out of this node, if it is an
    /// object that has one, and hands out the member's value.
    pub fn take_field(&mut self, name: &str) -> (r: Option<JSON>)
        ensures
            r.deep_view() == old(self)@.field(name@),
            final(self)@ == old(self)@.without(name@),
    {
        let mut node = JSON::Null;
        std::mem::swap(self, &mut node);
        match node {
            JSON::Object(mut members) => {
                proof {
                    lemma_object_view(members);
                }
                let ghost before = members@;
                let at = position(&members, name);
                if at < members.len() {
                    let member = members.remove(at);
                    proof {
                        lemma_object_view(members);
                        assert(member_views(members@) =~= member_views(before).remove(at as int));
                    }
                    *self = JSON::Object(members);
                    Some(member.1)
                } else {
                    *self = JSON::Object(members);
                    None
                }
            },
            other => {
                *self = other;
                None
            },
        }
    }
}

/// The place of the first member named `name`; the number of members
/// where there is none.
fn position(members: &Vec<(String, JSON)>, name: &str) -> (at: usize)
    ensures
        at == first_named(member_views(members@), name@, 0),
        at <= members.len(),
{
    let ghost views = member_views(members@);
    let mut i: usize = 0;
    while i < members.len()
        invariant
            i <= members.len(),
            views == member_views(members@),
            forall|j: int| 0 <= j < i ==> (#[trigger] views[j]).0 != name@,
        decreases members.len() - i,
    {
        if same_text(members[i].0.as_str(), name) {
            proof {
                lemma_first_named_is(views, name@, 0, i as int);
            }
            return i;
        }
        i = i + 1;
    }
    proof {
        lemma_first_named_is(views, name@, 0, i as int);
    }
    i
}

impl PartialEq for JSON {
    fn eq(&self, other: &Self) -> (r: bool) {
        self.same(other)
    }
}

impl PartialEqSpecImpl for JSON {
    open spec fn obeys_eq_spec() -> bool {
        true
    }

    open spec fn eq_spec(&self, other: &Self) -> bool {
        self@ == other@
    }
}

} // verus!
