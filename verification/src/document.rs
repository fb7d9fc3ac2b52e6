//! The tree of values that one decoded page holds, and the few operations on
//! it that record extraction needs.

use vstd::prelude::*;

verus! {

/// A structured value as the remote resource serves it. A number is kept as
/// the decimal text that denotes it; an object keeps its members in order.
#[derive(Debug, PartialEq, Eq)]
pub enum Json {
    Null,
    Bool(bool),
    Number(String),
    Text(String),
    Array(Vec<Json>),
    Object(Vec<Member>),
}

/// One named member of an object.
#[derive(Debug, PartialEq, Eq)]
pub struct Member {
    pub name: String,
    pub value: Json,
}

/// The mathematical value of a [`Json`].
pub enum Tree {
    Null,
    Bool(bool),
    Number(Seq<char>),
    Text(Seq<char>),
    Array(Seq<Tree>),
    Object(Seq<(Seq<char>, Tree)>),
}

/// Index of the first member called `name`, or the number of members if
/// there is none.
pub open spec fn first_index(members: Seq<(Seq<char>, Tree)>, name: Seq<char>) -> int
    decreases members.len(),
{
    if members.len() == 0 {
        0
    } else if members[0].0 == name {
        0
    } else {
        1 + first_index(members.drop_first(), name)
    }
}

/// The value of the first member called `name`.
pub open spec fn lookup(members: Seq<(Seq<char>, Tree)>, name: Seq<char>) -> Option<Tree> {
    let at = first_index(members, name);
    if at < members.len() {
        Some(members[at].1)
    } else {
        None
    }
}

/// `members` without those called `name`, the others in their order.
pub open spec fn without(members: Seq<(Seq<char>, Tree)>, name: Seq<char>) -> Seq<
    (Seq<char>, Tree),
>
    decreases members.len(),
{
    if members.len() == 0 {
        members
    } else if members[0].0 == name {
        without(members.drop_first(), name)
    } else {
        seq![members[0]] + without(members.drop_first(), name)
    }
}

/// `members` with `name` set to `value`: every member of that name leaves,
/// and one that holds `value` becomes the last member.
pub open spec fn upsert(members: Seq<(Seq<char>, Tree)>, name: Seq<char>, value: Tree) -> Seq<
    (Seq<char>, Tree),
> {
    without(members, name).push((name, value))
}

impl Tree {
    /// The member `name` of an object; nothing else has members.
    pub open spec fn field(self, name: Seq<char>) -> Option<Tree> {
        match self {
            Tree::Object(members) => lookup(members, name),
            _ => None,
        }
    }

    /// An object with `name` as its last member, holding `value`, and no
    /// other member of that name; any other value unchanged.
    pub open spec fn with_field(self, name: Seq<char>, value: Tree) -> Tree {
        match self {
            Tree::Object(members) => Tree::Object(upsert(members, name, value)),
            _ => self,
        }
    }
}

/// The value that `json` denotes.
pub open spec fn tree_of(json: Json) -> Tree
    decreases json,
{
    match json {
        Json::Null => Tree::Null,
        Json::Bool(b) => Tree::Bool(b),
        Json::Number(digits) => Tree::Number(digits@),
        Json::Text(text) => Tree::Text(text@),
        Json::Array(items) => Tree::Array(
            Seq::new(
                items@.len(),
                |i: int|
                    if 0 <= i < items@.len() {
                        tree_of(items@[i])
                    } else {
                        Tree::Null
                    },
            ),
        ),
        Json::Object(fields) => Tree::Object(
            Seq::new(
                fields@.len(),
                |i: int|
                    if 0 <= i < fields@.len() {
                        (fields@[i].name@, tree_of(fields@[i].value))
                    } else {
                        (Seq::empty(), Tree::Null)
                    },
            ),
        ),
    }
}

impl View for Json {
    type V = Tree;

    open spec fn view(&self) -> Tree {
        tree_of(*self)
    }
}

/// The values of `items`, in order.
pub open spec fn trees(items: Seq<Json>) -> Seq<Tree> {
    Seq::new(items.len(), |i: int| items[i]@)
}

/// The members that `fields` denote, in order.
pub open spec fn members(fields: Seq<Member>) -> Seq<(Seq<char>, Tree)> {
    Seq::new(fields.len(), |i: int| (fields[i].name@, fields[i].value@))
}

/// An array denotes the values of its items.
pub proof fn lemma_array_view(items: Vec<Json>)
    ensures
        Json::Array(items)@ == Tree::Array(trees(items@)),
{
    let whole = Json::Array(items)@;
    assert(whole matches Tree::Array(got) && got =~= trees(items@));
}

/// An object denotes the members of its fields.
pub proof fn lemma_object_view(fields: Vec<Member>)
    ensures
        Json::Object(fields)@ == Tree::Object(members(fields@)),
{
    let whole = Json::Object(fields)@;
    assert(whole matches Tree::Object(got) && got =~= members(fields@));
}

/// `first_index` lies within the members or just behind them, no member
/// before it is called `name`, and the member at it is.
pub proof fn lemma_first_index_bounds(members: Seq<(Seq<char>, Tree)>, name: Seq<char>)
    ensures
        0 <= first_index(members, name) <= members.len(),
        forall|j: int| 0 <= j < first_index(members, name) ==> members[j].0 != name,
        first_index(members, name) < members.len() ==> members[first_index(members, name)].0
            == name,
    decreases members.len(),
{
    if members.len() > 0 && members[0].0 != name {
        let rest = members.drop_first();
        lemma_first_index_bounds(rest, name);
        assert forall|j: int| 0 <= j < first_index(members, name) implies members[j].0
            != name by {
            if j > 0 {
                assert(members[j] == rest[j - 1]);
            }
        }
    }
}

/// `first_index` is the one position that holds `name` with no earlier
/// member holding it.
pub proof fn lemma_first_index(members: Seq<(Seq<char>, Tree)>, name: Seq<char>, at: int)
    requires
        0 <= at <= members.len(),
        forall|j: int| 0 <= j < at ==> members[j].0 != name,
        at < members.len() ==> members[at].0 == name,
    ensures
        first_index(members, name) == at,
    decreases members.len(),
{
    if members.len() != 0 && at != 0 {
        let rest = members.drop_first();
        assert forall|j: int| 0 <= j < at - 1 implies rest[j].0 != name by {
            assert(rest[j] == members[j + 1]);
        }
        lemma_first_index(rest, name, at - 1);
    }
}

/// Taking out one member called `name` does not change what is left once
/// all of them are taken out.
proof fn lemma_without_one_less(members: Seq<(Seq<char>, Tree)>, name: Seq<char>, at: int)
    requires
        0 <= at < members.len(),
        members[at].0 == name,
    ensures
        without(members.remove(at), name) == without(members, name),
    decreases at,
{
    if at == 0 {
        assert(members.remove(0) =~= members.drop_first());
    } else {
        assert(members.remove(at).drop_first() =~= members.drop_first().remove(at - 1));
        assert(members.remove(at)[0] == members[0]);
        lemma_without_one_less(members.drop_first(), name, at - 1);
    }
}

/// Where no member is called `name`, taking those out changes nothing.
proof fn lemma_without_none(members: Seq<(Seq<char>, Tree)>, name: Seq<char>)
    requires
        first_index(members, name) == members.len(),
    ensures
        without(members, name) == members,
    decreases members.len(),
{
    if members.len() > 0 {
        lemma_without_none(members.drop_first(), name);
        assert(seq![members[0]] + members.drop_first() =~= members);
    }
}

/// Looking a name up goes by the first member, then by the rest.
proof fn lemma_lookup_step(members: Seq<(Seq<char>, Tree)>, name: Seq<char>)
    requires
        members.len() > 0,
    ensures
        lookup(members, name) == if members[0].0 == name {
            Some(members[0].1)
        } else {
            lookup(members.drop_first(), name)
        },
{
    let rest = members.drop_first();
    lemma_first_index_bounds(rest, name);
    if members[0].0 != name {
        let at = first_index(rest, name);
        if at < rest.len() {
            assert(members[at + 1] == rest[at]);
        }
    }
}

/// What `without` leaves holds no member called `name`, and the members of
/// any other name as they were found before.
pub proof fn lemma_without(members: Seq<(Seq<char>, Tree)>, name: Seq<char>, other: Seq<char>)
    ensures
        first_index(without(members, name), name) == without(members, name).len(),
        other != name ==> lookup(without(members, name), other) == lookup(members, other),
    decreases members.len(),
{
    if members.len() > 0 {
        let rest = members.drop_first();
        lemma_without(rest, name, other);
        lemma_lookup_step(members, other);
        if members[0].0 != name {
            let kept = seq![members[0]] + without(rest, name);
            assert(kept.drop_first() =~= without(rest, name));
            assert(kept[0] == members[0]);
            lemma_lookup_step(kept, other);
        }
    }
}

/// A member that is set can be read back, and setting it leaves the members
/// of every other name as they were.
pub proof fn lemma_field_after_with_field(
    object: Tree,
    name: Seq<char>,
    value: Tree,
    other: Seq<char>,
)
    requires
        object is Object,
    ensures
        object.with_field(name, value).field(name) == Some(value),
        other != name ==> object.with_field(name, value).field(other) == object.field(other),
{
    let members = object->Object_0;
    let kept = without(members, name);
    lemma_without(members, name, other);
    lemma_first_index_bounds(kept, name);
    lemma_first_index(kept.push((name, value)), name, kept.len() as int);
    if other != name {
        lemma_first_index_bounds(kept, other);
        let at = first_index(kept, other);
        if at < kept.len() {
            lemma_first_index(kept.push((name, value)), other, at);
        } else {
            lemma_first_index(kept.push((name, value)), other, at + 1);
        }
    }
}

/// Position of the first field called `name`, or the number of fields.
fn position(fields: &Vec<Member>, name: &str) -> (at: usize)
    ensures
        at == first_index(members(fields@), name@),
        at <= fields@.len(),
{
    let key = name.to_owned();
    let mut i: usize = 0;
    while i < fields.len()
        invariant
            i <= fields.len(),
            key@ == name@,
            forall|j: int| 0 <= j < i ==> members(fields@)[j].0 != name@,
        decreases fields.len() - i,
    {
        if fields[i].name == key {
            proof {
                lemma_first_index(members(fields@), name@, i as int);
            }
            return i;
        }
        i += 1;
    }
    proof {
        lemma_first_index(members(fields@), name@, i as int);
    }
    i
}

impl Clone for Member {
    fn clone(&self) -> (copy: Self)
        ensures
            copy.name@ == self.name@,
            copy.value@ == self.value@,
        decreases self,
    {
        Member { name: self.name.clone(), value: self.value.clone() }
    }
}

impl Clone for Json {
    fn clone(&self) -> (copy: Self)
        ensures
            copy@ == self@,
        decreases self,
    {
        match self {
            Json::Null => Json::Null,
            Json::Bool(b) => Json::Bool(*b),
            Json::Number(digits) => Json::Number(digits.clone()),
            Json::Text(text) => Json::Text(text.clone()),
            Json::Array(items) => {
                let mut copies: Vec<Json> = Vec::new();
                let mut i: usize = 0;
                while i < items.len()
                    invariant
                        i <= items.len(),
                        copies@.len() == i,
                        *self == Json::Array(*items),
                        forall|j: int| 0 <= j < i ==> copies@[j]@ == items@[j]@,
                    decreases items.len() - i,
                {
                    assert(decreases_to!(*self => self->Array_0));
                    copies.push(items[i].clone());
                    i += 1;
                }
                proof {
                    lemma_array_view(*items);
                    lemma_array_view(copies);
                    assert(trees(copies@) =~= trees(items@));
                }
                Json::Array(copies)
            },
            Json::Object(fields) => {
                let mut copies: Vec<Member> = Vec::new();
                let mut i: usize = 0;
                while i < fields.len()
                    invariant
                        i <= fields.len(),
                        copies@.len() == i,
                        *self == Json::Object(*fields),
                        forall|j: int|
                            0 <= j < i ==> copies@[j].name@ == fields@[j].name@ && copies@[j].value@
                                == fields@[j].value@,
                    decreases fields.len() - i,
                {
                    assert(decreases_to!(*self => self->Object_0));
                    copies.push(fields[i].clone());
                    i += 1;
                }
                proof {
                    lemma_object_view(*fields);
                    lemma_object_view(copies);
                    assert(members(copies@) =~= members(fields@));
                }
                Json::Object(copies)
            },
        }
    }
}

impl Json {
    /// The member `name` of an object.
    pub fn field(&self, name: &str) -> (found: Option<&Json>)
        ensures
            found matches Some(value) ==> self@.field(name@) == Some(value@),
            found is None ==> self@.field(name@) is None,
    {
        match self {
            Json::Object(fields) => {
                proof {
                    lemma_object_view(*fields);
                }
                let at = position(fields, name);
                if at < fields.len() {
                    Some(&fields[at].value)
                } else {
                    None
                }
            },
            _ => None,
        }
    }

    /// The items of an array.
    pub fn items(&self) -> (found: Option<&Vec<Json>>)
        ensures
            found matches Some(items) ==> self@ == Tree::Array(trees(items@)),
            found is None ==> !(self@ is Array),
    {
        match self {
            Json::Array(items) => {
                proof {
                    lemma_array_view(*items);
                }
                Some(items)
            },
            _ => None,
        }
    }

    /// This value with its member `name` set to `value`: an object loses
    /// every member of that name and gains one, as its last, that holds
    /// `value`. A value that is no object is returned as it is.
    pub fn with_field(self, name: &str, value: Json) -> (updated: Json)
        ensures
            updated@ == self@.with_field(name@, value@),
    {
        match self {
            Json::Object(fields) => {
                let mut fields = fields;
                let ghost before = members(fields@);
                proof {
                    lemma_object_view(fields);
                }
                let mut at = position(&fields, name);
                while at < fields.len()
                    invariant
                        at == first_index(members(fields@), name@),
                        at <= fields@.len(),
                        without(members(fields@), name@) == without(before, name@),
                    decreases fields@.len(),
                {
                    let ghost prior = members(fields@);
                    proof {
                        lemma_first_index_bounds(prior, name@);
                        lemma_without_one_less(prior, name@, at as int);
                    }
                    fields.remove(at);
                    assert(members(fields@) =~= prior.remove(at as int));
                    at = position(&fields, name);
                }
                let ghost kept = members(fields@);
                proof {
                    lemma_without_none(kept, name@);
                }
                fields.push(Member { name: name.to_owned(), value });
                proof {
                    lemma_object_view(fields);
                    assert(members(fields@) =~= upsert(before, name@, value@));
                }
                Json::Object(fields)
            },
            other => other,
        }
    }
}

} // verus!
