//! Namespaced [`Identifier`]s for named types, and [`Label`]s with their
//! name-to-index [`LabelBank`], used to address fields and variants.

use vstd::prelude::*;
use vstd::string::*;
use crate::model::IdentV;

verus! {

/// An identifier with a namespace.
#[derive(Debug)]
pub struct Identifier {
    pub space: String,
    pub name: String,
}

impl View for Identifier {
    type V = IdentV;

    open spec fn view(&self) -> IdentV {
        IdentV { space: self.space@, name: self.name@ }
    }
}

/// The position of the first `'/'` in `s`, if any.
pub open spec fn first_slash(s: Seq<char>) -> Option<int>
    decreases s.len(),
{
    if s.len() == 0 {
        None
    } else if s[0] == '/' {
        Some(0)
    } else {
        match first_slash(s.drop_first()) {
            Some(i) => Some(i + 1),
            None => None,
        }
    }
}

/// What parsing an identifier yields: the text before the first `'/'` as the
/// namespace and the text after it as the name, or an empty namespace when
/// there is no `'/'` at all.
pub open spec fn split_ident(s: Seq<char>) -> IdentV {
    match first_slash(s) {
        None => IdentV { space: Seq::empty(), name: s },
        Some(i) => IdentV { space: s.take(i), name: s.skip(i + 1) },
    }
}

/// A position holding `'/'` with none before it is the one `first_slash`
/// finds.
pub proof fn lemma_first_slash_at(s: Seq<char>, i: int)
    requires
        0 <= i < s.len(),
        s[i] == '/',
        forall|j: int| 0 <= j < i ==> s[j] != '/',
    ensures
        first_slash(s) == Some(i),
    decreases s.len(),
{
    if i > 0 {
        let rest = s.drop_first();
        assert(rest[i - 1] == s[i]);
        assert forall|j: int| 0 <= j < i - 1 implies rest[j] != '/' by {
            assert(rest[j] == s[j + 1]);
        }
        lemma_first_slash_at(rest, i - 1);
    }
}

/// Without any `'/'`, `first_slash` finds nothing.
pub proof fn lemma_first_slash_none(s: Seq<char>)
    requires
        forall|j: int| 0 <= j < s.len() ==> s[j] != '/',
    ensures
        first_slash(s) is None,
    decreases s.len(),
{
    if s.len() > 0 {
        let rest = s.drop_first();
        assert forall|j: int| 0 <= j < rest.len() implies rest[j] != '/' by {
            assert(rest[j] == s[j + 1]);
        }
        lemma_first_slash_none(rest);
    }
}

impl Identifier {
    /// Parses `from` on its first `'/'` into namespace and name; without a
    /// `'/'` the whole text is the name and the namespace is empty.
    pub fn new(from: &str) -> (r: Self)
        ensures
            r@ == split_ident(from@),
    {
        let len = from.unicode_len();
        let mut i: usize = 0;
        while i < len
            invariant
                i <= len == from@.len(),
                forall|j: int| 0 <= j < i ==> from@[j] != '/',
            decreases len - i,
        {
            if from.get_char(i) == '/' {
                let r = Identifier {
                    space: from.substring_char(0, i).to_owned(),
                    name: from.substring_char(i + 1, len).to_owned(),
                };
                proof {
                    lemma_first_slash_at(from@, i as int);
                }
                return r;
            }
            i = i + 1;
        }
        let r = Identifier { space: String::new(), name: from.to_owned() };
        proof {
            lemma_first_slash_none(from@);
            assert(r@.space =~= split_ident(from@).space);
        }
        r
    }

    /// An identifier in the `Core` namespace.
    pub fn in_core(name: &str) -> (r: Self)
        ensures
            r@.space == "Core"@,
            r@.name == name@,
    {
        Identifier { space: String::from_str("Core"), name: name.to_owned() }
    }

    /// The rendered text: `space/name`, or the bare name when the namespace
    /// is empty.
    pub fn to_text(&self) -> (r: String)
        ensures
            r@ == self@.text(),
    {
        if self.space.as_str().unicode_len() == 0 {
            self.name.clone()
        } else {
            let mut r = self.space.clone();
            r.append("/");
            r.append(self.name.as_str());
            proof {
                reveal_strlit("/");
                assert(r@ =~= self@.text());
            }
            r
        }
    }
}

impl Clone for Identifier {
    fn clone(&self) -> (r: Self)
        ensures
            r@ == self@,
    {
        Identifier { space: self.space.clone(), name: self.name.clone() }
    }
}

/// Access to the identifier of a named item.
pub trait Identified: Sized {
    /// The identifier, as the contracts see it.
    spec fn spec_identifier(&self) -> IdentV;

    fn identifier(&self) -> (r: Identifier)
        ensures
            r@ == self.spec_identifier(),
    ;

    /// The bare name, without its namespace.
    fn name(&self) -> (r: String)
        ensures
            r@ == self.spec_identifier().name,
    {
        self.identifier().name
    }

    /// The namespace alone.
    fn space(&self) -> (r: String)
        ensures
            r@ == self.spec_identifier().space,
    {
        self.identifier().space
    }

    /// The identifier qualified by `current_namespace` when it has no
    /// namespace of its own.
    fn fully_qualified_name(&self, current_namespace: String) -> (r: String)
        ensures
            r@ == if self.spec_identifier().space.len() == 0 {
                current_namespace@ + seq!['/'] + self.spec_identifier().text()
            } else {
                self.spec_identifier().text()
            },
    {
        let id = self.identifier();
        if id.space.as_str().unicode_len() == 0 {
            let mut r = current_namespace;
            r.append("/");
            r.append(id.to_text().as_str());
            proof {
                reveal_strlit("/");
                assert(r@ =~= current_namespace@ + seq!['/'] + self.spec_identifier().text());
            }
            r
        } else {
            id.to_text()
        }
    }
}

/// A label to identify fields or members.
#[derive(Debug)]
pub struct Label(pub String);

impl View for Label {
    type V = Seq<char>;

    open spec fn view(&self) -> Seq<char> {
        self.0@
    }
}

impl Label {
    pub fn new(name: &str) -> (r: Self)
        ensures
            r@ == name@,
    {
        Label(name.to_owned())
    }
}

impl Clone for Label {
    fn clone(&self) -> (r: Self)
        ensures
            r@ == self@,
    {
        Label(self.0.clone())
    }
}

/// Resolution of a label to whatever the implementor stores under it.
pub trait Labelled<T> {
    fn labelled(&self, label: &Label) -> Option<T>;
}

/// An ordered bank of labels; a label resolves to its position, and when a
/// label occurs twice the later position wins.
#[derive(Debug)]
pub struct LabelBank(pub Vec<Label>);

impl View for LabelBank {
    type V = Seq<Seq<char>>;

    open spec fn view(&self) -> Seq<Seq<char>> {
        self.0@.map_values(|l: Label| l@)
    }
}

/// The position a label resolves to in a bank: the last position holding it,
/// if any.
pub open spec fn bank_lookup(bank: Seq<Seq<char>>, l: Seq<char>) -> Option<int>
    decreases bank.len(),
{
    if bank.len() == 0 {
        None
    } else if bank.last() == l {
        Some(bank.len() - 1)
    } else {
        bank_lookup(bank.drop_last(), l)
    }
}

impl LabelBank {
    /// Banks the given labels in order.
    pub fn from(labels: &[&str]) -> (r: Self)
        ensures
            r@.len() == labels@.len(),
            forall|i: int| 0 <= i < labels@.len() ==> r@[i] == #[trigger] labels@[i]@,
    {
        let mut bank: Vec<Label> = Vec::new();
        let mut i: usize = 0;
        while i < labels.len()
            invariant
                i <= labels@.len(),
                bank@.len() == i,
                forall|j: int| 0 <= j < i ==> bank@[j]@ == #[trigger] labels@[j]@,
            decreases labels@.len() - i,
        {
            bank.push(Label::new(labels[i]));
            i = i + 1;
        }
        let r = LabelBank(bank);
        proof {
            assert(forall|i: int|
                0 <= i < labels@.len() ==> r@[i] == #[trigger] labels@[i]@);
        }
        r
    }
}

impl Clone for LabelBank {
    fn clone(&self) -> (r: Self)
        ensures
            r@ == self@,
    {
        let mut bank: Vec<Label> = Vec::new();
        let mut i: usize = 0;
        while i < self.0.len()
            invariant
                i <= self.0@.len(),
                bank@.len() == i,
                forall|j: int| 0 <= j < i ==> bank@[j]@ == #[trigger] self.0@[j]@,
            decreases self.0@.len() - i,
        {
            bank.push(self.0[i].clone());
            i = i + 1;
        }
        let r = LabelBank(bank);
        proof {
            assert(r@ =~= self@);
        }
        r
    }
}

impl Labelled<usize> for LabelBank {
    /// Resolves a label to its position: the last position holding it.
    fn labelled(&self, label: &Label) -> (r: Option<usize>)
        ensures
            match r {
                Some(i) => bank_lookup(self@, label@) == Some(i as int),
                None => bank_lookup(self@, label@) is None,
            },
    {
        let mut i: usize = self.0.len();
        proof {
            assert(self@.take(self.0@.len() as int) =~= self@);
        }
        while i > 0
            invariant
                i <= self.0@.len(),
                self@.len() == self.0@.len(),
                bank_lookup(self@, label@) == bank_lookup(self@.take(i as int), label@),
            decreases i,
        {
            i = i - 1;
            proof {
                assert(self@.take(i as int + 1).last() == self@[i as int]);
                assert(self@[i as int] == self.0@[i as int]@);
                assert(self@.take(i as int + 1).drop_last() =~= self@.take(i as int));
            }
            if self.0[i].0 == label.0 {
                return Some(i);
            }
        }
        proof {
            assert(self@.take(0) =~= Seq::<Seq<char>>::empty());
        }
        None
    }
}

} // verus!
