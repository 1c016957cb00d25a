//! The algebra of inferred types.

use vstd::prelude::*;
use crate::text::{owned_text, same_text};

verus! {

/// The mathematical value that a [`Kind`] denotes.
///
/// An object is a finite map from field names to kinds, so the order in which
/// fields were written plays no part in it and no name occurs twice.
pub ghost enum KindModel {
    Any,
    Null,
    Bool,
    Bytes,
    Datetime,
    Decimal,
    Duration,
    Float,
    Int,
    Number,
    String,
    Uuid,
    Record(Seq<Seq<char>>),
    Option(Box<KindModel>),
    Array(Box<KindModel>),
    Either(Seq<KindModel>),
    Object(Map<Seq<char>, KindModel>),
}

/// One named field of an object.
#[derive(Debug)]
pub struct Entry {
    pub name: String,
    pub kind: Kind,
}

/// The fields of a table or of an object, by name.
///
/// The entries are kept in the order in which they came. Of two entries with one
/// name the later one counts, so the list denotes a map.
#[derive(Debug)]
pub struct TableFields {
    pub entries: Vec<Entry>,
}

/// An inferred type.
#[derive(Debug)]
pub enum Kind {
    Any,
    Null,
    Bool,
    Bytes,
    Datetime,
    Decimal,
    Duration,
    Float,
    Int,
    Number,
    String,
    Uuid,
    /// A reference to a row of one of the tables named.
    Record(Vec<String>),
    Option(Box<Kind>),
    Array(Box<Kind>),
    /// One of several alternatives, in order.
    Either(Vec<Kind>),
    Object(TableFields),
}

/// The names that a list of strings holds, in order.
pub open spec fn names_model(names: Seq<String>) -> Seq<Seq<char>> {
    Seq::new(names.len(), |i: int| names[i]@)
}

/// The kinds that a list of kinds denotes, in order.
pub open spec fn kinds_model(kinds: Seq<Kind>) -> Seq<KindModel>
    decreases kinds,
{
    Seq::new(
        kinds.len(),
        |i: int|
            if 0 <= i < kinds.len() {
                kind_model(kinds[i])
            } else {
                KindModel::Any
            },
    )
}

/// The map that a list of entries denotes: of two entries with one name the later counts.
pub open spec fn entries_model(entries: Seq<Entry>) -> Map<Seq<char>, KindModel>
    decreases entries,
{
    if entries.len() == 0 {
        Map::empty()
    } else {
        entries_model(entries.drop_last()).insert(
            entries.last().name@,
            kind_model(entries.last().kind),
        )
    }
}

/// The value that a kind denotes.
pub open spec fn kind_model(kind: Kind) -> KindModel
    decreases kind,
{
    match kind {
        Kind::Any => KindModel::Any,
        Kind::Null => KindModel::Null,
        Kind::Bool => KindModel::Bool,
        Kind::Bytes => KindModel::Bytes,
        Kind::Datetime => KindModel::Datetime,
        Kind::Decimal => KindModel::Decimal,
        Kind::Duration => KindModel::Duration,
        Kind::Float => KindModel::Float,
        Kind::Int => KindModel::Int,
        Kind::Number => KindModel::Number,
        Kind::String => KindModel::String,
        Kind::Uuid => KindModel::Uuid,
        Kind::Record(tables) => KindModel::Record(names_model(tables@)),
        Kind::Option(inner) => KindModel::Option(Box::new(kind_model(*inner))),
        Kind::Array(inner) => KindModel::Array(Box::new(kind_model(*inner))),
        Kind::Either(kinds) => KindModel::Either(kinds_model(kinds@)),
        Kind::Object(fields) => KindModel::Object(entries_model(fields.entries@)),
    }
}

impl View for Kind {
    type V = KindModel;

    open spec fn view(&self) -> KindModel {
        kind_model(*self)
    }
}

impl View for TableFields {
    type V = Map<Seq<char>, KindModel>;

    open spec fn view(&self) -> Map<Seq<char>, KindModel> {
        entries_model(self.entries@)
    }
}

/// The kind of a reference to a row of `table`.
pub open spec fn record_of(table: Seq<char>) -> KindModel {
    KindModel::Record(seq![table])
}

/// The kind of a value of kind `inner` that may be missing.
pub open spec fn option_of(inner: KindModel) -> KindModel {
    KindModel::Option(Box::new(inner))
}

/// The kind of a list of values of kind `inner`.
pub open spec fn array_of(inner: KindModel) -> KindModel {
    KindModel::Array(Box::new(inner))
}

/// The kind of a value of kind `inner` that may be missing, where a value that may
/// already be missing stays as it is.
pub open spec fn optional_of(inner: KindModel) -> KindModel {
    if inner is Option {
        inner
    } else {
        option_of(inner)
    }
}

/// The map without any field.
pub open spec fn no_fields() -> Map<Seq<char>, KindModel> {
    Map::empty()
}

/// The kind of a value that is of kind `a` or of kind `b`: `a` itself where `b` adds
/// nothing to it, else the alternatives of `a` with `b` after them.
pub open spec fn united(a: KindModel, b: KindModel) -> KindModel {
    if a == b {
        a
    } else {
        match a {
            KindModel::Either(kinds) => if kinds.contains(b) {
                a
            } else {
                KindModel::Either(kinds.push(b))
            },
            _ => KindModel::Either(seq![a, b]),
        }
    }
}

/// The place of the last entry called `name`, if there is one.
pub open spec fn last_index(entries: Seq<Entry>, name: Seq<char>) -> Option<int>
    decreases entries.len(),
{
    if entries.len() == 0 {
        None
    } else if entries.last().name@ == name {
        Some(entries.len() - 1)
    } else {
        last_index(entries.drop_last(), name)
    }
}

/// The last entry called `name` is the one that the map holds under that name.
pub proof fn lemma_last_index(entries: Seq<Entry>, name: Seq<char>)
    ensures
        match last_index(entries, name) {
            Some(i) => {
                &&& 0 <= i < entries.len()
                &&& entries[i].name@ == name
                &&& forall|j: int| i < j < entries.len() ==> (#[trigger] entries[j]).name@ != name
                &&& entries_model(entries).contains_key(name)
                &&& entries_model(entries)[name] == kind_model(entries[i].kind)
            },
            None => {
                &&& forall|j: int| 0 <= j < entries.len() ==> (#[trigger] entries[j]).name@ != name
                &&& !entries_model(entries).contains_key(name)
            },
        },
    decreases entries.len(),
{
    if entries.len() > 0 && entries.last().name@ != name {
        let front = entries.drop_last();
        lemma_last_index(front, name);
        assert forall|j: int| 0 <= j < front.len() implies front[j] == entries[j] by {}
        match last_index(front, name) {
            Some(i) => {
                assert forall|j: int| i < j < entries.len() implies (#[trigger] entries[j]).name@
                    != name by {
                    if j < front.len() {
                        assert(front[j] == entries[j]);
                    }
                }
            },
            None => {
                assert forall|j: int| 0 <= j < entries.len() implies (#[trigger] entries[j]).name@
                    != name by {
                    if j < front.len() {
                        assert(front[j] == entries[j]);
                    }
                }
            },
        }
    }
}

/// Replacing the last entry of a name by another of that name puts the new kind
/// under the name and leaves the rest of the map alone.
pub proof fn lemma_replace_last(entries: Seq<Entry>, i: int, entry: Entry)
    requires
        0 <= i < entries.len(),
        entries[i].name@ == entry.name@,
        forall|j: int| i < j < entries.len() ==> (#[trigger] entries[j]).name@ != entry.name@,
    ensures
        entries_model(entries.update(i, entry)) == entries_model(entries).insert(
            entry.name@,
            kind_model(entry.kind),
        ),
    decreases entries.len(),
{
    let changed = entries.update(i, entry);
    let front = entries.drop_last();
    if i == entries.len() - 1 {
        assert(changed.drop_last() =~= front);
        assert(entries_model(changed) =~= entries_model(entries).insert(
            entry.name@,
            kind_model(entry.kind),
        ));
    } else {
        assert(changed.drop_last() =~= front.update(i, entry));
        assert(changed.last() == entries.last());
        assert forall|j: int| i < j < front.len() implies (#[trigger] front[j]).name@
            != entry.name@ by {
            assert(front[j] == entries[j]);
        }
        lemma_replace_last(front, i, entry);
        assert(entries_model(changed) =~= entries_model(entries).insert(
            entry.name@,
            kind_model(entry.kind),
        ));
    }
}

/// Lists that agree entry by entry, in names and in what the kinds denote, denote one map.
pub proof fn lemma_entries_pointwise(a: Seq<Entry>, b: Seq<Entry>)
    requires
        a.len() == b.len(),
        forall|i: int|
            0 <= i < a.len() ==> (#[trigger] a[i]).name@ == b[i].name@ && kind_model(a[i].kind)
                == kind_model(b[i].kind),
    ensures
        entries_model(a) == entries_model(b),
    decreases a.len(),
{
    if a.len() > 0 {
        let x = a.drop_last();
        let y = b.drop_last();
        assert forall|i: int| 0 <= i < x.len() implies (#[trigger] x[i]).name@ == y[i].name@
            && kind_model(x[i].kind) == kind_model(y[i].kind) by {
            assert(x[i] == a[i]);
            assert(y[i] == b[i]);
        }
        lemma_entries_pointwise(x, y);
        assert(a.last() == a[a.len() - 1]);
    }
}

/// A copy of a list of names.
pub fn duplicate_names(names: &Vec<String>) -> (copy: Vec<String>)
    ensures
        names_model(copy@) == names_model(names@),
{
    let mut copy: Vec<String> = Vec::new();
    let mut i: usize = 0;
    while i < names.len()
        invariant
            i <= names.len(),
            copy.len() == i,
            forall|j: int| 0 <= j < i ==> copy@[j]@ == names@[j]@,
        decreases names.len() - i,
    {
        copy.push(owned_text(names[i].as_str()));
        i += 1;
    }
    assert(names_model(copy@) =~= names_model(names@));
    copy
}

/// Tells whether two lists hold the same names in the same order.
pub fn same_names(a: &Vec<String>, b: &Vec<String>) -> (same: bool)
    ensures
        same == (names_model(a@) == names_model(b@)),
{
    if a.len() != b.len() {
        assert(names_model(a@).len() != names_model(b@).len());
        return false;
    }
    let mut i: usize = 0;
    while i < a.len()
        invariant
            i <= a.len(),
            a.len() == b.len(),
            forall|j: int| 0 <= j < i ==> a@[j]@ == b@[j]@,
        decreases a.len() - i,
    {
        if !same_text(a[i].as_str(), b[i].as_str()) {
            assert(names_model(a@)[i as int] != names_model(b@)[i as int]);
            return false;
        }
        i += 1;
    }
    assert(names_model(a@) =~= names_model(b@));
    true
}

impl TableFields {
    /// No fields at all.
    pub fn new() -> (fields: TableFields)
        ensures
            fields@ == Map::<Seq<char>, KindModel>::empty(),
    {
        TableFields { entries: Vec::new() }
    }

    /// The place of the entry that counts for `name`.
    pub fn position(&self, name: &str) -> (place: Option<usize>)
        ensures
            match place {
                Some(i) => last_index(self.entries@, name@) == Some(i as int),
                None => last_index(self.entries@, name@) is None,
            },
    {
        let mut i: usize = self.entries.len();
        while i > 0
            invariant
                i <= self.entries.len(),
                forall|j: int|
                    i <= j < self.entries.len() ==> (#[trigger] self.entries@[j]).name@ != name@,
            decreases i,
        {
            i -= 1;
            if same_text(self.entries[i].name.as_str(), name) {
                proof {
                    lemma_last_index(self.entries@, name@);
                }
                return Some(i);
            }
        }
        proof {
            lemma_last_index(self.entries@, name@);
        }
        None
    }

    /// The kind of the field called `name`, if there is such a field.
    pub fn get(&self, name: &str) -> (found: Option<&Kind>)
        ensures
            match found {
                Some(kind) => {
                    &&& self@.contains_key(name@)
                    &&& kind@ == self@[name@]
                    &&& last_index(self.entries@, name@) matches Some(i) && *kind
                        == self.entries@[i].kind
                },
                None => !self@.contains_key(name@),
            },
    {
        proof {
            lemma_last_index(self.entries@, name@);
        }
        match self.position(name) {
            Some(i) => Some(&self.entries[i].kind),
            None => None,
        }
    }

    /// Tells whether there is a field called `name`.
    pub fn contains(&self, name: &str) -> (found: bool)
        ensures
            found == self@.contains_key(name@),
    {
        self.get(name).is_some()
    }

    /// Puts `kind` under `name`, in place of what was there under that name.
    pub fn insert(&mut self, name: String, kind: Kind)
        ensures
            final(self)@ == old(self)@.insert(name@, kind@),
    {
        proof {
            lemma_last_index(self.entries@, name@);
        }
        match self.position(name.as_str()) {
            Some(i) => {
                let entry = Entry { name, kind };
                proof {
                    lemma_replace_last(self.entries@, i as int, entry);
                }
                self.entries[i] = entry;
            },
            None => {
                let entry = Entry { name, kind };
                self.entries.push(entry);
                assert(self.entries@.drop_last() =~= old(self).entries@);
            },
        }
    }

    /// Puts every field of `other` among these fields, in place of what was there
    /// under its name.
    pub fn extend(&mut self, other: &TableFields)
        ensures
            final(self)@ == old(self)@.union_prefer_right(other@),
    {
        let mut i: usize = 0;
        assert(other.entries@.take(0) =~= Seq::<Entry>::empty());
        assert(self@ =~= old(self)@.union_prefer_right(entries_model(other.entries@.take(0))));
        while i < other.entries.len()
            invariant
                i <= other.entries.len(),
                self@ == old(self)@.union_prefer_right(
                    entries_model(other.entries@.take(i as int)),
                ),
            decreases other.entries.len() - i,
        {
            let entry = &other.entries[i];
            self.insert(owned_text(entry.name.as_str()), entry.kind.duplicate());
            proof {
                let upto = other.entries@.take(i + 1);
                assert(upto.drop_last() =~= other.entries@.take(i as int));
                assert(upto.last() == other.entries@[i as int]);
                assert(self@ =~= old(self)@.union_prefer_right(entries_model(upto)));
            }
            i += 1;
        }
        assert(other.entries@.take(i as int) =~= other.entries@);
    }

    /// A copy that denotes the same map.
    pub fn duplicate(&self) -> (copy: TableFields)
        ensures
            copy@ == self@,
        decreases self,
    {
        let mut entries: Vec<Entry> = Vec::new();
        let mut i: usize = 0;
        while i < self.entries.len()
            invariant
                i <= self.entries.len(),
                entries.len() == i,
                forall|j: int|
                    0 <= j < i ==> (#[trigger] entries@[j]).name@ == self.entries@[j].name@
                        && kind_model(entries@[j].kind) == kind_model(self.entries@[j].kind),
            decreases self.entries.len() - i,
        {
            let entry = &self.entries[i];
            entries.push(
                Entry { name: owned_text(entry.name.as_str()), kind: entry.kind.duplicate() },
            );
            i += 1;
        }
        proof {
            lemma_entries_pointwise(entries@, self.entries@);
        }
        TableFields { entries }
    }

    /// Tells whether two lists of fields denote the same map.
    pub fn same(&self, other: &TableFields) -> (same: bool)
        ensures
            same == (self@ == other@),
        decreases self,
    {
        let mut i: usize = 0;
        while i < self.entries.len()
            invariant
                i <= self.entries.len(),
                forall|j: int|
                    0 <= j < i ==> {
                        &&& self@.contains_key((#[trigger] self.entries@[j]).name@)
                        &&& other@.contains_key(self.entries@[j].name@)
                        &&& other@[self.entries@[j].name@] == self@[self.entries@[j].name@]
                    },
            decreases self.entries.len() - i,
        {
            let name = self.entries[i].name.as_str();
            proof {
                lemma_last_index(self.entries@, name@);
            }
            match (self.get(name), other.get(name)) {
                (Some(mine), Some(theirs)) => {
                    assert(decreases_to!(*self => self.entries));
                    assert(decreases_to!(self.entries => self.entries@));
                    let ghost k = last_index(self.entries@, name@)->0;
                    assert(decreases_to!(self.entries@ => self.entries@[k]));
                    assert(decreases_to!(self.entries@[k] => self.entries@[k].kind));
                    if !mine.same(theirs) {
                        return false;
                    }
                },
                _ => {
                    return false;
                },
            }
            i += 1;
        }
        let mut i: usize = 0;
        while i < other.entries.len()
            invariant
                i <= other.entries.len(),
                forall|j: int|
                    0 <= j < i ==> self@.contains_key((#[trigger] other.entries@[j]).name@),
            decreases other.entries.len() - i,
        {
            let name = other.entries[i].name.as_str();
            proof {
                lemma_last_index(other.entries@, name@);
            }
            if !self.contains(name) {
                return false;
            }
            i += 1;
        }
        proof {
            assert forall|name: Seq<char>| #[trigger]
                self@.contains_key(name) == other@.contains_key(name) by {
                lemma_last_index(self.entries@, name);
                lemma_last_index(other.entries@, name);
            }
            assert forall|name: Seq<char>| #[trigger] self@.contains_key(name) implies self@[name]
                == other@[name] by {
                lemma_last_index(self.entries@, name);
            }
            assert(self@ =~= other@);
        }
        true
    }
}

impl Kind {
    /// Tells whether two kinds denote the same type.
    pub fn same(&self, other: &Kind) -> (same: bool)
        ensures
            same == (self@ == other@),
        decreases self,
    {
        match (self, other) {
            (Kind::Any, Kind::Any) => true,
            (Kind::Null, Kind::Null) => true,
            (Kind::Bool, Kind::Bool) => true,
            (Kind::Bytes, Kind::Bytes) => true,
            (Kind::Datetime, Kind::Datetime) => true,
            (Kind::Decimal, Kind::Decimal) => true,
            (Kind::Duration, Kind::Duration) => true,
            (Kind::Float, Kind::Float) => true,
            (Kind::Int, Kind::Int) => true,
            (Kind::Number, Kind::Number) => true,
            (Kind::String, Kind::String) => true,
            (Kind::Uuid, Kind::Uuid) => true,
            (Kind::Record(mine), Kind::Record(theirs)) => same_names(mine, theirs),
            (Kind::Option(mine), Kind::Option(theirs)) => mine.same(theirs),
            (Kind::Array(mine), Kind::Array(theirs)) => mine.same(theirs),
            (Kind::Either(mine), Kind::Either(theirs)) => {
                if mine.len() != theirs.len() {
                    assert(kinds_model(mine@).len() != kinds_model(theirs@).len());
                    return false;
                }
                let mut i: usize = 0;
                while i < mine.len()
                    invariant
                        *self == Kind::Either(*mine),
                        *other == Kind::Either(*theirs),
                        i <= mine.len(),
                        mine.len() == theirs.len(),
                        forall|j: int|
                            0 <= j < i ==> kind_model(mine@[j]) == kind_model(theirs@[j]),
                    decreases mine.len() - i,
                {
                    assert(decreases_to!(*self => self->Either_0));
                    assert(decreases_to!(*mine => mine[i as int]));
                    if !mine[i].same(&theirs[i]) {
                        assert(kinds_model(mine@)[i as int] != kinds_model(theirs@)[i as int]);
                        return false;
                    }
                    i += 1;
                }
                assert(kinds_model(mine@) =~= kinds_model(theirs@));
                true
            },
            (Kind::Object(mine), Kind::Object(theirs)) => mine.same(theirs),
            _ => false,
        }
    }

    /// The kind of a reference to a row of `table`.
    pub fn record(table: &str) -> (kind: Kind)
        ensures
            kind@ == record_of(table@),
    {
        let mut tables: Vec<String> = Vec::new();
        tables.push(owned_text(table));
        assert(names_model(tables@) =~= seq![table@]);
        Kind::Record(tables)
    }

    /// The kind of a list of values of this kind.
    pub fn array(self) -> (kind: Kind)
        ensures
            kind@ == array_of(self@),
    {
        Kind::Array(Box::new(self))
    }

    /// The kind of a value of this kind that may be missing. A kind that is optional
    /// already is not wrapped again.
    pub fn optional(self) -> (kind: Kind)
        ensures
            kind@ == optional_of(self@),
    {
        match self {
            Kind::Option(inner) => Kind::Option(inner),
            other => Kind::Option(Box::new(other)),
        }
    }

    /// The kind of a value that is of this kind or of kind `other`.
    pub fn unite(self, other: Kind) -> (both: Kind)
        ensures
            both@ == united(self@, other@),
    {
        if self.same(&other) {
            return self;
        }
        match self {
            Kind::Either(mut kinds) => {
                let mut i: usize = 0;
                while i < kinds.len()
                    invariant
                        self@ == KindModel::Either(kinds_model(kinds@)),
                        self@ != other@,
                        i <= kinds.len(),
                        forall|j: int| 0 <= j < i ==> kind_model(kinds@[j]) != other@,
                    decreases kinds.len() - i,
                {
                    if kinds[i].same(&other) {
                        assert(kinds_model(kinds@)[i as int] == other@);
                        return Kind::Either(kinds);
                    }
                    i += 1;
                }
                assert(!kinds_model(kinds@).contains(other@));
                let ghost before = kinds@;
                kinds.push(other);
                assert(kinds_model(kinds@) =~= kinds_model(before).push(other@));
                Kind::Either(kinds)
            },
            first => {
                let mut kinds: Vec<Kind> = Vec::new();
                kinds.push(first);
                kinds.push(other);
                assert(kinds_model(kinds@) =~= seq![first@, other@]);
                Kind::Either(kinds)
            },
        }
    }

    /// A copy that denotes the same type.
    pub fn duplicate(&self) -> (copy: Kind)
        ensures
            copy@ == self@,
        decreases self,
    {
        match self {
            Kind::Any => Kind::Any,
            Kind::Null => Kind::Null,
            Kind::Bool => Kind::Bool,
            Kind::Bytes => Kind::Bytes,
            Kind::Datetime => Kind::Datetime,
            Kind::Decimal => Kind::Decimal,
            Kind::Duration => Kind::Duration,
            Kind::Float => Kind::Float,
            Kind::Int => Kind::Int,
            Kind::Number => Kind::Number,
            Kind::String => Kind::String,
            Kind::Uuid => Kind::Uuid,
            Kind::Record(tables) => Kind::Record(duplicate_names(tables)),
            Kind::Option(inner) => Kind::Option(Box::new(inner.duplicate())),
            Kind::Array(inner) => Kind::Array(Box::new(inner.duplicate())),
            Kind::Either(kinds) => {
                let mut copy: Vec<Kind> = Vec::new();
                let mut i: usize = 0;
                while i < kinds.len()
                    invariant
                        *self == Kind::Either(*kinds),
                        i <= kinds.len(),
                        copy.len() == i,
                        forall|j: int| 0 <= j < i ==> kind_model(copy@[j]) == kind_model(kinds@[j]),
                    decreases kinds.len() - i,
                {
                    assert(decreases_to!(*self => self->Either_0));
                    assert(decreases_to!(*kinds => kinds[i as int]));
                    copy.push(kinds[i].duplicate());
                    i += 1;
                }
                assert(kinds_model(copy@) =~= kinds_model(kinds@));
                Kind::Either(copy)
            },
            Kind::Object(fields) => Kind::Object(fields.duplicate()),
        }
    }
}

} // verus!
