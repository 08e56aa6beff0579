//! The mapped record: the named-field form of one source row. Abstractly a
//! record is a map from input field name to the (already transformed) cell
//! value; when the same name is added twice, the later addition wins.

use vstd::prelude::*;
use crate::schema::{ColumnType, Field, Transform};

verus! {

/// One named cell of a mapped record: the field name, the declaration the
/// cell was read under, and the transformed value.
#[derive(Debug)]
pub struct BankField {
    pub name: String,
    pub field: Field,
    pub value: String,
}

/// What a sequence of added fields means as a map from name to value: later
/// additions of the same name shadow earlier ones.
spec fn record_view(s: Seq<BankField>) -> Map<Seq<char>, Seq<char>>
    decreases s.len(),
{
    if s.len() == 0 {
        Map::empty()
    } else {
        record_view(s.drop_last()).insert(s.last().name@, s.last().value@)
    }
}

/// The declarations carried beside the values, keyed the same way: name to
/// the stored declaration's view.
spec fn record_decls(s: Seq<BankField>) -> Map<Seq<char>, (Seq<char>, ColumnType, Seq<Transform>)>
    decreases s.len(),
{
    if s.len() == 0 {
        Map::empty()
    } else {
        record_decls(s.drop_last()).insert(s.last().name@, s.last().field@)
    }
}

/// A named-field record built from one source row. Owned by the pipeline
/// stage that produced it; the projector only reads it.
#[derive(Debug)]
pub struct BankRecord {
    records: Vec<BankField>,
}

impl View for BankRecord {
    type V = Map<Seq<char>, Seq<char>>;

    closed spec fn view(&self) -> Map<Seq<char>, Seq<char>> {
        record_view(self.records@)
    }
}

proof fn lemma_record_view_found(s: Seq<BankField>, i: int)
    requires
        0 <= i < s.len(),
        forall|j: int| i < j < s.len() ==> s[j].name@ != s[i].name@,
    ensures
        record_view(s).dom().contains(s[i].name@),
        record_view(s)[s[i].name@] == s[i].value@,
        record_decls(s).dom().contains(s[i].name@),
        record_decls(s)[s[i].name@] == s[i].field@,
    decreases s.len(),
{
    if i < s.len() - 1 {
        assert(s.drop_last()[i] == s[i]);
        lemma_record_view_found(s.drop_last(), i);
    }
}

proof fn lemma_record_view_absent(s: Seq<BankField>, name: Seq<char>)
    requires
        forall|j: int| 0 <= j < s.len() ==> s[j].name@ != name,
    ensures
        !record_view(s).dom().contains(name),
        !record_decls(s).dom().contains(name),
    decreases s.len(),
{
    if s.len() > 0 {
        lemma_record_view_absent(s.drop_last(), name);
    }
}

impl BankRecord {
    /// The declarations stored beside the values, keyed by field name; an
    /// entry per key of the record's own view.
    pub closed spec fn declarations(&self) -> Map<Seq<char>, (Seq<char>, ColumnType, Seq<Transform>)> {
        record_decls(self.records@)
    }

    /// A record with no fields yet.
    pub fn new() -> (r: BankRecord)
        ensures
            r@ == Map::<Seq<char>, Seq<char>>::empty(),
            r.declarations() == Map::<Seq<char>, (Seq<char>, ColumnType, Seq<Transform>)>::empty(),
    {
        BankRecord { records: Vec::new() }
    }

    /// Adds one field, keyed by its name; an earlier field of the same name
    /// is shadowed, value and declaration both, as an insert into a map
    /// would do.
    pub fn add_field(&mut self, field: BankField)
        ensures
            final(self)@ == old(self)@.insert(field.name@, field.value@),
            final(self).declarations() == old(self).declarations().insert(
                field.name@,
                field.field@,
            ),
    {
        self.records.push(field);
        proof {
            assert(self.records@.drop_last() =~= old(self).records@);
        }
    }

    /// Looks a field up by name: the field added last under that name, with
    /// its value and its stored declaration, or `None` when no field of that
    /// name was ever added.
    pub fn get<'a>(&'a self, name: &String) -> (r: Option<&'a BankField>)
        ensures
            match r {
                Some(f) => {
                    &&& self@.dom().contains(name@)
                    &&& f.name@ == name@
                    &&& f.value@ == self@[name@]
                    &&& self.declarations().dom().contains(name@)
                    &&& f.field@ == self.declarations()[name@]
                },
                None => {
                    &&& !self@.dom().contains(name@)
                    &&& !self.declarations().dom().contains(name@)
                },
            },
    {
        let mut i: usize = self.records.len();
        while i > 0
            invariant
                i <= self.records@.len(),
                forall|j: int| i <= j < self.records@.len() ==> self.records@[j].name@ != name@,
            decreases i,
        {
            i = i - 1;
            if self.records[i].name == *name {
                proof {
                    lemma_record_view_found(self.records@, i as int);
                }
                return Some(&self.records[i]);
            }
        }
        proof {
            lemma_record_view_absent(self.records@, name@);
        }
        None
    }
}

} // verus!
