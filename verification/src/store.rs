//! The record collection: contacts in insertion order.

use crate::contact::{Contact, ContactView};
use crate::text::{lemma_empty_needle, lowercase, to_lowercase};
use vstd::prelude::*;

verus! {

/// An ordered collection of contacts. Order is insertion order; nothing is
/// deduplicated, neither by name or email nor by identifier.
#[derive(Debug)]
pub struct Store {
    pub contacts: Vec<Contact>,
}

impl View for Store {
    type V = Seq<ContactView>;

    open spec fn view(&self) -> Seq<ContactView> {
        records_of(self.contacts@)
    }
}

/// The records behind a sequence of contacts.
pub open spec fn records_of(contacts: Seq<Contact>) -> Seq<ContactView> {
    contacts.map_values(|c: Contact| c@)
}

/// The records behind a sequence of borrowed contacts.
pub open spec fn records_of_refs(contacts: Seq<&Contact>) -> Seq<ContactView> {
    contacts.map_values(|c: &Contact| c@)
}

/// The test "has another identifier than `id`".
pub open spec fn is_not(id: Seq<char>) -> spec_fn(ContactView) -> bool {
    |c: ContactView| c.id != id
}

/// The test "answers a query already put in lower case".
pub open spec fn answers_lowered(needle: Seq<char>) -> spec_fn(ContactView) -> bool {
    |c: ContactView| c.matches_lowered(needle)
}

/// The test "answers `query`, letter case aside".
pub open spec fn answers(query: Seq<char>) -> spec_fn(ContactView) -> bool {
    answers_lowered(lowercase(query))
}

/// Whether some record of `records` carries the identifier `id`.
pub open spec fn has_id(records: Seq<ContactView>, id: Seq<char>) -> bool {
    exists|i: int| 0 <= i < records.len() && #[trigger] records[i].id == id
}

/// Whether no two records of `records` carry the same identifier.
pub open spec fn ids_distinct(records: Seq<ContactView>) -> bool {
    forall|i: int, j: int|
        0 <= i < j < records.len() ==> (#[trigger] records[i]).id != (#[trigger] records[j]).id
}

impl Default for Store {
    fn default() -> (s: Store)
        ensures
            s@ == Seq::<ContactView>::empty(),
    {
        Store::new()
    }
}

impl Store {
    /// The empty collection.
    pub fn new() -> (s: Store)
        ensures
            s@ == Seq::<ContactView>::empty(),
    {
        let s = Store { contacts: Vec::new() };
        assert(s@ =~= Seq::<ContactView>::empty());
        s
    }

    /// All records, in insertion order.
    pub fn list(&self) -> (all: &[Contact])
        ensures
            all@ == self.contacts@,
            records_of(all@) == self@,
    {
        self.contacts.as_slice()
    }

    /// Whether the two collections hold the same records in the same order.
    pub fn same_as(&self, other: &Store) -> (b: bool)
        ensures
            b == (self@ == other@),
    {
        if self.contacts.len() != other.contacts.len() {
            return false;
        }
        let mut i: usize = 0;
        while i < self.contacts.len()
            invariant
                i <= self.contacts.len(),
                self.contacts.len() == other.contacts.len(),
                self@.take(i as int) == other@.take(i as int),
            decreases self.contacts.len() - i,
        {
            if !self.contacts[i].same_as(&other.contacts[i]) {
                assert(self@[i as int] != other@[i as int]);
                return false;
            }
            proof {
                assert(self@.take(i + 1) =~= self@.take(i as int).push(self@[i as int]));
                assert(other@.take(i + 1) =~= other@.take(i as int).push(other@[i as int]));
            }
            i += 1;
        }
        proof {
            assert(self@.take(self@.len() as int) =~= self@);
            assert(other@.take(other@.len() as int) =~= other@);
        }
        true
    }

    /// Appends `c`. Nothing is checked: a record equal to one already held,
    /// identifier included, is appended all the same.
    pub fn add(&mut self, c: Contact)
        ensures
            final(self)@ == old(self)@.push(c@),
    {
        self.contacts.push(c);
        assert(self@ =~= old(self)@.push(c@));
    }

    /// Removes every record whose identifier is `id` and keeps the others in
    /// their order. Returns whether a record was removed.
    pub fn remove(&mut self, id: &str) -> (removed: bool)
        ensures
            final(self)@ == old(self)@.filter(is_not(id@)),
            removed == has_id(old(self)@, id@),
            removed == (final(self)@.len() != old(self)@.len()),
    {
        let wanted: String = id.to_owned();
        // Take the records out, and put back those that stay.
        let mut all: Vec<Contact> = Vec::new();
        std::mem::swap(&mut self.contacts, &mut all);
        let ghost before = records_of(all@);
        let mut removed = false;
        proof {
            reveal(Seq::filter);
            assert(before.take(0) =~= Seq::<ContactView>::empty());
            assert(self@ =~= before.take(0).filter(is_not(id@)));
        }
        for c in it: all
            invariant
                before == old(self)@,
                records_of(it.seq()) == before,
                wanted@ == id@,
                self@ == before.take(it.index() as int).filter(is_not(id@)),
                removed == has_id(before.take(it.index() as int), id@),
        {
            let ghost i = it.index() as int;
            proof {
                assert(before.take(i + 1) =~= before.take(i).push(c@));
                lemma_filter_step(before.take(i), c@, is_not(id@));
                if has_id(before.take(i + 1), id@) {
                    let k = choose|k: int|
                        0 <= k < i + 1 && #[trigger] before.take(i + 1)[k].id == id@;
                    if k < i {
                        assert(before.take(i)[k].id == id@);
                    }
                }
                if has_id(before.take(i), id@) {
                    let k = choose|k: int| 0 <= k < i && #[trigger] before.take(i)[k].id == id@;
                    assert(before.take(i + 1)[k].id == id@);
                }
                if c@.id == id@ {
                    assert(before.take(i + 1)[i].id == id@);
                }
            }
            if c.id == wanted {
                removed = true;
            } else {
                let ghost prior = self@;
                self.contacts.push(c);
                assert(self@ =~= prior.push(c@));
            }
        }
        proof {
            assert(before.take(before.len() as int) =~= before);
            lemma_removed_shrinks(before, id@);
        }
        removed
    }

    /// The records that answer `query`, in insertion order: those whose name
    /// or email, put in lower case, holds the query put in lower case. An
    /// empty query is answered by every record.
    pub fn find(&self, query: &str) -> (found: Vec<&Contact>)
        ensures
            records_of_refs(found@) == self@.filter(answers(query@)),
            query@.len() == 0 ==> records_of_refs(found@) == self@,
    {
        let needle = to_lowercase(query);
        let found = self.find_lowered(needle.as_str());
        proof {
            if query@.len() == 0 {
                assert(needle@ =~= Seq::<char>::empty());
                assert forall|i: int| 0 <= i < self@.len() implies answers_lowered(needle@)(
                    #[trigger] self@[i],
                ) by {
                    lemma_empty_needle(lowercase(self@[i].name));
                }
                lemma_filter_all(self@, answers_lowered(needle@));
            }
        }
        found
    }

    /// The records whose lower-case name or email holds `needle`, in
    /// insertion order. `needle` is taken as it is: to ignore letter case,
    /// hand in a lower-case text.
    pub fn find_lowered(&self, needle: &str) -> (found: Vec<&Contact>)
        ensures
            records_of_refs(found@) == self@.filter(answers_lowered(needle@)),
    {
        let mut found: Vec<&Contact> = Vec::new();
        let mut i: usize = 0;
        proof {
            reveal(Seq::filter);
            assert(self@.take(0) =~= Seq::<ContactView>::empty());
            assert(records_of_refs(found@) =~= self@.take(0).filter(answers_lowered(needle@)));
        }
        while i < self.contacts.len()
            invariant
                i <= self.contacts.len(),
                records_of_refs(found@) == self@.take(i as int).filter(answers_lowered(needle@)),
            decreases self.contacts.len() - i,
        {
            let c = &self.contacts[i];
            proof {
                assert(self@.take(i + 1) =~= self@.take(i as int).push(c@));
                lemma_filter_step(self@.take(i as int), c@, answers_lowered(needle@));
            }
            if c.matches_lowered(needle) {
                let ghost prior = records_of_refs(found@);
                found.push(c);
                assert(records_of_refs(found@) =~= prior.push(c@));
            }
            i += 1;
        }
        proof {
            assert(self@.take(self@.len() as int) =~= self@);
        }
        found
    }
}

/// Nothing makes records unique by name or email: two records that differ
/// at most in their identifiers can both be appended, and a search that
/// finds one finds both, after all that was found before.
pub proof fn lemma_twins_both_found(
    records: Seq<ContactView>,
    a: ContactView,
    b: ContactView,
    query: Seq<char>,
)
    requires
        a.name == b.name,
        a.email == b.email,
    ensures
        records.push(a).push(b).filter(answers(query)) == if a.matches(query) {
            records.filter(answers(query)).push(a).push(b)
        } else {
            records.filter(answers(query))
        },
{
    lemma_filter_step(records, a, answers(query));
    lemma_filter_step(records.push(a), b, answers(query));
}

/// Removing by identifier shortens the sequence exactly when a record
/// carries the identifier.
pub proof fn lemma_removed_shrinks(records: Seq<ContactView>, id: Seq<char>)
    ensures
        records.filter(is_not(id)).len() <= records.len(),
        has_id(records, id) <==> records.filter(is_not(id)).len() != records.len(),
    decreases records.len(),
{
    reveal(Seq::filter);
    if records.len() > 0 {
        let front = records.drop_last();
        lemma_removed_shrinks(front, id);
        if has_id(records, id) {
            let k = choose|k: int| 0 <= k < records.len() && #[trigger] records[k].id == id;
            if k < front.len() {
                assert(front[k].id == id);
            }
        }
        if has_id(front, id) {
            let k = choose|k: int| 0 <= k < front.len() && #[trigger] front[k].id == id;
            assert(records[k].id == id);
        }
        if records.last().id == id {
            assert(records[records.len() - 1].id == id);
        }
    }
}

/// After a removal no record carries the identifier removed, and whether
/// any other identifier occurs is as before.
pub proof fn lemma_remove_clears(records: Seq<ContactView>, id: Seq<char>, other: Seq<char>)
    ensures
        !has_id(records.filter(is_not(id)), id),
        other != id ==> has_id(records.filter(is_not(id)), other) == has_id(records, other),
{
    lemma_filter_has_id(records, is_not(id), id);
    lemma_filter_has_id(records, is_not(id), other);
    if other != id && has_id(records, other) {
        let i = choose|i: int| 0 <= i < records.len() && #[trigger] records[i].id == other;
        assert(is_not(id)(records[i]));
    }
}

/// Removing an identifier that no record carries changes nothing.
pub proof fn lemma_remove_absent(records: Seq<ContactView>, id: Seq<char>)
    requires
        !has_id(records, id),
    ensures
        records.filter(is_not(id)) == records,
{
    assert forall|i: int| 0 <= i < records.len() implies is_not(id)(#[trigger] records[i]) by {
        if records[i].id == id {
            assert(has_id(records, id));
        }
    }
    lemma_filter_all(records, is_not(id));
}

/// Identifiers that are pairwise different stay so when a record with an
/// identifier not yet in use is appended.
pub proof fn lemma_add_keeps_ids_distinct(records: Seq<ContactView>, c: ContactView)
    requires
        ids_distinct(records),
        !has_id(records, c.id),
    ensures
        ids_distinct(records.push(c)),
{
    let after = records.push(c);
    assert forall|i: int, j: int| 0 <= i < j < after.len() implies (#[trigger] after[i]).id != (
    #[trigger] after[j]).id by {
        if j == records.len() {
            if records[i].id == c.id {
                assert(has_id(records, c.id));
            }
        } else {
            assert(records[i].id != records[j].id);
        }
    }
}

/// Identifiers that are pairwise different stay so under a removal.
pub proof fn lemma_remove_keeps_ids_distinct(records: Seq<ContactView>, id: Seq<char>)
    requires
        ids_distinct(records),
    ensures
        ids_distinct(records.filter(is_not(id))),
    decreases records.len(),
{
    reveal(Seq::filter);
    if records.len() > 0 {
        let front = records.drop_last();
        let last = records.last();
        assert forall|i: int, j: int| 0 <= i < j < front.len() implies (#[trigger] front[i]).id != (
        #[trigger] front[j]).id by {
            assert(records[i].id != records[j].id);
        }
        lemma_remove_keeps_ids_distinct(front, id);
        let kept = front.filter(is_not(id));
        if is_not(id)(last) {
            lemma_filter_has_id(front, is_not(id), last.id);
            if has_id(kept, last.id) {
                let i = choose|i: int|
                    0 <= i < front.len() && #[trigger] front[i].id == last.id && is_not(id)(
                        front[i],
                    );
                assert(records[i].id != records[records.len() - 1].id);
            }
            lemma_add_keeps_ids_distinct(kept, last);
        }
    }
}

/// Filtering a sequence extended by one record: the record is kept at the
/// end if it passes the test and dropped if it does not.
proof fn lemma_filter_step(
    records: Seq<ContactView>,
    last: ContactView,
    test: spec_fn(ContactView) -> bool,
)
    ensures
        records.push(last).filter(test) == if test(last) {
            records.filter(test).push(last)
        } else {
            records.filter(test)
        },
{
    reveal(Seq::filter);
    assert(records.push(last).drop_last() =~= records);
}

/// A filter that every record passes keeps the whole sequence.
proof fn lemma_filter_all(records: Seq<ContactView>, test: spec_fn(ContactView) -> bool)
    requires
        forall|i: int| 0 <= i < records.len() ==> test(#[trigger] records[i]),
    ensures
        records.filter(test) == records,
    decreases records.len(),
{
    reveal(Seq::filter);
    if records.len() > 0 {
        lemma_filter_all(records.drop_last(), test);
        assert(records.drop_last().push(records.last()) =~= records);
    }
}

/// An identifier occurs among the records that a filter keeps exactly when
/// a record that passes the test carries it.
proof fn lemma_filter_has_id(
    records: Seq<ContactView>,
    test: spec_fn(ContactView) -> bool,
    id: Seq<char>,
)
    ensures
        has_id(records.filter(test), id) <==> exists|i: int|
            0 <= i < records.len() && #[trigger] records[i].id == id && test(records[i]),
    decreases records.len(),
{
    reveal(Seq::filter);
    if records.len() > 0 {
        let front = records.drop_last();
        let last = records.last();
        lemma_filter_has_id(front, test, id);
        let kept = records.filter(test);
        if has_id(kept, id) {
            let k = choose|k: int| 0 <= k < kept.len() && #[trigger] kept[k].id == id;
            if test(last) && k == kept.len() - 1 {
                assert(records[records.len() - 1].id == id);
            } else {
                assert(front.filter(test)[k].id == id);
                let i = choose|i: int|
                    0 <= i < front.len() && #[trigger] front[i].id == id && test(front[i]);
                assert(records[i].id == id);
            }
        }
        if exists|i: int| 0 <= i < records.len() && #[trigger] records[i].id == id && test(
            records[i],
        ) {
            let i = choose|i: int|
                0 <= i < records.len() && #[trigger] records[i].id == id && test(records[i]);
            if i == records.len() - 1 {
                assert(kept[kept.len() - 1].id == id);
            } else {
                assert(front[i].id == id);
                let k = choose|k: int|
                    0 <= k < front.filter(test).len() && #[trigger] front.filter(test)[k].id == id;
                assert(kept[k].id == id);
            }
        }
    }
}

} // verus!
