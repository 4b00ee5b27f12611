//! The virtual hosts of one listener, in the order in which they were added.

use vstd::prelude::*;
use crate::directive::{Directive, DirectiveView, directive_views};

verus! {

/// A virtual host: its name and its directives in order.
#[derive(Debug, PartialEq, Eq)]
pub struct HostEntry {
    pub name: String,
    pub directives: Vec<Directive>,
}

/// What a [`HostEntry`] holds, as mathematical values.
pub struct HostEntryView {
    pub name: Seq<char>,
    pub directives: Seq<DirectiveView>,
}

impl View for HostEntry {
    type V = HostEntryView;

    open spec fn view(&self) -> HostEntryView {
        HostEntryView { name: self.name@, directives: directive_views(self.directives@) }
    }
}

/// The views of a list of entries, in the same order.
pub open spec fn entry_views(list: Seq<HostEntry>) -> Seq<HostEntryView> {
    list.map_values(|e: HostEntry| e@)
}

/// Whether `name` is a wildcard: it begins with `*`.
pub open spec fn is_wildcard(name: Seq<char>) -> bool {
    name.len() > 0 && name[0] == '*'
}

/// The position of the first entry from `at` on that is named `name`, or the
/// length of the table where there is none.
pub open spec fn named_from(table: Seq<HostEntryView>, name: Seq<char>, at: int) -> int
    decreases table.len() - at,
{
    if at < 0 || at >= table.len() {
        table.len() as int
    } else if table[at].name == name {
        at
    } else {
        named_from(table, name, at + 1)
    }
}

/// The position of the first wildcard entry from `at` on, or the length of
/// the table where there is none.
pub open spec fn wildcard_from(table: Seq<HostEntryView>, at: int) -> int
    decreases table.len() - at,
{
    if at < 0 || at >= table.len() {
        table.len() as int
    } else if is_wildcard(table[at].name) {
        at
    } else {
        wildcard_from(table, at + 1)
    }
}

/// The position of the entry named `name`, if the table has one.
pub open spec fn position_of(table: Seq<HostEntryView>, name: Seq<char>) -> Option<int> {
    let i = named_from(table, name, 0);
    if i < table.len() {
        Some(i)
    } else {
        None
    }
}

/// The position of the first wildcard entry, if the table has one.
pub open spec fn first_wildcard(table: Seq<HostEntryView>) -> Option<int> {
    let i = wildcard_from(table, 0);
    if i < table.len() {
        Some(i)
    } else {
        None
    }
}

/// The position of the entry that answers requests for `host`: the first
/// wildcard entry where the table has one, whatever `host` is, and else the
/// entry named `host`.
pub open spec fn selected(table: Seq<HostEntryView>, host: Seq<char>) -> Option<int> {
    match first_wildcard(table) {
        Some(w) => Some(w),
        None => position_of(table, host),
    }
}

/// No two entries of the table have the same name.
pub open spec fn distinct_names(table: Seq<HostEntryView>) -> bool {
    forall|i: int, j: int|
        0 <= i < j < table.len() ==> (#[trigger] table[i]).name != (#[trigger] table[j]).name
}

/// The table after `entry` was put in: in the place of the entry of that
/// name where there is one, at the end where there is none.
pub open spec fn put(table: Seq<HostEntryView>, entry: HostEntryView) -> Seq<HostEntryView> {
    match position_of(table, entry.name) {
        Some(i) => table.update(i, entry),
        None => table.push(entry),
    }
}

/// The directives that the table holds under `name`.
pub open spec fn directives_of(table: Seq<HostEntryView>, name: Seq<char>) -> Option<
    Seq<DirectiveView>,
> {
    match position_of(table, name) {
        Some(i) => Some(table[i].directives),
        None => None,
    }
}

/// What was put into the table is found there under its name.
pub proof fn law_put_then_found(table: Seq<HostEntryView>, entry: HostEntryView)
    ensures
        directives_of(put(table, entry), entry.name) == Some(entry.directives),
{
    lemma_named_from(table, entry.name, 0);
    let after = put(table, entry);
    let at = named_from(table, entry.name, 0);
    lemma_named_is(after, entry.name, 0, at);
}

/// What is put into the table leaves the entries of other names as they
/// were.
pub proof fn law_put_keeps_others(
    table: Seq<HostEntryView>,
    entry: HostEntryView,
    name: Seq<char>,
)
    requires
        name != entry.name,
    ensures
        directives_of(put(table, entry), name) == directives_of(table, name),
{
    lemma_named_from(table, entry.name, 0);
    lemma_named_from(table, name, 0);
    let after = put(table, entry);
    let at = named_from(table, name, 0);
    if at < table.len() {
        lemma_named_is(after, name, 0, at);
    } else {
        lemma_named_is(after, name, 0, after.len() as int);
    }
}

/// Putting an entry into a table without two entries of one name gives such
/// a table again.
pub proof fn law_put_keeps_names_distinct(table: Seq<HostEntryView>, entry: HostEntryView)
    requires
        distinct_names(table),
    ensures
        distinct_names(put(table, entry)),
{
    lemma_named_from(table, entry.name, 0);
}

/// What `named_from` finds: the first entry of that name from `at` on.
pub proof fn lemma_named_from(table: Seq<HostEntryView>, name: Seq<char>, at: int)
    requires
        0 <= at <= table.len(),
    ensures
        at <= named_from(table, name, at) <= table.len(),
        named_from(table, name, at) < table.len() ==> table[named_from(table, name, at)].name
            == name,
        forall|j: int| at <= j < named_from(table, name, at) ==> (#[trigger] table[j]).name != name,
    decreases table.len() - at,
{
    if at < table.len() && table[at].name != name {
        lemma_named_from(table, name, at + 1);
    }
}

/// What `wildcard_from` finds: the first wildcard entry from `at` on.
pub proof fn lemma_wildcard_from(table: Seq<HostEntryView>, at: int)
    requires
        0 <= at <= table.len(),
    ensures
        at <= wildcard_from(table, at) <= table.len(),
        wildcard_from(table, at) < table.len() ==> is_wildcard(
            table[wildcard_from(table, at)].name,
        ),
        forall|j: int|
            at <= j < wildcard_from(table, at) ==> !is_wildcard((#[trigger] table[j]).name),
    decreases table.len() - at,
{
    if at < table.len() && !is_wildcard(table[at].name) {
        lemma_wildcard_from(table, at + 1);
    }
}

/// Without a wildcard entry in the table, a request for `host` is never
/// answered by an entry of another name.
pub proof fn law_other_host_never_answers(table: Seq<HostEntryView>, host: Seq<char>, other: int)
    requires
        forall|i: int| 0 <= i < table.len() ==> !is_wildcard((#[trigger] table[i]).name),
        0 <= other < table.len(),
        table[other].name != host,
    ensures
        selected(table, host) != Some(other),
{
    lemma_wildcard_from(table, 0);
    lemma_named_from(table, host, 0);
}

/// Without a wildcard entry in the table, a request for `host` is answered
/// by the entry of that name.
pub proof fn law_host_answers_for_itself(table: Seq<HostEntryView>, host: Seq<char>, own: int)
    requires
        distinct_names(table),
        forall|i: int| 0 <= i < table.len() ==> !is_wildcard((#[trigger] table[i]).name),
        0 <= own < table.len(),
        table[own].name == host,
    ensures
        selected(table, host) == Some(own),
{
    lemma_wildcard_from(table, 0);
    lemma_named_from(table, host, 0);
}

/// With a wildcard entry in the table, every request is answered by the
/// first such entry, whatever host it is for.
pub proof fn law_wildcard_answers_all(
    table: Seq<HostEntryView>,
    wildcard: int,
    host: Seq<char>,
    other: Seq<char>,
)
    requires
        0 <= wildcard < table.len(),
        is_wildcard(table[wildcard].name),
    ensures
        selected(table, host) == selected(table, other),
        selected(table, host) matches Some(i) && 0 <= i <= wildcard && is_wildcard(table[i].name),
{
    lemma_wildcard_from(table, 0);
}

/// Whether `name` begins with `*`.
pub fn starts_with_star(name: &str) -> (star: bool)
    ensures
        star == is_wildcard(name@),
{
    !name.is_empty() && name.get_char(0) == '*'
}

/// The virtual hosts of one listener: a map from host name to directive
/// list that keeps the order in which the names were first put in.
#[derive(Debug, PartialEq, Eq)]
pub struct HostTable {
    entries: Vec<HostEntry>,
}

impl View for HostTable {
    type V = Seq<HostEntryView>;

    closed spec fn view(&self) -> Seq<HostEntryView> {
        entry_views(self.entries@)
    }
}

impl HostTable {
    /// No two entries have the same name.
    #[verifier::type_invariant]
    spec fn well_formed(self) -> bool {
        distinct_names(entry_views(self.entries@))
    }

    /// The table without entries.
    pub fn new() -> (table: Self)
        ensures
            table@ == Seq::<HostEntryView>::empty(),
    {
        let table = HostTable { entries: Vec::new() };
        table
    }

    /// The number of entries. No two of them have the same name.
    pub fn len(&self) -> (n: usize)
        ensures
            n == self@.len(),
            distinct_names(self@),
    {
        proof {
            use_type_invariant(self);
        }
        self.entries.len()
    }

    /// The entry at position `i`, counted from 0 in the order of insertion.
    pub fn entry(&self, i: usize) -> (found: Option<&HostEntry>)
        ensures
            i < self@.len() ==> (found matches Some(e) && e@ == self@[i as int]),
            i >= self@.len() ==> found is None,
    {
        if i < self.entries.len() {
            Some(self.at(i))
        } else {
            None
        }
    }

    /// The entry at position `i`, which the table has.
    pub(crate) fn at(&self, i: usize) -> (entry: &HostEntry)
        requires
            i < self@.len(),
        ensures
            entry@ == self@[i as int],
    {
        &self.entries[i]
    }

    /// The position of the entry named `name`.
    pub fn find(&self, name: &str) -> (found: Option<usize>)
        ensures
            match found {
                Some(i) => Some(i as int),
                None => None,
            } == position_of(self@, name@),
    {
        let key = name.to_owned();
        let mut i: usize = 0;
        while i < self.entries.len()
            invariant
                i <= self.entries@.len(),
                key@ == name@,
                forall|j: int| 0 <= j < i ==> (#[trigger] self@[j]).name != name@,
            decreases self.entries@.len() - i,
        {
            if self.entries[i].name == key {
                proof {
                    lemma_named_is(self@, name@, 0, i as int);
                }
                return Some(i);
            }
            i += 1;
        }
        proof {
            lemma_named_is(self@, name@, 0, i as int);
        }
        None
    }

    /// The position of the first entry whose name begins with `*`.
    pub fn find_wildcard(&self) -> (found: Option<usize>)
        ensures
            match found {
                Some(i) => Some(i as int),
                None => None,
            } == first_wildcard(self@),
    {
        let mut i: usize = 0;
        while i < self.entries.len()
            invariant
                i <= self.entries@.len(),
                forall|j: int| 0 <= j < i ==> !is_wildcard((#[trigger] self@[j]).name),
            decreases self.entries@.len() - i,
        {
            if starts_with_star(self.entries[i].name.as_str()) {
                proof {
                    lemma_wildcard_is(self@, 0, i as int);
                }
                return Some(i);
            }
            i += 1;
        }
        proof {
            lemma_wildcard_is(self@, 0, i as int);
        }
        None
    }

    /// The directives that the table holds under `name`.
    pub fn get(&self, name: &str) -> (found: Option<&Vec<Directive>>)
        ensures
            match found {
                Some(list) => directives_of(self@, name@) == Some(directive_views(list@)),
                None => directives_of(self@, name@) is None,
            },
    {
        match self.find(name) {
            Some(i) => Some(&self.at(i).directives),
            None => None,
        }
    }

    /// Puts `directives` under `name`: in the place of the entry of that
    /// name where the table has one, and else at the end.
    pub fn insert(&mut self, name: String, directives: Vec<Directive>)
        ensures
            final(self)@ == put(
                old(self)@,
                HostEntryView { name: name@, directives: directive_views(directives@) },
            ),
    {
        proof {
            use_type_invariant(&*self);
        }
        let ghost before = self@;
        let place = self.find(name.as_str());
        let entry = HostEntry { name, directives };
        let mut entries: Vec<HostEntry> = Vec::new();
        std::mem::swap(&mut entries, &mut self.entries);
        proof {
            lemma_named_from(before, entry@.name, 0);
        }
        match place {
            Some(i) => {
                entries.set(i, entry);
                assert(entry_views(entries@) =~= before.update(i as int, entry@));
            },
            None => {
                entries.push(entry);
                assert(entry_views(entries@) =~= before.push(entry@));
            },
        }
        self.entries = entries;
    }

    /// The position of the entry that answers requests for `host`.
    pub fn select(&self, host: &str) -> (found: Option<usize>)
        ensures
            match found {
                Some(i) => Some(i as int),
                None => None,
            } == selected(self@, host@),
    {
        match self.find_wildcard() {
            Some(w) => Some(w),
            None => self.find(host),
        }
    }
}

/// A position with no entry of that name before it, and one at it unless it
/// is the end of the table, is what `named_from` finds.
pub proof fn lemma_named_is(table: Seq<HostEntryView>, name: Seq<char>, at: int, k: int)
    requires
        0 <= at <= k <= table.len(),
        forall|j: int| at <= j < k ==> (#[trigger] table[j]).name != name,
        k < table.len() ==> table[k].name == name,
    ensures
        named_from(table, name, at) == k,
    decreases k - at,
{
    if at < k {
        lemma_named_is(table, name, at + 1, k);
    }
}

/// A position with no wildcard entry before it, and one at it unless it is
/// the end of the table, is what `wildcard_from` finds.
pub proof fn lemma_wildcard_is(table: Seq<HostEntryView>, at: int, k: int)
    requires
        0 <= at <= k <= table.len(),
        forall|j: int| at <= j < k ==> !is_wildcard((#[trigger] table[j]).name),
        k < table.len() ==> is_wildcard(table[k].name),
    ensures
        wildcard_from(table, at) == k,
    decreases k - at,
{
    if at < k {
        lemma_wildcard_is(table, at + 1, k);
    }
}

} // verus!
