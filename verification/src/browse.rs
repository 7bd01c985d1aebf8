use crate::entry::{
    Entry, EntryView, NAME_TAG_NAME, NICKNAME_TAG_NAME, PHONE_NUMBER_TAG_NAME,
};
use crate::text::{
    contains, contains_text, le_text, lowercase, opt_string, text_le, text_le_reflexive,
    text_le_total, text_le_transitive,
};
use crate::tree::{entries_of, entries_step, node_entries, Node};
use vstd::prelude::*;
use vstd::seq_lib::{to_multiset_build, to_multiset_contains, to_multiset_insert, to_multiset_len};
use vstd::string::StringExecFns;

verus! {

/// The views of a run of entries.
pub open spec fn entry_views(entries: Seq<Entry>) -> Seq<EntryView> {
    Seq::new(entries.len(), |i: int| entries[i]@)
}

/// Whether a listing shows the entry: it needs a display name, and the tag where one is
/// asked for.
pub open spec fn listed(e: EntryView, tag: Option<Seq<char>>) -> bool {
    e.title() is Some && match tag {
        Some(t) => e.has_tag(t),
        None => true,
    }
}

/// `listed` for a given tag, as a test on entries.
pub open spec fn listed_by(tag: Option<Seq<char>>) -> spec_fn(EntryView) -> bool {
    |e: EntryView| listed(e, tag)
}

/// The entries that a listing shows, in the order of the walk.
pub open spec fn matching(entries: Seq<EntryView>, tag: Option<Seq<char>>) -> Seq<EntryView> {
    entries.filter(listed_by(tag))
}

fn collect_matching(nodes: &Vec<Node>, tag: &Option<String>, out: &mut Vec<Entry>)
    ensures
        entry_views(final(out)@) == entry_views(old(out)@) + matching(
            entries_of(nodes@),
            opt_string(*tag),
        ),
    decreases nodes,
{
    let ghost start = entry_views(out@);
    let ghost wanted = listed_by(opt_string(*tag));
    let mut i: usize = 0;
    proof {
        assert(entries_of(nodes@.take(0)).filter(wanted) =~= Seq::empty()) by {
            reveal(Seq::filter);
        }
        assert(start + Seq::empty() =~= start);
    }
    while i < nodes.len()
        invariant
            i <= nodes.len(),
            wanted == listed_by(opt_string(*tag)),
            entry_views(out@) == start + entries_of(nodes@.take(i as int)).filter(wanted),
        decreases nodes.len() - i,
    {
        let ghost so_far = entries_of(nodes@.take(i as int));
        proof {
            entries_step(nodes@, i as int);
            Seq::filter_distributes_over_add(so_far, node_entries(nodes@[i as int]), wanted);
        }
        match &nodes[i] {
            Node::Group(group) => {
                collect_matching(&group.children, tag, out);
                assert(entry_views(out@) =~= start + (so_far.filter(wanted) + node_entries(
                    nodes@[i as int],
                ).filter(wanted)));
            },
            Node::Entry(entry) => {
                proof {
                    Seq::<EntryView>::empty().lemma_filter_push(entry@, wanted);
                    assert(Seq::<EntryView>::empty().push(entry@) =~= seq![entry@]);
                    assert(Seq::<EntryView>::empty().filter(wanted) =~= Seq::empty()) by {
                        reveal(Seq::filter);
                    }
                }
                let keep = entry.get_title().is_some() && match tag {
                    Some(t) => entry.has_tag(t.as_str()),
                    None => true,
                };
                let ghost before = entry_views(out@);
                if keep {
                    out.push(entry.clone());
                    assert(entry_views(out@) =~= before.push(entry@));
                    assert(seq![entry@].filter(wanted) =~= seq![entry@]);
                    assert(entry_views(out@) =~= start + (so_far.filter(wanted) + seq![entry@]));
                } else {
                    assert(seq![entry@].filter(wanted) =~= Seq::empty());
                    assert(entry_views(out@) =~= start + (so_far.filter(wanted)
                        + Seq::<EntryView>::empty()));
                }
            },
        }
        i += 1;
    }
    assert(nodes@.take(nodes.len() as int) =~= nodes@);
}

/// Copies of the entries under the nodes that a listing shows, in the order of the walk:
/// those with a display name, and with the tag where one is given.
pub fn get_matching_entries(nodes: &Vec<Node>, tag_option: Option<String>) -> (r: Vec<Entry>)
    ensures
        entry_views(r@) == matching(entries_of(nodes@), opt_string(tag_option)),
{
    let mut out: Vec<Entry> = Vec::new();
    collect_matching(nodes, &tag_option, &mut out);
    assert(entry_views(Seq::<Entry>::empty()) + matching(
        entries_of(nodes@),
        opt_string(tag_option),
    ) =~= matching(entries_of(nodes@), opt_string(tag_option)));
    out
}

/// A line of a listing: an entry's identifier and its display name.
pub struct ListRow {
    pub uuid: String,
    pub title: String,
}

impl View for ListRow {
    type V = (Seq<char>, Seq<char>);

    open spec fn view(&self) -> (Seq<char>, Seq<char>) {
        (self.uuid@, self.title@)
    }
}

impl ListRow {
    /// The row as it is shown: the identifier, a space, the display name.
    pub fn line(&self) -> (r: String)
        ensures
            r@ == self.uuid@ + " "@ + self.title@,
    {
        let mut r = self.uuid.clone();
        r.append(" ");
        r.append(self.title.as_str());
        r
    }
}

/// The views of a run of rows.
pub open spec fn rows_view(rows: Seq<ListRow>) -> Seq<(Seq<char>, Seq<char>)> {
    Seq::new(rows.len(), |i: int| rows[i]@)
}

/// The row of an entry that has a display name.
pub open spec fn row_of(e: EntryView) -> (Seq<char>, Seq<char>) {
    (e.uuid, e.title()->0)
}

/// The rows of a run of entries, in the same order.
pub open spec fn rows_of(entries: Seq<EntryView>) -> Seq<(Seq<char>, Seq<char>)> {
    Seq::new(entries.len(), |i: int| row_of(entries[i]))
}

/// No row stands before one whose display name comes before its own.
pub open spec fn sorted_by_title(rows: Seq<(Seq<char>, Seq<char>)>) -> bool {
    forall|i: int, j: int| 0 <= i < j < rows.len() ==> text_le(rows[i].1, rows[j].1)
}

fn insertion_point(rows: &Vec<ListRow>, title: &str) -> (at: usize)
    requires
        sorted_by_title(rows_view(rows@)),
    ensures
        at <= rows.len(),
        forall|j: int| 0 <= j < at ==> text_le(rows_view(rows@)[j].1, title@),
        forall|j: int| at <= j < rows.len() ==> text_le(title@, rows_view(rows@)[j].1),
{
    let mut at: usize = 0;
    while at < rows.len() && le_text(rows[at].title.as_str(), title)
        invariant
            at <= rows.len(),
            forall|j: int| 0 <= j < at ==> text_le(rows_view(rows@)[j].1, title@),
        decreases rows.len() - at,
    {
        at += 1;
    }
    proof {
        if at < rows.len() {
            let here = rows_view(rows@)[at as int].1;
            text_le_total(here, title@);
            assert forall|j: int| at <= j < rows.len() implies text_le(
                title@,
                rows_view(rows@)[j].1,
            ) by {
                if j > at {
                    text_le_transitive(title@, here, rows_view(rows@)[j].1);
                }
            }
        }
    }
    at
}

/// The rows of a listing: one for each entry under the nodes that has a display name, and
/// the tag where one is given, ordered by display name. Which of two entries with the
/// same display name comes first is left open.
pub fn display_entries(nodes: &Vec<Node>, tag_option: Option<String>) -> (r: Vec<ListRow>)
    ensures
        rows_view(r@).to_multiset() == rows_of(
            matching(entries_of(nodes@), opt_string(tag_option)),
        ).to_multiset(),
        sorted_by_title(rows_view(r@)),
{
    let ghost tag = opt_string(tag_option);
    let entries = get_matching_entries(nodes, tag_option);
    let ghost wanted = rows_of(entry_views(entries@));
    let mut out: Vec<ListRow> = Vec::new();
    let mut i: usize = 0;
    assert(rows_view(out@) =~= wanted.take(0));
    while i < entries.len()
        invariant
            i <= entries.len(),
            wanted == rows_of(entry_views(entries@)),
            entry_views(entries@) == matching(entries_of(nodes@), tag),
            sorted_by_title(rows_view(out@)),
            rows_view(out@).to_multiset() == wanted.take(i as int).to_multiset(),
        decreases entries.len() - i,
    {
        let entry = &entries[i];
        proof {
            entries_of(nodes@).lemma_filter_pred(listed_by(tag), i as int);
            assert(listed(entry@, tag));
        }
        let title = match entry.get_title() {
            Some(t) => String::from_str(t),
            None => String::new(),
        };
        let row = ListRow { uuid: String::from_str(entry.get_uuid()), title };
        assert(row@ == wanted[i as int]);
        let at = insertion_point(&out, row.title.as_str());
        let ghost before = rows_view(out@);
        out.insert(at, row);
        proof {
            assert(rows_view(out@) =~= before.insert(at as int, wanted[i as int]));
            to_multiset_insert(before, at as int, wanted[i as int]);
            assert(wanted.take(i + 1) =~= wanted.take(i as int).push(wanted[i as int]));
            to_multiset_build(wanted.take(i as int), wanted[i as int]);
        }
        i += 1;
    }
    assert(wanted.take(entries.len() as int) =~= wanted);
    out
}

/// A match of a search: the entry's identifier, the name of the field that matched, and
/// the field's text.
pub struct SearchHit {
    pub uuid: String,
    pub field: String,
    pub value: String,
}

impl View for SearchHit {
    type V = (Seq<char>, Seq<char>, Seq<char>);

    open spec fn view(&self) -> (Seq<char>, Seq<char>, Seq<char>) {
        (self.uuid@, self.field@, self.value@)
    }
}

impl SearchHit {
    /// The match as it is shown: identifier, field name and text, a space between each two.
    pub fn line(&self) -> (r: String)
        ensures
            r@ == self.uuid@ + " "@ + self.field@ + " "@ + self.value@,
    {
        let mut r = self.uuid.clone();
        r.append(" ");
        r.append(self.field.as_str());
        r.append(" ");
        r.append(self.value.as_str());
        r
    }
}

/// The views of a run of matches.
pub open spec fn hits_view(hits: Seq<SearchHit>) -> Seq<(Seq<char>, Seq<char>, Seq<char>)> {
    Seq::new(hits.len(), |i: int| hits[i]@)
}

/// The match of one field, if it has a text in which `term` stands; `folded` says that the
/// text is brought to lower case before it is compared.
pub open spec fn field_hits(e: EntryView, field: Seq<char>, folded: bool, term: Seq<char>) -> Seq<
    (Seq<char>, Seq<char>, Seq<char>),
> {
    match e.text(field) {
        Some(text) => if contains_text(
            if folded {
                lowercase(text)
            } else {
                text
            },
            term,
        ) {
            seq![(e.uuid, field, text)]
        } else {
            Seq::empty()
        },
        None => Seq::empty(),
    }
}

/// The matches of one entry for a term and the term's lower-case form: the display name
/// and the nickname are brought to lower case and searched for the lower-case form, so
/// that case plays no part; the phone number is searched as it is written for the term
/// as it was typed.
pub open spec fn entry_hits(e: EntryView, term: Seq<char>, lowered: Seq<char>) -> Seq<
    (Seq<char>, Seq<char>, Seq<char>),
> {
    field_hits(e, NAME_TAG_NAME@, true, lowered) + field_hits(
        e,
        NICKNAME_TAG_NAME@,
        true,
        lowered,
    ) + field_hits(e, PHONE_NUMBER_TAG_NAME@, false, term)
}

/// The matches of a run of entries, entry by entry.
pub open spec fn hits_of(entries: Seq<EntryView>, term: Seq<char>, lowered: Seq<char>) -> Seq<
    (Seq<char>, Seq<char>, Seq<char>),
>
    decreases entries.len(),
{
    if entries.len() == 0 {
        Seq::empty()
    } else {
        hits_of(entries.drop_last(), term, lowered) + entry_hits(entries.last(), term, lowered)
    }
}

/// The matches of two runs put together.
pub proof fn hits_concat(
    a: Seq<EntryView>,
    b: Seq<EntryView>,
    term: Seq<char>,
    lowered: Seq<char>,
)
    ensures
        hits_of(a + b, term, lowered) == hits_of(a, term, lowered) + hits_of(b, term, lowered),
    decreases b.len(),
{
    if b.len() == 0 {
        assert(a + b =~= a);
        assert(hits_of(a, term, lowered) + hits_of(b, term, lowered) =~= hits_of(
            a,
            term,
            lowered,
        ));
    } else {
        let init = b.drop_last();
        let last = entry_hits(b.last(), term, lowered);
        assert((a + b).drop_last() =~= a + init);
        assert((a + b).last() == b.last());
        hits_concat(a, init, term, lowered);
        assert((hits_of(a, term, lowered) + hits_of(init, term, lowered)) + last =~= hits_of(
            a,
            term,
            lowered,
        ) + (hits_of(init, term, lowered) + last));
    }
}

fn push_field_hit(entry: &Entry, field: &str, folded: bool, term: &str, out: &mut Vec<SearchHit>)
    ensures
        hits_view(final(out)@) == hits_view(old(out)@) + field_hits(
            entry@,
            field@,
            folded,
            term@,
        ),
{
    let ghost before = hits_view(out@);
    match entry.get(field) {
        Some(text) => {
            let found = if folded {
                let low = text.to_lowercase();
                contains(low.as_str(), term)
            } else {
                contains(text, term)
            };
            if found {
                out.push(
                    SearchHit {
                        uuid: String::from_str(entry.get_uuid()),
                        field: String::from_str(field),
                        value: String::from_str(text),
                    },
                );
                assert(hits_view(out@) =~= before + seq![(entry@.uuid, field@, text@)]);
            } else {
                assert(hits_view(out@) =~= before + Seq::empty());
            }
        },
        None => {
            assert(hits_view(out@) =~= before + Seq::empty());
        },
    }
}

fn collect_hits(nodes: &Vec<Node>, term: &str, lowered: &str, out: &mut Vec<SearchHit>)
    ensures
        hits_view(final(out)@) == hits_view(old(out)@) + hits_of(
            entries_of(nodes@),
            term@,
            lowered@,
        ),
    decreases nodes,
{
    let ghost start = hits_view(out@);
    let mut i: usize = 0;
    assert(start + hits_of(entries_of(nodes@.take(0)), term@, lowered@) =~= start);
    while i < nodes.len()
        invariant
            i <= nodes.len(),
            hits_view(out@) == start + hits_of(
                entries_of(nodes@.take(i as int)),
                term@,
                lowered@,
            ),
        decreases nodes.len() - i,
    {
        let ghost so_far = hits_of(entries_of(nodes@.take(i as int)), term@, lowered@);
        proof {
            entries_step(nodes@, i as int);
            hits_concat(
                entries_of(nodes@.take(i as int)),
                node_entries(nodes@[i as int]),
                term@,
                lowered@,
            );
        }
        match &nodes[i] {
            Node::Group(group) => {
                collect_hits(&group.children, term, lowered, out);
                assert(hits_view(out@) =~= start + (so_far + hits_of(
                    node_entries(nodes@[i as int]),
                    term@,
                    lowered@,
                )));
            },
            Node::Entry(entry) => {
                let ghost e = entry@;
                proof {
                    assert(seq![e].drop_last() =~= Seq::<EntryView>::empty());
                    assert(seq![e].last() == e);
                    assert(hits_of(seq![e].drop_last(), term@, lowered@) =~= Seq::empty());
                    assert(hits_of(seq![e], term@, lowered@) =~= entry_hits(e, term@, lowered@));
                }
                push_field_hit(entry, NAME_TAG_NAME, true, lowered, out);
                push_field_hit(entry, NICKNAME_TAG_NAME, true, lowered, out);
                push_field_hit(entry, PHONE_NUMBER_TAG_NAME, false, term, out);
                assert(hits_view(out@) =~= start + (so_far + entry_hits(e, term@, lowered@)));
            },
        }
        i += 1;
    }
    assert(nodes@.take(nodes.len() as int) =~= nodes@);
}

/// The matches of a term, given as it was typed and in its lower-case form, in the
/// order of the walk; an entry gives one match for each of its fields in which the term
/// stands.
pub fn find_hits(nodes: &Vec<Node>, term: &str, lowered: &str) -> (r: Vec<SearchHit>)
    ensures
        hits_view(r@) == hits_of(entries_of(nodes@), term@, lowered@),
{
    let mut out: Vec<SearchHit> = Vec::new();
    collect_hits(nodes, term, lowered, &mut out);
    assert(hits_view(Seq::<SearchHit>::empty()) + hits_of(entries_of(nodes@), term@, lowered@)
        =~= hits_of(entries_of(nodes@), term@, lowered@));
    out
}

/// The matches of a search term: in display names and nicknames without regard to case,
/// in phone numbers as the term was typed.
pub fn search_entries(nodes: &Vec<Node>, search_term: &str) -> (r: Vec<SearchHit>)
    ensures
        hits_view(r@) == hits_of(entries_of(nodes@), search_term@, lowercase(search_term@)),
{
    let lowered = search_term.to_lowercase();
    find_hits(nodes, search_term, lowered.as_str())
}

/// A phone number in which the term stands as it was typed is always among the matches
/// of its entry, whatever the lower-case form of the term is.
pub proof fn phone_is_found_as_typed(e: EntryView, term: Seq<char>, lowered: Seq<char>)
    requires
        e.text(PHONE_NUMBER_TAG_NAME@) is Some,
        contains_text(e.text(PHONE_NUMBER_TAG_NAME@)->0, term),
    ensures
        entry_hits(e, term, lowered).len() >= 1,
        entry_hits(e, term, lowered).last() == (
            e.uuid,
            PHONE_NUMBER_TAG_NAME@,
            e.text(PHONE_NUMBER_TAG_NAME@)->0,
        ),
{
}

/// A listing shows an entry as often as it stands among the entries, so once for each
/// place at which it stands, if it has a display name and the tag that is asked for, and
/// not at all if it has not.
pub proof fn listing_shows_each_once(entries: Seq<EntryView>, tag: Option<Seq<char>>, e: EntryView)
    ensures
        matching(entries, tag).to_multiset().count(e) == if listed(e, tag) {
            entries.to_multiset().count(e)
        } else {
            0
        },
    decreases entries.len(),
{
    broadcast use vstd::multiset::group_multiset_axioms;

    let wanted = listed_by(tag);
    if entries.len() == 0 {
        assert(entries.filter(wanted) =~= Seq::empty()) by {
            reveal(Seq::filter);
        }
        to_multiset_contains(entries, e);
        to_multiset_contains(entries.filter(wanted), e);
    } else {
        let init = entries.drop_last();
        let last = entries.last();
        assert(entries =~= init.push(last));
        listing_shows_each_once(init, tag, e);
        init.lemma_filter_push(last, wanted);
        to_multiset_build(init, last);
        assert(wanted(last) == listed(last, tag));
        if listed(last, tag) {
            to_multiset_build(init.filter(wanted), last);
        }
    }
}

/// The rows of a listing are those of the entries that it shows, each as often as such
/// an entry has that row, and no row stands before one whose display name comes before
/// its own.
pub proof fn listing_is_sorted_and_complete(
    rows: Seq<(Seq<char>, Seq<char>)>,
    entries: Seq<EntryView>,
    tag: Option<Seq<char>>,
    i: int,
    j: int,
)
    requires
        rows.to_multiset() == rows_of(matching(entries, tag)).to_multiset(),
        sorted_by_title(rows),
        0 <= i <= j < rows.len(),
    ensures
        rows.len() == matching(entries, tag).len(),
        text_le(rows[i].1, rows[j].1),
        exists|k: int|
            0 <= k < matching(entries, tag).len() && rows[i] == row_of(
                #[trigger] matching(entries, tag)[k],
            ),
{
    let shown = matching(entries, tag);
    to_multiset_len(rows);
    to_multiset_len(rows_of(shown));
    to_multiset_contains(rows, rows[i]);
    to_multiset_contains(rows_of(shown), rows[i]);
    text_le_reflexive(rows[i].1);
    assert(rows.contains(rows[i]));
    assert(rows_of(shown).contains(rows[i]));
    let k = choose|k: int| 0 <= k < rows_of(shown).len() && rows_of(shown)[k] == rows[i];
    assert(rows[i] == row_of(shown[k]));
}

} // verus!
