use crate::entry::{Entry, EntryView};
use vstd::prelude::*;

verus! {

/// An element of the tree: a group or an entry.
pub enum Node {
    Group(Group),
    Entry(Entry),
}

/// A named container of entries and further groups, in the order in which they were added.
pub struct Group {
    pub name: String,
    pub children: Vec<Node>,
}

/// The entries under a node, each group's children before what follows the group.
pub open spec fn node_entries(node: Node) -> Seq<EntryView>
    decreases node,
{
    match node {
        Node::Entry(e) => seq![e@],
        Node::Group(g) => entries_of(g.children@),
    }
}

/// The entries under a run of nodes, in the order in which a walk meets them that goes
/// through the nodes from first to last and through each group before it goes on.
pub open spec fn entries_of(nodes: Seq<Node>) -> Seq<EntryView>
    decreases nodes,
{
    if nodes.len() == 0 {
        Seq::empty()
    } else {
        entries_of(nodes.drop_last()) + node_entries(nodes.last())
    }
}

/// The entries of the first `i + 1` nodes are those of the first `i` and then those of
/// node `i`.
pub proof fn entries_step(nodes: Seq<Node>, i: int)
    requires
        0 <= i < nodes.len(),
    ensures
        entries_of(nodes.take(i + 1)) == entries_of(nodes.take(i)) + node_entries(nodes[i]),
{
    assert(nodes.take(i + 1).drop_last() =~= nodes.take(i));
}

/// Some entry has the identifier.
pub open spec fn has_uuid(entries: Seq<EntryView>, uuid: Seq<char>) -> bool {
    exists|i: int| 0 <= i < entries.len() && (#[trigger] entries[i]).uuid == uuid
}

/// The first entry with the given identifier, if there is one.
pub open spec fn find_entry(entries: Seq<EntryView>, uuid: Seq<char>) -> Option<EntryView>
    decreases entries.len(),
{
    if entries.len() == 0 {
        None
    } else if entries[0].uuid == uuid {
        Some(entries[0])
    } else {
        find_entry(entries.skip(1), uuid)
    }
}

/// An identifier finds an entry exactly when some entry has it.
pub proof fn found_iff_present(entries: Seq<EntryView>, uuid: Seq<char>)
    ensures
        find_entry(entries, uuid) is Some <==> has_uuid(entries, uuid),
    decreases entries.len(),
{
    if entries.len() > 0 && entries[0].uuid != uuid {
        let rest = entries.skip(1);
        found_iff_present(rest, uuid);
        if has_uuid(rest, uuid) {
            let i = choose|i: int| 0 <= i < rest.len() && (#[trigger] rest[i]).uuid == uuid;
            assert(entries[i + 1].uuid == uuid);
        }
        if has_uuid(entries, uuid) {
            let i = choose|i: int| 0 <= i < entries.len() && (#[trigger] entries[i]).uuid == uuid;
            assert(rest[i - 1].uuid == uuid);
        }
    } else if entries.len() > 0 {
        assert(entries[0].uuid == uuid);
    }
}

/// The view of an optional borrowed entry.
pub open spec fn opt_entry(r: Option<&Entry>) -> Option<EntryView> {
    match r {
        Some(e) => Some(e@),
        None => None,
    }
}

/// Finding in two runs put together: in the first, and only where it has none, in the second.
pub proof fn find_entry_concat(a: Seq<EntryView>, b: Seq<EntryView>, uuid: Seq<char>)
    ensures
        find_entry(a + b, uuid) == if find_entry(a, uuid) is Some {
            find_entry(a, uuid)
        } else {
            find_entry(b, uuid)
        },
    decreases a.len(),
{
    if a.len() == 0 {
        assert(a + b =~= b);
    } else {
        assert((a + b)[0] == a[0]);
        assert((a + b).skip(1) =~= a.skip(1) + b);
        find_entry_concat(a.skip(1), b, uuid);
    }
}

/// The first entry under the nodes that has the given identifier.
pub fn entry_by_uuid<'a>(nodes: &'a Vec<Node>, entry_uuid: &str) -> (r: Option<&'a Entry>)
    ensures
        opt_entry(r) == find_entry(entries_of(nodes@), entry_uuid@),
        r is Some <==> has_uuid(entries_of(nodes@), entry_uuid@),
    decreases nodes,
{
    proof {
        found_iff_present(entries_of(nodes@), entry_uuid@);
    }
    let mut i: usize = 0;
    while i < nodes.len()
        invariant
            i <= nodes.len(),
            find_entry(entries_of(nodes@), entry_uuid@) is Some <==> has_uuid(
                entries_of(nodes@),
                entry_uuid@,
            ),
            find_entry(entries_of(nodes@.take(i as int)), entry_uuid@) is None,
        decreases nodes.len() - i,
    {
        proof {
            entries_step(nodes@, i as int);
            find_entry_concat(
                entries_of(nodes@.take(i as int)),
                node_entries(nodes@[i as int]),
                entry_uuid@,
            );
        }
        match &nodes[i] {
            Node::Group(group) => {
                let found = entry_by_uuid(&group.children, entry_uuid);
                if found.is_some() {
                    proof {
                        found_stays(nodes@, i + 1, entry_uuid@);
                    }
                    return found;
                }
            },
            Node::Entry(entry) => {
                if crate::text::same_text(entry.get_uuid(), entry_uuid) {
                    proof {
                        found_stays(nodes@, i + 1, entry_uuid@);
                    }
                    return Some(entry);
                }
                assert(find_entry(seq![entry@].skip(1), entry_uuid@) is None);
            },
        }
        i += 1;
    }
    assert(nodes@.take(nodes.len() as int) =~= nodes@);
    None
}

/// What is found among the first `i` nodes is found among all of them.
pub proof fn found_stays(nodes: Seq<Node>, i: int, uuid: Seq<char>)
    requires
        0 <= i <= nodes.len(),
        find_entry(entries_of(nodes.take(i)), uuid) is Some,
    ensures
        find_entry(entries_of(nodes), uuid) == find_entry(entries_of(nodes.take(i)), uuid),
    decreases nodes.len() - i,
{
    if i == nodes.len() {
        assert(nodes.take(i) =~= nodes);
    } else {
        entries_step(nodes, i);
        find_entry_concat(entries_of(nodes.take(i)), node_entries(nodes[i]), uuid);
        found_stays(nodes, i + 1, uuid);
    }
}

/// The place of the first entry with the given identifier, or the number of entries if
/// there is none.
pub open spec fn index_of_uuid(entries: Seq<EntryView>, uuid: Seq<char>) -> int
    decreases entries.len(),
{
    if entries.len() == 0 {
        0
    } else if entries[0].uuid == uuid {
        0
    } else {
        1 + index_of_uuid(entries.skip(1), uuid)
    }
}

/// `index_of_uuid` is the least place at which an entry with the identifier stands, and
/// `find_entry` gives the entry at that place.
pub proof fn index_of_uuid_first(entries: Seq<EntryView>, uuid: Seq<char>)
    ensures
        0 <= index_of_uuid(entries, uuid) <= entries.len(),
        forall|i: int| 0 <= i < index_of_uuid(entries, uuid) ==> entries[i].uuid != uuid,
        index_of_uuid(entries, uuid) < entries.len() ==> entries[index_of_uuid(
            entries,
            uuid,
        )].uuid == uuid,
        find_entry(entries, uuid) == if index_of_uuid(entries, uuid) < entries.len() {
            Some(entries[index_of_uuid(entries, uuid)])
        } else {
            None
        },
    decreases entries.len(),
{
    if entries.len() > 0 && entries[0].uuid != uuid {
        let rest = entries.skip(1);
        index_of_uuid_first(rest, uuid);
        assert forall|i: int| 0 <= i < index_of_uuid(entries, uuid) implies entries[i].uuid
            != uuid by {
            if i > 0 {
                assert(rest[i - 1] == entries[i]);
            }
        }
    }
}

/// The place of the first match in two runs put together.
pub proof fn index_of_uuid_concat(a: Seq<EntryView>, b: Seq<EntryView>, uuid: Seq<char>)
    ensures
        index_of_uuid(a + b, uuid) == if index_of_uuid(a, uuid) < a.len() {
            index_of_uuid(a, uuid)
        } else {
            a.len() + index_of_uuid(b, uuid)
        },
    decreases a.len(),
{
    if a.len() == 0 {
        assert(a + b =~= b);
    } else {
        assert((a + b)[0] == a[0]);
        assert((a + b).skip(1) =~= a.skip(1) + b);
        index_of_uuid_concat(a.skip(1), b, uuid);
    }
}

/// The entries of two runs of nodes put together.
pub proof fn entries_concat(a: Seq<Node>, b: Seq<Node>)
    ensures
        entries_of(a + b) == entries_of(a) + entries_of(b),
    decreases b.len(),
{
    if b.len() == 0 {
        assert(a + b =~= a);
        assert(entries_of(a) + entries_of(b) =~= entries_of(a));
    } else {
        assert((a + b).drop_last() =~= a + b.drop_last());
        assert((a + b).last() == b.last());
        entries_concat(a, b.drop_last());
        assert((entries_of(a) + entries_of(b.drop_last())) + node_entries(b.last()) =~= entries_of(
            a,
        ) + (entries_of(b.drop_last()) + node_entries(b.last())));
    }
}

/// The entries of a run of nodes, cut at node `i`.
pub proof fn entries_split(nodes: Seq<Node>, i: int)
    requires
        0 <= i < nodes.len(),
    ensures
        entries_of(nodes) == entries_of(nodes.take(i)) + node_entries(nodes[i]) + entries_of(
            nodes.skip(i + 1),
        ),
{
    assert(nodes =~= nodes.take(i + 1) + nodes.skip(i + 1));
    entries_concat(nodes.take(i + 1), nodes.skip(i + 1));
    entries_step(nodes, i);
}

/// Two nodes are of the same kind, and two groups have the same name and children of the
/// same shape: they differ at most in what their entries hold.
pub open spec fn node_same_shape(a: Node, b: Node) -> bool
    decreases a,
{
    match (a, b) {
        (Node::Entry(_), Node::Entry(_)) => true,
        (Node::Group(g), Node::Group(h)) => g.name@ == h.name@ && same_shape(
            g.children@,
            h.children@,
        ),
        _ => false,
    }
}

/// Two runs of nodes are equally long and of the same shape node by node.
pub open spec fn same_shape(a: Seq<Node>, b: Seq<Node>) -> bool
    decreases a,
{
    a.len() == b.len() && forall|i: int| 0 <= i < a.len() ==> node_same_shape(a[i], b[i])
}

/// A node has its own shape.
pub proof fn node_shape_reflexive(a: Node)
    ensures
        node_same_shape(a, a),
    decreases a,
{
    match a {
        Node::Group(g) => shape_reflexive(g.children@),
        Node::Entry(_) => {},
    }
}

/// A run of nodes has its own shape.
pub proof fn shape_reflexive(a: Seq<Node>)
    ensures
        same_shape(a, a),
    decreases a,
{
    assert forall|i: int| 0 <= i < a.len() implies node_same_shape(a[i], a[i]) by {
        node_shape_reflexive(a[i]);
    }
}

/// Where one node of a run is replaced by one of the same shape, the run keeps its shape.
pub proof fn shape_kept(before: Seq<Node>, after: Seq<Node>, i: int)
    requires
        0 <= i < before.len(),
        after.len() == before.len(),
        forall|j: int| 0 <= j < before.len() && j != i ==> after[j] == before[j],
        node_same_shape(before[i], after[i]),
    ensures
        same_shape(before, after),
{
    assert forall|j: int| 0 <= j < before.len() implies node_same_shape(before[j], after[j]) by {
        if j != i {
            node_shape_reflexive(before[j]);
        }
    }
}

fn node_has(node: &Node, entry_uuid: &str) -> (r: bool)
    ensures
        r == find_entry(node_entries(*node), entry_uuid@) is Some,
    decreases node,
{
    match node {
        Node::Group(group) => entry_by_uuid(&group.children, entry_uuid).is_some(),
        Node::Entry(entry) => {
            assert(find_entry(seq![entry@].skip(1), entry_uuid@) is None);
            crate::text::same_text(entry.get_uuid(), entry_uuid)
        },
    }
}

/// The first entry under the nodes that has the given identifier, to be changed in place.
/// Whatever the caller leaves in it stands in the tree at the same place afterwards.
pub fn get_entry_by_uuid<'a>(nodes: &'a mut Vec<Node>, entry_uuid: &str) -> (r: Option<
    &'a mut Entry,
>)
    ensures
        r is Some <==> has_uuid(entries_of(old(nodes)@), entry_uuid@),
        match r {
            Some(e) => {
                &&& find_entry(entries_of(old(nodes)@), entry_uuid@) == Some((*e)@)
                &&& index_of_uuid(entries_of(old(nodes)@), entry_uuid@) < entries_of(
                    old(nodes)@,
                ).len()
                &&& entries_of(final(nodes)@) == entries_of(old(nodes)@).update(
                    index_of_uuid(entries_of(old(nodes)@), entry_uuid@),
                    (*final(e))@,
                )
                &&& same_shape(old(nodes)@, final(nodes)@)
            },
            None => {
                &&& find_entry(entries_of(old(nodes)@), entry_uuid@) is None
                &&& *final(nodes) == *old(nodes)
            },
        },
    decreases *old(nodes),
{
    proof {
        found_iff_present(entries_of(nodes@), entry_uuid@);
    }
    let mut i: usize = 0;
    let mut found = false;
    while i < nodes.len() && !found
        invariant
            i <= nodes.len(),
            *nodes == *old(nodes),
            find_entry(entries_of(nodes@.take(i as int)), entry_uuid@) is None,
            found ==> i < nodes.len() && find_entry(node_entries(nodes@[i as int]), entry_uuid@)
                is Some,
        decreases nodes.len() - i + if found { 0int } else { 1int },
    {
        proof {
            entries_step(nodes@, i as int);
            find_entry_concat(
                entries_of(nodes@.take(i as int)),
                node_entries(nodes@[i as int]),
                entry_uuid@,
            );
        }
        if node_has(&nodes[i], entry_uuid) {
            found = true;
        } else {
            i += 1;
        }
    }
    if !found {
        assert(nodes@.take(nodes.len() as int) =~= nodes@);
        return None;
    }
    let ghost before = nodes@;
    let ghost after = final(nodes)@;
    match &mut nodes[i] {
        Node::Group(group) => {
            let r = get_entry_by_uuid(&mut group.children, entry_uuid);
            proof {
                let e = r->0;
                child_changed(before, after, i as int, entry_uuid@, (*final(e))@);
                shape_kept(before, after, i as int);
            }
            r
        },
        Node::Entry(entry) => {
            proof {
                assert(find_entry(seq![entry@].skip(1), entry_uuid@) is None);
                assert(seq![entry@].update(0, (*final(entry))@) =~= seq![(*final(entry))@]);
                child_changed(before, after, i as int, entry_uuid@, (*final(entry))@);
                shape_kept(before, after, i as int);
            }
            Some(entry)
        },
    }
}

/// Where the first match stands under node `i` and only that node changes, in that its
/// first match is replaced, the first match among all the entries is replaced.
pub proof fn child_changed(
    before: Seq<Node>,
    after: Seq<Node>,
    i: int,
    uuid: Seq<char>,
    entry: EntryView,
)
    requires
        0 <= i < before.len(),
        after.len() == before.len(),
        forall|j: int| 0 <= j < before.len() && j != i ==> after[j] == before[j],
        find_entry(entries_of(before.take(i)), uuid) is None,
        find_entry(node_entries(before[i]), uuid) is Some,
        node_entries(after[i]) == node_entries(before[i]).update(
            index_of_uuid(node_entries(before[i]), uuid),
            entry,
        ),
    ensures
        find_entry(entries_of(before), uuid) == find_entry(node_entries(before[i]), uuid),
        index_of_uuid(entries_of(before), uuid) < entries_of(before).len(),
        entries_of(after) == entries_of(before).update(
            index_of_uuid(entries_of(before), uuid),
            entry,
        ),
{
    let head = entries_of(before.take(i));
    let mid = node_entries(before[i]);
    let tail = entries_of(before.skip(i + 1));
    entries_split(before, i);
    entries_split(after, i);
    assert(after.take(i) =~= before.take(i));
    assert(after.skip(i + 1) =~= before.skip(i + 1));
    index_of_uuid_first(head, uuid);
    index_of_uuid_first(mid, uuid);
    index_of_uuid_concat(head, mid, uuid);
    index_of_uuid_concat(head + mid, tail, uuid);
    find_entry_concat(head, mid, uuid);
    find_entry_concat(head + mid, tail, uuid);
    let k = index_of_uuid(mid, uuid);
    assert(head + mid.update(k, entry) + tail =~= (head + mid + tail).update(
        head.len() + k,
        entry,
    ));
}

/// Two different identifiers never find the same entry, nor entries at the same place;
/// and an identifier finds nothing exactly when no entry has it.
pub proof fn different_ids_find_different_entries(
    entries: Seq<EntryView>,
    a: Seq<char>,
    b: Seq<char>,
)
    requires
        a != b,
    ensures
        find_entry(entries, a) is Some && find_entry(entries, b) is Some ==> {
            &&& find_entry(entries, a) != find_entry(entries, b)
            &&& index_of_uuid(entries, a) != index_of_uuid(entries, b)
        },
        find_entry(entries, a) is None <==> (forall|i: int|
            0 <= i < entries.len() ==> (#[trigger] entries[i]).uuid != a),
        find_entry(entries, a) is Some ==> find_entry(entries, a)->0.uuid == a,
{
    index_of_uuid_first(entries, a);
    index_of_uuid_first(entries, b);
}

/// No two entries have the same identifier.
pub open spec fn unique_ids(entries: Seq<EntryView>) -> bool {
    forall|i: int, j: int| 0 <= i < j < entries.len() ==> entries[i].uuid != entries[j].uuid
}

/// Identifiers stay unique where the entry that an identifier finds is replaced by one
/// with the same identifier.
pub proof fn replacing_keeps_ids_unique(entries: Seq<EntryView>, uuid: Seq<char>, e: EntryView)
    requires
        unique_ids(entries),
        find_entry(entries, uuid) is Some,
        e.uuid == uuid,
    ensures
        unique_ids(entries.update(index_of_uuid(entries, uuid), e)),
{
    index_of_uuid_first(entries, uuid);
}

/// Identifiers stay unique where an entry is added whose identifier finds nothing.
pub proof fn adding_keeps_ids_unique(entries: Seq<EntryView>, e: EntryView)
    requires
        unique_ids(entries),
        find_entry(entries, e.uuid) is None,
    ensures
        unique_ids(entries.push(e)),
{
    index_of_uuid_first(entries, e.uuid);
}

} // verus!
