use crate::text::{copy_texts, has_text, opt_text, same_text, same_texts, texts};
use vstd::string::StringExecFns;
use vstd::prelude::*;

verus! {

/// The field that holds the display name.
pub const NAME_TAG_NAME: &'static str = "Title";

/// The field that holds the nickname.
pub const NICKNAME_TAG_NAME: &'static str = "Nickname";

/// The field that holds the first phone number; further ones have a longer name that
/// begins with this one.
pub const PHONE_NUMBER_TAG_NAME: &'static str = "PhoneNumber";

/// The field that holds the postal address.
pub const ADDRESS_TAG_NAME: &'static str = "Address";

/// The field that holds the first e-mail address; further ones have a longer name that
/// begins with this one.
pub const EMAIL_TAG_NAME: &'static str = "Email";

/// The field that holds the Matrix identifier.
pub const MATRIX_ID_TAG_NAME: &'static str = "MatrixID";

/// The field that holds the date of birth.
pub const BIRTH_DATE_TAG_NAME: &'static str = "BirthDate";

/// The field that holds free notes.
pub const NOTES_TAG_NAME: &'static str = "Notes";

/// What a field holds: raw bytes, plain text, or text marked as sensitive.
pub enum Value {
    Bytes(Vec<u8>),
    Unprotected(String),
    Protected(String),
}

/// A value as a value of the model.
pub enum ValueView {
    Bytes(Seq<u8>),
    Unprotected(Seq<char>),
    Protected(Seq<char>),
}

impl View for Value {
    type V = ValueView;

    open spec fn view(&self) -> ValueView {
        match self {
            Value::Bytes(b) => ValueView::Bytes(b@),
            Value::Unprotected(t) => ValueView::Unprotected(t@),
            Value::Protected(t) => ValueView::Protected(t@),
        }
    }
}

impl ValueView {
    /// The text of a value, protected or not; raw bytes have none.
    pub open spec fn text(self) -> Option<Seq<char>> {
        match self {
            ValueView::Bytes(_) => None,
            ValueView::Unprotected(t) => Some(t),
            ValueView::Protected(t) => Some(t),
        }
    }

    /// The text of a value that is not protected.
    pub open spec fn plain(self) -> Option<Seq<char>> {
        match self {
            ValueView::Unprotected(t) => Some(t),
            _ => None,
        }
    }
}

fn same_bytes(x: &Vec<u8>, y: &Vec<u8>) -> (r: bool)
    ensures
        r == (x@ == y@),
{
    if x.len() != y.len() {
        return false;
    }
    let mut i: usize = 0;
    while i < x.len()
        invariant
            i <= x.len(),
            x.len() == y.len(),
            x@.take(i as int) == y@.take(i as int),
        decreases x.len() - i,
    {
        if x[i] != y[i] {
            return false;
        }
        assert(x@.take(i + 1) =~= x@.take(i as int).push(x@[i as int]));
        assert(y@.take(i + 1) =~= y@.take(i as int).push(y@[i as int]));
        i += 1;
    }
    assert(x@.take(x.len() as int) =~= x@);
    assert(y@.take(y.len() as int) =~= y@);
    true
}

fn copy_bytes(x: &Vec<u8>) -> (r: Vec<u8>)
    ensures
        r@ == x@,
{
    let mut r: Vec<u8> = Vec::new();
    let mut i: usize = 0;
    while i < x.len()
        invariant
            i <= x.len(),
            r@ == x@.take(i as int),
        decreases x.len() - i,
    {
        r.push(x[i]);
        assert(x@.take(i + 1) =~= x@.take(i as int).push(x@[i as int]));
        i += 1;
    }
    assert(x@.take(x.len() as int) =~= x@);
    r
}

impl Value {
    /// Whether two values are of the same kind and hold the same content.
    pub fn same(&self, other: &Value) -> (r: bool)
        ensures
            r == (self@ == other@),
    {
        match (self, other) {
            (Value::Bytes(a), Value::Bytes(b)) => same_bytes(a, b),
            (Value::Unprotected(a), Value::Unprotected(b)) => same_text(a.as_str(), b.as_str()),
            (Value::Protected(a), Value::Protected(b)) => same_text(a.as_str(), b.as_str()),
            _ => false,
        }
    }
}

impl Clone for Value {
    fn clone(&self) -> (r: Self)
        ensures
            r@ == self@,
    {
        match self {
            Value::Bytes(b) => Value::Bytes(copy_bytes(b)),
            Value::Unprotected(t) => Value::Unprotected(t.clone()),
            Value::Protected(t) => Value::Protected(t.clone()),
        }
    }
}

/// A named value of an entry.
pub struct Field {
    pub name: String,
    pub value: Value,
}

impl View for Field {
    type V = (Seq<char>, ValueView);

    open spec fn view(&self) -> (Seq<char>, ValueView) {
        (self.name@, self.value@)
    }
}

impl Clone for Field {
    fn clone(&self) -> (r: Self)
        ensures
            r@ == self@,
    {
        Field { name: self.name.clone(), value: self.value.clone() }
    }
}

/// The views of a run of fields, in order.
pub open spec fn fields_view(fields: Seq<Field>) -> Seq<(Seq<char>, ValueView)> {
    Seq::new(fields.len(), |i: int| fields[i]@)
}

/// The value of the first field named `key`, if there is one.
pub open spec fn lookup(fields: Seq<(Seq<char>, ValueView)>, key: Seq<char>) -> Option<ValueView>
    decreases fields.len(),
{
    if fields.len() == 0 {
        None
    } else if fields[0].0 == key {
        Some(fields[0].1)
    } else {
        lookup(fields.skip(1), key)
    }
}

/// The fields as a mapping from names to values.
pub open spec fn field_map(fields: Seq<(Seq<char>, ValueView)>) -> Map<Seq<char>, ValueView> {
    Map::new(|k: Seq<char>| lookup(fields, k) is Some, |k: Seq<char>| lookup(fields, k)->0)
}

/// No two fields share a name.
pub open spec fn distinct_names(fields: Seq<(Seq<char>, ValueView)>) -> bool {
    forall|i: int, j: int| 0 <= i < j < fields.len() ==> fields[i].0 != fields[j].0
}

/// A name finds a value exactly when a field has that name, and what it finds is the
/// value of a field of that name.
pub proof fn lookup_found(fields: Seq<(Seq<char>, ValueView)>, key: Seq<char>)
    ensures
        lookup(fields, key) is Some <==> exists|i: int|
            0 <= i < fields.len() && #[trigger] fields[i].0 == key,
        lookup(fields, key) is Some ==> exists|i: int|
            0 <= i < fields.len() && #[trigger] fields[i] == (key, lookup(fields, key)->0),
    decreases fields.len(),
{
    if fields.len() > 0 {
        if fields[0].0 == key {
            assert(fields[0] == (key, lookup(fields, key)->0));
        } else {
            let rest = fields.skip(1);
            lookup_found(rest, key);
            if lookup(rest, key) is Some {
                let i = choose|i: int|
                    0 <= i < rest.len() && #[trigger] rest[i] == (key, lookup(rest, key)->0);
                assert(fields[i + 1] == rest[i]);
            }
            if exists|i: int| 0 <= i < fields.len() && #[trigger] fields[i].0 == key {
                let i = choose|i: int| 0 <= i < fields.len() && #[trigger] fields[i].0 == key;
                assert(rest[i - 1].0 == key);
            }
        }
    }
}

/// Replacing the value of the first field named `key` changes what is found under `key`
/// and under no other name.
pub proof fn lookup_after_replace(
    fields: Seq<(Seq<char>, ValueView)>,
    at: int,
    key: Seq<char>,
    value: ValueView,
    k: Seq<char>,
)
    requires
        0 <= at < fields.len(),
        fields[at].0 == key,
        forall|i: int| 0 <= i < at ==> fields[i].0 != key,
    ensures
        lookup(fields.update(at, (key, value)), k) == if k == key {
            Some(value)
        } else {
            lookup(fields, k)
        },
    decreases at,
{
    let after = fields.update(at, (key, value));
    if at == 0 {
        assert(after.skip(1) =~= fields.skip(1));
    } else {
        assert(after.skip(1) =~= fields.skip(1).update(at - 1, (key, value)));
        lookup_after_replace(fields.skip(1), at - 1, key, value, k);
    }
}

/// Adding a field under a name that no field has changes what is found under that name
/// and under no other.
pub proof fn lookup_after_push(
    fields: Seq<(Seq<char>, ValueView)>,
    key: Seq<char>,
    value: ValueView,
    k: Seq<char>,
)
    requires
        forall|i: int| 0 <= i < fields.len() ==> fields[i].0 != key,
    ensures
        lookup(fields.push((key, value)), k) == if k == key {
            Some(value)
        } else {
            lookup(fields, k)
        },
    decreases fields.len(),
{
    let after = fields.push((key, value));
    if fields.len() == 0 {
        assert(after[0] == (key, value));
        assert(after.skip(1).len() == 0);
        assert(lookup(after.skip(1), k) is None);
    } else {
        assert(after[0] == fields[0]);
        assert(fields[0].0 != key);
        assert(after.skip(1) =~= fields.skip(1).push((key, value)));
        assert forall|i: int| 0 <= i < fields.skip(1).len() implies fields.skip(1)[i].0 != key by {
            assert(fields.skip(1)[i] == fields[i + 1]);
        }
        lookup_after_push(fields.skip(1), key, value, k);
    }
}

/// The place of the first field named `key`, or the number of fields if there is none.
pub open spec fn index_of(fields: Seq<(Seq<char>, ValueView)>, key: Seq<char>) -> int
    decreases fields.len(),
{
    if fields.len() == 0 {
        0
    } else if fields[0].0 == key {
        0
    } else {
        1 + index_of(fields.skip(1), key)
    }
}

/// `index_of` is the least place at which a field named `key` stands.
pub proof fn index_of_first(fields: Seq<(Seq<char>, ValueView)>, key: Seq<char>)
    ensures
        0 <= index_of(fields, key) <= fields.len(),
        forall|i: int| 0 <= i < index_of(fields, key) ==> fields[i].0 != key,
        index_of(fields, key) < fields.len() ==> fields[index_of(fields, key)].0 == key,
        lookup(fields, key) == if index_of(fields, key) < fields.len() {
            Some(fields[index_of(fields, key)].1)
        } else {
            None
        },
    decreases fields.len(),
{
    if fields.len() > 0 && fields[0].0 != key {
        let rest = fields.skip(1);
        index_of_first(rest, key);
        assert forall|i: int| 0 <= i < index_of(fields, key) implies fields[i].0 != key by {
            if i > 0 {
                assert(rest[i - 1] == fields[i]);
            }
        }
    }
}

/// The fields after `key` has been given `value`: the first field of that name holds the
/// new value, or, where there was none, a new field stands at the end.
pub open spec fn put(fields: Seq<(Seq<char>, ValueView)>, key: Seq<char>, value: ValueView) -> Seq<
    (Seq<char>, ValueView),
> {
    if index_of(fields, key) < fields.len() {
        fields.update(index_of(fields, key), (key, value))
    } else {
        fields.push((key, value))
    }
}

/// What an entry's history remembers: the fields as a mapping, and the tags in order.
pub struct SnapshotView {
    pub fields: Map<Seq<char>, ValueView>,
    pub tags: Seq<Seq<char>>,
}

/// An entry as a value: its identifier, its fields in the order in which their names were
/// first set, its tags in order, and the state that was last committed, if any was.
pub struct EntryView {
    pub uuid: Seq<char>,
    pub fields: Seq<(Seq<char>, ValueView)>,
    pub tags: Seq<Seq<char>>,
    pub history: Option<SnapshotView>,
}

impl EntryView {
    /// No two fields share a name.
    pub open spec fn wf(self) -> bool {
        distinct_names(self.fields)
    }

    /// The value of the field named `key`.
    pub open spec fn value(self, key: Seq<char>) -> Option<ValueView> {
        lookup(self.fields, key)
    }

    /// The text of the field named `key`, protected or not.
    pub open spec fn text(self, key: Seq<char>) -> Option<Seq<char>> {
        match lookup(self.fields, key) {
            Some(v) => v.text(),
            None => None,
        }
    }

    /// The text of the field named `key` where it is not protected.
    pub open spec fn plain(self, key: Seq<char>) -> Option<Seq<char>> {
        match lookup(self.fields, key) {
            Some(v) => v.plain(),
            None => None,
        }
    }

    /// The display name.
    pub open spec fn title(self) -> Option<Seq<char>> {
        self.text(NAME_TAG_NAME@)
    }

    /// Whether the entry carries the tag.
    pub open spec fn has_tag(self, tag: Seq<char>) -> bool {
        self.tags.contains(tag)
    }

    /// The entry after `key` has been given `value`.
    pub open spec fn with_field(self, key: Seq<char>, value: ValueView) -> EntryView {
        EntryView { fields: put(self.fields, key, value), ..self }
    }

    /// The entry with its tags replaced.
    pub open spec fn with_tags(self, tags: Seq<Seq<char>>) -> EntryView {
        EntryView { tags, ..self }
    }

    /// The state that a commit would remember.
    pub open spec fn snapshot(self) -> SnapshotView {
        SnapshotView { fields: field_map(self.fields), tags: self.tags }
    }

    /// Whether the fields or the tags differ from what was last committed.
    pub open spec fn changed(self) -> bool {
        self.history != Some(self.snapshot())
    }

    /// The entry after its present state has been committed.
    pub open spec fn committed(self) -> EntryView {
        EntryView { history: Some(self.snapshot()), ..self }
    }
}

/// The value behind an optional borrowed value.
pub open spec fn opt_value(r: Option<&Value>) -> Option<ValueView> {
    match r {
        Some(v) => Some(v@),
        None => None,
    }
}

/// The state of an entry at its last commit.
pub struct Snapshot {
    fields: Vec<Field>,
    tags: Vec<String>,
}

impl View for Snapshot {
    type V = SnapshotView;

    closed spec fn view(&self) -> SnapshotView {
        SnapshotView { fields: field_map(fields_view(self.fields@)), tags: texts(self.tags@) }
    }
}

/// A contact: an identifier, named fields, tags, and the state last committed.
pub struct Entry {
    uuid: String,
    fields: Vec<Field>,
    tags: Vec<String>,
    history: Option<Snapshot>,
}

impl View for Entry {
    type V = EntryView;

    closed spec fn view(&self) -> EntryView {
        EntryView {
            uuid: self.uuid@,
            fields: fields_view(self.fields@),
            tags: texts(self.tags@),
            history: match self.history {
                Some(h) => Some(h@),
                None => None,
            },
        }
    }
}

fn find_field(fields: &Vec<Field>, key: &str) -> (at: usize)
    ensures
        at == index_of(fields_view(fields@), key@),
        at <= fields.len(),
{
    let ghost view = fields_view(fields@);
    let mut i: usize = 0;
    proof {
        assert(view.skip(0) =~= view);
    }
    while i < fields.len()
        invariant
            i <= fields.len(),
            view == fields_view(fields@),
            index_of(view, key@) == i + index_of(view.skip(i as int), key@),
        decreases fields.len() - i,
    {
        proof {
            assert(view.skip(i as int)[0] == fields@[i as int]@);
            assert(view.skip(i as int).skip(1) =~= view.skip(i + 1));
        }
        if same_text(fields[i].name.as_str(), key) {
            return i;
        }
        i += 1;
    }
    i
}

fn copy_fields(a: &Vec<Field>) -> (r: Vec<Field>)
    ensures
        fields_view(r@) == fields_view(a@),
{
    let mut r: Vec<Field> = Vec::new();
    let mut i: usize = 0;
    while i < a.len()
        invariant
            i <= a.len(),
            fields_view(r@) == fields_view(a@).take(i as int),
        decreases a.len() - i,
    {
        let ghost before = fields_view(r@);
        r.push(a[i].clone());
        assert(fields_view(r@) =~= before.push(a@[i as int]@));
        assert(fields_view(a@).take(i + 1) =~= fields_view(a@).take(i as int).push(a@[i as int]@));
        i += 1;
    }
    assert(fields_view(a@).take(a.len() as int) =~= fields_view(a@));
    r
}

/// Two runs of fields are the same mapping exactly when every name finds the same in both.
pub proof fn same_mapping_by_lookup(a: Seq<(Seq<char>, ValueView)>, b: Seq<(Seq<char>, ValueView)>)
    ensures
        (field_map(a) == field_map(b)) <==> (forall|k: Seq<char>| lookup(a, k) == lookup(b, k)),
{
    if forall|k: Seq<char>| lookup(a, k) == lookup(b, k) {
        assert(field_map(a) =~= field_map(b));
    }
    if field_map(a) == field_map(b) {
        assert forall|k: Seq<char>| lookup(a, k) == lookup(b, k) by {
            assert(field_map(a).dom().contains(k) == field_map(b).dom().contains(k));
            assert(field_map(a)[k] == field_map(b)[k]);
        }
    }
}

/// Every name of a field of `a` finds in `b` what it finds in `a`.
spec fn agrees(a: Seq<(Seq<char>, ValueView)>, b: Seq<(Seq<char>, ValueView)>) -> bool {
    forall|i: int| 0 <= i < a.len() ==> lookup(b, #[trigger] a[i].0) == lookup(a, a[i].0)
}

proof fn agreement_is_equality(a: Seq<(Seq<char>, ValueView)>, b: Seq<(Seq<char>, ValueView)>)
    ensures
        (agrees(a, b) && agrees(b, a)) <==> field_map(a) == field_map(b),
{
    same_mapping_by_lookup(a, b);
    if agrees(a, b) && agrees(b, a) {
        assert forall|k: Seq<char>| lookup(a, k) == lookup(b, k) by {
            lookup_found(a, k);
            lookup_found(b, k);
            if lookup(a, k) is Some {
                let i = choose|i: int| 0 <= i < a.len() && #[trigger] a[i].0 == k;
                assert(lookup(b, a[i].0) == lookup(a, a[i].0));
            } else if lookup(b, k) is Some {
                let i = choose|i: int| 0 <= i < b.len() && #[trigger] b[i].0 == k;
                assert(lookup(a, b[i].0) == lookup(b, b[i].0));
            }
        }
    }
}

fn found_same(a: &Vec<Field>, b: &Vec<Field>, key: &str) -> (r: bool)
    ensures
        r == (lookup(fields_view(a@), key@) == lookup(fields_view(b@), key@)),
{
    let i = find_field(a, key);
    let j = find_field(b, key);
    proof {
        index_of_first(fields_view(a@), key@);
        index_of_first(fields_view(b@), key@);
    }
    if i < a.len() && j < b.len() {
        a[i].value.same(&b[j].value)
    } else {
        i >= a.len() && j >= b.len()
    }
}

fn one_way_same(a: &Vec<Field>, b: &Vec<Field>) -> (r: bool)
    ensures
        r == agrees(fields_view(a@), fields_view(b@)),
{
    let mut i: usize = 0;
    while i < a.len()
        invariant
            i <= a.len(),
            forall|k: int|
                0 <= k < i ==> lookup(fields_view(b@), #[trigger] fields_view(a@)[k].0) == lookup(
                    fields_view(a@),
                    fields_view(a@)[k].0,
                ),
        decreases a.len() - i,
    {
        if !found_same(a, b, a[i].name.as_str()) {
            assert(fields_view(a@)[i as int].0 == a@[i as int].name@);
            return false;
        }
        assert(fields_view(a@)[i as int].0 == a@[i as int].name@);
        i += 1;
    }
    true
}

/// Whether two runs of fields are the same mapping from names to values.
fn same_mapping(a: &Vec<Field>, b: &Vec<Field>) -> (r: bool)
    ensures
        r == (field_map(fields_view(a@)) == field_map(fields_view(b@))),
{
    proof {
        agreement_is_equality(fields_view(a@), fields_view(b@));
    }
    one_way_same(a, b) && one_way_same(b, a)
}

impl Entry {
    #[verifier::type_invariant]
    spec fn names_distinct(self) -> bool {
        distinct_names(fields_view(self.fields@))
    }

    /// An entry with the given identifier and nothing else: no field, no tag, nothing
    /// committed.
    pub fn new(uuid: String) -> (e: Entry)
        ensures
            e@ == (EntryView {
                uuid: uuid@,
                fields: Seq::empty(),
                tags: Seq::empty(),
                history: None,
            }),
    {
        let e = Entry { uuid, fields: Vec::new(), tags: Vec::new(), history: None };
        assert(e@.fields =~= Seq::empty());
        assert(e@.tags =~= Seq::empty());
        e
    }

    /// The identifier.
    pub fn get_uuid(&self) -> (r: &str)
        ensures
            r@ == self@.uuid,
    {
        self.uuid.as_str()
    }

    /// The value of the field named `key`.
    pub fn value(&self, key: &str) -> (r: Option<&Value>)
        ensures
            opt_value(r) == self@.value(key@),
    {
        let at = find_field(&self.fields, key);
        proof {
            index_of_first(fields_view(self.fields@), key@);
        }
        if at < self.fields.len() {
            Some(&self.fields[at].value)
        } else {
            None
        }
    }

    /// The text of the field named `key`, protected or not; none for raw bytes.
    pub fn get(&self, key: &str) -> (r: Option<&str>)
        ensures
            opt_text(r) == self@.text(key@),
    {
        match self.value(key) {
            Some(Value::Unprotected(t)) => Some(t.as_str()),
            Some(Value::Protected(t)) => Some(t.as_str()),
            _ => None,
        }
    }

    /// The display name: the text of the field `Title`.
    pub fn get_title(&self) -> (r: Option<&str>)
        ensures
            opt_text(r) == self@.title(),
    {
        self.get(NAME_TAG_NAME)
    }

    /// Gives the field named `key` the value; a later value replaces an earlier one.
    pub fn set(&mut self, key: &str, value: Value)
        ensures
            final(self)@ == old(self)@.with_field(key@, value@),
    {
        proof {
            use_type_invariant(&*self);
            index_of_first(fields_view(self.fields@), key@);
        }
        let ghost before = fields_view(self.fields@);
        let at = find_field(&self.fields, key);
        let field = Field { name: String::from_str(key), value };
        let mut fields: Vec<Field> = Vec::new();
        std::mem::swap(&mut self.fields, &mut fields);
        if at < fields.len() {
            fields[at] = field;
            assert(fields_view(fields@) =~= before.update(at as int, (key@, value@)));
        } else {
            fields.push(field);
            assert(fields_view(fields@) =~= before.push((key@, value@)));
        }
        std::mem::swap(&mut self.fields, &mut fields);
    }

    /// The fields, in the order in which their names were first set.
    pub fn fields(&self) -> (r: &Vec<Field>)
        ensures
            fields_view(r@) == self@.fields,
            self@.wf(),
    {
        proof {
            use_type_invariant(self);
        }
        &self.fields
    }

    /// The tags, in order.
    pub fn tags(&self) -> (r: &Vec<String>)
        ensures
            texts(r@) == self@.tags,
    {
        &self.tags
    }

    /// Whether the entry carries the tag.
    pub fn has_tag(&self, tag: &str) -> (r: bool)
        ensures
            r == self@.has_tag(tag@),
    {
        has_text(&self.tags, tag)
    }

    /// Replaces the tags.
    pub fn set_tags(&mut self, tags: Vec<String>)
        ensures
            final(self)@ == old(self)@.with_tags(texts(tags@)),
    {
        proof {
            use_type_invariant(&*self);
        }
        self.tags = tags;
    }

    /// Commits the entry if its fields or tags differ from what was last committed, and
    /// says whether it did. An entry that was never committed always differs.
    pub fn update_history(&mut self) -> (changed: bool)
        ensures
            changed == old(self)@.changed(),
            changed ==> final(self)@ == old(self)@.committed(),
            !changed ==> final(self)@ == old(self)@,
    {
        proof {
            use_type_invariant(&*self);
        }
        let same = match &self.history {
            Some(h) => same_mapping(&h.fields, &self.fields) && same_texts(&h.tags, &self.tags),
            None => false,
        };
        if same {
            return false;
        }
        let snapshot = Snapshot {
            fields: copy_fields(&self.fields),
            tags: copy_texts(&self.tags),
        };
        self.history = Some(snapshot);
        true
    }
}

impl Clone for Snapshot {
    fn clone(&self) -> (r: Self)
        ensures
            r@ == self@,
    {
        Snapshot { fields: copy_fields(&self.fields), tags: copy_texts(&self.tags) }
    }
}

impl Clone for Entry {
    fn clone(&self) -> (r: Self)
        ensures
            r@ == self@,
    {
        proof {
            use_type_invariant(self);
        }
        Entry {
            uuid: self.uuid.clone(),
            fields: copy_fields(&self.fields),
            tags: copy_texts(&self.tags),
            history: match &self.history {
                Some(h) => Some(h.clone()),
                None => None,
            },
        }
    }
}

/// A second commit right after a first finds nothing changed and changes nothing, and an
/// entry that was never committed counts as changed.
pub proof fn commit_is_idempotent(e: EntryView)
    ensures
        !e.committed().changed(),
        e.committed().committed() == e.committed(),
        e.history is None ==> e.changed(),
{
}

/// Giving a field a value is an insertion into the mapping from names to values: the
/// last value given to a name is the one that is found under it. Names stay distinct.
pub proof fn put_is_insert(fields: Seq<(Seq<char>, ValueView)>, key: Seq<char>, value: ValueView)
    ensures
        field_map(put(fields, key, value)) == field_map(fields).insert(key, value),
        distinct_names(fields) ==> distinct_names(put(fields, key, value)),
{
    index_of_first(fields, key);
    let after = put(fields, key, value);
    assert forall|k: Seq<char>| lookup(after, k) == if k == key {
        Some(value)
    } else {
        lookup(fields, k)
    } by {
        if index_of(fields, key) < fields.len() {
            lookup_after_replace(fields, index_of(fields, key), key, value, k);
        } else {
            lookup_after_push(fields, key, value, k);
        }
    }
    assert(field_map(after) =~= field_map(fields).insert(key, value));
    if distinct_names(fields) {
        assert forall|i: int, j: int| 0 <= i < j < after.len() implies after[i].0 != after[j].0 by {
            if index_of(fields, key) < fields.len() {
                assert(after[i].0 == fields[i].0 && after[j].0 == fields[j].0);
            }
        }
    }
}

/// Giving a field the value that it has is no change: the entry differs from what was
/// last committed exactly if it did before.
pub proof fn rewriting_is_no_change(e: EntryView, key: Seq<char>, value: ValueView)
    requires
        e.value(key) == Some(value),
    ensures
        e.with_field(key, value).snapshot() == e.snapshot(),
        e.with_field(key, value).changed() == e.changed(),
{
    put_is_insert(e.fields, key, value);
    assert(field_map(e.fields).insert(key, value) =~= field_map(e.fields));
}

/// So an edit that is made a second time, right after it was committed, changes nothing.
pub proof fn second_edit_is_no_change(e: EntryView, key: Seq<char>, value: ValueView)
    ensures
        !e.with_field(key, value).committed().with_field(key, value).changed(),
{
    let once = e.with_field(key, value).committed();
    put_is_insert(e.fields, key, value);
    assert(field_map(once.fields).dom().contains(key));
    assert(field_map(once.fields)[key] == value);
    assert(lookup(once.fields, key) == Some(value));
    rewriting_is_no_change(once, key, value);
}

} // verus!
