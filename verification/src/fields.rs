//! The label/value rows of the device information page.

use vstd::prelude::*;
use vstd::string::*;
use crate::error::{ExtractError, Missing, Place};
use crate::text::{concat_all, contains, find_char, first_index_of, from_chars, has_substring, join, opt_view, str_eq, strings_view, to_chars};
use crate::units::{parse_reading, parsed_view, reading_of, Parsed, ParsedView};

verus! {

/// One label/value pair of the page.
#[derive(Clone, Debug, PartialEq, Eq)]
pub struct Information {
    pub label_id: String,
    pub label: String,
    pub value_id: String,
    pub value: String,
    pub parsed: Option<Parsed>,
    pub hidden: bool,
}

/// The mathematical content of an [`Information`].
pub struct InformationView {
    pub label_id: Seq<char>,
    pub label: Seq<char>,
    pub value_id: Seq<char>,
    pub value: Seq<char>,
    pub parsed: Option<ParsedView>,
    pub hidden: bool,
}

impl View for Information {
    type V = InformationView;

    open spec fn view(&self) -> InformationView {
        InformationView {
            label_id: self.label_id@,
            label: self.label@,
            value_id: self.value_id@,
            value: self.value@,
            parsed: parsed_view(self.parsed),
            hidden: self.hidden,
        }
    }
}

/// What the page holds for one row. A `None` stands for a node or an
/// attribute that is not there.
#[derive(Clone, Debug, PartialEq, Eq)]
pub struct FieldRow {
    /// The style attribute of the row.
    pub style: Option<String>,
    /// The identifier of the label.
    pub label_id: Option<String>,
    /// The text of the label.
    pub label: Option<String>,
    /// The identifier of the value.
    pub value_id: Option<String>,
    /// The texts of the spans of the value, if they can be enumerated.
    pub spans: Option<Vec<String>>,
}

/// The mathematical content of a [`FieldRow`].
pub struct FieldRowView {
    pub style: Option<Seq<char>>,
    pub label_id: Option<Seq<char>>,
    pub label: Option<Seq<char>>,
    pub value_id: Option<Seq<char>>,
    pub spans: Option<Seq<Seq<char>>>,
}

impl View for FieldRow {
    type V = FieldRowView;

    open spec fn view(&self) -> FieldRowView {
        FieldRowView {
            style: opt_view(self.style),
            label_id: opt_view(self.label_id),
            label: opt_view(self.label),
            value_id: opt_view(self.value_id),
            spans: match self.spans {
                Some(v) => Some(strings_view(v@)),
                None => None,
            },
        }
    }
}

/// The views of a sequence of rows.
pub open spec fn rows_view(rows: Seq<FieldRow>) -> Seq<FieldRowView> {
    Seq::new(rows.len(), |i: int| rows[i]@)
}

/// A row is hidden if it has a style that says that it is not displayed.
pub open spec fn hidden_of(style: Option<Seq<char>>) -> bool {
    match style {
        Some(s) => has_substring("display: none;"@, s),
        None => false,
    }
}

/// The raw value of a row: the texts of its spans joined, or the empty text
/// if the spans cannot be enumerated.
pub open spec fn raw_value(spans: Option<Seq<Seq<char>>>) -> Seq<char> {
    match spans {
        Some(parts) => concat_all(parts),
        None => Seq::empty(),
    }
}

/// The key of a label's identifier: what follows its first full stop.
pub open spec fn key_of(label_id: Seq<char>) -> Option<Seq<char>> {
    let dot = first_index_of(label_id, '.', 0);
    if dot < label_id.len() {
        Some(label_id.subrange(dot + 1, label_id.len() as int))
    } else {
        None
    }
}

/// The key and the record of a row, or what the row lacks.
pub open spec fn record_of(row: FieldRowView) -> Result<(Seq<char>, InformationView), Missing> {
    if row.label_id is None {
        Err(Missing::LabelId)
    } else if row.label is None {
        Err(Missing::Label)
    } else if row.value_id is None {
        Err(Missing::ValueId)
    } else if key_of(row.label_id->0) is None {
        Err(Missing::Separator)
    } else {
        Ok(
            (
                key_of(row.label_id->0)->0,
                InformationView {
                    label_id: row.label_id->0,
                    label: row.label->0,
                    value_id: row.value_id->0,
                    value: raw_value(row.spans),
                    parsed: reading_of(raw_value(row.spans)),
                    hidden: hidden_of(row.style),
                },
            ),
        )
    }
}

/// The view of the outcome of reading one row.
pub open spec fn record_view(r: Result<(String, Information), Missing>) -> Result<
    (Seq<char>, InformationView),
    Missing,
> {
    match r {
        Ok((key, info)) => Ok((key@, info@)),
        Err(e) => Err(e),
    }
}

/// The key of a label's identifier, if the identifier has a full stop.
pub fn field_key(label_id: &str) -> (r: Option<String>)
    ensures
        opt_view(r) == key_of(label_id@),
{
    let v = to_chars(label_id);
    let dot = find_char(&v, '.');
    if dot < v.len() {
        Some(from_chars(&v, dot + 1, v.len()))
    } else {
        None
    }
}

/// Reads one row into its key and its record.
pub fn extract_row(row: &FieldRow) -> (r: Result<(String, Information), Missing>)
    ensures
        record_view(r) == record_of(row@),
{
    let hidden = match &row.style {
        Some(s) => contains(s.as_str(), "display: none;"),
        None => false,
    };
    let label_id = match &row.label_id {
        Some(s) => s.clone(),
        None => {
            return Err(Missing::LabelId);
        },
    };
    let label = match &row.label {
        Some(s) => s.clone(),
        None => {
            return Err(Missing::Label);
        },
    };
    let value_id = match &row.value_id {
        Some(s) => s.clone(),
        None => {
            return Err(Missing::ValueId);
        },
    };
    let value = match &row.spans {
        Some(parts) => join(parts),
        None => String::new(),
    };
    let parsed = parse_reading(value.as_str());
    let key = match field_key(label_id.as_str()) {
        Some(k) => k,
        None => {
            return Err(Missing::Separator);
        },
    };
    Ok((key, Information { label_id, label, value_id, value, parsed, hidden }))
}

/// Whether some entry has the key.
pub open spec fn has_key(entries: Seq<(Seq<char>, InformationView)>, key: Seq<char>) -> bool {
    exists|i: int| 0 <= i < entries.len() && (#[trigger] entries[i]).0 == key
}

/// The position of an entry with the key.
pub open spec fn key_index(entries: Seq<(Seq<char>, InformationView)>, key: Seq<char>) -> int {
    choose|i: int| 0 <= i < entries.len() && (#[trigger] entries[i]).0 == key
}

/// No key occurs twice.
pub open spec fn distinct_keys(entries: Seq<(Seq<char>, InformationView)>) -> bool {
    forall|i: int, j: int|
        0 <= i < j < entries.len() ==> (#[trigger] entries[i]).0 != (#[trigger] entries[j]).0
}

/// The entries with `record` under `key`: in place of the entry that had the
/// key, or at the end if none had it.
pub open spec fn upsert(
    entries: Seq<(Seq<char>, InformationView)>,
    key: Seq<char>,
    record: InformationView,
) -> Seq<(Seq<char>, InformationView)> {
    if has_key(entries, key) {
        entries.update(key_index(entries, key), (key, record))
    } else {
        entries.push((key, record))
    }
}

/// The table that a sequence of rows gives: each row is entered under its
/// key, a later row taking the place of an earlier one with the same key.
/// The first row that lacks something ends the reading.
pub open spec fn table_of(rows: Seq<FieldRowView>) -> Result<
    Seq<(Seq<char>, InformationView)>,
    ExtractError,
>
    decreases rows.len(),
{
    if rows.len() == 0 {
        Ok(Seq::empty())
    } else {
        match table_of(rows.drop_last()) {
            Err(e) => Err(e),
            Ok(entries) => match record_of(rows.last()) {
                Err(missing) => Err(
                    ExtractError { place: Place::Fields, row: (rows.len() - 1) as usize, missing },
                ),
                Ok((key, record)) => Ok(upsert(entries, key, record)),
            },
        }
    }
}

/// The records of a page by key. No key occurs twice; the entries stand in
/// the order in which their keys first came.
#[derive(Clone, Debug, PartialEq, Eq)]
pub struct FieldTable {
    entries: Vec<(String, Information)>,
}

impl View for FieldTable {
    type V = Seq<(Seq<char>, InformationView)>;

    closed spec fn view(&self) -> Seq<(Seq<char>, InformationView)> {
        Seq::new(self.entries@.len(), |i: int| (self.entries@[i].0@, self.entries@[i].1@))
    }
}

impl FieldTable {
    /// The table is well formed: no key occurs twice.
    pub open spec fn wf(&self) -> bool {
        distinct_keys(self@)
    }

    /// The empty table.
    pub fn new() -> (t: FieldTable)
        ensures
            t.wf(),
            t@ == Seq::<(Seq<char>, InformationView)>::empty(),
    {
        let t = FieldTable { entries: Vec::new() };
        assert(t@ =~= Seq::<(Seq<char>, InformationView)>::empty());
        t
    }

    /// The number of entries.
    pub fn len(&self) -> (n: usize)
        ensures
            n == self@.len(),
    {
        self.entries.len()
    }

    /// The key of the entry at position `i`.
    pub fn key_at(&self, i: usize) -> (k: &String)
        requires
            i < self@.len(),
        ensures
            k@ == self@[i as int].0,
    {
        &self.entries[i].0
    }

    /// The record of the entry at position `i`.
    pub fn record_at(&self, i: usize) -> (r: &Information)
        requires
            i < self@.len(),
        ensures
            r@ == self@[i as int].1,
    {
        &self.entries[i].1
    }

    /// The position of the entry with the key, if there is one.
    pub fn position(&self, key: &str) -> (r: Option<usize>)
        ensures
            match r {
                Some(i) => i < self@.len() && self@[i as int].0 == key@,
                None => !has_key(self@, key@),
            },
    {
        let mut i: usize = 0;
        while i < self.entries.len()
            invariant
                i <= self.entries.len(),
                forall|j: int| 0 <= j < i ==> (#[trigger] self@[j]).0 != key@,
            decreases self.entries.len() - i,
        {
            if str_eq(self.entries[i].0.as_str(), key) {
                return Some(i);
            }
            i = i + 1;
        }
        None
    }

    /// The record under the key, if there is one.
    pub fn get(&self, key: &str) -> (r: Option<&Information>)
        ensures
            match r {
                Some(record) => has_key(self@, key@) && exists|i: int|
                    0 <= i < self@.len() && (#[trigger] self@[i]) == (key@, record@),
                None => !has_key(self@, key@),
            },
    {
        match self.position(key) {
            Some(i) => {
                assert(self@[i as int] == (key@, self.entries@[i as int].1@));
                Some(&self.entries[i].1)
            },
            None => None,
        }
    }

    /// Enters `record` under `key`. An entry that had the key is replaced,
    /// and the result says whether there was one.
    pub fn insert(&mut self, key: String, record: Information) -> (replaced: bool)
        requires
            old(self).wf(),
        ensures
            final(self).wf(),
            final(self)@ == upsert(old(self)@, key@, record@),
            replaced == has_key(old(self)@, key@),
    {
        let ghost before = self@;
        match self.position(key.as_str()) {
            Some(i) => {
                proof {
                    let c = key_index(before, key@);
                    assert(before[i as int].0 == key@);
                    assert(before[c].0 == key@);
                    assert(c == i);
                }
                self.entries.set(i, (key, record));
                assert(self@ =~= before.update(i as int, (key@, record@)));
                true
            },
            None => {
                self.entries.push((key, record));
                assert(self@ =~= before.push((key@, record@)));
                false
            },
        }
    }
}

/// Reads the rows of the page into a table, in order. A later row with the
/// key of an earlier one takes its place. The first row that lacks a
/// required node ends the reading with an error that names it.
pub fn extract_information(rows: &Vec<FieldRow>) -> (r: Result<FieldTable, ExtractError>)
    ensures
        match r {
            Ok(table) => table.wf() && table_of(rows_view(rows@)) == Ok::<_, ExtractError>(table@),
            Err(e) => table_of(rows_view(rows@)) == Err::<Seq<(Seq<char>, InformationView)>, _>(e),
        },
{
    let mut table = FieldTable::new();
    let mut i: usize = 0;
    while i < rows.len()
        invariant
            i <= rows.len(),
            table.wf(),
            table_of(rows_view(rows@).subrange(0, i as int)) == Ok::<_, ExtractError>(table@),
        decreases rows.len() - i,
    {
        proof {
            let all = rows_view(rows@);
            let next = all.subrange(0, i + 1);
            assert(next.drop_last() =~= all.subrange(0, i as int));
            assert(next.last() == rows@[i as int]@);
        }
        match extract_row(&rows[i]) {
            Ok((key, record)) => {
                table.insert(key, record);
            },
            Err(missing) => {
                proof {
                    lemma_error_stays(rows_view(rows@), i + 1);
                }
                return Err(ExtractError { place: Place::Fields, row: i, missing });
            },
        }
        i = i + 1;
    }
    assert(rows_view(rows@).subrange(0, rows.len() as int) =~= rows_view(rows@));
    Ok(table)
}

/// Entering a record keeps the keys distinct, and entering it a second time
/// changes nothing.
pub proof fn lemma_upsert_idempotent(
    entries: Seq<(Seq<char>, InformationView)>,
    key: Seq<char>,
    record: InformationView,
)
    requires
        distinct_keys(entries),
    ensures
        distinct_keys(upsert(entries, key, record)),
        has_key(upsert(entries, key, record), key),
        upsert(upsert(entries, key, record), key, record) == upsert(entries, key, record),
{
    let once = upsert(entries, key, record);
    if has_key(entries, key) {
        let at = key_index(entries, key);
        assert(once[at] == (key, record));
        assert(has_key(once, key));
        let again = key_index(once, key);
        assert(once[again].0 == key);
        assert(again == at);
        assert(once.update(again, (key, record)) =~= once);
    } else {
        let at = entries.len() as int;
        assert(once[at] == (key, record));
        assert(has_key(once, key));
        let again = key_index(once, key);
        assert(once[again].0 == key);
        if again < at {
            assert(entries[again].0 == key);
        }
        assert(once.update(again, (key, record)) =~= once);
    }
}

/// Reading is repeatable: rows with the same content give the same table or
/// the same error.
pub proof fn lemma_rows_decide_the_table(first: Seq<FieldRow>, second: Seq<FieldRow>)
    requires
        rows_view(first) == rows_view(second),
    ensures
        table_of(rows_view(first)) == table_of(rows_view(second)),
{
}

/// Once a prefix of the rows has failed, the whole sequence fails in the same way.
pub proof fn lemma_error_stays(rows: Seq<FieldRowView>, n: int)
    requires
        0 <= n <= rows.len(),
        table_of(rows.subrange(0, n)) is Err,
    ensures
        table_of(rows) == table_of(rows.subrange(0, n)),
    decreases rows.len(),
{
    if n == rows.len() {
        assert(rows.subrange(0, n) =~= rows);
    } else {
        assert(rows.drop_last().subrange(0, n) =~= rows.subrange(0, n));
        lemma_error_stays(rows.drop_last(), n);
    }
}

} // verus!
