//! The parser's schema: which type each field has, and which short names stand
//! for which fields.
use vstd::prelude::*;

verus! {

/// A map from names to texts, kept as a list of entries whose names are all
/// distinct.
#[derive(Debug)]
pub struct NameTable {
    entries: Vec<(String, String)>,
}

/// The map that a list of entries stands for; a later entry wins over an
/// earlier one with the same name.
pub open spec fn map_of(s: Seq<(String, String)>) -> Map<Seq<char>, Seq<char>>
    decreases s.len(),
{
    if s.len() == 0 {
        Map::empty()
    } else {
        map_of(s.drop_last()).insert(s.last().0@, s.last().1@)
    }
}

pub open spec fn distinct_names(s: Seq<(String, String)>) -> bool {
    forall|i: int, j: int| 0 <= i < j < s.len() ==> #[trigger] s[i].0@ != #[trigger] s[j].0@
}

proof fn lemma_map_of_domain(s: Seq<(String, String)>, k: Seq<char>)
    ensures
        map_of(s).contains_key(k) <==> exists|i: int| 0 <= i < s.len() && #[trigger] s[i].0@ == k,
    decreases s.len(),
{
    if s.len() > 0 {
        lemma_map_of_domain(s.drop_last(), k);
        if map_of(s.drop_last()).contains_key(k) {
            let i = choose|i: int| 0 <= i < s.drop_last().len() && #[trigger] s.drop_last()[i].0@ == k;
            assert(s[i].0@ == k);
        }
        if exists|i: int| 0 <= i < s.len() && #[trigger] s[i].0@ == k {
            let i = choose|i: int| 0 <= i < s.len() && #[trigger] s[i].0@ == k;
            if i < s.len() - 1 {
                assert(s.drop_last()[i].0@ == k);
            }
        }
    }
}

proof fn lemma_map_of_same_views(s: Seq<(String, String)>, t: Seq<(String, String)>)
    requires
        s.len() == t.len(),
        forall|j: int| 0 <= j < s.len() ==> #[trigger] s[j].0@ == t[j].0@ && s[j].1@ == t[j].1@,
    ensures
        map_of(s) == map_of(t),
        distinct_names(t) ==> distinct_names(s),
    decreases s.len(),
{
    if s.len() > 0 {
        lemma_map_of_same_views(s.drop_last(), t.drop_last());
        assert(s.last().0@ == t.last().0@);
    }
    if distinct_names(t) {
        assert forall|a: int, b: int| 0 <= a < b < s.len() implies #[trigger] s[a].0@
            != #[trigger] s[b].0@ by {
            assert(s[a].0@ == t[a].0@ && s[b].0@ == t[b].0@);
        }
    }
}

proof fn lemma_map_of_at(s: Seq<(String, String)>, i: int)
    requires
        distinct_names(s),
        0 <= i < s.len(),
    ensures
        map_of(s).contains_key(s[i].0@),
        map_of(s)[s[i].0@] == s[i].1@,
    decreases s.len(),
{
    if i < s.len() - 1 {
        assert(s.drop_last()[i] == s[i]);
        lemma_map_of_at(s.drop_last(), i);
        assert(s[i].0@ != s[s.len() - 1].0@);
    }
}

proof fn lemma_map_of_update(s: Seq<(String, String)>, i: int, e: (String, String))
    requires
        distinct_names(s),
        0 <= i < s.len(),
        e.0@ == s[i].0@,
    ensures
        map_of(s.update(i, e)) == map_of(s).insert(e.0@, e.1@),
        distinct_names(s.update(i, e)),
    decreases s.len(),
{
    let t = s.update(i, e);
    if i == s.len() - 1 {
        assert(t.drop_last() == s.drop_last());
        lemma_map_of_domain(s.drop_last(), e.0@);
        assert(map_of(t) =~= map_of(s).insert(e.0@, e.1@));
    } else {
        assert(t.drop_last() == s.drop_last().update(i, e));
        lemma_map_of_update(s.drop_last(), i, e);
        assert(s.last().0@ != e.0@);
        assert(map_of(t) =~= map_of(s).insert(e.0@, e.1@));
    }
}

impl View for NameTable {
    type V = Map<Seq<char>, Seq<char>>;

    open spec fn view(&self) -> Map<Seq<char>, Seq<char>> {
        self.table()
    }
}

impl NameTable {
    #[verifier::type_invariant]
    spec fn names_distinct(self) -> bool {
        distinct_names(self.entries@)
    }

    /// The map from names to texts.
    pub closed spec fn table(&self) -> Map<Seq<char>, Seq<char>> {
        map_of(self.entries@)
    }

    /// An empty table.
    pub fn new() -> (t: Self)
        ensures
            t.view() == Map::<Seq<char>, Seq<char>>::empty(),
    {
        NameTable { entries: Vec::new() }
    }

    /// Maps `name` to `text`, replacing what it mapped to before.
    pub fn insert(&mut self, name: String, text: String)
        ensures
            final(self).view() == old(self).view().insert(name@, text@),
    {
        proof {
            use_type_invariant(&*self);
        }
        let mut i: usize = 0;
        while i < self.entries.len()
            invariant
                0 <= i <= self.entries.len(),
                distinct_names(self.entries@),
                self.entries@ == old(self).entries@,
                forall|j: int| 0 <= j < i ==> #[trigger] self.entries@[j].0@ != name@,
            decreases self.entries.len() - i,
        {
            if self.entries[i].0 == name {
                let ghost before = self.entries@;
                proof {
                    lemma_map_of_update(before, i as int, (name, text));
                }
                let mut entries: Vec<(String, String)> = Vec::new();
                std::mem::swap(&mut entries, &mut self.entries);
                entries.set(i, (name, text));
                self.entries = entries;
                return;
            }
            i += 1;
        }
        let ghost before = self.entries@;
        let mut entries: Vec<(String, String)> = Vec::new();
                std::mem::swap(&mut entries, &mut self.entries);
        entries.push((name, text));
        proof {
            assert(entries@.drop_last() == before);
            assert forall|a: int, b: int| 0 <= a < b < entries@.len() implies #[trigger] entries@[a].0@
                != #[trigger] entries@[b].0@ by {
                if b == entries@.len() - 1 {
                    assert(before[a].0@ != name@);
                } else {
                    assert(before[a] == entries@[a] && before[b] == entries@[b]);
                }
            }
        }
        self.entries = entries;
    }

    /// The text that `name` maps to, if any.
    pub fn get(&self, name: &str) -> (r: Option<&String>)
        ensures
            match r {
                Some(t) => self.view().contains_key(name@) && t@ == self.view()[name@],
                None => !self.view().contains_key(name@),
            },
    {
        proof {
            use_type_invariant(self);
        }
        let key: String = name.to_owned();
        let mut i: usize = 0;
        while i < self.entries.len()
            invariant
                0 <= i <= self.entries.len(),
                distinct_names(self.entries@),
                key@ == name@,
                forall|j: int| 0 <= j < i ==> #[trigger] self.entries@[j].0@ != name@,
            decreases self.entries.len() - i,
        {
            if self.entries[i].0 == key {
                proof {
                    lemma_map_of_at(self.entries@, i as int);
                }
                return Some(&self.entries[i].1);
            }
            i += 1;
        }
        proof {
            lemma_map_of_domain(self.entries@, name@);
        }
        None
    }
}

impl Clone for NameTable {
    /// A table with the same entries.
    fn clone(&self) -> (t: Self)
        ensures
            t.view() == self.view(),
    {
        proof {
            use_type_invariant(self);
        }
        let mut entries: Vec<(String, String)> = Vec::new();
        let mut i: usize = 0;
        while i < self.entries.len()
            invariant
                0 <= i <= self.entries.len(),
                entries@.len() == i,
                forall|j: int| 0 <= j < i ==> #[trigger] entries@[j].0@ == self.entries@[j].0@
                    && entries@[j].1@ == self.entries@[j].1@,
            decreases self.entries.len() - i,
        {
            let name = self.entries[i].0.clone();
            let text = self.entries[i].1.clone();
            entries.push((name, text));
            i += 1;
        }
        proof {
            lemma_map_of_same_views(entries@, self.entries@);
        }
        NameTable { entries }
    }
}

/// The parser's schema.
#[derive(Debug)]
pub struct ParserConfig {
    /// The type of each known field: `text`, `boolean`, `number`, `date` or
    /// `multiSelect` (any other type is treated as untyped).
    pub field_types: NameTable,
    /// Short names and the field names they stand for.
    pub abbreviations: NameTable,
}

/// The field types of the built-in schema.
pub open spec fn cherrypic_field_types() -> Map<Seq<char>, Seq<char>> {
    map![
        "tags"@ => "multiSelect"@,
        "tag"@ => "multiSelect"@,
        "aiTags"@ => "multiSelect"@,
        "bookmarkId"@ => "text"@,
        "domain"@ => "text"@,
        "type"@ => "text"@,
        "objectType"@ => "text"@,
        "parent"@ => "text"@,
        "isFavorite"@ => "boolean"@,
        "isArchived"@ => "boolean"@,
        "isDeleted"@ => "boolean"@,
        "hasReminder"@ => "boolean"@,
        "withAnnotation"@ => "boolean"@,
        "withNotes"@ => "boolean"@,
        "withHighlights"@ => "boolean"@,
        "withBacklinks"@ => "boolean"@,
        "highlightLength"@ => "number"@,
        "rating"@ => "number"@,
        "readStatus"@ => "number"@,
        "status"@ => "number"@,
        "createdAt"@ => "date"@,
        "updatedAt"@ => "date"@,
        "time"@ => "date"@,
        "logDate"@ => "date"@,
        "logDueDate"@ => "date"@,
        "dueDate"@ => "date"@,
        "reminder_time"@ => "date"@,
        "fileSize"@ => "number"@,
        "duration"@ => "number"@
    ]
}

/// The abbreviations of the built-in schema.
pub open spec fn cherrypic_abbreviations() -> Map<Seq<char>, Seq<char>> {
    map![
        "t"@ => "tags"@,
        "tag"@ => "tags"@,
        "created"@ => "createdAt"@,
        "modified"@ => "updatedAt"@
    ]
}

fn put(table: &mut NameTable, name: &str, text: &str)
    ensures
        final(table).view() == old(table).view().insert(name@, text@),
{
    table.insert(name.to_owned(), text.to_owned());
}

fn cherrypic_field_types_raw() -> (t: NameTable)
    ensures
        t.view() == cherrypic_field_types(),
{
    let mut m = NameTable::new();
    put(&mut m, "tags", "multiSelect");
    put(&mut m, "tag", "multiSelect");
    put(&mut m, "aiTags", "multiSelect");
    put(&mut m, "bookmarkId", "text");
    put(&mut m, "domain", "text");
    put(&mut m, "type", "text");
    put(&mut m, "objectType", "text");
    put(&mut m, "parent", "text");
    put(&mut m, "isFavorite", "boolean");
    put(&mut m, "isArchived", "boolean");
    put(&mut m, "isDeleted", "boolean");
    put(&mut m, "hasReminder", "boolean");
    put(&mut m, "withAnnotation", "boolean");
    put(&mut m, "withNotes", "boolean");
    put(&mut m, "withHighlights", "boolean");
    put(&mut m, "withBacklinks", "boolean");
    put(&mut m, "highlightLength", "number");
    put(&mut m, "rating", "number");
    put(&mut m, "readStatus", "number");
    put(&mut m, "status", "number");
    put(&mut m, "createdAt", "date");
    put(&mut m, "updatedAt", "date");
    put(&mut m, "time", "date");
    put(&mut m, "logDate", "date");
    put(&mut m, "logDueDate", "date");
    put(&mut m, "dueDate", "date");
    put(&mut m, "reminder_time", "date");
    put(&mut m, "fileSize", "number");
    put(&mut m, "duration", "number");
    m
}

fn cherrypic_abbreviations_raw() -> (t: NameTable)
    ensures
        t.view() == cherrypic_abbreviations(),
{
    let mut m = NameTable::new();
    put(&mut m, "t", "tags");
    put(&mut m, "tag", "tags");
    put(&mut m, "created", "createdAt");
    put(&mut m, "modified", "updatedAt");
    m
}

impl ParserConfig {
    /// A schema with no fields and no abbreviations.
    pub fn new() -> (c: Self)
        ensures
            c.field_types.view() == Map::<Seq<char>, Seq<char>>::empty(),
            c.abbreviations.view() == Map::<Seq<char>, Seq<char>>::empty(),
    {
        ParserConfig { field_types: NameTable::new(), abbreviations: NameTable::new() }
    }

    /// This schema with field `name` registered as having type `field_type`.
    pub fn with_field(self, name: &str, field_type: &str) -> (c: Self)
        ensures
            c.field_types.view() == self.field_types.view().insert(name@, field_type@),
            c.abbreviations.view() == self.abbreviations.view(),
    {
        let mut c = self;
        c.field_types.insert(name.to_owned(), field_type.to_owned());
        c
    }

    /// This schema with `short` registered as standing for field `full`.
    pub fn with_abbreviation(self, short: &str, full: &str) -> (c: Self)
        ensures
            c.field_types.view() == self.field_types.view(),
            c.abbreviations.view() == self.abbreviations.view().insert(short@, full@),
    {
        let mut c = self;
        c.abbreviations.insert(short.to_owned(), full.to_owned());
        c
    }

    /// The built-in schema.
    pub fn cherrypic_defaults() -> (c: Self)
        ensures
            c.field_types.view() == cherrypic_field_types(),
            c.abbreviations.view() == cherrypic_abbreviations(),
    {
        ParserConfig {
            field_types: cherrypic_field_types_raw(),
            abbreviations: cherrypic_abbreviations_raw(),
        }
    }
}

impl Clone for ParserConfig {
    /// A schema with the same fields and abbreviations.
    fn clone(&self) -> (c: Self)
        ensures
            c.field_types.view() == self.field_types.view(),
            c.abbreviations.view() == self.abbreviations.view(),
    {
        ParserConfig { field_types: self.field_types.clone(), abbreviations: self.abbreviations.clone() }
    }
}

impl Default for ParserConfig {
    /// The built-in schema.
    fn default() -> (c: Self)
        ensures
            c.field_types.view() == cherrypic_field_types(),
            c.abbreviations.view() == cherrypic_abbreviations(),
    {
        Self::cherrypic_defaults()
    }
}

} // verus!
