//! Which JSON tables a generation run reads, how each file is checked, and
//! the sorted, duplicate-free set of tables it collects.
use crate::text::{push_str, same_text, str_chars};
use vstd::prelude::*;

verus! {

// ---------------------------------------------------------------------------
// The order of table names
// ---------------------------------------------------------------------------

/// `a` sorts before `b` in the order of `str`: code point by code point
/// (the order of their UTF-8 bytes), a proper prefix first.
pub open spec fn text_less(a: Seq<char>, b: Seq<char>) -> bool
    decreases a.len(),
{
    if a.len() == 0 {
        b.len() > 0
    } else if b.len() == 0 {
        false
    } else if a[0] != b[0] {
        a[0] < b[0]
    } else {
        text_less(a.drop_first(), b.drop_first())
    }
}

proof fn lemma_less_irreflexive(a: Seq<char>)
    ensures
        !text_less(a, a),
    decreases a.len(),
{
    if a.len() > 0 {
        lemma_less_irreflexive(a.drop_first());
    }
}

proof fn lemma_less_total(a: Seq<char>, b: Seq<char>)
    requires
        a != b,
    ensures
        text_less(a, b) || text_less(b, a),
    decreases a.len(),
{
    if a.len() > 0 && b.len() > 0 && a[0] == b[0] {
        if a.drop_first() == b.drop_first() {
            assert(a =~= seq![a[0]] + a.drop_first());
            assert(b =~= seq![b[0]] + b.drop_first());
        }
        lemma_less_total(a.drop_first(), b.drop_first());
    } else if a.len() == 0 && b.len() == 0 {
        assert(a =~= b);
    }
}

proof fn lemma_less_transitive(a: Seq<char>, b: Seq<char>, c: Seq<char>)
    requires
        text_less(a, b),
        text_less(b, c),
    ensures
        text_less(a, c),
    decreases a.len(),
{
    if a.len() > 0 && b.len() > 0 && c.len() > 0 && a[0] == b[0] && b[0] == c[0] {
        lemma_less_transitive(a.drop_first(), b.drop_first(), c.drop_first());
    }
}

/// Whether `a` sorts before `b`.
fn chars_less(a: &[char], b: &[char]) -> (r: bool)
    ensures
        r == text_less(a@, b@),
{
    let mut i: usize = 0;
    assert(a@.skip(0) =~= a@);
    assert(b@.skip(0) =~= b@);
    while i < a.len() && i < b.len()
        invariant
            i <= a@.len(),
            i <= b@.len(),
            text_less(a@, b@) == text_less(a@.skip(i as int), b@.skip(i as int)),
        decreases a@.len() - i,
    {
        let x = a[i];
        let y = b[i];
        assert(a@.skip(i as int)[0] == x);
        assert(b@.skip(i as int)[0] == y);
        if x != y {
            return x < y;
        }
        assert(a@.skip(i as int).drop_first() =~= a@.skip(i as int + 1));
        assert(b@.skip(i as int).drop_first() =~= b@.skip(i as int + 1));
        i = i + 1;
    }
    i == a.len() && i < b.len()
}

/// Whether text `a` sorts before text `b`.
pub fn str_less(a: &str, b: &str) -> (r: bool)
    ensures
        r == text_less(a@, b@),
{
    let x = str_chars(a);
    let y = str_chars(b);
    chars_less(x.as_slice(), y.as_slice())
}

/// The texts of a list of strings.
pub open spec fn texts(v: Seq<String>) -> Seq<Seq<char>> {
    v.map_values(|s: String| s@)
}

/// Each text sorts before every later one: sorted, with no repeats.
pub open spec fn sorted_texts(v: Seq<Seq<char>>) -> bool {
    forall|i: int, j: int| 0 <= i < j < v.len() ==> text_less(#[trigger] v[i], #[trigger] v[j])
}

/// Whether the list holds `name`.
pub fn contains_name(list: &[String], name: &str) -> (r: bool)
    ensures
        r == texts(list@).contains(name@),
{
    let mut i: usize = 0;
    while i < list.len()
        invariant
            i <= list@.len(),
            forall|j: int| 0 <= j < i ==> list@[j]@ != name@,
        decreases list@.len() - i,
    {
        if same_text(list[i].as_str(), name) {
            assert(texts(list@)[i as int] == name@);
            return true;
        }
        i = i + 1;
    }
    assert forall|t: Seq<char>| texts(list@).contains(t) implies t != name@ by {
        let j = choose|j: int| 0 <= j < texts(list@).len() && texts(list@)[j] == t;
        assert(list@[j]@ == t);
    }
    false
}

/// Inserts `name` into a sorted list unless it holds it already; says
/// whether it did. The list stays sorted and gains exactly `name`.
pub fn insert_sorted(list: &mut Vec<String>, name: String) -> (inserted: bool)
    requires
        sorted_texts(texts(old(list)@)),
    ensures
        inserted == !texts(old(list)@).contains(name@),
        !inserted ==> final(list)@ == old(list)@,
        sorted_texts(texts(final(list)@)),
        forall|t: Seq<char>|
            texts(final(list)@).contains(t) <==> (texts(old(list)@).contains(t) || t == name@),
        inserted ==> final(list)@.len() == old(list)@.len() + 1,
{
    let ghost old_v = texts(list@);
    let mut p: usize = 0;
    while p < list.len() && str_less(list[p].as_str(), name.as_str())
        invariant
            p <= list@.len(),
            texts(list@) == old_v,
            sorted_texts(old_v),
            forall|i: int| 0 <= i < p ==> text_less(#[trigger] old_v[i], name@),
        decreases list@.len() - p,
    {
        p = p + 1;
    }
    assert(old_v.len() == list@.len());
    if p < list.len() && same_text(list[p].as_str(), name.as_str()) {
        assert(old_v[p as int] == name@);
        assert(old_v.contains(name@));
        return false;
    }
    // `name` sorts before every text from `p` on.
    assert forall|j: int| p <= j < old_v.len() implies text_less(name@, #[trigger] old_v[j]) by {
        assert(!text_less(old_v[p as int], name@));
        assert(old_v[p as int] != name@);
        lemma_less_total(old_v[p as int], name@);
        if j > p {
            lemma_less_transitive(name@, old_v[p as int], old_v[j]);
        }
    }
    assert(!old_v.contains(name@)) by {
        if old_v.contains(name@) {
            let q = choose|q: int| 0 <= q < old_v.len() && old_v[q] == name@;
            if q < p {
                lemma_less_irreflexive(name@);
            } else {
                lemma_less_irreflexive(name@);
            }
        }
    }
    let ghost name_t = name@;
    list.insert(p, name);
    let ghost new_v = texts(list@);
    assert(new_v =~= old_v.insert(p as int, name_t));
    assert forall|i: int, j: int| 0 <= i < j < new_v.len() implies text_less(
        #[trigger] new_v[i],
        #[trigger] new_v[j],
    ) by {
        if j < p {
        } else if j == p {
        } else if i < p {
            lemma_less_transitive(old_v[i], name_t, old_v[j - 1]);
        } else if i == p {
        } else {
        }
    }
    assert forall|t: Seq<char>| new_v.contains(t) <==> (old_v.contains(t) || t == name_t) by {
        if new_v.contains(t) {
            let k = choose|k: int| 0 <= k < new_v.len() && new_v[k] == t;
            if k < p {
                assert(old_v[k] == t);
            } else if k > p {
                assert(old_v[k - 1] == t);
            }
        }
        if old_v.contains(t) {
            let k = choose|k: int| 0 <= k < old_v.len() && old_v[k] == t;
            if k < p {
                assert(new_v[k] == t);
            } else {
                assert(new_v[k + 1] == t);
            }
        }
        if t == name_t {
            assert(new_v[p as int] == t);
        }
    }
    true
}

// ---------------------------------------------------------------------------
// Collecting the tables
// ---------------------------------------------------------------------------

/// The tables of `required` that were not found: sorted, each once.
pub fn missing_tables(required: &[String], found: &[String]) -> (missing: Vec<String>)
    ensures
        sorted_texts(texts(missing@)),
        forall|t: Seq<char>|
            texts(missing@).contains(t) <==> (texts(required@).contains(t) && !texts(
                found@,
            ).contains(t)),
{
    let ghost req = texts(required@);
    let mut missing: Vec<String> = Vec::new();
    let mut i: usize = 0;
    assert forall|t: Seq<char>| !texts(missing@).contains(t) by {}
    while i < required.len()
        invariant
            i <= required@.len(),
            req == texts(required@),
            sorted_texts(texts(missing@)),
            forall|t: Seq<char>|
                texts(missing@).contains(t) <==> (req.take(i as int).contains(t) && !texts(
                    found@,
                ).contains(t)),
        decreases required@.len() - i,
    {
        let ghost x = required@[i as int]@;
        assert(req[i as int] == x);
        assert(req.take(i as int + 1) =~= req.take(i as int).push(x));
        assert forall|t: Seq<char>|
            req.take(i as int + 1).contains(t) <==> (req.take(i as int).contains(t) || t
                == x) by {
            let pre = req.take(i as int);
            if pre.push(x).contains(t) {
                let k = choose|k: int| 0 <= k < pre.push(x).len() && pre.push(x)[k] == t;
                if k < pre.len() {
                    assert(pre[k] == t);
                }
            }
            if pre.contains(t) {
                let k = choose|k: int| 0 <= k < pre.len() && pre[k] == t;
                assert(pre.push(x)[k] == t);
            }
            if t == x {
                assert(pre.push(x)[pre.len() as int] == t);
            }
        }
        if !contains_name(found, required[i].as_str()) {
            let name = required[i].clone();
            insert_sorted(&mut missing, name);
        }
        i = i + 1;
    }
    assert(req.take(required@.len() as int) =~= req);
    missing
}

/// Texts joined by `sep`.
pub open spec fn joined(v: Seq<Seq<char>>, sep: Seq<char>) -> Seq<char>
    decreases v.len(),
{
    if v.len() == 0 {
        Seq::empty()
    } else if v.len() == 1 {
        v[0]
    } else {
        joined(v.drop_last(), sep) + sep + v.last()
    }
}

/// Appends the texts joined by `sep`.
pub fn push_joined(s: &mut String, v: &[String], sep: &str)
    ensures
        final(s)@ == old(s)@ + joined(texts(v@), sep@),
{
    let ghost start = s@;
    let ghost all = texts(v@);
    let mut i: usize = 0;
    assert(all.take(0) =~= Seq::<Seq<char>>::empty());
    while i < v.len()
        invariant
            i <= v@.len(),
            all == texts(v@),
            s@ == start + joined(all.take(i as int), sep@),
        decreases v@.len() - i,
    {
        assert(all.take(i as int + 1).drop_last() =~= all.take(i as int));
        assert(all.take(i as int + 1).last() == v@[i as int]@);
        if i > 0 {
            push_str(s, sep);
        }
        push_str(s, v[i].as_str());
        proof {
            if i == 0 {
                assert(all.take(1) =~= seq![v@[0]@]);
            }
        }
        assert(s@ =~= start + joined(all.take(i as int + 1), sep@));
        i = i + 1;
    }
    assert(all.take(v@.len() as int) =~= all);
}

/// Why a JSON table was refused.
#[derive(Debug)]
pub enum TableError {
    /// A file name is not valid UTF-8.
    InvalidName,
    /// A table file does not hold an array.
    NotArray { path: String },
    /// A table file does not hold `[table name, rows]` for its table.
    BadShape { path: String, table: String },
    /// Two files hold the same table.
    Duplicate { table: String },
    /// Tables that must be generated were not found (sorted).
    Missing { tables: Vec<String> },
    /// A table file is not JSON.
    Unparsable { path: String },
}

/// The message of a refused table.
pub open spec fn table_error_text(e: TableError) -> Seq<char> {
    match e {
        TableError::InvalidName => "Invalid filename"@,
        TableError::NotArray { path } => path@ + " must contain [table name, rows]"@,
        TableError::BadShape { path, table } => path@ + " must contain [table name, rows] for "@
            + table@,
        TableError::Duplicate { table } => "duplicate configured JSON table: "@ + table@,
        TableError::Missing { tables } => "missing configured JSON tables: "@ + joined(
            texts(tables@),
            ", "@,
        ),
        TableError::Unparsable { path } => "failed to parse "@ + path@,
    }
}

impl TableError {
    /// The message of the error.
    pub fn message(&self) -> (m: String)
        ensures
            m@ == table_error_text(*self),
    {
        match self {
            TableError::InvalidName => String::from_str("Invalid filename"),
            TableError::NotArray { path } => {
                let mut m = path.clone();
                push_str(&mut m, " must contain [table name, rows]");
                m
            },
            TableError::BadShape { path, table } => {
                let mut m = path.clone();
                push_str(&mut m, " must contain [table name, rows] for ");
                push_str(&mut m, table.as_str());
                m
            },
            TableError::Duplicate { table } => {
                let mut m = String::from_str("duplicate configured JSON table: ");
                push_str(&mut m, table.as_str());
                m
            },
            TableError::Missing { tables } => {
                let mut m = String::from_str("missing configured JSON tables: ");
                push_joined(&mut m, tables.as_slice(), ", ");
                m
            },
            TableError::Unparsable { path } => {
                let mut m = String::from_str("failed to parse ");
                push_str(&mut m, path.as_str());
                m
            },
        }
    }
}

/// What to do with an entry of the JSON directory.
#[derive(Clone, Copy, Debug, PartialEq, Eq, Structural)]
pub enum EntryAction {
    /// Not a configured JSON table file.
    Skip,
    /// A JSON file whose name is not valid UTF-8.
    InvalidName,
    /// A configured table: read it.
    Load,
}

/// The text of an optional string.
pub open spec fn opt_text(o: Option<&str>) -> Option<Seq<char>> {
    match o {
        Some(s) => Some(s@),
        None => None,
    }
}

/// Only files with the `json` extension whose name (without it) is a
/// configured table are read; such a file whose name is not valid UTF-8 is
/// an error.
pub open spec fn entry_action(
    is_file: bool,
    extension: Option<Seq<char>>,
    stem: Option<Seq<char>>,
    filter: Seq<Seq<char>>,
) -> EntryAction {
    if !is_file || extension != Some("json"@) {
        EntryAction::Skip
    } else {
        match stem {
            None => EntryAction::InvalidName,
            Some(name) => if filter.contains(name) {
                EntryAction::Load
            } else {
                EntryAction::Skip
            },
        }
    }
}

/// Decides what to do with a directory entry: whether it is a file, its
/// extension and its name without it (each when valid UTF-8).
pub fn classify_entry(
    is_file: bool,
    extension: Option<&str>,
    stem: Option<&str>,
    filter: &[String],
) -> (a: EntryAction)
    ensures
        a == entry_action(is_file, opt_text(extension), opt_text(stem), texts(filter@)),
{
    if !is_file {
        return EntryAction::Skip;
    }
    let is_json = match extension {
        Some(e) => same_text(e, "json"),
        None => false,
    };
    proof {
        reveal_strlit("json");
    }
    if !is_json {
        return EntryAction::Skip;
    }
    match stem {
        None => EntryAction::InvalidName,
        Some(name) => if contains_name(filter, name) {
            EntryAction::Load
        } else {
            EntryAction::Skip
        },
    }
}

/// The shape of a table file's JSON, as far as it is checked: an array, its
/// length, its first element when a string, and whether its second element
/// is an array.
#[derive(Debug)]
pub enum TablePayload {
    NotArray,
    Array { len: usize, name: Option<String>, rows_are_array: bool },
}

/// The contents of a [`TablePayload`].
pub enum TablePayloadView {
    NotArray,
    Array { len: usize, name: Option<Seq<char>>, rows_are_array: bool },
}

impl View for TablePayload {
    type V = TablePayloadView;

    open spec fn view(&self) -> TablePayloadView {
        match self {
            TablePayload::NotArray => TablePayloadView::NotArray,
            TablePayload::Array { len, name, rows_are_array } => TablePayloadView::Array {
                len: *len,
                name: match name {
                    Some(n) => Some(n@),
                    None => None,
                },
                rows_are_array: *rows_are_array,
            },
        }
    }
}

/// A table file holds `[table name, rows]`.
pub open spec fn payload_fits(raw: Seq<char>, p: TablePayloadView) -> bool {
    match p {
        TablePayloadView::NotArray => false,
        TablePayloadView::Array { len, name, rows_are_array } => len == 2 && name == Some(raw)
            && rows_are_array,
    }
}

/// Checks that table file `path` of table `raw` holds `[table name, rows]`.
pub fn check_payload(path: &str, raw: &str, payload: &TablePayload) -> (r: Result<(), TableError>)
    ensures
        payload_fits(raw@, payload@) ==> r is Ok,
        payload is NotArray ==> (r matches Err(TableError::NotArray { path: p }) && p@ == path@),
        payload is Array && !payload_fits(raw@, payload@) ==> (r matches Err(
            TableError::BadShape { path: p, table },
        ) && p@ == path@ && table@ == raw@),
{
    match payload {
        TablePayload::NotArray => Err(TableError::NotArray { path: path.to_string() }),
        TablePayload::Array { len, name, rows_are_array } => {
            let name_fits = match name {
                Some(n) => same_text(n.as_str(), raw),
                None => false,
            };
            if *len != 2 || !name_fits || !*rows_are_array {
                return Err(
                    TableError::BadShape { path: path.to_string(), table: raw.to_string() },
                );
            }
            Ok(())
        },
    }
}

/// Records table `name` among the tables read so far, which stay sorted; a
/// table read twice is refused.
pub fn record_table(tables: &mut Vec<String>, name: &str) -> (r: Result<(), TableError>)
    requires
        sorted_texts(texts(old(tables)@)),
    ensures
        sorted_texts(texts(final(tables)@)),
        texts(old(tables)@).contains(name@) ==> (r matches Err(TableError::Duplicate { table })
            && table@ == name@ && final(tables)@ == old(tables)@),
        !texts(old(tables)@).contains(name@) ==> r is Ok && forall|t: Seq<char>|
            texts(final(tables)@).contains(t) <==> (texts(old(tables)@).contains(t) || t
                == name@),
{
    if insert_sorted(tables, name.to_string()) {
        Ok(())
    } else {
        Err(TableError::Duplicate { table: name.to_string() })
    }
}

/// What `serde_json` reads from a table file's text, when it is JSON: the
/// shape that the checks read, and the JSON text of each row when the second
/// element is an array.
pub uninterp spec fn json_table_of(text: Seq<char>) -> Option<(TablePayloadView, Seq<Seq<char>>)>;

/// Parses a table file with `serde_json` into a `Value`, and reads from it
/// whether it is an array, its length, its first element when a string,
/// whether its second element is an array, and the JSON text of that
/// array's elements (none otherwise). `None` when the text is not JSON.
#[verifier::external_body]
pub fn parse_table_json(text: &str) -> (r: Option<(TablePayload, Vec<String>)>)
    ensures
        match r {
            None => json_table_of(text@) is None,
            Some((p, rows)) => json_table_of(text@) == Some((p@, texts(rows@))),
        },
{
    let data: serde_json::Value = serde_json::from_str(text).ok()?;
    let rows = data.get(1).and_then(|v| v.as_array()).map(|a| a.iter().map(|v| v.to_string()).collect());
    let payload = match data.as_array() {
        None => TablePayload::NotArray,
        Some(a) => TablePayload::Array {
            len: a.len(),
            name: a.first().and_then(|v| v.as_str()).map(|n| n.to_string()),
            rows_are_array: rows.is_some(),
        },
    };
    Some((payload, rows.unwrap_or_default()))
}

/// Reads table file `path` of table `raw` from its text: it must be JSON
/// holding `[table name, rows]`; gives the JSON text of the rows.
pub fn load_table(path: &str, raw: &str, text: &str) -> (r: Result<Vec<String>, TableError>)
    ensures
        match json_table_of(text@) {
            None => r matches Err(TableError::Unparsable { path: p }) && p@ == path@,
            Some((payload, rows)) => {
                &&& payload_fits(raw@, payload) ==> (r matches Ok(rs) && texts(rs@) == rows)
                &&& payload is NotArray ==> (r matches Err(TableError::NotArray { path: p })
                    && p@ == path@)
                &&& payload is Array && !payload_fits(raw@, payload) ==> (r matches Err(
                    TableError::BadShape { path: p, table },
                ) && p@ == path@ && table@ == raw@)
            },
        },
{
    match parse_table_json(text) {
        None => Err(TableError::Unparsable { path: path.to_string() }),
        Some((payload, rows)) => match check_payload(path, raw, &payload) {
            Ok(()) => Ok(rows),
            Err(e) => Err(e),
        },
    }
}

} // verus!
