//! The device's property table, read from the `[key]: [value]` lines of the
//! property dump.
use crate::errors::{PropertiesErrors, Response};
use crate::text::{piece_to_string, split_on, split_ranges};
use vstd::prelude::*;
use vstd::string::{StringExecFns, StringSliceAdditionalSpecFns};
use vstd::utf8::*;

verus! {

/// Where the closing `]` of a property line stands: last, or just before a
/// final carriage return; -1 when the line ends otherwise.
pub open spec fn closing_end(l: Seq<u8>) -> int {
    if l.len() >= 1 && l.last() == 0x5D {
        l.len() - 1
    } else if l.len() >= 2 && l[l.len() - 2] == 0x5D && l.last() == 0x0D {
        l.len() - 2
    } else {
        -1
    }
}

/// `]: [` stands at `k`.
pub open spec fn separator_at(l: Seq<u8>, k: int) -> bool {
    &&& 0 <= k
    &&& k + 4 <= l.len()
    &&& l[k] == 0x5D
    &&& l[k + 1] == 0x3A
    &&& l[k + 2] == 0x20
    &&& l[k + 3] == 0x5B
}

/// The first `]: [` at or after `j`, or -1.
pub open spec fn first_separator(l: Seq<u8>, j: int) -> int
    decreases l.len() - j,
{
    if j < 0 || j + 4 > l.len() {
        -1
    } else if separator_at(l, j) {
        j
    } else {
        first_separator(l, j + 1)
    }
}

proof fn lemma_first_separator(l: Seq<u8>, j: int)
    ensures
        first_separator(l, j) == -1 || (j <= first_separator(l, j) && separator_at(
            l,
            first_separator(l, j),
        )),
    decreases l.len() - j,
{
    if !(j < 0 || j + 4 > l.len()) && !separator_at(l, j) {
        lemma_first_separator(l, j + 1);
    }
}

/// The key and value of a property line `[key]: [value]`, with an optional
/// final carriage return; the key ends at the first `]: [`.
pub open spec fn property_of(l: Seq<u8>) -> Option<(Seq<u8>, Seq<u8>)> {
    let e = closing_end(l);
    let k = first_separator(l, 1);
    if l.len() > 0 && l[0] == 0x5B && k >= 1 && k + 4 <= e {
        Some((l.subrange(1, k), l.subrange(k + 4, e)))
    } else {
        None
    }
}

/// The table that the property lines give, a later line winning over an
/// earlier one with the same key; other lines are skipped.
pub open spec fn table_of(lines: Seq<Seq<u8>>) -> Map<Seq<char>, Seq<char>>
    decreases lines.len(),
{
    if lines.len() == 0 {
        Map::empty()
    } else {
        let m = table_of(lines.drop_last());
        match property_of(lines.last()) {
            Some((k, v)) => m.insert(decode_utf8(k), decode_utf8(v)),
            None => m,
        }
    }
}

/// The map that a list of entries gives, a later entry winning.
pub open spec fn map_of(entries: Seq<(String, String)>) -> Map<Seq<char>, Seq<char>>
    decreases entries.len(),
{
    if entries.len() == 0 {
        Map::empty()
    } else {
        map_of(entries.drop_last()).insert(entries.last().0@, entries.last().1@)
    }
}

/// Property names and values.
#[derive(Debug)]
pub struct PropertyTable {
    entries: Vec<(String, String)>,
}

impl View for PropertyTable {
    type V = Map<Seq<char>, Seq<char>>;

    closed spec fn view(&self) -> Map<Seq<char>, Seq<char>> {
        map_of(self.entries@)
    }
}

impl PropertyTable {
    /// An empty table.
    pub fn new() -> (r: PropertyTable)
        ensures
            r@ == Map::<Seq<char>, Seq<char>>::empty(),
    {
        PropertyTable { entries: Vec::new() }
    }

    /// Sets `key` to `value`, replacing any earlier value.
    pub fn insert(&mut self, key: String, value: String)
        ensures
            final(self)@ == old(self)@.insert(key@, value@),
    {
        let ghost before = self.entries@;
        self.entries.push((key, value));
        proof {
            assert(self.entries@.drop_last() =~= before);
        }
    }

    /// The value of `key`, if the table has it.
    pub fn get(&self, key: &str) -> (r: Option<String>)
        ensures
            r is Some == self@.contains_key(key@),
            r is Some ==> r.unwrap()@ == self@[key@],
    {
        let wanted = String::from_str(key);
        let ghost e = self.entries@;
        let mut i: usize = self.entries.len();
        assert(e.subrange(0, i as int) =~= e);
        while i > 0
            invariant
                e == self.entries@,
                wanted@ == key@,
                i <= e.len(),
                map_of(e.subrange(0, i as int)).contains_key(key@) == map_of(e).contains_key(key@),
                map_of(e).contains_key(key@) ==> map_of(e.subrange(0, i as int))[key@] == map_of(
                    e,
                )[key@],
            decreases i,
        {
            let ghost pre = e.subrange(0, i as int);
            assert(pre.drop_last() =~= e.subrange(0, i - 1));
            if self.entries[i - 1].0 == wanted {
                return Some(self.entries[i - 1].1.clone());
            }
            i = i - 1;
        }
        None
    }

    /// The entries, in an order in which inserting them again gives this
    /// table.
    pub fn into_pairs(self) -> (r: Vec<(String, String)>)
        ensures
            map_of(r@) == self@,
    {
        self.entries
    }
}

fn byte_is(b: &[u8], i: usize, v: u8) -> (r: bool)
    ensures
        r == (i < b@.len() && b@[i as int] == v),
{
    i < b.len() && b[i] == v
}

/// The closing `]` of the line `b[s..e]`, as an index into `b`.
fn find_closing(b: &[u8], s: usize, e: usize) -> (r: Option<usize>)
    requires
        s <= e <= b@.len(),
    ensures
        closing_end(b@.subrange(s as int, e as int)) >= 0 <==> r is Some,
        r is Some ==> r.unwrap() == s + closing_end(b@.subrange(s as int, e as int)),
{
    let ghost l = b@.subrange(s as int, e as int);
    if e > s && b[e - 1] == 0x5D {
        assert(l.last() == b@[e - 1]);
        Some(e - 1)
    } else if e - s >= 2 && b[e - 2] == 0x5D && b[e - 1] == 0x0D {
        assert(l.last() == b@[e - 1] && l[l.len() - 2] == b@[e - 2]);
        Some(e - 2)
    } else {
        if e > s {
            assert(l.last() == b@[e - 1]);
        }
        if e - s >= 2 {
            assert(l[l.len() - 2] == b@[e - 2]);
        }
        None
    }
}

/// The first `]: [` in the line `b[s..e]` after its first byte, as an index
/// into `b`.
fn find_separator(b: &[u8], s: usize, e: usize) -> (r: Option<usize>)
    requires
        s <= e <= b@.len(),
    ensures
        first_separator(b@.subrange(s as int, e as int), 1) >= 0 <==> r is Some,
        r is Some ==> r.unwrap() == s + first_separator(b@.subrange(s as int, e as int), 1),
{
    let ghost l = b@.subrange(s as int, e as int);
    if s >= e {
        return None;
    }
    let mut j: usize = s + 1;
    while j < e && e - j >= 4
        invariant
            s < j,
            s <= e <= b@.len(),
            l == b@.subrange(s as int, e as int),
            first_separator(l, 1) == first_separator(l, j - s),
        decreases e - j,
    {
        let found = byte_is(b, j, 0x5D) && byte_is(b, j + 1, 0x3A) && byte_is(b, j + 2, 0x20)
            && byte_is(b, j + 3, 0x5B);
        assert(l[j - s] == b@[j as int] && l[j - s + 1] == b@[j + 1] && l[j - s + 2] == b@[j + 2]
            && l[j - s + 3] == b@[j + 3]);
        if found {
            return Some(j);
        }
        j = j + 1;
    }
    None
}

/// Reads the property dump: every line of the form `[key]: [value]`, with an
/// optional final carriage return, sets `key` to `value`; other lines are
/// skipped.
pub fn parse_properties(text: &str) -> (r: PropertyTable)
    ensures
        r@ == table_of(split_on(text.spec_bytes(), 0x0A)),
{
    let b = text.as_bytes();
    proof {
        encode_utf8_valid_utf8(text@);
    }
    let ghost lines = split_on(b@, 0x0A);
    let ranges = split_ranges(b, 0x0A, 0, b.len());
    assert(b@.subrange(0, b@.len() as int) =~= b@);
    let mut table = PropertyTable::new();
    let mut k: usize = 0;
    while k < ranges.len()
        invariant
            b@ == text.spec_bytes(),
            valid_utf8(b@),
            lines == split_on(b@, 0x0A),
            ranges@.len() == lines.len(),
            forall|j: int|
                0 <= j < ranges@.len() ==> {
                    &&& 0 <= #[trigger] ranges@[j].0 <= ranges@[j].1 <= b@.len()
                    &&& b@.subrange(ranges@[j].0 as int, ranges@[j].1 as int) == lines[j]
                },
            k <= ranges@.len(),
            table@ == table_of(lines.subrange(0, k as int)),
        decreases ranges@.len() - k,
    {
        let (s, e) = ranges[k];
        let ghost l = lines[k as int];
        let ghost after = lines.subrange(0, k + 1);
        assert(after.drop_last() =~= lines.subrange(0, k as int));
        assert(after.last() == l);
        assert(l == b@.subrange(s as int, e as int));
        if byte_is(b, s, 0x5B) && s < e {
            assert(l[0] == b@[s as int]);
            match (find_closing(b, s, e), find_separator(b, s, e)) {
                (Some(c), Some(m)) => {
                    proof {
                        lemma_first_separator(l, 1);
                    }
                    if m < c && c - m >= 4 {
                        assert(l[m - s] == b@[m as int] && l[m - s + 3] == b@[m + 3]);
                        assert(l[c - s] == b@[c as int]);
                        let key = piece_to_string(b, s + 1, m);
                        let value = piece_to_string(b, m + 4, c);
                        assert(l.subrange(1, m - s) =~= b@.subrange(s + 1, m as int));
                        assert(l.subrange(m - s + 4, c - s) =~= b@.subrange(m + 4, c as int));
                        table.insert(key, value);
                    }
                },
                _ => {},
            }
        } else {
            if s < e {
                assert(l[0] == b@[s as int]);
            }
        }
        k = k + 1;
    }
    assert(lines.subrange(0, k as int) =~= lines);
    table
}

/// The property table in a reply to the property dump: an `Okay` reply is
/// parsed; `Fail` or `Unknown` is a `ResponseError` carrying the reply's
/// text.
pub fn properties_from_response(resp: Response) -> (r: Result<PropertyTable, PropertiesErrors>)
    ensures
        resp matches Response::Okay(s) ==> (r matches Ok(t) && t@ == table_of(
            split_on(encode_utf8(s@), 0x0A),
        )),
        resp matches Response::Fail(s) ==> (r matches Err(PropertiesErrors::ResponseError(e)) && e
            == s),
        resp matches Response::Unknown(s) ==> (r matches Err(PropertiesErrors::ResponseError(e))
            && e == s),
{
    match resp {
        Response::Okay(s) => Ok(parse_properties(s.as_str())),
        Response::Fail(s) => Err(PropertiesErrors::ResponseError(s)),
        Response::Unknown(s) => Err(PropertiesErrors::ResponseError(s)),
    }
}

} // verus!
