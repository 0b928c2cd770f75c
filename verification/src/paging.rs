//! The paging store: where the segments of the tape rest while another one
//! is loaded.
//!
//! A store keeps records, the raw bytes of a segment, each under the name
//! of its segment: the decimal numeral of the segment's identity followed by
//! `mem.txt`. Loading an identity that has no record is no error: it yields
//! a fresh segment of zeros, which is how new segments come into being.
//! Records stay until the store is purged, so the pointer can cross a
//! boundary back and forth without losing a cell.
//!
//! [`PagingStore`] keeps its records in memory. A host that keeps them
//! elsewhere names them with [`record_key`], writes what
//! [`encode_segment`] gives and hands what it reads to [`materialize`].

use vstd::hash_map::StringHashMap;
use vstd::prelude::*;
use vstd::string::StringExecFns;
use crate::tape::{fresh_segment, zeroed};

verus! {

/// The character of one decimal digit.
pub open spec fn digit_char(digit: nat) -> char {
    if digit == 0 {
        '0'
    } else if digit == 1 {
        '1'
    } else if digit == 2 {
        '2'
    } else if digit == 3 {
        '3'
    } else if digit == 4 {
        '4'
    } else if digit == 5 {
        '5'
    } else if digit == 6 {
        '6'
    } else if digit == 7 {
        '7'
    } else if digit == 8 {
        '8'
    } else {
        '9'
    }
}

/// The decimal numeral of `n`, without leading zeros.
pub open spec fn decimal(n: nat) -> Seq<char>
    decreases n,
{
    if n < 10 {
        seq![digit_char(n)]
    } else {
        decimal(n / 10).push(digit_char(n % 10))
    }
}

/// What follows the numeral in the name of a record.
pub open spec fn record_suffix() -> Seq<char> {
    seq!['m', 'e', 'm', '.', 't', 'x', 't']
}

/// The name under which the segment `identity` is persisted: its decimal
/// numeral followed by `mem.txt`.
pub open spec fn record_name(identity: u128) -> Seq<char> {
    decimal(identity as nat) + record_suffix()
}

/// The segment that a lookup materialises: the record if there is one, and
/// a fresh segment of zeros if there is none.
pub open spec fn materialized(record: Option<Seq<u8>>, window: usize) -> Seq<u8> {
    match record {
        Some(bytes) => bytes,
        None => zeroed(window),
    }
}

/// What a store with the records `records`, by name, loads for `identity`.
pub open spec fn loaded(records: Map<Seq<char>, Seq<u8>>, identity: u128, window: usize) -> Seq<
    u8,
> {
    materialized(
        if records.contains_key(record_name(identity)) {
            Some(records[record_name(identity)])
        } else {
            None
        },
        window,
    )
}

/// Wraps the cells with `serde_bytes::Bytes::new` and copies out what the
/// wrapper reads as.
///
/// Taken on trust, not proved: `Bytes::new` reinterprets the slice it is
/// given without copying or changing it, and a `Bytes` dereferences to the
/// slice it wraps. So the record holds the segment's cells, byte for byte.
#[verifier::external_body]
fn wrapped_bytes(segment: &Vec<u8>) -> (record: Vec<u8>)
    ensures
        record@ == segment@,
{
    serde_bytes::Bytes::new(segment.as_slice()).to_vec()
}

/// Serialises a segment into the record that is persisted for it.
pub fn encode_segment(segment: &Vec<u8>) -> (record: Vec<u8>)
    ensures
        record@ == segment@,
{
    wrapped_bytes(segment)
}

/// Turns the outcome of a lookup into a segment: the record's bytes where a
/// record was found, `window` cells of zero where none was.
pub fn materialize(record: Option<Vec<u8>>, window: usize) -> (segment: Vec<u8>)
    ensures
        segment@ == materialized(
            match record {
                Some(bytes) => Some(bytes@),
                None => None,
            },
            window,
        ),
{
    match record {
        Some(bytes) => bytes,
        None => fresh_segment(window),
    }
}

/// The text of one decimal digit.
fn digit_text(digit: u8) -> (text: &'static str)
    requires
        digit < 10,
    ensures
        text@ == seq![digit_char(digit as nat)],
{
    proof {
        reveal_strlit("0");
        reveal_strlit("1");
        reveal_strlit("2");
        reveal_strlit("3");
        reveal_strlit("4");
        reveal_strlit("5");
        reveal_strlit("6");
        reveal_strlit("7");
        reveal_strlit("8");
        reveal_strlit("9");
    }
    let text = if digit == 0 {
        "0"
    } else if digit == 1 {
        "1"
    } else if digit == 2 {
        "2"
    } else if digit == 3 {
        "3"
    } else if digit == 4 {
        "4"
    } else if digit == 5 {
        "5"
    } else if digit == 6 {
        "6"
    } else if digit == 7 {
        "7"
    } else if digit == 8 {
        "8"
    } else {
        "9"
    };
    assert(text@ =~= seq![digit_char(digit as nat)]);
    text
}

/// The digits `low`, least significant first, written as a numeral.
spec fn numeral_of(low: Seq<u8>) -> Seq<char> {
    Seq::new(low.len(), |i: int| digit_char(low[low.len() - 1 - i] as nat))
}

/// The name under which a host persists the segment `identity`.
pub fn record_key(identity: u128) -> (key: String)
    ensures
        key@ == record_name(identity),
{
    let mut low: Vec<u8> = Vec::new();
    let mut rest: u128 = identity;
    while rest >= 10
        invariant
            decimal(identity as nat) == decimal(rest as nat) + numeral_of(low@),
            forall|i: int| 0 <= i < low@.len() ==> low@[i] < 10,
        decreases rest,
    {
        let ghost before = low@;
        low.push((rest % 10) as u8);
        proof {
            assert(numeral_of(low@) =~= seq![digit_char((rest % 10) as nat)] + numeral_of(
                before,
            ));
            assert(decimal(rest as nat) =~= decimal((rest / 10) as nat) + seq![
                digit_char((rest % 10) as nat),
            ]);
            assert(decimal((rest / 10) as nat) + numeral_of(low@) =~= decimal(rest as nat)
                + numeral_of(before));
        }
        rest = rest / 10;
    }
    proof {
        let before = low@;
        assert(numeral_of(before.push(rest as u8)) =~= decimal(rest as nat) + numeral_of(before));
    }
    low.push(rest as u8);
    let mut key = String::new();
    let mut remaining: usize = low.len();
    while remaining > 0
        invariant
            remaining <= low@.len(),
            forall|i: int| 0 <= i < low@.len() ==> low@[i] < 10,
            key@ == numeral_of(low@).take(low@.len() - remaining),
        decreases remaining,
    {
        remaining = remaining - 1;
        key.append(digit_text(low[remaining]));
        assert(key@ =~= numeral_of(low@).take(low@.len() - remaining));
    }
    assert(key@ =~= decimal(identity as nat));
    proof {
        reveal_strlit("mem.txt");
        assert("mem.txt"@ =~= record_suffix());
    }
    key.append("mem.txt");
    key
}

/// A paging store that keeps its records in memory.
pub struct PagingStore {
    window: usize,
    records: StringHashMap<Vec<u8>>,
}

impl View for PagingStore {
    type V = Map<Seq<char>, Seq<u8>>;

    /// The records, by name.
    closed spec fn view(&self) -> Map<Seq<char>, Seq<u8>> {
        self.records@.map_values(|record: Vec<u8>| record@)
    }
}

impl PagingStore {
    /// The length of the segments that the store creates.
    pub closed spec fn window_size(&self) -> usize {
        self.window
    }

    /// A store without records, for segments of `window` cells.
    pub fn new(window: usize) -> (store: PagingStore)
        ensures
            store@ == Map::<Seq<char>, Seq<u8>>::empty(),
            store.window_size() == window,
    {
        let store = PagingStore { window, records: StringHashMap::new() };
        assert(store@ =~= Map::<Seq<char>, Seq<u8>>::empty());
        store
    }

    /// The length of the segments that the store creates.
    pub fn window(&self) -> (window: usize)
        ensures
            window == self.window_size(),
    {
        self.window
    }

    /// Whether a record is kept for `identity`.
    pub fn holds(&self, identity: u128) -> (held: bool)
        ensures
            held == self@.contains_key(record_name(identity)),
    {
        let key = record_key(identity);
        self.records.contains_key(key.as_str())
    }

    /// Persists `segment` under the name of `identity`, in place of any
    /// earlier record of that name. No other record changes.
    pub fn archive(&mut self, identity: u128, segment: &Vec<u8>)
        ensures
            final(self)@ == old(self)@.insert(record_name(identity), segment@),
            final(self).window_size() == old(self).window_size(),
    {
        let record = encode_segment(segment);
        self.records.insert(record_key(identity), record);
        assert(self@ =~= old(self)@.insert(record_name(identity), segment@));
    }

    /// Materialises the segment `identity`: its record if one is kept, a
    /// fresh segment of zeros if not. The store itself does not change.
    pub fn load(&self, identity: u128) -> (segment: Vec<u8>)
        ensures
            segment@ == loaded(self@, identity, self.window_size()),
    {
        let key = record_key(identity);
        let record = match self.records.get(key.as_str()) {
            Some(bytes) => Some(bytes.clone()),
            None => None,
        };
        materialize(record, self.window)
    }

    /// Drops every record, as is due at the end of a run.
    pub fn purge(&mut self)
        ensures
            final(self)@ == Map::<Seq<char>, Seq<u8>>::empty(),
            final(self).window_size() == old(self).window_size(),
    {
        self.records.clear();
        assert(self@ =~= Map::<Seq<char>, Seq<u8>>::empty());
    }
}

/// A numeral has at least one digit, and two from ten on.
pub proof fn lemma_decimal_len(n: nat)
    ensures
        decimal(n).len() >= 1,
        n >= 10 ==> decimal(n).len() >= 2,
    decreases n,
{
    if n >= 10 {
        lemma_decimal_len(n / 10);
    }
}

/// Different numbers have different numerals.
pub proof fn lemma_decimal_injective(a: nat, b: nat)
    requires
        decimal(a) == decimal(b),
    ensures
        a == b,
    decreases a,
{
    lemma_decimal_len(a);
    lemma_decimal_len(b);
    if a < 10 {
        assert(decimal(a)[0] == digit_char(a));
        assert(decimal(b)[0] == digit_char(b));
    } else {
        let front_a = decimal(a / 10);
        let front_b = decimal(b / 10);
        assert(decimal(a).last() == digit_char(a % 10));
        assert(decimal(b).last() == digit_char(b % 10));
        assert(decimal(a).drop_last() =~= front_a);
        assert(decimal(b).drop_last() =~= front_b);
        lemma_decimal_injective(a / 10, b / 10);
    }
}

/// Different segments are persisted under different names.
pub proof fn law_record_names_differ(a: u128, b: u128)
    requires
        a != b,
    ensures
        record_name(a) != record_name(b),
{
    let da = decimal(a as nat);
    let db = decimal(b as nat);
    if record_name(a) == record_name(b) {
        assert(record_name(a).len() == da.len() + 7);
        assert(record_name(b).len() == db.len() + 7);
        assert(record_name(a).take(da.len() as int) =~= da);
        assert(record_name(b).take(db.len() as int) =~= db);
        lemma_decimal_injective(a as nat, b as nat);
    }
}

/// A record outlasts the archiving of other segments: what was archived
/// for an identity is what a later load of that identity returns.
pub proof fn law_archive_then_load(
    records: Map<Seq<char>, Seq<u8>>,
    identity: u128,
    segment: Seq<u8>,
    other: u128,
    other_segment: Seq<u8>,
    window: usize,
)
    ensures
        loaded(records.insert(record_name(identity), segment), identity, window) == segment,
        other != identity ==> loaded(
            records.insert(record_name(identity), segment).insert(
                record_name(other),
                other_segment,
            ),
            identity,
            window,
        ) == segment,
        other != identity ==> loaded(
            records.insert(record_name(other), other_segment),
            identity,
            window,
        ) == loaded(records, identity, window),
{
    if other != identity {
        law_record_names_differ(other, identity);
    }
}

/// Loading an identity that was never archived yields a segment of
/// `window` zeros.
pub proof fn law_load_creates(records: Map<Seq<char>, Seq<u8>>, identity: u128, window: usize)
    requires
        !records.contains_key(record_name(identity)),
    ensures
        loaded(records, identity, window) == zeroed(window),
        loaded(records, identity, window).len() == window,
        forall|i: int| 0 <= i < window ==> loaded(records, identity, window)[i] == 0,
{
}

} // verus!
